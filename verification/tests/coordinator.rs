use tbl_core::coordinator::{Coordinator, TaskState};
use tbl_core::error::TblError;

fn io(text: &str) -> TblError {
    TblError::IOError(text.to_string())
}

#[test]
fn a_bound_of_zero_is_refused() {
    assert_eq!(
        Coordinator::new(0, 3).unwrap_err(),
        TblError::ArgumentError("max concurrent must be at least 1".to_string())
    );
}

#[test]
fn permits_are_bounded() {
    let mut c = Coordinator::new(2, 5).unwrap();
    assert_eq!((c.limit(), c.n_tasks(), c.running(), c.is_closed()), (2, 5, 0, false));
    assert_eq!(c.acquire(), Ok(Some(0)));
    assert_eq!(c.acquire(), Ok(Some(1)));
    assert_eq!(c.acquire(), Ok(None));
    assert_eq!(c.running(), 2);
    assert!(c.release(0, Ok(())));
    assert_eq!(c.running(), 1);
    assert_eq!(c.acquire(), Ok(Some(2)));
    assert_eq!(c.acquire(), Ok(None));
    assert!(matches!(c.state_of(0), Some(TaskState::Succeeded)));
    assert!(matches!(c.state_of(1), Some(TaskState::Running)));
    assert!(matches!(c.state_of(3), Some(TaskState::Pending)));
    assert!(c.state_of(5).is_none());
}

#[test]
fn only_running_tasks_give_a_permit_back() {
    let mut c = Coordinator::new(1, 2).unwrap();
    assert!(!c.release(0, Ok(())));
    assert!(!c.release(7, Ok(())));
    assert_eq!(c.acquire(), Ok(Some(0)));
    assert!(c.release(0, Err(io("x"))));
    assert!(!c.release(0, Ok(())));
    assert_eq!(c.running(), 0);
    assert!(matches!(c.state_of(0), Some(TaskState::Failed(_))));
}

#[test]
fn overall_success_needs_every_task() {
    let mut c = Coordinator::new(3, 3).unwrap();
    assert!(!c.is_finished());
    assert_eq!(c.outcome(), Err(TblError::ConcurrencyError("tasks have not ended".to_string())));
    for _ in 0..3 {
        c.acquire().unwrap();
    }
    assert_eq!(c.acquire(), Ok(None));
    assert!(c.release(2, Err(io("late"))));
    assert!(c.release(0, Ok(())));
    assert!(!c.is_finished());
    assert!(c.release(1, Err(io("early"))));
    assert!(c.is_finished());
    assert_eq!(c.outcome(), Err(io("early")));
    assert_eq!(c.failures(), vec![1, 2]);

    let mut c = Coordinator::new(1, 2).unwrap();
    for task in 0..2 {
        assert_eq!(c.acquire(), Ok(Some(task)));
        assert!(c.release(task, Ok(())));
    }
    assert_eq!(c.outcome(), Ok(()));
    assert_eq!(c.failures(), Vec::<usize>::new());
    assert_eq!(Coordinator::new(4, 0).unwrap().outcome(), Ok(()));
}

#[test]
fn a_closed_coordinator_hands_out_nothing() {
    let mut c = Coordinator::new(2, 2).unwrap();
    assert_eq!(c.acquire(), Ok(Some(0)));
    c.close();
    assert!(c.is_closed());
    assert_eq!(c.acquire(), Err(TblError::ConcurrencyError("coordinator is closed".to_string())));
    assert!(c.release(0, Ok(())));
    assert_eq!(c.outcome(), Err(TblError::ConcurrencyError("tasks have not ended".to_string())));
}
