use tbl_core::error::{ErrorKind, TblError};
use tbl_core::lifecycle::{confirm_merge, originals_to_delete, Action, Event, FileTask, Phase};
use tbl_core::merge::{
    count_rows, describe_schema, find_divergent_schema, merge_parquets, report_mismatch, TabularFile,
};
use tbl_core::schema::{DataType, Field, Schema};

fn s(text: &str) -> String {
    text.to_string()
}

fn schema(fields: Vec<(&str, DataType)>) -> Schema {
    Schema::new(fields.into_iter().map(|(n, t)| Field::new(s(n), t)).collect())
}

fn ab() -> Schema {
    schema(vec![("a", DataType::Int64), ("b", DataType::Utf8)])
}

fn tabular(path: &str, schema: Schema, n_rows: u64) -> TabularFile {
    TabularFile { path: s(path), n_bytes: 1024, schema, n_rows }
}

#[test]
fn schemas_are_described_field_by_field() {
    assert_eq!(describe_schema(&ab()), "a: Int64, b: Utf8");
    assert_eq!(describe_schema(&schema(vec![("x", DataType::Other(s("List<Int8>")))])), "x: List<Int8>");
    assert_eq!(describe_schema(&Schema::new(vec![])), "");
}

#[test]
fn merge_plan_sums_rows_in_list_order() {
    let files = vec![tabular("x/2.parquet", ab(), 30), tabular("x/1.parquet", ab(), 12), tabular("x/3.parquet", ab(), 0)];
    let plan = merge_parquets(&files, "out/all.parquet", 500).unwrap();
    assert_eq!(plan.inputs, vec!["x/2.parquet", "x/1.parquet", "x/3.parquet"]);
    assert_eq!(plan.output, "out/all.parquet");
    assert_eq!(plan.tmp_output, "out/all_tmp.parquet");
    assert_eq!(plan.n_rows, 42);
    assert_eq!(plan.batch_size, 500);
    assert!(plan.schema.same_as(&ab()));
}

#[test]
fn row_counts_do_not_overflow() {
    let files = vec![tabular("a", ab(), u64::MAX), tabular("b", ab(), u64::MAX), tabular("c", ab(), 2)];
    assert_eq!(count_rows(&files), 2 * (u64::MAX as u128) + 2);
    assert_eq!(count_rows(&vec![]), 0);
    assert_eq!(merge_parquets(&files, "o.parquet", 1).unwrap().n_rows, 36893488147419103232);
}

#[test]
fn differing_schemas_are_refused_with_both_reported() {
    let other = schema(vec![("a", DataType::Int64), ("b", DataType::Binary)]);
    let files = vec![tabular("one.parquet", ab(), 1), tabular("two.parquet", ab(), 1), tabular("three.parquet", other, 1), tabular("four.parquet", Schema::new(vec![]), 1)];
    assert_eq!(find_divergent_schema(&files), Some(2));
    let err = merge_parquets(&files, "o.parquet", 10).unwrap_err();
    assert_eq!(err.kind(), ErrorKind::Schema);
    assert_eq!(
        err,
        TblError::SchemaError(s("schemas of files are not equal: one.parquet [a: Int64, b: Utf8] and three.parquet [a: Int64, b: Binary]"))
    );
    assert_eq!(report_mismatch(&files[0], &files[3]), "schemas of files are not equal: one.parquet [a: Int64, b: Utf8] and four.parquet []");
    assert_eq!(find_divergent_schema(&files[..2].iter().map(|f| tabular(&f.path, ab(), 1)).collect()), None);
}

#[test]
fn field_order_is_part_of_the_schema() {
    let swapped = schema(vec![("b", DataType::Utf8), ("a", DataType::Int64)]);
    let files = vec![tabular("one.parquet", ab(), 1), tabular("two.parquet", swapped, 1)];
    assert_eq!(merge_parquets(&files, "o.parquet", 10).unwrap_err().kind(), ErrorKind::Schema);
}

#[test]
fn merge_needs_two_files_and_a_batch_size() {
    let one = vec![tabular("one.parquet", ab(), 1)];
    assert_eq!(merge_parquets(&one, "o.parquet", 10).unwrap_err(), TblError::ArgumentError(s("must specify at least 2 files to merge")));
    assert_eq!(merge_parquets(&vec![], "o.parquet", 10).unwrap_err().kind(), ErrorKind::Argument);
    let two = vec![tabular("one.parquet", ab(), 1), tabular("two.parquet", ab(), 1)];
    assert_eq!(merge_parquets(&two, "o.parquet", 0).unwrap_err(), TblError::ArgumentError(s("batch size must be at least 1")));
    let odd = vec![tabular("one.parquet", ab(), 1), tabular("two.parquet", Schema::new(vec![]), 1)];
    assert_eq!(
        merge_parquets(&odd, "o.parquet", 0).unwrap_err(),
        TblError::SchemaError(s("schemas of files are not equal: one.parquet [a: Int64, b: Utf8] and two.parquet []"))
    );
}

fn feed(task: &mut FileTask, events: &[Event]) {
    for e in events {
        task.advance(*e);
    }
}

#[test]
fn rewrite_task_runs_through_its_phases() {
    let mut task = FileTask::new(1);
    assert_eq!(task.phase, Phase::Open);
    assert_eq!(task.next_action(), Action::OpenFiles);
    task.advance(Event::Done);
    assert_eq!(task.next_action(), Action::CopyBatch { input: 0 });
    task.advance(Event::Batch { rows: 60 });
    task.advance(Event::Batch { rows: 40 });
    assert_eq!(task.phase, Phase::StreamBatches);
    task.advance(Event::EndOfInput);
    assert_eq!(task.next_action(), Action::FinishTemp);
    task.advance(Event::Done);
    assert_eq!(task.next_action(), Action::RenameIntoPlace);
    assert!(!task.is_over());
    task.advance(Event::Done);
    assert!(task.is_closed() && task.is_over());
    assert_eq!(task.rows, 100);
    assert_eq!(task.next_action(), Action::Nothing);
    task.advance(Event::Batch { rows: 5 });
    task.advance(Event::Failed);
    assert_eq!(task, FileTask { n_inputs: 1, phase: Phase::Closed, current: 0, rows: 100 });
}

#[test]
fn merge_task_reads_inputs_in_order() {
    let mut task = FileTask::new(3);
    feed(&mut task, &[Event::Done, Event::Batch { rows: 5 }, Event::EndOfInput]);
    assert_eq!(task.next_action(), Action::CopyBatch { input: 1 });
    feed(&mut task, &[Event::EndOfInput]);
    assert_eq!(task.next_action(), Action::CopyBatch { input: 2 });
    feed(&mut task, &[Event::Batch { rows: u64::MAX }, Event::Batch { rows: u64::MAX }, Event::EndOfInput]);
    assert_eq!(task.phase, Phase::WriteTemp);
    assert_eq!(task.rows, 2 * (u64::MAX as u128) + 5);
}

#[test]
fn a_failure_gives_the_task_up_before_the_rename() {
    for upto in 0..4 {
        let steps = [Event::Done, Event::Batch { rows: 1 }, Event::EndOfInput, Event::Done];
        let mut task = FileTask::new(1);
        feed(&mut task, &steps[..upto]);
        task.advance(Event::Failed);
        assert_eq!(task.phase, Phase::Failed);
        assert_eq!(task.next_action(), Action::Nothing);
        task.advance(Event::Done);
        assert_eq!(task.phase, Phase::Failed);
        assert!(task.is_over() && !task.is_closed());
    }
}

#[test]
fn events_that_do_not_answer_the_action_give_the_task_up() {
    let mut task = FileTask::new(1);
    task.advance(Event::Batch { rows: 1 });
    assert_eq!(task.phase, Phase::Failed);
    let mut task = FileTask::new(1);
    feed(&mut task, &[Event::Done, Event::Done]);
    assert_eq!(task.phase, Phase::Failed);
    let mut task = FileTask::new(1);
    feed(&mut task, &[Event::Done, Event::EndOfInput, Event::EndOfInput]);
    assert_eq!(task.phase, Phase::Failed);
    let mut task = FileTask::new(0);
    task.advance(Event::Done);
    assert_eq!(task.phase, Phase::Failed);
    let mut task = FileTask { n_inputs: 1, phase: Phase::StreamBatches, current: 0, rows: u128::MAX };
    task.advance(Event::Batch { rows: 1 });
    assert_eq!(task.phase, Phase::Failed);
}

#[test]
fn originals_go_only_after_a_confirmed_merge() {
    let files = vec![tabular("a.parquet", ab(), 3), tabular("b.parquet", ab(), 4)];
    let plan = merge_parquets(&files, "o.parquet", 10).unwrap();
    let mut task = FileTask::new(2);
    feed(&mut task, &[Event::Done, Event::Batch { rows: 3 }, Event::EndOfInput, Event::Batch { rows: 4 }, Event::EndOfInput, Event::Done]);
    assert!(!confirm_merge(&plan, &task));
    assert_eq!(originals_to_delete(&plan, &task, false), Vec::<String>::new());
    task.advance(Event::Done);
    assert!(confirm_merge(&plan, &task));
    assert_eq!(originals_to_delete(&plan, &task, false), vec!["a.parquet", "b.parquet"]);
    assert_eq!(originals_to_delete(&plan, &task, true), Vec::<String>::new());
    let mut short = FileTask::new(2);
    feed(&mut short, &[Event::Done, Event::Batch { rows: 3 }, Event::EndOfInput, Event::EndOfInput, Event::Done, Event::Done]);
    assert!(short.is_closed() && !confirm_merge(&plan, &short));
    assert_eq!(originals_to_delete(&plan, &short, false), Vec::<String>::new());
}
