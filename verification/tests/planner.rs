use tbl_core::error::{ErrorKind, TblError};
use tbl_core::gather::{EntryKind, FsEntry};
use tbl_core::outputs::{find_duplicate_output, get_output_paths, OutputPathSpec};

fn file(path: &str) -> FsEntry {
    FsEntry { path: path.to_string(), kind: EntryKind::File, children: vec![] }
}

fn dir(path: &str, children: Vec<FsEntry>) -> FsEntry {
    FsEntry { path: path.to_string(), kind: EntryKind::Directory, children }
}

fn missing(path: &str) -> FsEntry {
    FsEntry { path: path.to_string(), kind: EntryKind::Unreadable, children: vec![] }
}

fn data1() -> FsEntry {
    dir(
        "root/data1",
        vec![
            file("root/data1/data1_a.parquet"),
            file("root/data1/data1_b.parquet"),
            dir(
                "root/data1/sub_data1_1",
                vec![
                    file("root/data1/sub_data1_1/sub_data1_a.parquet"),
                    file("root/data1/sub_data1_1/sub_data1_b.parquet"),
                ],
            ),
        ],
    )
}

fn data2() -> FsEntry {
    dir(
        "root/data2",
        vec![file("root/data2/data2_a.parquet"), file("root/data2/data2_b.parquet")],
    )
}

fn root() -> FsEntry {
    dir(
        "root",
        vec![
            file("root/super_data_a.parquet"),
            file("root/super_data_b.parquet"),
            data1(),
            data2(),
        ],
    )
}

fn observe(path: &str) -> FsEntry {
    match path {
        "root" => root(),
        "root/data1" => data1(),
        "root/data2" => data2(),
        other => file(other),
    }
}

fn check(spec: OutputPathSpec, expected_outputs: Vec<&str>) {
    let roots: Vec<FsEntry> = match spec.inputs.as_ref() {
        Some(inputs) => inputs.iter().map(|p| observe(p)).collect(),
        None => vec![root()],
    };
    let (inputs, outputs) = get_output_paths(spec, &roots).unwrap();
    assert_eq!(inputs.len(), outputs.len());
    let mut sorted_outputs = outputs.clone();
    sorted_outputs.sort();
    let mut sorted_expected: Vec<String> = expected_outputs.iter().map(|p| p.to_string()).collect();
    sorted_expected.sort();
    assert_eq!(sorted_outputs, sorted_expected);
}

#[test]
fn test_root_input() {
    check(
        OutputPathSpec::new().inputs(vec!["root"]),
        vec!["root/super_data_a.parquet", "root/super_data_b.parquet"],
    );
}

#[test]
fn test_root_input_tree() {
    check(
        OutputPathSpec::new().inputs(vec!["root"]).tree(true),
        vec![
            "root/super_data_a.parquet",
            "root/super_data_b.parquet",
            "root/data1/data1_a.parquet",
            "root/data1/data1_b.parquet",
            "root/data1/sub_data1_1/sub_data1_a.parquet",
            "root/data1/sub_data1_1/sub_data1_b.parquet",
            "root/data2/data2_a.parquet",
            "root/data2/data2_b.parquet",
        ],
    );
}

#[test]
fn test_root_input_self_output_dir() {
    check(
        OutputPathSpec::new().inputs(vec!["root"]).output_dir("root"),
        vec!["root/super_data_a.parquet", "root/super_data_b.parquet"],
    );
}

#[test]
fn test_root_input_self_output_dir_tree() {
    check(
        OutputPathSpec::new().inputs(vec!["root"]).output_dir("root").tree(true),
        vec![
            "root/super_data_a.parquet",
            "root/super_data_b.parquet",
            "root/data1/data1_a.parquet",
            "root/data1/data1_b.parquet",
            "root/data1/sub_data1_1/sub_data1_a.parquet",
            "root/data1/sub_data1_1/sub_data1_b.parquet",
            "root/data2/data2_a.parquet",
            "root/data2/data2_b.parquet",
        ],
    );
}

#[test]
fn test_root_input_output_dir() {
    check(
        OutputPathSpec::new().inputs(vec!["root"]).output_dir("other_root"),
        vec!["other_root/super_data_a.parquet", "other_root/super_data_b.parquet"],
    );
}

#[test]
fn test_root_input_output_dir_tree() {
    check(
        OutputPathSpec::new().inputs(vec!["root"]).output_dir("other_root").tree(true),
        vec![
            "other_root/super_data_a.parquet",
            "other_root/super_data_b.parquet",
            "other_root/data1/data1_a.parquet",
            "other_root/data1/data1_b.parquet",
            "other_root/data1/sub_data1_1/sub_data1_a.parquet",
            "other_root/data1/sub_data1_1/sub_data1_b.parquet",
            "other_root/data2/data2_a.parquet",
            "other_root/data2/data2_b.parquet",
        ],
    );
}

#[test]
fn test_data1_input() {
    check(
        OutputPathSpec::new().inputs(vec!["root/data1"]),
        vec!["root/data1/data1_a.parquet", "root/data1/data1_b.parquet"],
    );
}

#[test]
fn test_data1_input_tree() {
    check(
        OutputPathSpec::new().inputs(vec!["root/data1"]).tree(true),
        vec![
            "root/data1/data1_a.parquet",
            "root/data1/data1_b.parquet",
            "root/data1/sub_data1_1/sub_data1_a.parquet",
            "root/data1/sub_data1_1/sub_data1_b.parquet",
        ],
    );
}

#[test]
fn test_data1_input_root_output() {
    check(
        OutputPathSpec::new().inputs(vec!["root/data1"]).output_dir("root"),
        vec!["root/data1_a.parquet", "root/data1_b.parquet"],
    );
}

#[test]
fn test_data1_input_root_output_tree() {
    check(
        OutputPathSpec::new().inputs(vec!["root/data1"]).output_dir("root").tree(true),
        vec![
            "root/data1_a.parquet",
            "root/data1_b.parquet",
            "root/sub_data1_1/sub_data1_a.parquet",
            "root/sub_data1_1/sub_data1_b.parquet",
        ],
    );
}

#[test]
fn test_data1_input_other_output() {
    check(
        OutputPathSpec::new().inputs(vec!["root/data1"]).output_dir("other_root"),
        vec!["other_root/data1_a.parquet", "other_root/data1_b.parquet"],
    );
}

#[test]
fn test_data1_input_other_output_tree() {
    check(
        OutputPathSpec::new().inputs(vec!["root/data1"]).output_dir("other_root").tree(true),
        vec![
            "other_root/data1_a.parquet",
            "other_root/data1_b.parquet",
            "other_root/sub_data1_1/sub_data1_a.parquet",
            "other_root/sub_data1_1/sub_data1_b.parquet",
        ],
    );
}

#[test]
fn test_data1_data2_input() {
    check(
        OutputPathSpec::new().inputs(vec!["root/data1", "root/data2"]),
        vec![
            "root/data1/data1_a.parquet",
            "root/data1/data1_b.parquet",
            "root/data2/data2_a.parquet",
            "root/data2/data2_b.parquet",
        ],
    );
}

#[test]
fn test_data1_data2_input_tree() {
    check(
        OutputPathSpec::new().inputs(vec!["root/data1", "root/data2"]).tree(true),
        vec![
            "root/data1/data1_a.parquet",
            "root/data1/data1_b.parquet",
            "root/data1/sub_data1_1/sub_data1_a.parquet",
            "root/data1/sub_data1_1/sub_data1_b.parquet",
            "root/data2/data2_a.parquet",
            "root/data2/data2_b.parquet",
        ],
    );
}

#[test]
fn test_data1_data2_input_root_output() {
    check(
        OutputPathSpec::new().inputs(vec!["root/data1", "root/data2"]).output_dir("root"),
        vec![
            "root/data1_a.parquet",
            "root/data1_b.parquet",
            "root/data2_a.parquet",
            "root/data2_b.parquet",
        ],
    );
}

#[test]
fn test_data1_data2_input_root_output_tree() {
    check(
        OutputPathSpec::new()
            .inputs(vec!["root/data1", "root/data2"])
            .output_dir("root")
            .tree(true),
        vec![
            "root/data1_a.parquet",
            "root/data1_b.parquet",
            "root/sub_data1_1/sub_data1_a.parquet",
            "root/sub_data1_1/sub_data1_b.parquet",
            "root/data2_a.parquet",
            "root/data2_b.parquet",
        ],
    );
}

#[test]
fn test_data1_data2_input_other_output() {
    check(
        OutputPathSpec::new().inputs(vec!["root/data1", "root/data2"]).output_dir("other_root"),
        vec![
            "other_root/data1_a.parquet",
            "other_root/data1_b.parquet",
            "other_root/data2_a.parquet",
            "other_root/data2_b.parquet",
        ],
    );
}

#[test]
fn test_data1_data2_input_other_output_tree() {
    check(
        OutputPathSpec::new()
            .inputs(vec!["root/data1", "root/data2"])
            .output_dir("other_root")
            .tree(true),
        vec![
            "other_root/data1_a.parquet",
            "other_root/data1_b.parquet",
            "other_root/sub_data1_1/sub_data1_a.parquet",
            "other_root/sub_data1_1/sub_data1_b.parquet",
            "other_root/data2_a.parquet",
            "other_root/data2_b.parquet",
        ],
    );
}

#[test]
fn test_specific_files_input() {
    check(
        OutputPathSpec::new()
            .inputs(vec!["root/data1/data1_a.parquet", "root/super_data_a.parquet"]),
        vec!["root/data1/data1_a.parquet", "root/super_data_a.parquet"],
    );
}

#[test]
fn test_specific_files_input_tree() {
    check(
        OutputPathSpec::new()
            .inputs(vec!["root/data1/data1_a.parquet", "root/super_data_a.parquet"])
            .tree(true),
        vec!["root/data1/data1_a.parquet", "root/super_data_a.parquet"],
    );
}

#[test]
fn test_specific_files_input_root_output() {
    check(
        OutputPathSpec::new()
            .inputs(vec!["root/data1/data1_a.parquet", "root/super_data_a.parquet"])
            .output_dir("root"),
        vec!["root/data1_a.parquet", "root/super_data_a.parquet"],
    );
}

#[test]
fn test_specific_files_input_root_output_tree() {
    check(
        OutputPathSpec::new()
            .inputs(vec!["root/data1/data1_a.parquet", "root/super_data_a.parquet"])
            .output_dir("root")
            .tree(true),
        vec!["root/data1_a.parquet", "root/super_data_a.parquet"],
    );
}

#[test]
fn test_specific_files_input_other_output() {
    check(
        OutputPathSpec::new()
            .inputs(vec!["root/data1/data1_a.parquet", "root/super_data_a.parquet"])
            .output_dir("other_root"),
        vec!["other_root/data1_a.parquet", "other_root/super_data_a.parquet"],
    );
}

#[test]
fn test_specific_files_input_other_output_tree() {
    check(
        OutputPathSpec::new()
            .inputs(vec!["root/data1/data1_a.parquet", "root/super_data_a.parquet"])
            .output_dir("other_root")
            .tree(true),
        vec!["other_root/data1_a.parquet", "other_root/super_data_a.parquet"],
    );
}

#[test]
fn flattening_two_files_into_root() {
    let spec = OutputPathSpec::new()
        .inputs(vec!["root/data1/data1_a.parquet", "root/data1/data1_b.parquet"])
        .output_dir("root");
    let roots = vec![file("root/data1/data1_a.parquet"), file("root/data1/data1_b.parquet")];
    let (inputs, outputs) = get_output_paths(spec, &roots).unwrap();
    assert_eq!(inputs, vec!["root/data1/data1_a.parquet", "root/data1/data1_b.parquet"]);
    assert_eq!(outputs, vec!["root/data1_a.parquet", "root/data1_b.parquet"]);
}

#[test]
fn tree_keeps_relative_paths_under_other_root() {
    let spec = OutputPathSpec::new().inputs(vec!["root"]).tree(true).output_dir("other_root");
    let (inputs, outputs) = get_output_paths(spec, &vec![root()]).unwrap();
    assert_eq!(
        inputs,
        vec![
            "root/super_data_a.parquet",
            "root/super_data_b.parquet",
            "root/data1/data1_a.parquet",
            "root/data1/data1_b.parquet",
            "root/data1/sub_data1_1/sub_data1_a.parquet",
            "root/data1/sub_data1_1/sub_data1_b.parquet",
            "root/data2/data2_a.parquet",
            "root/data2/data2_b.parquet",
        ]
    );
    for (input, output) in inputs.iter().zip(outputs.iter()) {
        let relative = input.strip_prefix("root/").unwrap();
        assert_eq!(output, &format!("other_root/{}", relative));
    }
}

#[test]
fn colliding_outputs_are_refused() {
    let spec = OutputPathSpec::new()
        .inputs(vec!["root/a/out.parquet", "root/b/out.parquet"])
        .output_dir("root");
    let roots = vec![file("root/a/out.parquet"), file("root/b/out.parquet")];
    let err = get_output_paths(spec, &roots).unwrap_err();
    assert_eq!(err, TblError::DuplicateOutputError("root/out.parquet".to_string()));
    assert_eq!(err.kind(), ErrorKind::DuplicateOutput);
    assert_eq!(err.message(), "Duplicate output path: root/out.parquet");
}

#[test]
fn outputs_that_differ_only_in_spelling_collide() {
    let outputs = vec![
        "root/x.parquet".to_string(),
        "root/y.parquet".to_string(),
        "root//x.parquet".to_string(),
        "root/y.parquet".to_string(),
    ];
    assert_eq!(find_duplicate_output(&outputs), Some(2));
    let distinct = vec!["root/x.parquet".to_string(), "root/y.parquet".to_string()];
    assert_eq!(find_duplicate_output(&distinct), None);
    assert_eq!(find_duplicate_output(&vec![]), None);
}

#[test]
fn in_place_edit_keeps_every_path() {
    let spec = OutputPathSpec::new();
    let cwd = dir("work", vec![file("work/a.parquet"), file("work/notes.txt"), file("work/b.parquet")]);
    let (inputs, outputs) = get_output_paths(spec, &vec![cwd]).unwrap();
    assert_eq!(inputs, vec!["work/a.parquet", "work/b.parquet"]);
    assert_eq!(outputs, inputs);
}

#[test]
fn prefix_and_postfix_go_around_the_stem() {
    let spec = OutputPathSpec::new()
        .inputs(vec!["root/data1"])
        .tree(true)
        .file_prefix(Some("new_".to_string()))
        .file_postfix(Some("_v2".to_string()));
    let (inputs, outputs) = get_output_paths(spec, &vec![data1()]).unwrap();
    assert_eq!(inputs.len(), 4);
    assert_eq!(
        outputs,
        vec![
            "root/data1/new_data1_a_v2.parquet",
            "root/data1/new_data1_b_v2.parquet",
            "root/data1/sub_data1_1/new_sub_data1_a_v2.parquet",
            "root/data1/sub_data1_1/new_sub_data1_b_v2.parquet",
        ]
    );
}

#[test]
fn sorting_orders_pairs_by_output_and_keeps_them_together() {
    let spec = OutputPathSpec::new()
        .inputs(vec!["in/z/b.parquet", "in/y/c.parquet", "in/x/a.parquet"])
        .output_dir("out")
        .sort(true);
    let roots = vec![file("in/z/b.parquet"), file("in/y/c.parquet"), file("in/x/a.parquet")];
    let (inputs, outputs) = get_output_paths(spec, &roots).unwrap();
    assert_eq!(outputs, vec!["out/a.parquet", "out/b.parquet", "out/c.parquet"]);
    assert_eq!(inputs, vec!["in/x/a.parquet", "in/z/b.parquet", "in/y/c.parquet"]);
}

#[test]
fn sorting_compares_components_not_characters() {
    let spec = OutputPathSpec::new()
        .inputs(vec!["a-b/f.parquet", "a/f.parquet"])
        .tree(true)
        .sort(true);
    let roots = vec![file("a-b/f.parquet"), file("a/f.parquet")];
    let (_, outputs) = get_output_paths(spec, &roots).unwrap();
    assert_eq!(outputs, vec!["a/f.parquet", "a-b/f.parquet"]);
}

#[test]
fn unsorted_plan_keeps_the_order_of_the_roots() {
    let spec = OutputPathSpec::new().inputs(vec!["in/z/b.parquet", "in/x/a.parquet"]);
    let roots = vec![file("in/z/b.parquet"), file("in/x/a.parquet")];
    let (inputs, outputs) = get_output_paths(spec, &roots).unwrap();
    assert_eq!(inputs, vec!["in/z/b.parquet", "in/x/a.parquet"]);
    assert_eq!(outputs, inputs);
}

#[test]
fn missing_root_aborts_the_plan() {
    let spec = OutputPathSpec::new().inputs(vec!["root/data2", "gone"]);
    let err = get_output_paths(spec, &vec![data2(), missing("gone")]).unwrap_err();
    assert_eq!(err, TblError::IOError("gone".to_string()));
}

#[test]
fn missing_root_is_an_io_error_whatever_the_other_roots() {
    for position in 0..3 {
        let mut names = vec!["root/data1", "root/data2"];
        names.insert(position, "gone");
        let roots: Vec<FsEntry> =
            names.iter().map(|n| if *n == "gone" { missing(n) } else { observe(n) }).collect();
        for tree in [false, true] {
            let spec = OutputPathSpec::new().inputs(names.clone()).tree(tree).output_dir("out");
            let err = get_output_paths(spec, &roots).unwrap_err();
            assert_eq!(err.kind(), ErrorKind::IO);
            assert_eq!(err, TblError::IOError("gone".to_string()));
        }
    }
}

#[test]
fn snapshot_must_answer_the_declared_inputs() {
    let spec = OutputPathSpec::new().inputs(vec!["root/data1", "root/data2"]);
    let err = get_output_paths(spec, &vec![data1()]).unwrap_err();
    assert_eq!(
        err,
        TblError::ArgumentError("observed roots do not match the declared inputs".to_string())
    );
    let spec = OutputPathSpec::new().inputs(vec!["root/data1"]);
    let err = get_output_paths(spec, &vec![data2()]).unwrap_err();
    assert_eq!(err.kind(), ErrorKind::Argument);
    let spec = OutputPathSpec::new();
    assert!(get_output_paths(spec, &vec![]).is_err());
}

#[test]
fn files_without_the_tabular_extension_are_passed_over() {
    let spec = OutputPathSpec::new().inputs(vec!["notes.txt", "data.parquet"]).output_dir("out");
    let roots = vec![file("notes.txt"), file("data.parquet")];
    let (inputs, outputs) = get_output_paths(spec, &roots).unwrap();
    assert_eq!(inputs, vec!["data.parquet"]);
    assert_eq!(outputs, vec!["out/data.parquet"]);
}

#[test]
fn walked_file_outside_its_root_is_refused() {
    let spec = OutputPathSpec::new().inputs(vec!["root"]).tree(true).output_dir("out");
    let odd = dir("root", vec![file("elsewhere/a.parquet")]);
    let err = get_output_paths(spec, &vec![odd]).unwrap_err();
    assert_eq!(err, TblError::PathResolutionError("elsewhere/a.parquet".to_string()));
}

#[test]
fn builder_sets_each_field() {
    let spec = OutputPathSpec::new();
    assert!(spec.inputs.is_none() && spec.output_dir.is_none() && !spec.tree && !spec.sort);
    assert!(spec.file_prefix.is_none() && spec.file_postfix.is_none());
    let spec = OutputPathSpec::new()
        .inputs(vec!["a".to_string()])
        .output_dir("out".to_string())
        .tree(true)
        .file_prefix(Some("p".to_string()))
        .file_postfix(None)
        .sort(true);
    assert_eq!(spec.inputs, Some(vec!["a".to_string()]));
    assert_eq!(spec.output_dir, Some("out".to_string()));
    assert!(spec.tree && spec.sort);
    assert_eq!(spec.file_prefix, Some("p".to_string()));
    assert_eq!(spec.file_postfix, None);
    let spec = OutputPathSpec::new().inputs(None::<Vec<String>>).output_dir(None::<String>);
    assert!(spec.inputs.is_none() && spec.output_dir.is_none());
    let spec = OutputPathSpec::new().inputs(Some(vec!["x"])).output_dir(Some("d"));
    assert_eq!(spec.inputs, Some(vec!["x".to_string()]));
    assert_eq!(spec.output_dir, Some("d".to_string()));
}
