use tbl_core::error::TblError;
use tbl_core::gather::{
    get_directory_tabular_files, get_input_paths, get_root_inputs, get_skipped_inputs,
    get_tree_tabular_files, EntryKind, FsEntry,
};

fn entry(path: &str, kind: EntryKind, children: Vec<FsEntry>) -> FsEntry {
    FsEntry { path: path.to_string(), kind, children }
}

fn leaf(path: &str) -> FsEntry {
    entry(path, EntryKind::File, vec![])
}

fn tree() -> FsEntry {
    entry(
        "top",
        EntryKind::Directory,
        vec![
            leaf("top/b.parquet"),
            leaf("top/readme.md"),
            entry(
                "top/inner",
                EntryKind::Directory,
                vec![
                    leaf("top/inner/c.parquet"),
                    entry("top/inner/socket", EntryKind::Other, vec![]),
                    entry("top/inner/deep", EntryKind::Directory, vec![leaf("top/inner/deep/d.parquet")]),
                ],
            ),
            entry("top/dir.parquet", EntryKind::Directory, vec![]),
            leaf("top/a.parquet"),
        ],
    )
}

#[test]
fn directory_listing_takes_direct_children_only() {
    assert_eq!(
        get_directory_tabular_files(&tree()),
        Ok(vec!["top/b.parquet".to_string(), "top/a.parquet".to_string()])
    );
}

#[test]
fn directory_listing_needs_a_directory() {
    assert_eq!(
        get_directory_tabular_files(&leaf("top/a.parquet")),
        Err(TblError::IOError("top/a.parquet".to_string()))
    );
    let gone = entry("gone", EntryKind::Unreadable, vec![]);
    assert_eq!(get_directory_tabular_files(&gone), Err(TblError::IOError("gone".to_string())));
}

#[test]
fn tree_listing_walks_depth_first_in_place() {
    assert_eq!(
        get_tree_tabular_files(&tree()),
        Ok(vec![
            "top/b.parquet".to_string(),
            "top/inner/c.parquet".to_string(),
            "top/inner/deep/d.parquet".to_string(),
            "top/a.parquet".to_string(),
        ])
    );
}

#[test]
fn tree_listing_fails_on_the_first_unreadable_entry() {
    let broken = entry(
        "top",
        EntryKind::Directory,
        vec![
            leaf("top/a.parquet"),
            entry(
                "top/x",
                EntryKind::Directory,
                vec![entry("top/x/locked", EntryKind::Unreadable, vec![])],
            ),
            entry("top/y", EntryKind::Unreadable, vec![]),
        ],
    );
    assert_eq!(
        get_tree_tabular_files(&broken),
        Err(TblError::IOError("top/x/locked".to_string()))
    );
    assert_eq!(get_directory_tabular_files(&broken), Err(TblError::IOError("top/y".to_string())));
}

#[test]
fn roots_are_resolved_one_by_one() {
    assert_eq!(get_root_inputs(&leaf("x.parquet"), true), Ok(vec!["x.parquet".to_string()]));
    assert_eq!(get_root_inputs(&leaf("x.txt"), false), Ok(vec![]));
    assert_eq!(
        get_root_inputs(&entry("odd", EntryKind::Other, vec![]), false),
        Err(TblError::IOError("odd".to_string()))
    );
    assert_eq!(get_root_inputs(&tree(), false).unwrap().len(), 2);
    assert_eq!(get_root_inputs(&tree(), true).unwrap().len(), 4);
}

#[test]
fn input_paths_concatenate_the_roots() {
    let roots = vec![leaf("z.parquet"), tree(), leaf("skip.csv")];
    assert_eq!(
        get_input_paths(&roots, false, false),
        Ok(vec!["z.parquet".to_string(), "top/b.parquet".to_string(), "top/a.parquet".to_string()])
    );
    assert_eq!(
        get_input_paths(&roots, false, true),
        Ok(vec!["top/a.parquet".to_string(), "top/b.parquet".to_string(), "z.parquet".to_string()])
    );
    assert_eq!(get_input_paths(&vec![], true, true), Ok(vec![]));
}

#[test]
fn input_paths_fail_fast_on_a_missing_root() {
    let roots = vec![leaf("a.parquet"), entry("gone", EntryKind::Unreadable, vec![]), leaf("b.parquet")];
    assert_eq!(
        get_input_paths(&roots, false, false),
        Err(TblError::IOError("gone".to_string()))
    );
}

#[test]
fn sorted_inputs_keep_equal_paths_in_found_order() {
    let roots = vec![leaf("b//x.parquet"), leaf("a.parquet"), leaf("b/x.parquet")];
    assert_eq!(
        get_input_paths(&roots, false, true),
        Ok(vec!["a.parquet".to_string(), "b//x.parquet".to_string(), "b/x.parquet".to_string()])
    );
}

#[test]
fn skipped_inputs_are_reported() {
    let roots = vec![leaf("a.parquet"), leaf("notes.txt"), tree(), leaf("b.csv")];
    assert_eq!(get_skipped_inputs(&roots), vec!["notes.txt".to_string(), "b.csv".to_string()]);
}
