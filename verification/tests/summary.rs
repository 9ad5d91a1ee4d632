use tbl_core::error::TblError;
use tbl_core::gather::{EntryKind, FsEntry};
use tbl_core::merge::TabularFile;
use tbl_core::schema::{DataType, Field, Schema};
use tbl_core::summary::{
    combine_tabular_columns_summaries, combine_tabular_summaries, count_existing_files,
    get_total_bytes_of_files, rank_summaries, summarize_by_schema, top_n_schemas, SortSchemasBy,
    TabularColumnSummary, TabularSummary,
};

fn one(name: &str) -> Schema {
    Schema::new(vec![Field::new(name.to_string(), DataType::Int64)])
}

fn col(c: u64, u: u64) -> TabularColumnSummary {
    TabularColumnSummary { n_bytes_compressed: c, n_bytes_uncompressed: u }
}

fn summary(schema: Schema, n_files: u64, bytes: u64, rows: u64, columns: Vec<TabularColumnSummary>) -> TabularSummary {
    TabularSummary { n_files, n_bytes_compressed: bytes, n_bytes_uncompressed: 2 * bytes, n_rows: rows, schema, columns }
}

#[test]
fn column_sizes_add_up_column_by_column() {
    assert_eq!(
        combine_tabular_columns_summaries(&vec![col(1, 2), col(3, 4)], &vec![col(10, 20), col(30, 40)]),
        Ok(vec![col(11, 22), col(33, 44)])
    );
    assert_eq!(combine_tabular_columns_summaries(&vec![], &vec![col(1, 2)]), Ok(vec![col(1, 2)]));
    assert_eq!(combine_tabular_columns_summaries(&vec![col(1, 2)], &vec![]), Ok(vec![col(1, 2)]));
    assert_eq!(combine_tabular_columns_summaries(&vec![], &vec![]), Ok(vec![]));
    assert_eq!(
        combine_tabular_columns_summaries(&vec![col(1, 2)], &vec![col(1, 2), col(3, 4)]),
        Err(TblError::SchemaError("different number of columns".to_string()))
    );
    assert_eq!(
        combine_tabular_columns_summaries(&vec![col(u64::MAX, 2)], &vec![col(1, 2)]),
        Err(TblError::ArgumentError("total is too large".to_string()))
    );
}

#[test]
fn summaries_add_up() {
    let a = summary(one("x"), 1, 100, 10, vec![col(100, 200)]);
    let b = summary(one("y"), 2, 50, 5, vec![col(50, 100)]);
    let total = combine_tabular_summaries(&vec![&a, &b], true).unwrap();
    assert_eq!(total, summary(one("x"), 3, 150, 15, vec![col(150, 300)]));
    let total = combine_tabular_summaries(&vec![&b, &a], false).unwrap();
    assert_eq!(total, summary(one("y"), 3, 150, 15, vec![]));
    let none = combine_tabular_summaries(&vec![], true).unwrap();
    assert_eq!(none, summary(Schema::new(vec![]), 0, 0, 0, vec![]));
    let wide = summary(one("x"), 1, 1, 1, vec![col(1, 1), col(1, 1)]);
    assert_eq!(
        combine_tabular_summaries(&vec![&a, &wide], true),
        Err(TblError::SchemaError("different number of columns".to_string()))
    );
    assert!(combine_tabular_summaries(&vec![&a, &wide], false).is_ok());
    let huge = summary(one("x"), 1, 1, u64::MAX, vec![]);
    assert_eq!(
        combine_tabular_summaries(&vec![&a, &huge], false),
        Err(TblError::ArgumentError("total is too large".to_string()))
    );
}

#[test]
fn summaries_group_by_schema_in_order_of_first_occurrence() {
    let a1 = summary(one("x"), 1, 100, 10, vec![col(100, 200)]);
    let b1 = summary(one("y"), 1, 7, 1, vec![col(7, 14)]);
    let a2 = summary(one("x"), 1, 50, 5, vec![col(50, 100)]);
    let groups = summarize_by_schema(&vec![&a1, &b1, &a2]).unwrap();
    assert_eq!(groups, vec![summary(one("x"), 2, 150, 15, vec![col(150, 300)]), b1.clone()]);
    assert_eq!(summarize_by_schema(&vec![]), Ok(vec![]));
    let wide = summary(one("x"), 1, 1, 1, vec![col(1, 1), col(1, 1)]);
    assert_eq!(
        summarize_by_schema(&vec![&b1, &a1, &wide]),
        Err(TblError::SchemaError("different number of columns".to_string()))
    );
}

#[test]
fn schemas_are_ranked_from_the_greatest_down() {
    let all = vec![
        summary(one("a"), 5, 10, 300, vec![]),
        summary(one("b"), 9, 10, 100, vec![]),
        summary(one("c"), 1, 99, 300, vec![]),
    ];
    assert_eq!(rank_summaries(&all, SortSchemasBy::Files), vec![1, 0, 2]);
    assert_eq!(rank_summaries(&all, SortSchemasBy::Bytes), vec![2, 0, 1]);
    assert_eq!(rank_summaries(&all, SortSchemasBy::Rows), vec![0, 2, 1]);
    let top = top_n_schemas(&all, 2, SortSchemasBy::Rows);
    assert_eq!(top, vec![all[0].clone(), all[2].clone()]);
    assert_eq!(top_n_schemas(&all, 9, SortSchemasBy::Files).len(), 3);
    assert_eq!(top_n_schemas(&all, 0, SortSchemasBy::Files), vec![]);
}

#[test]
fn bytes_and_files_are_counted() {
    let file = |n_bytes: u64| TabularFile { path: "f".to_string(), n_bytes, schema: one("x"), n_rows: 0 };
    assert_eq!(get_total_bytes_of_files(&vec![file(10), file(0), file(32)]), Some(42));
    assert_eq!(get_total_bytes_of_files(&vec![]), Some(0));
    assert_eq!(get_total_bytes_of_files(&vec![file(u64::MAX), file(1)]), None);
    let entry = |kind: EntryKind| FsEntry { path: "p".to_string(), kind, children: vec![] };
    let entries = vec![entry(EntryKind::File), entry(EntryKind::Unreadable), entry(EntryKind::Directory), entry(EntryKind::File), entry(EntryKind::Other)];
    assert_eq!(count_existing_files(&entries), 2);
    assert_eq!(count_existing_files(&vec![]), 0);
}
