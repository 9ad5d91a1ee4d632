use tbl_core::commands::{
    check_answer, check_columns_exist, decide_output_mode, gather_inputs_and_outputs,
    get_user_confirmation, join_up, parse_new_column_expr, parse_user_dtypes, preview_paths,
    read_new_columns, Confirmation, DataArgs, OutputMode,
};
use tbl_core::error::{ErrorKind, TblError};
use tbl_core::formats::format_with_commas;
use tbl_core::gather::{EntryKind, FsEntry};
use tbl_core::schema::{DataType, Field, Schema};

fn s(text: &str) -> String {
    text.to_string()
}

fn args() -> DataArgs {
    DataArgs {
        paths: None,
        tree: false,
        inplace: false,
        output_file: None,
        output_dir: None,
        output_prefix: None,
        output_postfix: None,
        partition: None,
        df: false,
        lf: false,
        confirm: false,
        dry: false,
    }
}

fn cwd() -> Vec<FsEntry> {
    let file = |p: &str| FsEntry { path: s(p), kind: EntryKind::File, children: vec![] };
    vec![FsEntry {
        path: s("w"),
        kind: EntryKind::Directory,
        children: vec![file("w/b.parquet"), file("w/a.parquet"), file("w/x.csv")],
    }]
}

#[test]
fn output_modes() {
    assert_eq!(decide_output_mode(&args()), Ok(OutputMode::PrintToStdout));
    assert_eq!(decide_output_mode(&DataArgs { inplace: true, ..args() }), Ok(OutputMode::ModifyInplace));
    assert_eq!(decide_output_mode(&DataArgs { output_file: Some(s("o")), ..args() }), Ok(OutputMode::SaveToSingleFile));
    assert_eq!(decide_output_mode(&DataArgs { output_dir: Some(s("d")), ..args() }), Ok(OutputMode::SaveToDirectory));
    assert_eq!(decide_output_mode(&DataArgs { partition: Some(s("c")), ..args() }), Ok(OutputMode::Partition));
    assert_eq!(
        decide_output_mode(&DataArgs { partition: Some(s("c")), output_dir: Some(s("d")), ..args() }),
        Ok(OutputMode::Partition)
    );
    assert_eq!(decide_output_mode(&DataArgs { df: true, ..args() }), Ok(OutputMode::InteractiveDf));
    assert_eq!(decide_output_mode(&DataArgs { lf: true, ..args() }), Ok(OutputMode::InteractiveLf));
    for bad in [
        DataArgs { df: true, lf: true, ..args() },
        DataArgs { inplace: true, output_dir: Some(s("d")), ..args() },
        DataArgs { output_file: Some(s("o")), output_dir: Some(s("d")), ..args() },
        DataArgs { inplace: true, partition: Some(s("c")), ..args() },
        DataArgs { lf: true, output_file: Some(s("o")), ..args() },
    ] {
        assert_eq!(decide_output_mode(&bad), Err(TblError::ArgumentError(s("can only specify one output mode"))));
    }
}

#[test]
fn modes_that_write() {
    assert!(OutputMode::SaveToSingleFile.writes_to_disk());
    assert!(OutputMode::SaveToDirectory.writes_to_disk());
    assert!(OutputMode::ModifyInplace.writes_to_disk());
    assert!(OutputMode::Partition.writes_to_disk());
    assert!(!OutputMode::PrintToStdout.writes_to_disk());
    assert!(!OutputMode::InteractiveLf.writes_to_disk());
    assert!(!OutputMode::InteractiveDf.writes_to_disk());
}

#[test]
fn writes_are_confirmed_first() {
    let plain = args();
    let yes = DataArgs { confirm: true, ..args() };
    let dry = DataArgs { dry: true, confirm: true, ..args() };
    assert_eq!(get_user_confirmation(&OutputMode::ModifyInplace, &plain), Confirmation::Ask);
    assert_eq!(get_user_confirmation(&OutputMode::SaveToDirectory, &plain), Confirmation::Ask);
    assert_eq!(get_user_confirmation(&OutputMode::SaveToSingleFile, &yes), Confirmation::Proceed);
    assert_eq!(get_user_confirmation(&OutputMode::PrintToStdout, &plain), Confirmation::Proceed);
    assert_eq!(get_user_confirmation(&OutputMode::Partition, &plain), Confirmation::Proceed);
    assert_eq!(get_user_confirmation(&OutputMode::ModifyInplace, &dry), Confirmation::DryRun);
    assert_eq!(get_user_confirmation(&OutputMode::PrintToStdout, &dry), Confirmation::DryRun);
    assert_eq!(check_answer(Some(true)), Ok(()));
    assert_eq!(check_answer(Some(false)), Err(TblError::ArgumentError(s("exiting"))));
    assert_eq!(check_answer(None), Err(TblError::ArgumentError(s("exiting"))));
}

#[test]
fn inputs_and_outputs_by_mode() {
    let both = vec![s("w/a.parquet"), s("w/b.parquet")];
    assert_eq!(
        gather_inputs_and_outputs(&OutputMode::PrintToStdout, &args(), &cwd()),
        Ok(vec![(both.clone(), None)])
    );
    let to_file = DataArgs { output_file: Some(s("all.parquet")), ..args() };
    assert_eq!(
        gather_inputs_and_outputs(&OutputMode::SaveToSingleFile, &to_file, &cwd()),
        Ok(vec![(both.clone(), Some(s("all.parquet")))])
    );
    assert_eq!(
        gather_inputs_and_outputs(&OutputMode::ModifyInplace, &DataArgs { inplace: true, ..args() }, &cwd()),
        Ok(vec![(vec![s("w/a.parquet")], Some(s("w/a.parquet"))), (vec![s("w/b.parquet")], Some(s("w/b.parquet")))])
    );
    let to_dir = DataArgs { output_dir: Some(s("out")), output_prefix: Some(s("n_")), ..args() };
    assert_eq!(
        gather_inputs_and_outputs(&OutputMode::SaveToDirectory, &to_dir, &cwd()),
        Ok(vec![(vec![s("w/a.parquet")], Some(s("out/n_a.parquet"))), (vec![s("w/b.parquet")], Some(s("out/n_b.parquet")))])
    );
}

#[test]
fn no_inputs_no_work() {
    let empty = vec![FsEntry { path: s("w"), kind: EntryKind::Directory, children: vec![] }];
    for mode in [OutputMode::PrintToStdout, OutputMode::SaveToSingleFile, OutputMode::ModifyInplace, OutputMode::InteractiveLf] {
        assert_eq!(gather_inputs_and_outputs(&mode, &args(), &empty), Ok(vec![]));
    }
    assert_eq!(join_up(vec![], Some(s("o"))), vec![]);
    let gone = vec![FsEntry { path: s("w"), kind: EntryKind::Unreadable, children: vec![] }];
    assert_eq!(
        gather_inputs_and_outputs(&OutputMode::PrintToStdout, &args(), &gone),
        Err(TblError::IOError(s("w")))
    );
    let clash = DataArgs { paths: Some(vec![s("p/x.parquet"), s("q/x.parquet")]), output_dir: Some(s("o")), ..args() };
    let roots = vec![
        FsEntry { path: s("p/x.parquet"), kind: EntryKind::File, children: vec![] },
        FsEntry { path: s("q/x.parquet"), kind: EntryKind::File, children: vec![] },
    ];
    assert_eq!(
        gather_inputs_and_outputs(&OutputMode::SaveToDirectory, &clash, &roots),
        Err(TblError::DuplicateOutputError(s("o/x.parquet")))
    );
}

#[test]
fn names_and_types_in_turn() {
    let input = vec![s("flag"), s("bool"), s("n"), s("UINT64"), s("raw"), s("binary")];
    assert_eq!(
        parse_user_dtypes(&input),
        Ok((vec![s("flag"), s("n"), s("raw")], vec![DataType::Boolean, DataType::UInt64, DataType::Binary]))
    );
    assert_eq!(parse_user_dtypes(&vec![]), Ok((vec![], vec![])));
    assert_eq!(
        parse_user_dtypes(&vec![s("a")]),
        Err(TblError::ArgumentError(s("Input vector must have an even number of elements")))
    );
    assert_eq!(
        parse_user_dtypes(&vec![s("a"), s("int32"), s("b"), s("decimal"), s("c"), s("nope")]),
        Err(TblError::SchemaError(s("decimal")))
    );
}

#[test]
fn new_column_expressions() {
    let col = parse_new_column_expr("flag:bool=true").unwrap();
    assert_eq!((col.name.as_str(), &col.dtype, col.default_value.as_deref()), ("flag", &DataType::Boolean, Some("true")));
    let col = parse_new_column_expr("n:i64").unwrap();
    assert_eq!((col.name.as_str(), &col.dtype, col.default_value.as_deref()), ("n", &DataType::Int64, None));
    let col = parse_new_column_expr("t:string=a:b=c").unwrap();
    assert_eq!((col.name.as_str(), &col.dtype, col.default_value.as_deref()), ("t", &DataType::Utf8, Some("a:b=c")));
    let col = parse_new_column_expr("t:utf8=").unwrap();
    assert_eq!(col.default_value.as_deref(), Some(""));
    let col = parse_new_column_expr(":u8=1").unwrap();
    assert_eq!(col.name, "");
    assert_eq!(parse_new_column_expr("flag").unwrap_err(), TblError::ArgumentError(s("flag")));
    assert_eq!(parse_new_column_expr("flag=bool:true").unwrap_err(), TblError::SchemaError(s("true")));
    assert_eq!(parse_new_column_expr("d:date=2020-01-01").unwrap_err(), TblError::SchemaError(s("date")));
    assert_eq!(parse_new_column_expr("d:").unwrap_err(), TblError::SchemaError(s("")));
}

#[test]
fn every_file_must_hold_the_columns_to_drop() {
    let full = Schema::new(vec![Field::new(s("a"), DataType::Int8), Field::new(s("b"), DataType::Int8)]);
    let thin = Schema::new(vec![Field::new(s("a"), DataType::Int8)]);
    let inputs = vec![s("x.parquet"), s("y.parquet")];
    assert_eq!(check_columns_exist(&inputs, &vec![full.clone(), full.clone()], &vec![s("b"), s("a")]), Ok(()));
    assert_eq!(
        check_columns_exist(&inputs, &vec![full.clone(), thin.clone()], &vec![s("a"), s("b")]),
        Err(TblError::SchemaError(s("File does not contain column b: y.parquet")))
    );
    assert_eq!(
        check_columns_exist(&inputs, &vec![full.clone(), thin], &vec![s("a"), s("b"), s("c")]),
        Err(TblError::SchemaError(s("File does not contain column c: x.parquet")))
    );
    assert_eq!(
        check_columns_exist(&inputs, &vec![full.clone(), full.clone()], &vec![s("zz")]),
        Err(TblError::SchemaError(s("File does not contain column zz: x.parquet")))
    );
    assert_eq!(check_columns_exist(&inputs, &vec![full], &vec![]).unwrap_err().kind(), ErrorKind::Argument);
    assert_eq!(check_columns_exist(&vec![], &vec![], &vec![s("a")]), Ok(()));
}

#[test]
fn long_lists_are_shown_by_their_ends() {
    let paths: Vec<String> = (0..12).map(|i| format!("f{}.parquet", i)).collect();
    assert_eq!(
        preview_paths(&paths),
        vec![
            "f0.parquet", "f1.parquet", "f2.parquet", "f3.parquet", "f4.parquet", "...",
            "f7.parquet", "f8.parquet", "f9.parquet", "f10.parquet", "f11.parquet",
        ]
    );
    assert_eq!(preview_paths(&paths[..10].to_vec()), paths[..10].to_vec());
    assert_eq!(preview_paths(&paths[..11].to_vec()).len(), 11);
    assert_eq!(preview_paths(&vec![]), Vec::<String>::new());
}

#[test]
fn numbers_with_commas() {
    assert_eq!(format_with_commas(0), "0");
    assert_eq!(format_with_commas(7), "7");
    assert_eq!(format_with_commas(42), "42");
    assert_eq!(format_with_commas(999), "999");
    assert_eq!(format_with_commas(1000), "1,000");
    assert_eq!(format_with_commas(1005), "1,005");
    assert_eq!(format_with_commas(12_345), "12,345");
    assert_eq!(format_with_commas(1_234_567), "1,234,567");
    assert_eq!(format_with_commas(1_000_000), "1,000,000");
    assert_eq!(format_with_commas(u64::MAX), "18,446,744,073,709,551,615");
}

#[test]
fn new_columns_in_either_spelling() {
    let list = |texts: &[&str]| -> Vec<String> { texts.iter().map(|t| s(t)).collect() };
    assert_eq!(
        read_new_columns(&list(&["flag", "bool", "n", "i64"]), &Some(list(&["true", "1"]))),
        Ok((list(&["flag", "n"]), vec![DataType::Boolean, DataType::Int64], Some(list(&["true", "1"]))))
    );
    assert_eq!(
        read_new_columns(&list(&["flag", "bool"]), &None),
        Ok((list(&["flag"]), vec![DataType::Boolean], None))
    );
    assert_eq!(
        read_new_columns(&list(&["flag:bool=true", "n:i64=1"]), &None),
        Ok((list(&["flag", "n"]), vec![DataType::Boolean, DataType::Int64], Some(list(&["true", "1"]))))
    );
    assert_eq!(
        read_new_columns(&list(&["flag:bool", "n:i64"]), &Some(list(&["false", "2"]))),
        Ok((list(&["flag", "n"]), vec![DataType::Boolean, DataType::Int64], Some(list(&["false", "2"]))))
    );
    assert_eq!(
        read_new_columns(&list(&["flag:bool", "n:i64"]), &None),
        Ok((list(&["flag", "n"]), vec![DataType::Boolean, DataType::Int64], None))
    );
    assert_eq!(read_new_columns(&vec![], &None), Ok((vec![], vec![], None)));
}

#[test]
fn new_columns_with_mixed_defaults_are_refused() {
    let list = |texts: &[&str]| -> Vec<String> { texts.iter().map(|t| s(t)).collect() };
    let mixed = TblError::ArgumentError(s("give a default for every new column or for none"));
    assert_eq!(read_new_columns(&list(&["flag:bool=true", "n:i64"]), &None), Err(mixed.clone()));
    assert_eq!(
        read_new_columns(&list(&["flag:bool=true", "n:i64=1"]), &Some(list(&["a", "b"]))),
        Err(mixed)
    );
    assert_eq!(
        read_new_columns(&list(&["flag:bool=true", "n"]), &None),
        Err(TblError::ArgumentError(s("n")))
    );
    assert_eq!(
        read_new_columns(&list(&["flag:date"]), &None),
        Err(TblError::SchemaError(s("date")))
    );
    assert_eq!(
        read_new_columns(&list(&["flag", "bool", "n"]), &None),
        Err(TblError::ArgumentError(s("Input vector must have an even number of elements")))
    );
}
