use tbl_core::error::TblError;
use tbl_core::paths::{
    common_components, convert_file_path, create_tmp_target, get_common_prefix, get_output_path,
    is_tabular_file, rename_file, splice_file_name,
};

fn s(text: &str) -> String {
    text.to_string()
}

#[test]
fn tabular_files_end_in_parquet() {
    assert!(is_tabular_file("a/b/data.parquet"));
    assert!(is_tabular_file("data.tar.parquet"));
    assert!(!is_tabular_file("data.csv"));
    assert!(!is_tabular_file("data.PARQUET"));
    assert!(!is_tabular_file("parquet"));
    assert!(!is_tabular_file(".parquet"));
    assert!(!is_tabular_file("dir/"));
    assert!(!is_tabular_file(""));
}

#[test]
fn splice_puts_affixes_around_the_stem() {
    assert_eq!(splice_file_name("data", &Some(s("parquet")), &Some(s("p_")), &Some(s("_q"))), "p_data_q.parquet");
    assert_eq!(splice_file_name("data", &Some(s("parquet")), &None, &None), "data.parquet");
    assert_eq!(splice_file_name("data", &None, &Some(s("p_")), &None), "p_data");
    assert_eq!(splice_file_name("", &None, &None, &Some(s("x"))), "x");
}

#[test]
fn convert_moves_into_the_output_dir() {
    let out = convert_file_path("root/data1/a.parquet", &Some(s("other")), &None, &None);
    assert_eq!(out, Ok(s("other/a.parquet")));
    let out = convert_file_path("root/data1/a.parquet", &None, &None, &None);
    assert_eq!(out, Ok(s("root/data1/a.parquet")));
}

#[test]
fn convert_renames_in_place() {
    let out = convert_file_path("root/a.parquet", &None, &Some(s("new_")), &None);
    assert_eq!(out, Ok(s("root/new_a.parquet")));
    let out = convert_file_path("root/a.parquet", &None, &None, &Some(s("_old")));
    assert_eq!(out, Ok(s("root/a_old.parquet")));
    let out = convert_file_path("root/a.tar.gz", &Some(s("out")), &Some(s("x")), &Some(s("y")));
    assert_eq!(out, Ok(s("out/xa.tary.gz")));
    let out = convert_file_path("noext", &None, &Some(s("x")), &None);
    assert_eq!(out, Ok(s("xnoext")));
}

#[test]
fn convert_refuses_paths_without_a_file_name() {
    let out = convert_file_path("root/..", &Some(s("out")), &None, &None);
    assert_eq!(out, Err(TblError::ArgumentError(s("root/.."))));
    let out = convert_file_path("/", &None, &Some(s("p")), &None);
    assert_eq!(out, Err(TblError::ArgumentError(s("/"))));
    let out = convert_file_path("..", &None, &None, &None);
    assert_eq!(out, Ok(s("..")));
}

#[test]
fn rename_file_alone() {
    assert_eq!(rename_file(s("a/b.parquet"), &None, &None), Ok(s("a/b.parquet")));
    assert_eq!(rename_file(s("a/b.parquet"), &Some(s("z")), &None), Ok(s("a/zb.parquet")));
    assert_eq!(rename_file(s("a/.."), &Some(s("z")), &None), Err(TblError::ArgumentError(s("a/.."))));
}

#[test]
fn tmp_target_appends_to_the_stem() {
    assert_eq!(create_tmp_target("root/data.parquet"), "root/data_tmp.parquet");
    assert_eq!(create_tmp_target("data.parquet"), "data_tmp.parquet");
    assert_eq!(create_tmp_target("root/data"), "root/data_tmp");
    assert_eq!(create_tmp_target("root/a.b.parquet"), "root/a.b_tmp.parquet");
    assert_eq!(create_tmp_target("/"), "/");
    assert_eq!(create_tmp_target(".."), "..");
}

#[test]
fn common_prefix_of_paths() {
    let paths = vec![s("root/data1/a.parquet"), s("root/data1/sub/b.parquet"), s("root/data2/c.parquet")];
    assert_eq!(get_common_prefix(&paths), Ok(s("root")));
    let paths = vec![s("/x/y/a.parquet"), s("/x/y/b.parquet")];
    assert_eq!(get_common_prefix(&paths), Ok(s("/x/y")));
    let paths = vec![s("a/b"), s("c/d")];
    assert_eq!(get_common_prefix(&paths), Ok(s("")));
    let paths = vec![s("only/one.parquet")];
    assert_eq!(get_common_prefix(&paths), Ok(s("only/one.parquet")));
    let paths = vec![s("ab/c"), s("a/c")];
    assert_eq!(get_common_prefix(&paths), Ok(s("")));
}

#[test]
fn common_prefix_needs_a_path() {
    assert_eq!(get_common_prefix(&vec![]), Err(TblError::ArgumentError(s("no paths given"))));
}

#[test]
fn common_components_of_lists() {
    let lists = vec![vec![s("a"), s("b"), s("c")], vec![s("a"), s("b")], vec![s("a"), s("b"), s("d")]];
    assert_eq!(common_components(&lists), vec![s("a"), s("b")]);
    let lists = vec![vec![s("a")], vec![]];
    assert_eq!(common_components(&lists), Vec::<String>::new());
    assert_eq!(common_components(&vec![]), Vec::<String>::new());
    let lists = vec![vec![s("x"), s("y")]];
    assert_eq!(common_components(&lists), vec![s("x"), s("y")]);
}

#[test]
fn output_path_by_directory_and_root() {
    let out = get_output_path(s("root/d/a.parquet"), None, None, None, None);
    assert_eq!(out, "root/d/a.parquet");
    let out = get_output_path(s("root/d/a.parquet"), None, None, Some(s("p_")), Some(s("_q")));
    assert_eq!(out, "root/d/p_a_q.parquet");
    let out = get_output_path(s("root/d/a.parquet"), Some(s("out")), None, Some(s("p_")), None);
    assert_eq!(out, "out/p_a.parquet");
    let out = get_output_path(s("root/data1/a.parquet"), Some(s("out")), None, None, None);
    assert_eq!(out, "out/a.parquet");
    let out = get_output_path(s("root/d/a.parquet"), Some(s("out")), Some(s("root")), None, Some(s("_q")));
    assert_eq!(out, "out/d/a_q.parquet");
    let out = get_output_path(s("root/data1/a.parquet"), Some(s("out")), Some(s("root")), Some(s("p_")), None);
    assert_eq!(out, "out/data1/p_a.parquet");
    let out = get_output_path(s("root/d/a.parquet"), Some(s("out")), Some(s("other")), None, None);
    assert_eq!(out, "out/root/d/a.parquet");
}
