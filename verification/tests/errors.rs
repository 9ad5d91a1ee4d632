use tbl_core::error::{ErrorKind, TblError};

#[test]
fn every_kind_has_its_label() {
    let cases = [
        (TblError::ArgumentError("a".to_string()), ErrorKind::Argument, "Argument error: a"),
        (
            TblError::PathResolutionError("p".to_string()),
            ErrorKind::PathResolution,
            "Path resolution error: p",
        ),
        (
            TblError::DuplicateOutputError("d".to_string()),
            ErrorKind::DuplicateOutput,
            "Duplicate output path: d",
        ),
        (TblError::SchemaError("s".to_string()), ErrorKind::Schema, "Schema error: s"),
        (TblError::IOError("i".to_string()), ErrorKind::IO, "IO error: i"),
        (
            TblError::ConcurrencyError("c".to_string()),
            ErrorKind::Concurrency,
            "Concurrency error: c",
        ),
    ];
    for (error, kind, message) in cases {
        assert_eq!(error.kind(), kind);
        assert_eq!(error.message(), message);
        assert_eq!(error.detail().len(), 1);
        assert_eq!(error.clone(), error);
    }
}
