use clex::args::{parse, ArgError, CompileStage};

#[test]
fn test_parse_path() {
    let args = vec!["program".to_string(), "/path/to/file.c".to_string()];
    let (file_path, compile_stage) = parse(args).unwrap();

    assert_eq!(file_path, "/path/to/file.c");
    assert!(file_path.ends_with("file.c"));
    assert_eq!(compile_stage, CompileStage::All);
}

#[test]
fn test_parse_no_flag() {
    let args = vec!["program".to_string(), "file.c".to_string()];
    let (file_path, compile_stage) = parse(args).unwrap();
    assert_eq!(file_path, "file.c");
    assert_eq!(compile_stage, CompileStage::All);
}

#[test]
fn test_parse_lex_flag() {
    let args = vec![
        "program".to_string(),
        "--lex".to_string(),
        "file.c".to_string(),
    ];
    let (file_path, compile_stage) = parse(args).unwrap();
    assert_eq!(file_path, "file.c");
    assert_eq!(compile_stage, CompileStage::Lex);
}

#[test]
fn test_parse_parse_flag() {
    let args = vec![
        "program".to_string(),
        "--parse".to_string(),
        "file.c".to_string(),
    ];
    let (file_path, compile_stage) = parse(args).unwrap();
    assert_eq!(file_path, "file.c");
    assert_eq!(compile_stage, CompileStage::Parse);
}

#[test]
fn test_parse_code_gen_flag() {
    let args = vec![
        "program".to_string(),
        "--code-gen".to_string(),
        "file.c".to_string(),
    ];
    let (file_path, compile_stage) = parse(args).unwrap();
    assert_eq!(file_path, "file.c");
    assert_eq!(compile_stage, CompileStage::CodeGen);
}

#[test]
fn test_parse_emit_assembly_flag() {
    let args = vec![
        "program".to_string(),
        "-S".to_string(),
        "file.c".to_string(),
    ];
    let (file_path, compile_stage) = parse(args).unwrap();
    assert_eq!(file_path, "file.c");
    assert_eq!(compile_stage, CompileStage::EmitCode);
}

#[test]
fn test_parse_no_file() {
    let args = vec!["program".to_string()];
    let err = parse(args).unwrap_err();
    assert!(matches!(err, ArgError::NoSourceFile));
}

#[test]
fn test_parse_no_file_with_flag() {
    let args = vec!["program".to_string(), "--lex".to_string()];
    let err = parse(args).unwrap_err();
    assert!(matches!(err, ArgError::NoSourceFile));
}

#[test]
fn test_parse_unknown_flag() {
    let args = vec![
        "program".to_string(),
        "file.c".to_string(),
        "--unknown".to_string(),
    ];
    let err = parse(args).unwrap_err();
    match err {
        ArgError::Unknown { arg } => assert_eq!(arg, "--unknown"),
        _ => panic!("Expected an unknown-argument error"),
    }
}

#[test]
fn test_parse_multiple_flags() {
    let args = vec![
        "program".to_string(),
        "--lex".to_string(),
        "--parse".to_string(),
        "file.c".to_string(),
    ];
    let err = parse(args).unwrap_err();
    assert!(matches!(err, ArgError::ConflictingFlags));
}

#[test]
fn test_parse_help_flag() {
    let args = vec!["program".to_string(), "--help".to_string()];
    let err = parse(args).unwrap_err();
    assert!(matches!(err, ArgError::Help));

    let args = vec!["program".to_string(), "-h".to_string()];
    let err = parse(args).unwrap_err();
    assert!(matches!(err, ArgError::Help));
}

#[test]
fn test_parse_repeated_flag() {
    let args = vec![
        "program".to_string(),
        "--lex".to_string(),
        "--lex".to_string(),
        "file.c".to_string(),
    ];
    let (file_path, compile_stage) = parse(args).unwrap();
    assert_eq!(file_path, "file.c");
    assert_eq!(compile_stage, CompileStage::Lex);
}

#[test]
fn test_parse_two_files() {
    let args = vec![
        "program".to_string(),
        "a.c".to_string(),
        "b.c".to_string(),
    ];
    let (file_path, compile_stage) = parse(args).unwrap();
    assert_eq!(file_path, "a.c/b.c");
    assert_eq!(compile_stage, CompileStage::All);
}

#[test]
fn test_parse_second_file_absolute() {
    let args = vec![
        "program".to_string(),
        "a.c".to_string(),
        "/b.c".to_string(),
    ];
    let (file_path, _) = parse(args).unwrap();
    assert_eq!(file_path, "/b.c");
}
