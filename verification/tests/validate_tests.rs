use apex_spec::{parse_str, validate};

#[test]
fn test_valid_minimal() {
    let doc = parse_str("TASK\nDo the thing").unwrap();
    let validated = validate(doc).unwrap();

    assert_eq!(validated.task.line, "Do the thing");
}

#[test]
fn test_missing_task() {
    let doc = parse_str("PLAN\nStep 1").unwrap();
    let result = validate(doc);

    assert!(result.is_err());
    assert!(result.unwrap_err().render().contains("MissingTask"));
}

#[test]
fn test_multiple_tasks() {
    let doc = parse_str("TASK\nFirst\nTASK\nSecond").unwrap();
    let result = validate(doc);

    assert!(result.is_err());
    assert!(result.unwrap_err().render().contains("MultipleTasks"));
}

#[test]
fn test_empty_task() {
    let doc = parse_str("TASK\n\nPLAN\nStep 1").unwrap();
    let result = validate(doc);

    assert!(result.is_err());
    assert!(result.unwrap_err().render().contains("EmptyRequiredBlock"));
}

#[test]
fn test_tool_parsing() {
    let doc = parse_str(
        "TASK\nDo it\nTOOLS\nread_file(path)\nwrite_file(path, content)\nsimple_tool",
    )
    .unwrap();
    let validated = validate(doc).unwrap();

    let tools = validated.tools.unwrap();
    assert_eq!(tools.tools.len(), 3);
    assert_eq!(tools.tools[0].name, "read_file");
    assert_eq!(tools.tools[0].arguments, Some("path".to_string()));
    assert_eq!(tools.tools[2].name, "simple_tool");
    assert_eq!(tools.tools[2].arguments, None);
}

#[test]
fn test_meta_parsing() {
    let doc = parse_str("TASK\nDo it\nMETA\nversion=1.0\nauthor: Feanor\nformat = apex").unwrap();
    let validated = validate(doc).unwrap();

    let meta = validated.meta.unwrap();
    assert_eq!(meta.get("version"), Some(&"1.0".to_string()));
    assert_eq!(meta.get("author"), Some(&"Feanor".to_string()));
    assert_eq!(meta.get("format"), Some(&"apex".to_string()));
}

#[test]
fn test_multiple_tasks_reports_second_line() {
    let doc = parse_str("TASK\nFirst\n\nTASK\nSecond").unwrap();
    let err = validate(doc).unwrap_err();
    assert_eq!(err.line, Some(4));
}

#[test]
fn test_empty_optional_block_warns() {
    let doc = parse_str("TASK\nDo it\n\nGOALS\n\nCONTEXT\n").unwrap();
    let validated = validate(doc).unwrap();
    assert!(validated.warnings.iter().any(|w| w == "Empty GOALS block"));
    // CONTEXT allows emptiness and never warns
    assert!(!validated.warnings.iter().any(|w| w.contains("CONTEXT")));
}

#[test]
fn test_meta_repeated_key_last_wins() {
    let doc = parse_str("TASK\nDo it\nMETA\nversion=1.0\nversion=2.0").unwrap();
    let validated = validate(doc).unwrap();
    let meta = validated.meta.unwrap();
    assert_eq!(meta.get("version"), Some(&"2.0".to_string()));
}

#[test]
fn test_meta_malformed_lines_skipped() {
    let doc = parse_str("TASK\nDo it\nMETA\njust a line\nkey=value").unwrap();
    let validated = validate(doc).unwrap();
    let meta = validated.meta.unwrap();
    assert_eq!(meta.entries.len(), 1);
    assert_eq!(meta.get("key"), Some(&"value".to_string()));
    assert!(meta.get("just a line").is_none());
    assert!(meta.parse_fixes().is_none());
}

#[test]
fn test_tool_declaration_unclosed_paren() {
    let doc = parse_str("TASK\nDo it\nTOOLS\nread_file(path").unwrap();
    let validated = validate(doc).unwrap();
    let tools = validated.tools.unwrap();
    assert_eq!(tools.tools[0].name, "read_file");
    assert_eq!(tools.tools[0].arguments, Some("path".to_string()));
    assert_eq!(tools.tools[0].raw, "read_file(path");
}

#[test]
fn test_whitespace_only_task_rejected() {
    let doc = parse_str("TASK\n   \n\t\nPLAN\nStep 1").unwrap();
    let err = validate(doc).unwrap_err();
    assert!(err.render().contains("EmptyRequiredBlock"));
    assert_eq!(err.message, "TASK block cannot be empty");
    assert_eq!(err.line, Some(1));
}
