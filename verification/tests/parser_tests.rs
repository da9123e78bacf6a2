use apex_spec::{parse_str, ParserConfig};

#[test]
fn test_minimal_document() {
    let input = "TASK\nImplement the thing";
    let doc = parse_str(input).unwrap();

    assert_eq!(doc.blocks.len(), 1);
    assert_eq!(doc.task().unwrap().content(), "Implement the thing");
}

#[test]
fn test_multi_block_document() {
    let input = r#"TASK
Implement feature X

GOALS
Feature works correctly
All tests pass

PLAN
Step 1: Analyze requirements
Step 2: Write code
Step 3: Test

CONSTRAINTS
No breaking changes
Must be backward compatible"#;

    let doc = parse_str(input).unwrap();

    assert_eq!(doc.blocks.len(), 4);
    assert!(doc.task().is_some());
    assert!(doc.goals().is_some());
    assert!(doc.plan().is_some());
    assert!(doc.constraints().is_some());

    let plan = doc.plan().unwrap();
    assert_eq!(plan.content_lines().len(), 3);
}

#[test]
fn test_all_block_types() {
    let input = r#"TASK
Do something

GOALS
Succeed

PLAN
Step 1

CONSTRAINTS
Be safe

VALIDATION
Check results

TOOLS
tool_name(arg)

DIFF
file.rs: +10 -5

CONTEXT
Background info

META
version=1.0"#;

    let doc = parse_str(input).unwrap();

    assert!(doc.task().is_some());
    assert!(doc.goals().is_some());
    assert!(doc.plan().is_some());
    assert!(doc.constraints().is_some());
    assert!(doc.validation().is_some());
    assert!(doc.tools().is_some());
    assert!(doc.diff().is_some());
    assert!(doc.context().is_some());
    assert!(doc.meta().is_some());
}

#[test]
fn test_leading_whitespace() {
    let input = "\n\n  \nTASK\nDo it";
    let doc = parse_str(input).unwrap();

    assert_eq!(doc.blocks.len(), 1);
    assert!(doc.task().is_some());
}

#[test]
fn test_empty_input() {
    let input = "";
    let doc = parse_str(input).unwrap();
    assert!(doc.blocks.is_empty());
}

#[test]
fn test_leading_content_discarded() {
    let input = "stray text before any header\nTASK\nDo it";
    let doc = parse_str(input).unwrap();
    assert_eq!(doc.blocks.len(), 1);
    assert_eq!(doc.task().unwrap().content(), "Do it");
}

#[test]
fn test_block_spans() {
    let input = "TASK\nline a\nline b\n\nPLAN";
    let doc = parse_str(input).unwrap();
    let task = doc.task().unwrap();
    assert_eq!(task.span.start_line, 1);
    assert_eq!(task.span.end_line, 4);
    let plan = doc.plan().unwrap();
    assert_eq!(plan.span.start_line, 5);
    assert_eq!(plan.span.end_line, 5);
    assert!(plan.lines.is_empty());
}

#[test]
fn test_parser_config_presets() {
    let d = ParserConfig::default();
    assert!(!d.allow_unknown_blocks && d.allow_leading_content && !d.strict);
    let s = ParserConfig::strict();
    assert!(!s.allow_unknown_blocks && !s.allow_leading_content && s.strict);
    let t = ParserConfig::tolerant();
    assert!(t.allow_unknown_blocks && t.allow_leading_content && !t.strict);
}
