use apex_spec::{ApexDocument, Block, BlockKind, Span};

#[test]
fn test_block_kind_from_str() {
    assert_eq!(BlockKind::from_str("TASK"), Some(BlockKind::Task));
    assert_eq!(BlockKind::from_str("task"), Some(BlockKind::Task));
    assert_eq!(BlockKind::from_str("Task"), Some(BlockKind::Task));
    assert_eq!(BlockKind::from_str("UNKNOWN"), None);
}

#[test]
fn test_block_content() {
    let block = Block::new(
        BlockKind::Plan,
        vec![
            "  Step 1: Do something  ".to_string(),
            "".to_string(),
            "  Step 2: Do another  ".to_string(),
        ],
        Span::new(1, 3),
    );

    assert_eq!(
        block.content_lines(),
        vec!["Step 1: Do something".to_string(), "Step 2: Do another".to_string()]
    );
    assert!(!block.is_empty());
}

#[test]
fn test_document_accessors() {
    let doc = ApexDocument::with_blocks(vec![
        Block::new(BlockKind::Task, vec!["Implement feature".to_string()], Span::line(1)),
        Block::new(BlockKind::Plan, vec!["Step 1".to_string()], Span::line(3)),
    ]);

    assert!(doc.task().is_some());
    assert!(doc.plan().is_some());
    assert!(doc.goals().is_none());
    assert_eq!(doc.count_blocks(BlockKind::Task), 1);
}

#[test]
fn test_span_merge() {
    let a = Span { start_line: 2, end_line: 5, start_col: 3, end_col: 7 };
    let b = Span { start_line: 4, end_line: 9, start_col: 1, end_col: 2 };
    let m = a.merge(&b);
    assert_eq!(m.start_line, 2);
    assert_eq!(m.end_line, 9);
    assert_eq!(m.start_col, 3);
    assert_eq!(m.end_col, 2);
}

#[test]
fn test_span_default_and_line() {
    assert_eq!(Span::default(), Span::new(1, 1));
    assert_eq!(Span::line(7), Span::new(7, 7));
}

#[test]
fn test_block_kind_names_and_flags() {
    assert_eq!(BlockKind::Task.as_str(), "TASK");
    assert_eq!(BlockKind::Meta.as_str(), "META");
    assert!(BlockKind::Task.is_required());
    assert!(!BlockKind::Goals.is_required());
    assert!(BlockKind::Context.allows_empty());
    assert!(BlockKind::Meta.allows_empty());
    assert!(!BlockKind::Plan.allows_empty());
}

#[test]
fn test_block_is_empty_whitespace() {
    let block = Block::new(
        BlockKind::Task,
        vec!["   ".to_string(), "\t".to_string()],
        Span::new(1, 2),
    );
    assert!(block.is_empty());
    assert_eq!(block.content(), "");
}

#[test]
fn test_document_get_blocks() {
    let doc = ApexDocument::with_blocks(vec![
        Block::new(BlockKind::Task, vec!["First".to_string()], Span::line(1)),
        Block::new(BlockKind::Goals, vec!["G".to_string()], Span::line(3)),
        Block::new(BlockKind::Task, vec!["Second".to_string()], Span::line(5)),
    ]);
    let tasks = doc.get_blocks(BlockKind::Task);
    assert_eq!(tasks.len(), 2);
    assert_eq!(tasks[1].span.start_line, 5);
    assert!(ApexDocument::new().blocks.is_empty());
    assert!(ApexDocument::default().version.is_none());
}
