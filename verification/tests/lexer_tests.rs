use apex_spec::{BlockKind, Lexer, ParseMode, Token};

#[test]
fn test_block_header_detection_strict() {
    assert_eq!(Lexer::is_block_header_strict("TASK"), Some(BlockKind::Task));
    assert_eq!(Lexer::is_block_header_strict("  PLAN  "), Some(BlockKind::Plan));
    assert_eq!(Lexer::is_block_header_strict("task"), None); // lowercase not valid in strict
    assert_eq!(Lexer::is_block_header_strict("TASK:"), None); // colon not valid
    assert_eq!(Lexer::is_block_header_strict("NOT_A_BLOCK"), None);
}

#[test]
fn test_block_header_detection_tolerant() {
    // Tolerant mode accepts any case
    assert_eq!(Lexer::is_block_header_tolerant("TASK"), Some((BlockKind::Task, false)));
    assert_eq!(Lexer::is_block_header_tolerant("task"), Some((BlockKind::Task, true)));
    assert_eq!(Lexer::is_block_header_tolerant("Task"), Some((BlockKind::Task, true)));
    assert_eq!(Lexer::is_block_header_tolerant("  plan  "), Some((BlockKind::Plan, true)));
    assert_eq!(Lexer::is_block_header_tolerant("TASK:"), None); // colon still not valid
}

#[test]
fn test_tolerant_mode_records_fixes() {
    let input = "task\nImplement feature\nplan\nStep 1";
    let mut lexer = Lexer::with_mode(input, ParseMode::Tolerant);
    let tokens = lexer.tokenize_all().unwrap();

    assert_eq!(tokens.len(), 5); // task, line, plan, line, EOF
    assert!(matches!(&tokens[0], Token::BlockHeader(BlockKind::Task, _)));
    assert!(matches!(&tokens[2], Token::BlockHeader(BlockKind::Plan, _)));

    // Check fixes were recorded
    assert_eq!(lexer.fixes.len(), 2);
    assert!(lexer.fixes[0].description.contains("task"));
    assert!(lexer.fixes[1].description.contains("plan"));
}

#[test]
fn test_simple_tokenize() {
    let input = "TASK\nImplement feature\nPLAN\nStep 1\nStep 2";
    let mut lexer = Lexer::new(input);
    let tokens = lexer.tokenize_all().unwrap();

    assert_eq!(tokens.len(), 6); // TASK, line, PLAN, line, line, EOF

    assert!(matches!(&tokens[0], Token::BlockHeader(BlockKind::Task, _)));
    assert!(matches!(&tokens[1], Token::Line(s, _) if s == "Implement feature"));
    assert!(matches!(&tokens[2], Token::BlockHeader(BlockKind::Plan, _)));
    assert!(matches!(&tokens[3], Token::Line(s, _) if s == "Step 1"));
    assert!(matches!(&tokens[4], Token::Line(s, _) if s == "Step 2"));
    assert!(matches!(&tokens[5], Token::Eof));
}

#[test]
fn test_empty_lines_preserved() {
    let input = "TASK\n\nLine after empty";
    let mut lexer = Lexer::new(input);
    let tokens = lexer.tokenize_all().unwrap();

    assert_eq!(tokens.len(), 4);
    assert!(matches!(&tokens[1], Token::Line(s, _) if s.is_empty()));
}

#[test]
fn test_lexer_cursor_and_reset() {
    let input = "TASK\nDo it";
    let mut lexer = Lexer::new(input);
    assert_eq!(lexer.mode(), ParseMode::Strict);
    assert!(!lexer.is_eof());
    assert_eq!(lexer.current_line_number(), 1);
    assert_eq!(lexer.peek_line(), Some(&"TASK".to_string()));

    let first = lexer.next_token().unwrap();
    assert!(matches!(first, Token::BlockHeader(BlockKind::Task, _)));
    assert_eq!(lexer.current_line_number(), 2);

    let _ = lexer.next_token().unwrap();
    assert!(lexer.is_eof());
    assert!(matches!(lexer.next_token().unwrap(), Token::Eof));

    lexer.reset();
    assert!(!lexer.is_eof());
    assert_eq!(lexer.current_line_number(), 1);
}

#[test]
fn test_token_span() {
    let input = "TASK\nwork";
    let mut lexer = Lexer::new(input);
    let tokens = lexer.tokenize_all().unwrap();
    let sp = tokens[1].span().unwrap();
    assert_eq!(sp.start_line, 2);
    assert_eq!(sp.end_line, 2);
    assert!(tokens[2].span().is_none());
}

#[test]
fn test_parse_mode_default() {
    assert_eq!(ParseMode::default(), ParseMode::Strict);
}

#[test]
fn test_crlf_lines() {
    let input = "TASK\r\nDo it\r\n";
    let mut lexer = Lexer::new(input);
    let tokens = lexer.tokenize_all().unwrap();
    assert_eq!(tokens.len(), 3);
    assert!(matches!(&tokens[0], Token::BlockHeader(BlockKind::Task, _)));
    assert!(matches!(&tokens[1], Token::Line(s, _) if s == "Do it"));
}
