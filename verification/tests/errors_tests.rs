use apex_spec::{ApexError, ApexErrorKind};

#[test]
fn test_error_display() {
    let err = ApexError::missing_task();
    assert!(err.render().contains("MissingTask"));
    assert!(err.render().contains("TASK block"));
}

#[test]
fn test_error_with_line() {
    let err = ApexError::parse("unexpected token".to_string(), Some(42));
    assert_eq!(err.line, Some(42));
    assert!(err.render().contains("line 42"));
}

#[test]
fn test_error_render_exact() {
    let err = ApexError::multiple_tasks(7);
    assert_eq!(
        err.render(),
        "[MultipleTasks] APEX document contains multiple TASK blocks (line 7)"
    );
    let err = ApexError::missing_task();
    assert_eq!(
        err.render(),
        "[MissingTask] APEX document must contain exactly one TASK block"
    );
}

#[test]
fn test_error_constructors() {
    let e = ApexError::empty_block("TASK", Some(3));
    assert_eq!(e.kind, ApexErrorKind::EmptyRequiredBlock);
    assert_eq!(e.message, "TASK block cannot be empty");
    assert_eq!(e.line, Some(3));

    let e = ApexError::unknown_block("WEIRD", None);
    assert_eq!(e.kind, ApexErrorKind::UnknownBlock);
    assert_eq!(e.message, "Unknown block identifier: WEIRD");

    let e = ApexError::constraint_violation("no_mocks", "a mock was used");
    assert_eq!(e.kind, ApexErrorKind::ConstraintViolation);
    assert_eq!(e.message, "Constraint 'no_mocks' violated: a mock was used");

    let e = ApexError::validation_failure("tests pass");
    assert_eq!(e.kind, ApexErrorKind::ValidationFailure);
    assert_eq!(e.message, "Validation failed: tests pass");

    let e = ApexError::lex("bad token".to_string(), Some(2));
    assert_eq!(e.kind, ApexErrorKind::LexError);

    let e = ApexError::new(ApexErrorKind::InternalError, "oops".to_string())
        .with_line(1)
        .with_column(4);
    assert_eq!(e.line, Some(1));
    assert_eq!(e.column, Some(4));
}

#[test]
fn test_error_kind_names() {
    assert_eq!(ApexErrorKind::LexError.as_str(), "LexError");
    assert_eq!(ApexErrorKind::ParseError.as_str(), "ParseError");
    assert_eq!(ApexErrorKind::MissingTask.as_str(), "MissingTask");
    assert_eq!(ApexErrorKind::MultipleTasks.as_str(), "MultipleTasks");
    assert_eq!(ApexErrorKind::EmptyRequiredBlock.as_str(), "EmptyRequiredBlock");
    assert_eq!(ApexErrorKind::UnknownBlock.as_str(), "UnknownBlock");
    assert_eq!(ApexErrorKind::InvalidToolName.as_str(), "InvalidToolName");
    assert_eq!(ApexErrorKind::ConstraintViolation.as_str(), "ConstraintViolation");
    assert_eq!(ApexErrorKind::ValidationFailure.as_str(), "ValidationFailure");
    assert_eq!(ApexErrorKind::InternalError.as_str(), "InternalError");
}
