use apex_spec::{normalize_constraint, parse_and_validate, BlockKind, Constraint, Precedence, Semantics};

#[test]
fn test_normalize_constraint() {
    // Basic normalization
    assert_eq!(normalize_constraint("No Mocks"), "no_mocks");
    assert_eq!(normalize_constraint("NO_MOCKS"), "no_mocks");
    assert_eq!(normalize_constraint("no-mocks"), "no_mocks");
    assert_eq!(normalize_constraint("  no mocks  "), "no_mocks");

    // Multiple separators collapse to single underscore
    assert_eq!(normalize_constraint("real   dbs   only"), "real_dbs_only");
    assert_eq!(normalize_constraint("real--dbs--only"), "real_dbs_only");

    // Special characters
    assert_eq!(normalize_constraint("< 300 LOC"), "300_loc");
    assert_eq!(normalize_constraint("API compatibility!"), "api_compatibility");

    // Already canonical
    assert_eq!(normalize_constraint("no_mocks"), "no_mocks");
    assert_eq!(normalize_constraint("lt300loc"), "lt300loc");
}

#[test]
fn test_constraint_parsing() {
    // Canonical forms
    assert_eq!(Constraint::from_str("no_mocks"), Constraint::NoMocks);
    assert_eq!(Constraint::from_str("real_dbs"), Constraint::RealDbsOnly);
    assert_eq!(Constraint::from_str("safe_refactor"), Constraint::SafeRefactor);
    assert_eq!(Constraint::from_str("api_compat"), Constraint::ApiCompat);

    // Natural language forms
    assert_eq!(Constraint::from_str("no mocks"), Constraint::NoMocks);
    assert_eq!(Constraint::from_str("NO MOCKS ALLOWED"), Constraint::NoMocks);
    assert_eq!(Constraint::from_str("real databases only"), Constraint::RealDbsOnly);
    assert_eq!(Constraint::from_str("safe refactoring"), Constraint::SafeRefactor);

    // LOC limits
    assert_eq!(Constraint::from_str("< 300 LOC"), Constraint::LtLoc(300));
    assert_eq!(Constraint::from_str("lt300loc"), Constraint::LtLoc(300));
    assert_eq!(Constraint::from_str("lt_500_loc"), Constraint::LtLoc(500));

    // Custom constraints get normalized
    let custom = Constraint::from_str("Custom Rule Here!");
    assert!(matches!(custom, Constraint::Other(s) if s == "custom_rule_here"));
}

#[test]
fn test_precedence_ordering() {
    assert!(Precedence::Constraints > Precedence::Task);
    assert!(Precedence::Task > Precedence::Goals);
    assert!(Precedence::Goals > Precedence::Plan);
    assert!(Precedence::Plan > Precedence::Context);
}

#[test]
fn test_precedence_for_block_and_level() {
    assert_eq!(Precedence::for_block(BlockKind::Constraints), Precedence::Constraints);
    assert_eq!(Precedence::for_block(BlockKind::Task), Precedence::Task);
    assert_eq!(Precedence::for_block(BlockKind::Goals), Precedence::Goals);
    assert_eq!(Precedence::for_block(BlockKind::Plan), Precedence::Plan);
    assert_eq!(Precedence::for_block(BlockKind::Diff), Precedence::Context);
    assert_eq!(Precedence::for_block(BlockKind::Meta), Precedence::Context);
    assert_eq!(Precedence::Context.level(), 1);
    assert_eq!(Precedence::Plan.level(), 2);
    assert_eq!(Precedence::Goals.level(), 3);
    assert_eq!(Precedence::Task.level(), 4);
    assert_eq!(Precedence::Constraints.level(), 5);
}

#[test]
fn test_constraint_as_str() {
    assert_eq!(Constraint::RealDbsOnly.as_str(), "real_dbs_only");
    assert_eq!(Constraint::NoMocks.as_str(), "no_mocks");
    assert_eq!(Constraint::LtLoc(300).as_str(), "lt_300_loc");
    assert_eq!(Constraint::SafeRefactor.as_str(), "safe_refactor");
    assert_eq!(Constraint::ApiCompat.as_str(), "api_compat");
    assert_eq!(Constraint::NoStubs.as_str(), "no_stubs");
    assert_eq!(Constraint::RequireTests.as_str(), "require_tests");
    assert_eq!(Constraint::Other("custom_rule".to_string()).as_str(), "custom_rule");
}

#[test]
fn test_complexity_buckets() {
    fn complexity_for(steps: usize) -> u8 {
        let mut input = String::from("TASK\nWork\n\nPLAN\n");
        for i in 0..steps {
            input.push_str(&format!("Step {}\n", i + 1));
        }
        let validated = parse_and_validate(&input).unwrap();
        Semantics::from_validated(&validated).complexity
    }
    assert_eq!(complexity_for(2), 1);
    assert_eq!(complexity_for(3), 2);
    assert_eq!(complexity_for(5), 2);
    assert_eq!(complexity_for(6), 3);
    assert_eq!(complexity_for(10), 3);
    assert_eq!(complexity_for(11), 4);
    assert_eq!(complexity_for(20), 4);
    assert_eq!(complexity_for(21), 5);

    // no plan at all
    let validated = parse_and_validate("TASK\nWork").unwrap();
    let sem = Semantics::from_validated(&validated);
    assert_eq!(sem.complexity, 1);
    assert!(!sem.requires_plan);
}

#[test]
fn test_requires_plan_heuristic() {
    let validated = parse_and_validate("TASK\nWork\n\nGOALS\nOne goal").unwrap();
    assert!(!Semantics::from_validated(&validated).requires_plan);
    let validated = parse_and_validate("TASK\nWork\n\nGOALS\nFirst\nSecond").unwrap();
    assert!(Semantics::from_validated(&validated).requires_plan);
}

#[test]
fn test_semantics_queries() {
    let input = "TASK\nWork\n\nCONSTRAINTS\nno stubs allowed\nrequire tests\nSome Unusual Rule!";
    let validated = parse_and_validate(input).unwrap();
    let sem = Semantics::from_validated(&validated);
    assert!(sem.forbids_stubs());
    assert!(sem.requires_tests());
    assert!(!sem.forbids_mocks());
    assert!(!sem.requires_real_dbs());
    assert!(!sem.requires_safe_refactor());
    assert!(!sem.requires_api_compat());
    assert_eq!(sem.loc_limit(), None);
    assert_eq!(sem.custom_constraints(), vec!["some_unusual_rule".to_string()]);
}
