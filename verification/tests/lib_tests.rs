use apex_spec::{
    canonicalize, parse_and_validate, parse_full, Semantics, APEX_MIN_VERSION, APEX_VERSION,
};

#[test]
fn test_parse_and_validate() {
    let input = "TASK\nDo something important";
    let validated = parse_and_validate(input).unwrap();
    assert_eq!(validated.task.line, "Do something important");
}

#[test]
fn test_parse_full() {
    let input = r#"TASK
Build feature

PLAN
Step 1
Step 2

CONSTRAINTS
Be safe
"#;
    let plan = parse_full(input).unwrap();
    assert_eq!(plan.task, "Build feature");
    assert_eq!(plan.steps.len(), 2);
    assert_eq!(plan.constraints.len(), 1);
}

#[test]
fn test_round_trip() {
    let input = r#"TASK
Implement caching layer

GOALS
Reduce latency
Improve throughput

PLAN
Analyze current performance
Identify hot paths
Implement cache
Benchmark results

CONSTRAINTS
No breaking API changes
Must pass existing tests

VALIDATION
Latency reduced by 50%

TOOLS
read_file(path)
write_file(path, content)
benchmark_run()

META
version=1.0
author=test
"#;
    let plan = parse_full(input).unwrap();

    assert_eq!(plan.task, "Implement caching layer");
    assert_eq!(plan.goals.len(), 2);
    assert_eq!(plan.steps.len(), 4);
    assert_eq!(plan.constraints.len(), 2);
    assert_eq!(plan.validation.len(), 1);
    assert_eq!(plan.available_tools.len(), 3);

    // tool count 3 != step count 4, so binding is heuristic, not positional
    assert!(plan.steps[0].tool.is_none()); // "Analyze current performance"
    assert!(plan.steps[3].tool.is_none()); // "Benchmark results"
}

#[test]
fn test_semantics_extraction() {
    let input = r#"TASK
Refactor module

CONSTRAINTS
No mocks allowed
Real databases only
< 300 LOC per file
Safe refactoring
API compatibility required
"#;
    let validated = parse_and_validate(input).unwrap();
    let sem = Semantics::from_validated(&validated);

    assert!(sem.forbids_mocks());
    assert!(sem.requires_real_dbs());
    assert_eq!(sem.loc_limit(), Some(300));
    assert!(sem.requires_safe_refactor());
    assert!(sem.requires_api_compat());
}

#[test]
fn test_error_handling() {
    // Missing TASK
    let result = parse_and_validate("PLAN\nStep 1");
    assert!(result.is_err());

    // Multiple TASKs
    let result = parse_and_validate("TASK\nFirst\nTASK\nSecond");
    assert!(result.is_err());

    // Empty TASK
    let result = parse_and_validate("TASK\n\nPLAN\nStep 1");
    assert!(result.is_err());
}

#[test]
fn test_version_constants() {
    assert_eq!(APEX_VERSION, "1.1");
    assert_eq!(APEX_MIN_VERSION, "1.0");
}

#[test]
fn test_single_task_yields_empty_plan() {
    let plan = parse_full("TASK\nOnly a task").unwrap();
    assert!(plan.steps.is_empty());
    assert!(plan.goals.is_empty());
    assert!(plan.constraints.is_empty());
    assert!(plan.validation.is_empty());
    assert!(plan.available_tools.is_empty());
}

#[test]
fn test_canonicalize_twice_is_stable() {
    let inputs = vec![
        "No Mocks",
        "  real   dbs   only ",
        "< 300 LOC",
        "API compatibility!",
        "",
        "___",
        "--already--weird--",
    ];
    for input in inputs {
        let once = canonicalize(input);
        let twice = canonicalize(&once);
        assert_eq!(once, twice);
    }
}
