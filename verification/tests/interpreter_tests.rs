use apex_spec::{
    build_execution_plan, parse_str, validate, ExecutionState, ExecutionStep, StepStatus,
    ToolInvocation, ValidatedDocument,
};

fn parse_and_validate_doc(input: &str) -> ValidatedDocument {
    let doc = parse_str(input).unwrap();
    validate(doc).unwrap()
}

#[test]
fn test_minimal_plan() {
    let validated = parse_and_validate_doc("TASK\nDo the thing");
    let plan = build_execution_plan(&validated).unwrap();

    assert_eq!(plan.task, "Do the thing");
    assert!(plan.steps.is_empty());
    assert!(plan.goals.is_empty());
}

#[test]
fn test_full_plan() {
    let input = r#"TASK
Implement feature X

GOALS
Feature works
Tests pass

PLAN
Step 1: Read requirements
Step 2: Write code
Step 3: Run tests

CONSTRAINTS
No breaking changes

VALIDATION
All tests pass
"#;
    let validated = parse_and_validate_doc(input);
    let plan = build_execution_plan(&validated).unwrap();

    assert_eq!(plan.task, "Implement feature X");
    assert_eq!(plan.goals.len(), 2);
    assert_eq!(plan.steps.len(), 3);
    assert_eq!(plan.constraints.len(), 1);
    assert_eq!(plan.validation.len(), 1);

    // Check sequential dependencies
    assert!(plan.steps[0].depends_on.is_empty());
    assert_eq!(plan.steps[1].depends_on, vec![1]);
    assert_eq!(plan.steps[2].depends_on, vec![2]);
}

#[test]
fn test_tool_matching_1_to_1() {
    let input = r#"TASK
Do something

PLAN
Read the file
Write the output

TOOLS
read_file(path)
write_file(path, content)
"#;
    let validated = parse_and_validate_doc(input);
    let plan = build_execution_plan(&validated).unwrap();

    assert_eq!(plan.steps.len(), 2);
    assert!(plan.steps[0].tool.is_some());
    assert_eq!(plan.steps[0].tool.as_ref().unwrap().name, "read_file");
    assert!(plan.steps[1].tool.is_some());
    assert_eq!(plan.steps[1].tool.as_ref().unwrap().name, "write_file");
}

#[test]
fn test_tool_matching_heuristic() {
    let input = r#"TASK
Analyze code

PLAN
Search for function definitions
Read the main file
Edit the config

TOOLS
grep_search(pattern)
read_file(path)
edit_file(path, changes)
extra_tool()
"#;
    let validated = parse_and_validate_doc(input);
    let plan = build_execution_plan(&validated).unwrap();

    // Heuristic matching should work
    assert!(plan.steps[0].tool.is_some()); // "search" -> grep_search
    assert!(plan.steps[1].tool.is_some()); // "read" -> read_file
    assert!(plan.steps[2].tool.is_some()); // "edit" -> edit_file
    assert_eq!(plan.steps[0].tool.as_ref().unwrap().name, "grep_search");
    assert_eq!(plan.steps[1].tool.as_ref().unwrap().name, "read_file");
    assert_eq!(plan.steps[2].tool.as_ref().unwrap().name, "edit_file");
}

#[test]
fn test_heuristic_no_match_leaves_step_unbound() {
    let input = "TASK\nWork\n\nPLAN\nPonder deeply\n\nTOOLS\ngrep_search(pattern)\nextra_tool()";
    let validated = parse_and_validate_doc(input);
    let plan = build_execution_plan(&validated).unwrap();
    assert_eq!(plan.steps.len(), 1);
    assert!(plan.steps[0].tool.is_none());
    assert_eq!(plan.available_tools.len(), 2);
}

#[test]
fn test_plan_queries() {
    let input = "TASK\nWork\n\nPLAN\nStep one\nStep two\nStep three";
    let validated = parse_and_validate_doc(input);
    let plan = build_execution_plan(&validated).unwrap();

    assert!(!plan.is_empty());
    assert_eq!(plan.step_count(), 3);
    let initial = plan.initial_steps();
    assert_eq!(initial.len(), 1);
    assert_eq!(initial[0].step_number, 1);
    let deps = plan.dependents(1);
    assert_eq!(deps.len(), 1);
    assert_eq!(deps[0].step_number, 2);
    assert!(plan.dependents(3).is_empty());
}

#[test]
fn test_step_builders() {
    let step = ExecutionStep::new(1, "work".to_string());
    assert_eq!(step.step_number, 1);
    assert!(step.tool.is_none());
    assert!(step.depends_on.is_empty());

    let tool = ToolInvocation { name: "bash".to_string(), raw_arguments: None };
    let step = step.with_tool(tool).depends_on(0);
    assert_eq!(step.tool.as_ref().unwrap().name, "bash");
    assert_eq!(step.depends_on, vec![0]);
}

#[test]
fn test_step_status() {
    assert_eq!(StepStatus::default(), StepStatus::Pending);
    assert!(StepStatus::Complete.is_terminal());
    assert!(StepStatus::Failed.is_terminal());
    assert!(StepStatus::Skipped.is_terminal());
    assert!(!StepStatus::Pending.is_terminal());
    assert!(!StepStatus::Running.is_terminal());
    assert!(StepStatus::Pending.can_resume());
    assert!(StepStatus::Failed.can_resume());
    assert!(!StepStatus::Complete.can_resume());
}

#[test]
fn test_execution_state_transitions() {
    let mut state = ExecutionState::new(3);
    assert_eq!(state.step_states.len(), 3);
    assert_eq!(state.current_step(), 0);
    assert!(!state.is_complete());
    assert!(!state.is_failed());

    state.start_step(0);
    assert_eq!(state.step_states[0], StepStatus::Running);

    state.complete_step(0, Some("done".to_string()));
    assert_eq!(state.step_states[0], StepStatus::Complete);
    assert_eq!(state.tool_results[0], Some("done".to_string()));
    assert_eq!(state.checkpoint, 1);

    state.fail_step(1, "boom".to_string());
    assert_eq!(state.step_states[1], StepStatus::Failed);
    assert_eq!(state.error, Some("boom".to_string()));
    assert!(state.is_failed());

    state.skip_step(2);
    assert_eq!(state.step_states[2], StepStatus::Skipped);
    assert!(state.is_complete());

    // out-of-range steps change nothing
    state.start_step(99);
    state.complete_step(99, None);
    state.fail_step(99, "never".to_string());
    state.skip_step(99);
    assert_eq!(state.checkpoint, 1);
}

#[test]
fn test_execution_state_default() {
    let state = ExecutionState::default();
    assert!(state.step_states.is_empty());
    assert!(state.is_complete());
    assert!(!state.paused);
    assert!(state.error.is_none());
}

#[test]
fn test_tool_invocation_from_declaration() {
    let input = "TASK\nWork\n\nTOOLS\nread_file(path)";
    let validated = parse_and_validate_doc(input);
    let decl = &validated.tools.as_ref().unwrap().tools[0];
    let inv = ToolInvocation::from_declaration(decl);
    assert_eq!(inv.name, "read_file");
    assert_eq!(inv.raw_arguments, Some("path".to_string()));
}

#[test]
fn test_positional_binding_zero_steps() {
    // zero steps and zero tools still count as positional; the plan is empty
    let input = "TASK\nWork\n\nPLAN\n\nTOOLS\n";
    let validated = parse_and_validate_doc(input);
    let plan = build_execution_plan(&validated).unwrap();
    assert!(plan.is_empty());
    assert!(plan.available_tools.is_empty());
}
