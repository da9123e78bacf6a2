use apex_spec::{extract_tool_name, ToolRegistry};

#[test]
fn test_default_registry() {
    let registry = ToolRegistry::new();
    assert!(registry.is_valid("code_search"));
    assert!(registry.is_valid("vector_search"));
    assert!(registry.is_valid("memory.query"));
    assert!(!registry.is_valid("nonexistent_tool"));
}

#[test]
fn test_mcp_tools_allowed() {
    let registry = ToolRegistry::new();
    assert!(registry.is_valid("mcp__server__tool"));
    assert!(registry.is_valid("mcp__jenkins__build_job"));
}

#[test]
fn tool_registry_test_permissive_registry() {
    let registry = ToolRegistry::permissive();
    assert!(registry.is_valid("any_tool"));
    assert!(registry.is_valid("completely_unknown"));
}

#[test]
fn tool_registry_test_custom_registry() {
    let mut registry = ToolRegistry::empty();
    registry.add_tool("my_custom_tool");
    assert!(registry.is_valid("my_custom_tool"));
    assert!(!registry.is_valid("code_search")); // Default not included
}

#[test]
fn test_extract_tool_name() {
    assert_eq!(extract_tool_name("code_search"), "code_search");
    assert_eq!(extract_tool_name("code_search(query)"), "code_search");
    assert_eq!(extract_tool_name("code_search \"pattern\""), "code_search");
    assert_eq!(extract_tool_name("  vector_search  "), "vector_search");
}

#[test]
fn test_extract_tool_name_delimiter_priority() {
    // the parenthesis wins over an earlier space
    assert_eq!(extract_tool_name("a b(c)"), "a b");
    // a quote only decides when neither parenthesis nor space occurs
    assert_eq!(extract_tool_name("grep\"x\""), "grep");
}

#[test]
fn test_registry_add_tools_and_validate() {
    let mut registry = ToolRegistry::empty();
    registry.add_tools(&vec!["alpha", "beta"]);
    assert!(registry.is_valid("alpha"));
    assert!(registry.is_valid("beta"));
    assert!(registry.validate("alpha").is_ok());
    let err = registry.validate("gamma").unwrap_err();
    assert_eq!(err, "Unknown tool 'gamma' not in registry");

    registry.set_allow_unknown(true);
    assert!(registry.is_valid("gamma"));

    let defaults = ToolRegistry::default();
    assert_eq!(defaults.tools().len(), 25);
}
