use barqcoder::tools::{descriptor_of, RegistryError, Tool, ToolRegistry, ToolSpec};
use barqcoder::tools::cargo_check::CargoCheck;

#[test]
fn test_get_unregistered_returns_none() {
    let registry = ToolRegistry::new();
    assert!(registry.get("no_such_tool").is_none());
    assert!(registry.get("").is_none());
    assert!(registry.get("cargo").is_none());
}

#[test]
fn test_registry_with_only_compile_check() {
    let mut registry = ToolRegistry { tools: Vec::new() };
    registry.register(descriptor_of(&CargoCheck)).unwrap();
    assert!(registry.get("cargo_check").is_some());
    assert!(registry.get("barq_search").is_none());
}

#[test]
fn test_default_registry_tools() {
    let registry = ToolRegistry::new();
    for name in [
        "cargo_check",
        "edit_file",
        "shell_exec",
        "git_ops",
        "read_file",
        "list_files",
        "create_file",
    ] {
        let tool = registry.get(name).unwrap();
        assert_eq!(tool.name, name);
    }
    assert!(registry.get("barq_search").is_none());
    assert_eq!(registry.tools.len(), 7);
}

#[test]
fn test_with_barq_adds_search() {
    let registry = ToolRegistry::with_barq();
    assert_eq!(registry.tools.len(), 8);
    let tool = registry.get("barq_search").unwrap();
    assert_eq!(
        tool.description,
        "Semantic search over indexed codebase using BARQDB"
    );
}

#[test]
fn test_register_rejects_duplicate_name() {
    let mut registry = ToolRegistry::new();
    let result = registry.register(ToolSpec {
        name: String::from("cargo_check"),
        description: String::from("a second compile check"),
        schema: String::from("{}"),
    });
    assert_eq!(result, Err(RegistryError::DuplicateName));
    assert_eq!(registry.tools.len(), 7);
    let fresh = registry.register(ToolSpec {
        name: String::from("fresh_tool"),
        description: String::from("something new"),
        schema: String::from("{}"),
    });
    assert!(fresh.is_ok());
    assert_eq!(registry.tools.len(), 8);
}

#[test]
fn test_schemas_in_registration_order() {
    let registry = ToolRegistry::new();
    let schemas = registry.schemas();
    assert_eq!(schemas.len(), 7);
    assert_eq!(schemas[0], "{\"dir\":\"string\"}");
    assert_eq!(
        schemas[1],
        "{\"file_path\":\"string\",\"patch\":\"string\",\"preview\":\"bool\"}"
    );
}

#[test]
fn test_tool_descriptor_matches_methods() {
    let spec = descriptor_of(&CargoCheck);
    assert_eq!(spec.name, CargoCheck.name());
    assert_eq!(spec.description, CargoCheck.description());
    assert_eq!(spec.schema, CargoCheck.schema());
}
