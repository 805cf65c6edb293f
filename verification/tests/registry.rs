use agentrt::{
    JsonValue, RateLimitPolicy, Tool, ToolBox, ToolError, ToolInvocationError, ToolMetadata,
    ToolRegistry,
};

#[derive(Debug)]
struct NoopTool;

impl Tool for NoopTool {
    fn name(&self) -> String {
        "noop".to_string()
    }

    fn input_schema(&self) -> JsonValue {
        JsonValue::obj1("type", JsonValue::text("object"))
    }

    fn output_schema(&self) -> JsonValue {
        JsonValue::obj1("type", JsonValue::text("null"))
    }

    fn execute(&self, _args: JsonValue) -> Result<JsonValue, ToolError> {
        Ok(JsonValue::Null)
    }
}

fn empty_args() -> JsonValue {
    JsonValue::Obj(vec![])
}

#[test]
fn registry_enforces_cooldown_and_access() {
    let mut registry = ToolRegistry::new();
    registry.register_with_metadata(
        Box::new(NoopTool),
        ToolMetadata {
            allowed_roles: vec!["admin".to_string()],
            cooldown_ms: Some(50),
            description: None,
            tags: vec![],
            access_controller: None,
            rate_limit: None,
        },
    );

    let denied = registry
        .invoke("noop", empty_args(), &["guest".to_string()], 1_000)
        .unwrap_err();
    assert!(matches!(denied, ToolInvocationError::AccessDenied { .. }));

    let first = registry
        .invoke("noop", empty_args(), &["admin".to_string()], 1_000)
        .unwrap();
    assert_eq!(first, JsonValue::Null);

    let cooldown = registry
        .invoke("noop", empty_args(), &["admin".to_string()], 1_010)
        .unwrap_err();
    match cooldown {
        ToolInvocationError::CoolingDown { tool, remaining_ms } => {
            assert_eq!(tool, "noop");
            assert_eq!(remaining_ms, 40);
        },
        other => panic!("expected CoolingDown, got {:?}", other),
    }

    let after = registry
        .invoke("noop", empty_args(), &["admin".to_string()], 1_060)
        .unwrap();
    assert_eq!(after, JsonValue::Null);
}

#[test]
fn registry_reports_unknown_tools() {
    let mut registry = ToolRegistry::new();
    let missing = registry.invoke("ghost", empty_args(), &[], 0).unwrap_err();
    match missing {
        ToolInvocationError::NotFound(name) => assert_eq!(name, "ghost"),
        other => panic!("expected NotFound, got {:?}", other),
    }
}

#[test]
fn registry_rate_limits_fixed_windows() {
    let mut registry = ToolRegistry::new();
    registry.register_with_metadata(
        Box::new(NoopTool),
        ToolMetadata {
            allowed_roles: vec![],
            cooldown_ms: None,
            description: None,
            tags: vec![],
            access_controller: None,
            rate_limit: Some(RateLimitPolicy { max_calls: 2, per_ms: 100 }),
        },
    );

    assert!(registry.invoke("noop", empty_args(), &[], 0).is_ok());
    assert!(registry.invoke("noop", empty_args(), &[], 10).is_ok());

    let limited = registry.invoke("noop", empty_args(), &[], 20).unwrap_err();
    match limited {
        ToolInvocationError::RateLimited { tool, retry_after_ms } => {
            assert_eq!(tool, "noop");
            assert_eq!(retry_after_ms, 80);
        },
        other => panic!("expected RateLimited, got {:?}", other),
    }

    // Once the window elapses, calls flow again.
    assert!(registry.invoke("noop", empty_args(), &[], 150).is_ok());
}

#[test]
fn registry_access_controller_guards_roles() {
    let mut registry = ToolRegistry::new();
    registry.register_with_metadata(
        Box::new(NoopTool),
        ToolMetadata {
            allowed_roles: vec![],
            cooldown_ms: None,
            description: None,
            tags: vec![],
            access_controller: Some(agentrt::AccessController {
                required_roles: vec!["ops".to_string()],
                policy_name: Some("ops-only".to_string()),
            }),
            rate_limit: None,
        },
    );

    let denied = registry
        .invoke("noop", empty_args(), &["guest".to_string()], 0)
        .unwrap_err();
    match denied {
        ToolInvocationError::AccessDenied { tool, reason } => {
            assert_eq!(tool, "noop");
            assert_eq!(reason, "ops-only");
        },
        other => panic!("expected AccessDenied, got {:?}", other),
    }

    assert!(registry.invoke("noop", empty_args(), &["ops".to_string()], 0).is_ok());
}

#[derive(Debug)]
struct NamedTool {
    name: &'static str,
}

impl Tool for NamedTool {
    fn name(&self) -> String {
        self.name.to_string()
    }

    fn input_schema(&self) -> JsonValue {
        JsonValue::Null
    }

    fn output_schema(&self) -> JsonValue {
        JsonValue::Null
    }

    fn execute(&self, _args: JsonValue) -> Result<JsonValue, ToolError> {
        Ok(JsonValue::text(self.name))
    }
}

#[test]
fn registry_lists_names_in_order_and_replaces_duplicates() {
    let mut registry = ToolRegistry::new();
    registry.register(Box::new(NamedTool { name: "zeta" }));
    registry.register(Box::new(NamedTool { name: "alpha" }));
    registry.register(Box::new(NamedTool { name: "midway" }));
    registry.register(Box::new(NamedTool { name: "alpha" }));

    assert_eq!(registry.list(), vec!["alpha", "midway", "zeta"]);
    assert!(registry.get("midway").is_some());
    assert!(registry.get("absent").is_none());
    assert!(registry.get_metadata("zeta").is_some());
    assert_eq!(registry.list_with_metadata().len(), 3);
}

#[test]
fn registry_named_registration_wraps_bodies() {
    let mut registry = ToolRegistry::new();
    let boxed = ToolBox::new(Box::new(NamedTool { name: "direct" }));
    registry.register_named("direct".to_string(), boxed, ToolMetadata::default());
    let tool = registry.get("direct").expect("registered");
    assert_eq!(tool.execute(JsonValue::Null).unwrap(), JsonValue::text("direct"));
}
