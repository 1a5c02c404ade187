use genai_tools::CallRequest;
use genai_tools::DispatchError;
use genai_tools::InvocationError;
use genai_tools::ToolError;
use genai_tools::ToolFunction;
use genai_tools::ToolHandler;
use genai_tools::ToolOutput;
use genai_tools::ToolParams;
use genai_tools::ToolRegistry;
use serde_json::Value;

fn json(text: &str) -> Value {
    serde_json::from_str(text).unwrap()
}

fn string_schema_property(ty: &str) -> Value {
    let mut p = serde_json::Map::new();
    p.insert("type".to_string(), Value::String(ty.to_string()));
    Value::Object(p)
}

fn object_schema(props: &[(&str, &str)], required: &[&str]) -> Value {
    let mut properties = serde_json::Map::new();
    for (k, ty) in props {
        properties.insert(k.to_string(), string_schema_property(ty));
    }
    let mut m = serde_json::Map::new();
    m.insert("type".to_string(), Value::String("object".to_string()));
    m.insert("properties".to_string(), Value::Object(properties));
    m.insert(
        "required".to_string(),
        Value::Array(required.iter().map(|r| Value::String(r.to_string())).collect()),
    );
    Value::Object(m)
}

// ---- a tool with string / optional int / vector / enum parameters ----

#[derive(Debug, PartialEq, Clone)]
pub enum Status {
    Active,
    Inactive,
    Pending,
}

pub struct IntegrationParams {
    pub name: String,
    pub count: Option<i32>,
    pub items: Vec<String>,
    pub status: Status,
}

impl ToolParams for IntegrationParams {
    fn spec_from_json(_v: Value) -> Result<Self, vstd::seq::Seq<char>> {
        panic!("spec-level item, never called at run time")
    }

    fn spec_schema() -> Value {
        panic!("spec-level item, never called at run time")
    }

    fn from_json(v: &Value) -> Result<Self, String> {
        let obj = match v.as_object() {
            Some(o) => o,
            None => return Err("expected an object".to_string()),
        };
        let name = match obj.get("name").and_then(|x| x.as_str()) {
            Some(s) => s.to_string(),
            None => return Err("missing required field `name`".to_string()),
        };
        let count = match obj.get("count") {
            None => None,
            Some(Value::Null) => None,
            Some(x) => match x.as_i64() {
                Some(n) => Some(n as i32),
                None => return Err("field `count` must be an integer".to_string()),
            },
        };
        let items = match obj.get("items").and_then(|x| x.as_array()) {
            Some(a) => {
                let mut items = Vec::new();
                for it in a {
                    match it.as_str() {
                        Some(s) => items.push(s.to_string()),
                        None => return Err("field `items` must hold strings".to_string()),
                    }
                }
                items
            },
            None => return Err("missing required field `items`".to_string()),
        };
        let status = match obj.get("status").and_then(|x| x.as_str()) {
            Some("active") => Status::Active,
            Some("inactive") => Status::Inactive,
            Some("pending") => Status::Pending,
            Some(other) => return Err(format!("invalid value for `status`: {}", other)),
            None => return Err("missing required field `status`".to_string()),
        };
        Ok(IntegrationParams { name, count, items, status })
    }

    fn json_schema() -> Value {
        object_schema(
            &[("name", "string"), ("count", "integer"), ("items", "array"), ("status", "string")],
            &["name", "items", "status"],
        )
    }
}

#[derive(Debug, PartialEq)]
pub struct IntegrationResult {
    pub processed: bool,
    pub name: String,
    pub item_count: usize,
    pub status_text: String,
}

impl ToolOutput for IntegrationResult {
    fn spec_to_json(&self) -> Result<Value, vstd::seq::Seq<char>> {
        panic!("spec-level item, never called at run time")
    }

    fn to_json(&self) -> Result<Value, String> {
        let mut m = serde_json::Map::new();
        m.insert("processed".to_string(), Value::Bool(self.processed));
        m.insert("name".to_string(), Value::String(self.name.clone()));
        m.insert(
            "item_count".to_string(),
            Value::Number(serde_json::Number::from(self.item_count as u64)),
        );
        m.insert("status_text".to_string(), Value::String(self.status_text.clone()));
        Ok(Value::Object(m))
    }
}

#[derive(Debug)]
pub enum IntegrationError {
    ValidationFailed { message: String },
}

impl ToolError for IntegrationError {
    fn spec_message(&self) -> vstd::seq::Seq<char> {
        panic!("spec-level item, never called at run time")
    }

    fn message(&self) -> String {
        match self {
            IntegrationError::ValidationFailed { message } => {
                format!("Validation failed: {}", message)
            },
        }
    }
}

#[derive(Clone, Copy)]
pub enum IntegrationKind {
    Full,
    Minimal,
}

pub struct IntegrationTool {
    kind: IntegrationKind,
}

pub fn integration_test_tool_tool() -> IntegrationTool {
    IntegrationTool { kind: IntegrationKind::Full }
}

pub fn minimal_tool_tool() -> IntegrationTool {
    IntegrationTool { kind: IntegrationKind::Minimal }
}

impl ToolFunction for IntegrationTool {
    type Params = IntegrationParams;
    type Output = IntegrationResult;
    type Error = IntegrationError;

    fn spec_name(&self) -> vstd::seq::Seq<char> {
        panic!("spec-level item, never called at run time")
    }

    fn spec_description(&self) -> vstd::seq::Seq<char> {
        panic!("spec-level item, never called at run time")
    }

    fn schema(&self) -> Value {
        IntegrationParams::json_schema()
    }

    fn name(&self) -> String {
        match self.kind {
            IntegrationKind::Full => "integration_test_tool".to_string(),
            IntegrationKind::Minimal => "minimal_tool".to_string(),
        }
    }

    fn description(&self) -> String {
        match self.kind {
            IntegrationKind::Full => "A comprehensive integration test tool".to_string(),
            IntegrationKind::Minimal => "Tool with minimal configuration".to_string(),
        }
    }

    fn call(&self, params: IntegrationParams) -> Result<IntegrationResult, IntegrationError> {
        match self.kind {
            IntegrationKind::Full => {
                if params.name.is_empty() {
                    return Err(IntegrationError::ValidationFailed {
                        message: "Name cannot be empty".to_string(),
                    });
                }
                if params.items.len() > 10 {
                    return Err(IntegrationError::ValidationFailed {
                        message: "Too many items".to_string(),
                    });
                }
                let status_text = match params.status {
                    Status::Active => "Currently active",
                    Status::Inactive => "Currently inactive",
                    Status::Pending => "Awaiting activation",
                };
                Ok(IntegrationResult {
                    processed: true,
                    name: params.name,
                    item_count: params.items.len(),
                    status_text: status_text.to_string(),
                })
            },
            IntegrationKind::Minimal => Ok(IntegrationResult {
                processed: true,
                name: params.name,
                item_count: params.items.len(),
                status_text: "minimal".to_string(),
            }),
        }
    }
}

fn parse_result(content: &str) -> IntegrationResult {
    let v: Value = serde_json::from_str(content).unwrap();
    let o = v.as_object().unwrap();
    IntegrationResult {
        processed: o["processed"].as_bool().unwrap(),
        name: o["name"].as_str().unwrap().to_string(),
        item_count: o["item_count"].as_u64().unwrap() as usize,
        status_text: o["status_text"].as_str().unwrap().to_string(),
    }
}

// ---- registry shape ----

#[test]
fn test_registry_creation() {
    let registry: ToolRegistry<IntegrationTool> = ToolRegistry::new();

    assert_eq!(registry.len(), 0);
    assert!(registry.is_empty());
    assert_eq!(registry.tool_names().len(), 0);
}

#[test]
fn test_registry_integration() {
    let mut registry = ToolRegistry::new();

    registry.register_function(integration_test_tool_tool());
    registry.register_function(minimal_tool_tool());

    assert_eq!(registry.len(), 2);
    assert!(registry.has_tool("integration_test_tool"));
    assert!(registry.has_tool("minimal_tool"));

    let tools = registry.get_tools();
    assert_eq!(tools.len(), 2);

    for tool in &tools {
        assert!(tool.schema.is_object());
    }
}

#[test]
fn test_minimal_tool_configuration() {
    let tool = minimal_tool_tool();

    assert_eq!(ToolFunction::name(&tool), "minimal_tool");
    assert_eq!(ToolFunction::description(&tool), "Tool with minimal configuration");
}

#[test]
fn register_then_lookup_then_remove_twice() {
    let mut registry = ToolRegistry::new();
    registry.register_function(integration_test_tool_tool());

    assert!(registry.has_tool("integration_test_tool"));
    assert!(registry.remove_tool("integration_test_tool"));
    assert!(!registry.remove_tool("integration_test_tool"));
    assert!(!registry.has_tool("integration_test_tool"));
}

#[test]
fn clearing_empties_the_registry() {
    let mut registry = ToolRegistry::new();
    registry.register_function(integration_test_tool_tool());
    registry.register_function(minimal_tool_tool());
    registry.clear();
    assert!(registry.is_empty());
    assert!(!registry.has_tool("integration_test_tool"));
}

#[test]
fn register_functions_registers_each() {
    let mut registry = ToolRegistry::new();
    registry.register_functions(vec![integration_test_tool_tool(), minimal_tool_tool()]);
    assert_eq!(registry.len(), 2);
    assert!(registry.has_tool("integration_test_tool"));
    assert!(registry.has_tool("minimal_tool"));
}

#[test]
fn descriptors_cover_each_name_once() {
    let mut registry = ToolRegistry::new();
    registry.register_function(integration_test_tool_tool());
    registry.register_function(minimal_tool_tool());
    registry.register_function(integration_test_tool_tool());

    let tools = registry.get_tools();
    assert_eq!(tools.len(), 2);
    let mut names: Vec<String> = tools.iter().map(|t| t.name.clone()).collect();
    names.sort();
    assert_eq!(names, vec!["integration_test_tool".to_string(), "minimal_tool".to_string()]);

    let full = tools.iter().find(|t| t.name == "integration_test_tool").unwrap();
    assert_eq!(full.description, "A comprehensive integration test tool");
    let required = full.schema.as_object().unwrap()["required"].as_array().unwrap();
    assert!(required.contains(&Value::String("name".to_string())));
    assert!(required.contains(&Value::String("items".to_string())));
    assert!(required.contains(&Value::String("status".to_string())));
    assert!(!required.contains(&Value::String("count".to_string())));
}

// ---- typed execution through the tool itself ----

#[test]
fn test_tool_execution_with_all_parameter_types() {
    let tool = integration_test_tool_tool();

    let params = IntegrationParams {
        name: "Test Tool".to_string(),
        count: Some(42),
        items: vec!["item1".to_string(), "item2".to_string(), "item3".to_string()],
        status: Status::Active,
    };

    let result = tool.call(params).unwrap();

    assert_eq!(result.processed, true);
    assert_eq!(result.name, "Test Tool");
    assert_eq!(result.item_count, 3);
    assert_eq!(result.status_text, "Currently active");
}

#[test]
fn test_tool_execution_with_optional_params() {
    let tool = integration_test_tool_tool();

    let params = IntegrationParams {
        name: "Minimal Test".to_string(),
        count: None,
        items: vec![],
        status: Status::Pending,
    };

    let result = tool.call(params).unwrap();

    assert_eq!(result.processed, true);
    assert_eq!(result.name, "Minimal Test");
    assert_eq!(result.item_count, 0);
    assert_eq!(result.status_text, "Awaiting activation");
}

#[test]
fn test_tool_error_handling() {
    let tool = integration_test_tool_tool();

    let params = IntegrationParams {
        name: "".to_string(),
        count: Some(1),
        items: vec!["test".to_string()],
        status: Status::Active,
    };

    let result = tool.call(params);
    assert!(result.is_err());

    let error = result.unwrap_err();
    assert!(error.message().contains("Name cannot be empty"));
}

#[test]
fn test_tool_error_handling_too_many_items() {
    let tool = integration_test_tool_tool();

    let params = IntegrationParams {
        name: "Test".to_string(),
        count: Some(1),
        items: (0..15).map(|i| format!("item{}", i)).collect(),
        status: Status::Active,
    };

    let result = tool.call(params);
    assert!(result.is_err());

    let error = result.unwrap_err();
    assert!(error.message().contains("Too many items"));
}

// ---- erased execution through call_json ----

#[test]
fn test_json_execution_roundtrip() {
    let tool = integration_test_tool_tool();

    let params_json = json(
        "{\"name\": \"JSON Test\", \"count\": 123, \"items\": [\"a\", \"b\", \"c\"], \"status\": \"inactive\"}",
    );

    let result_json = tool.call_json(&params_json).unwrap();

    let o = result_json.as_object().unwrap();
    assert_eq!(o["processed"].as_bool().unwrap(), true);
    assert_eq!(o["name"].as_str().unwrap(), "JSON Test");
    assert_eq!(o["item_count"].as_u64().unwrap(), 3);
    assert_eq!(o["status_text"].as_str().unwrap(), "Currently inactive");
}

#[test]
fn test_json_execution_with_invalid_enum() {
    let tool = integration_test_tool_tool();

    let params_json = json("{\"name\": \"Test\", \"items\": [], \"status\": \"invalid_status\"}");

    let result = tool.call_json(&params_json);
    assert!(result.is_err());
    assert!(matches!(result, Err(InvocationError::Decode(_))));
}

#[test]
fn test_json_execution_with_missing_required_field() {
    let tool = integration_test_tool_tool();

    let params_json = json("{\"count\": 42, \"items\": [\"test\"], \"status\": \"active\"}");

    let result = tool.call_json(&params_json);
    assert!(result.is_err());
    assert!(matches!(result, Err(InvocationError::Decode(_))));
}

// ---- dispatch through the registry ----

#[test]
fn test_registry_execution_with_complex_params() {
    let mut registry = ToolRegistry::new();
    registry.register_function(integration_test_tool_tool());

    let call = CallRequest {
        call_id: "complex-test-123".to_string(),
        fn_name: "integration_test_tool".to_string(),
        arguments: json(
            "{\"name\": \"Registry Test\", \"count\": 99, \"items\": [\"x\", \"y\", \"z\"], \"status\": \"pending\"}",
        ),
    };

    let response = registry.execute_call(&call).unwrap();

    assert_eq!(response.call_id, "complex-test-123");

    let result = parse_result(&response.content);
    assert_eq!(result.name, "Registry Test");
    assert_eq!(result.item_count, 3);
    assert_eq!(result.status_text, "Awaiting activation");
}

#[test]
fn test_concurrent_tool_execution() {
    let mut registry = ToolRegistry::new();
    registry.register_function(integration_test_tool_tool());

    let tool_calls = vec![
        CallRequest {
            call_id: "concurrent-1".to_string(),
            fn_name: "integration_test_tool".to_string(),
            arguments: json("{\"name\": \"Concurrent 1\", \"items\": [\"a\"], \"status\": \"active\"}"),
        },
        CallRequest {
            call_id: "concurrent-2".to_string(),
            fn_name: "integration_test_tool".to_string(),
            arguments: json(
                "{\"name\": \"Concurrent 2\", \"items\": [\"b\", \"c\"], \"status\": \"inactive\"}",
            ),
        },
        CallRequest {
            call_id: "concurrent-3".to_string(),
            fn_name: "integration_test_tool".to_string(),
            arguments: json("{\"name\": \"Concurrent 3\", \"items\": [], \"status\": \"pending\"}"),
        },
    ];

    let responses = registry.execute_calls(&tool_calls).unwrap();

    assert_eq!(responses.len(), 3);

    for (i, response) in responses.iter().enumerate() {
        assert_eq!(response.call_id, format!("concurrent-{}", i + 1));

        let result = parse_result(&response.content);
        assert_eq!(result.name, format!("Concurrent {}", i + 1));
        assert!(result.processed);
    }
}

#[test]
fn execute_unknown_tool_names_it() {
    let mut registry = ToolRegistry::new();
    registry.register_function(integration_test_tool_tool());

    let call = CallRequest {
        call_id: "call-7".to_string(),
        fn_name: "no_such_tool".to_string(),
        arguments: json("{}"),
    };

    match registry.execute_call(&call) {
        Err(DispatchError::NotFound(name)) => assert_eq!(name, "no_such_tool"),
        other => panic!("expected NotFound, got {:?}", other.map(|r| r.call_id)),
    }
}

#[test]
fn batch_with_one_bad_request_fails_whole() {
    let mut registry = ToolRegistry::new();
    registry.register_function(integration_test_tool_tool());

    let tool_calls = vec![
        CallRequest {
            call_id: "good-1".to_string(),
            fn_name: "integration_test_tool".to_string(),
            arguments: json("{\"name\": \"One\", \"items\": [], \"status\": \"active\"}"),
        },
        CallRequest {
            call_id: "bad-2".to_string(),
            fn_name: "integration_test_tool".to_string(),
            arguments: json("{\"items\": [], \"status\": \"active\"}"),
        },
        CallRequest {
            call_id: "good-3".to_string(),
            fn_name: "integration_test_tool".to_string(),
            arguments: json("{\"name\": \"Three\", \"items\": [], \"status\": \"active\"}"),
        },
    ];

    let result = registry.execute_calls(&tool_calls);
    assert!(matches!(
        result,
        Err(DispatchError::Invocation(InvocationError::Decode(_)))
    ));
}

#[test]
fn handler_error_surfaces_tool_message() {
    let mut registry = ToolRegistry::new();
    registry.register_function(integration_test_tool_tool());

    let call = CallRequest {
        call_id: "call-err".to_string(),
        fn_name: "integration_test_tool".to_string(),
        arguments: json("{\"name\": \"\", \"items\": [], \"status\": \"active\"}"),
    };

    match registry.execute_call(&call) {
        Err(DispatchError::Invocation(InvocationError::Handler(msg))) => {
            assert!(msg.contains("Name cannot be empty"));
        },
        _ => panic!("expected a handler error"),
    }
}
