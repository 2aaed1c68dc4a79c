use termux_agent_router::config::{default_host, default_port, Config, Provider};
use termux_agent_router::definitions::safe_tool_definitions;
use termux_agent_router::json::Json;
use termux_agent_router::locations::session_path;
use termux_agent_router::path::FilePath;
use termux_agent_router::reply::health;
use termux_agent_router::tools::{run_allowlisted_tool, ToolError, ToolStep};
use termux_agent_router::validation::{validate_config, ConfigError};

fn test_config() -> Config {
    Config {
        providers: vec![
            Provider {
                id: "one".into(),
                base_url: "https://one".into(),
                api_key_env: "ONE_KEY".into(),
                model: "one-model".into(),
            },
            Provider {
                id: "two".into(),
                base_url: "https://two".into(),
                api_key_env: "TWO_KEY".into(),
                model: "two-model".into(),
            },
        ],
        default_model: "one-model".into(),
        fallback_models: vec!["two-model".into()],
        listen_host: default_host(),
        listen_port: default_port(),
    }
}

#[test]
fn selects_requested_then_default_and_fallback() {
    let config = test_config();
    assert_eq!(config.candidates(None), vec!["one-model", "two-model"]);
    assert_eq!(config.candidates(Some("two-model")), vec!["two-model"]);
    assert_eq!(config.provider_for("two-model").unwrap().id, "two");
}

#[test]
fn health_route_is_available() {
    let response = health();
    assert_eq!(response.status, 200);
    assert_eq!(response.body.as_slice(), br#"{"status":"ok"}"#);
    assert_eq!(response.content_type.unwrap().as_slice(), b"application/json");
}

#[test]
fn session_names_cannot_traverse_directories() {
    let data = || Some(FilePath::from_text("/home/user/.local/share"));
    assert!(session_path("../escape", data()).is_err());
    assert!(session_path("work/session", data()).is_err());
    assert!(session_path("safe_session-1", data()).is_ok());
}

fn finish(name: &str, path: Option<&str>) -> Result<String, ToolError> {
    let root = std::path::Path::new("/work/router");
    let mut step = run_allowlisted_tool(name, path, Ok(FilePath::from_text("/work/router")));
    loop {
        step = match step {
            ToolStep::Canonicalize(query) => {
                assert_eq!(query.path, FilePath::from_text(root.join(path.unwrap()).to_str().unwrap()));
                query.resolved(Ok(FilePath::from_text("/work/Cargo.toml")))
            }
            ToolStep::CanonicalizeRoot(query) => {
                let canonical = query.root.clone();
                query.resolved(Ok(canonical))
            }
            ToolStep::Finished(result) => return result,
            _ => panic!("the tool left the workspace"),
        };
    }
}

#[test]
fn tools_reject_paths_outside_workspace_and_unknown_commands() {
    assert!(finish("unknown", None).is_err());
    assert!(finish("read", Some("../Cargo.toml")).is_err());
    assert_eq!(finish("unknown", None), Err(ToolError::NotAllowed("unknown".into())));
    assert_eq!(finish("read", Some("../Cargo.toml")), Err(ToolError::PathEscapes));
}

#[test]
fn tool_definitions_are_allowlisted() {
    let tools = safe_tool_definitions();
    let Json::Array(items) = &tools else {
        panic!("the definitions are a list");
    };
    let names: Vec<&str> = items
        .iter()
        .filter_map(|tool| tool.get("function").and_then(|f| f.get("name")).and_then(Json::as_str))
        .collect();
    assert_eq!(names, vec!["pwd", "list", "read", "git_diff"]);
}

#[test]
fn config_validation_rejects_missing_model_provider() {
    let mut config = test_config();
    config.fallback_models = vec!["missing".into()];
    assert!(validate_config(&config).is_err());
    assert_eq!(
        validate_config(&config),
        Err(ConfigError::UnservedModel("missing".into()))
    );
    assert_eq!(validate_config(&test_config()), Ok(()));
}
