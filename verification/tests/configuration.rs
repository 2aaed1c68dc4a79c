use termux_agent_router::config::{default_host, default_port, Config, Provider};
use termux_agent_router::launch::{exit_code, run_client, LaunchError};
use termux_agent_router::listening::{address, example_config, init_config, serve};
use termux_agent_router::validation::{check_scheme, validate_config, ConfigError};

fn provider(id: &str, url: &str, key: &str, model: &str) -> Provider {
    Provider {
        id: id.into(),
        base_url: url.into(),
        api_key_env: key.into(),
        model: model.into(),
    }
}

fn config() -> Config {
    Config {
        providers: vec![
            provider("one", "https://one", "ONE_KEY", "one-model"),
            provider("two", "http://two/", "TWO_KEY", "two-model"),
        ],
        default_model: "one-model".into(),
        fallback_models: vec!["two-model".into()],
        listen_host: default_host(),
        listen_port: default_port(),
    }
}

#[test]
fn the_proxy_listens_on_the_loopback_address() {
    assert_eq!(default_host(), "127.0.0.1");
    assert_eq!(default_port(), 8787);
    assert_eq!(address("127.0.0.1", 8787), "127.0.0.1:8787");
}

#[test]
fn candidates_are_tried_once_and_in_order() {
    let mut config = config();
    config.fallback_models = vec![
        "b".into(),
        "a".into(),
        "b".into(),
        "one-model".into(),
        "c".into(),
        "a".into(),
    ];
    assert_eq!(config.candidates(None), vec!["one-model", "b", "a", "c"]);
    assert_eq!(config.candidates(Some("")), vec!["one-model", "b", "a", "c"]);
    assert_eq!(config.candidates(Some("a")), vec!["a", "b", "one-model", "c"]);
    assert_eq!(config.candidates(Some("x")), vec!["x", "b", "a", "one-model", "c"]);
    config.default_model = String::new();
    assert_eq!(config.candidates(None), vec!["b", "a", "one-model", "c"]);
    config.fallback_models.clear();
    assert_eq!(config.candidates(None), Vec::<&str>::new());
    assert_eq!(config.candidates(Some(" ")), vec![" "]);
}

#[test]
fn the_first_provider_of_a_model_is_taken() {
    let mut config = config();
    config.providers.push(provider("three", "https://three", "THREE_KEY", "one-model"));
    assert_eq!(config.provider_for("one-model").unwrap().id, "one");
    assert!(config.provider_for("one").is_none());
}

fn refused(change: fn(&mut Config)) -> ConfigError {
    let mut config = config();
    change(&mut config);
    validate_config(&config).unwrap_err()
}

#[test]
fn valid_configurations_are_accepted() {
    assert_eq!(validate_config(&config()), Ok(()));
    assert_eq!(validate_config(&example_config()), Ok(()));
}

#[test]
fn configurations_without_provider_are_refused() {
    let error = refused(|config| config.providers.clear());
    assert_eq!(error, ConfigError::NoProvider);
    assert_eq!(error.message(), "config must contain at least one provider");
}

#[test]
fn blank_default_models_are_refused() {
    let error = refused(|config| config.default_model = " \t".into());
    assert_eq!(error, ConfigError::BlankDefaultModel);
    assert_eq!(error.message(), "default_model must not be empty");
}

#[test]
fn blank_providers_are_refused() {
    for error in [
        refused(|config| config.providers[1].id = " ".into()),
        refused(|config| config.providers[1].model = "".into()),
        refused(|config| config.providers[1].api_key_env = "\n".into()),
    ] {
        assert_eq!(error, ConfigError::BlankProvider);
        assert_eq!(
            error.message(),
            "provider id, model, and api_key_env must not be empty"
        );
    }
}

#[test]
fn repeated_providers_are_refused() {
    for error in [
        refused(|config| config.providers[1].id = "one".into()),
        refused(|config| config.providers[1].model = "one-model".into()),
    ] {
        assert_eq!(error, ConfigError::RepeatedProvider);
        assert_eq!(error.message(), "provider ids and models must be unique");
    }
}

#[test]
fn urls_must_be_web_urls() {
    let error = refused(|config| config.providers[1].base_url = "two".into());
    assert_eq!(
        error,
        ConfigError::InvalidUrl {
            id: "two".into(),
            cause: "relative URL without a base".into()
        }
    );
    assert_eq!(error.message(), "invalid provider URL for two");
    let error = refused(|config| config.providers[0].base_url = "ftp://one".into());
    assert_eq!(error, ConfigError::UnsupportedScheme);
    assert_eq!(error.message(), "provider URL must use http or https");
    let mut shouted = config();
    shouted.providers[0].base_url = "HTTPS://ONE".into();
    assert_eq!(validate_config(&shouted), Ok(()));
}

#[test]
fn schemes_are_judged() {
    assert_eq!(check_scheme("p", Ok("http".into())), Ok(()));
    assert_eq!(check_scheme("p", Ok("https".into())), Ok(()));
    assert_eq!(check_scheme("p", Ok("HTTP".into())), Err(ConfigError::UnsupportedScheme));
    assert_eq!(
        check_scheme("p", Err("why".into())),
        Err(ConfigError::InvalidUrl { id: "p".into(), cause: "why".into() })
    );
}

#[test]
fn models_without_provider_are_refused() {
    let error = refused(|config| config.default_model = "ghost".into());
    assert_eq!(error, ConfigError::UnservedModel("ghost".into()));
    assert_eq!(error.message(), "configured model has no provider: ghost");
    let error = refused(|config| config.fallback_models.push("gone".into()));
    assert_eq!(error, ConfigError::UnservedModel("gone".into()));
}

#[test]
fn the_first_fault_is_told() {
    let error = refused(|config| {
        config.providers[0].base_url = "ftp://one".into();
        config.providers[1].id = "".into();
        config.default_model = "ghost".into();
    });
    assert_eq!(error, ConfigError::UnsupportedScheme);
}

#[test]
fn the_command_line_overrides_where_to_listen() {
    let listening = serve(config(), None, None);
    assert_eq!(listening.address, "127.0.0.1:8787");
    assert_eq!(listening.config, config());
    let listening = serve(config(), Some("0.0.0.0".into()), Some(80));
    assert_eq!(listening.address, "0.0.0.0:80");
    assert_eq!(listening.config.listen_host, "0.0.0.0");
    assert_eq!(listening.config.listen_port, 80);
    assert_eq!(listening.config.providers, config().providers);
}

#[test]
fn a_first_start_writes_the_example() {
    assert_eq!(init_config(true), None);
    let example = init_config(false).unwrap();
    assert_eq!(example, example_config());
    assert_eq!(example.default_model, "example-model");
    assert_eq!(example.fallback_models, vec!["backup-model".to_string()]);
    assert_eq!(example.listen_host, "127.0.0.1");
    assert_eq!(example.listen_port, 8787);
    assert_eq!(
        example.providers,
        vec![
            provider("primary", "https://api.example.com", "EXAMPLE_API_KEY", "example-model"),
            provider("fallback", "https://backup.example.com", "BACKUP_API_KEY", "backup-model"),
        ]
    );
}

#[test]
fn clients_find_the_proxy_through_their_environment() {
    let command = vec!["my-client".into(), "--model".into(), "a b; rm".into()];
    let launch = run_client(&config(), None, None, command).unwrap();
    assert_eq!(launch.program, "my-client");
    assert_eq!(launch.arguments, vec!["--model".to_string(), "a b; rm".to_string()]);
    let url = "http://127.0.0.1:8787/v1".to_string();
    assert_eq!(
        launch.environment,
        vec![
            ("OPENAI_BASE_URL".to_string(), url.clone()),
            ("OPENAI_API_BASE".to_string(), url.clone()),
            ("TERMUX_AGENT_ROUTER_BASE_URL".to_string(), url),
            ("OPENAI_API_KEY".to_string(), "termux-agent-router".to_string()),
        ]
    );
    let launch = run_client(&config(), Some("h".into()), Some(1), vec!["x".into()]).unwrap();
    assert_eq!(launch.arguments, Vec::<String>::new());
    assert_eq!(launch.environment[0].1, "http://h:1/v1");
}

#[test]
fn clients_need_a_command() {
    let error = run_client(&config(), None, None, Vec::new()).unwrap_err();
    assert_eq!(error, LaunchError::NoCommand);
    assert_eq!(error.message(), "a command is required after `run --`");
}

#[test]
fn exit_codes_are_handed_on() {
    assert_eq!(exit_code(Some(0)), 0);
    assert_eq!(exit_code(Some(3)), 3);
    assert_eq!(exit_code(None), 1);
}
