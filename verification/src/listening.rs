//! Where the proxy listens, and the configuration that a first start writes.
use crate::config::{self, default_host, default_port, Config, ConfigView, Provider, ProviderView};
use crate::text;
use crate::validation;
use vstd::prelude::*;
use vstd::string::*;

verus! {

/// A host and a port, with a colon between them.
pub open spec fn address_of(host: Seq<char>, port: u16) -> Seq<char> {
    host + ":"@ + text::decimal_digits(port as nat)
}

/// A host and a port, with a colon between them.
pub fn address(host: &str, port: u16) -> (row: String)
    ensures
        row@ == address_of(host@, port),
        row@ == host@ + ":"@ + text::decimal_digits(port as nat),
{
    let mut row = text::together(host, ":");
    row.append(text::decimal(port as u128).as_str());
    row
}

/// The host chosen on the command line, or the configured one.
pub open spec fn chosen_host(config: ConfigView, host: Option<Seq<char>>) -> Seq<char> {
    match host {
        Some(host) => host,
        None => config.listen_host,
    }
}

/// The port chosen on the command line, or the configured one.
pub open spec fn chosen_port(config: ConfigView, port: Option<u16>) -> u16 {
    match port {
        Some(port) => port,
        None => config.listen_port,
    }
}

/// A proxy that is about to listen.
pub struct Listening {
    pub config: Config,
    pub address: String,
}

/// Settles where the proxy listens: a host or port chosen on the command line replaces the
/// configured one.
pub fn serve(config: Config, host: Option<String>, port: Option<u16>) -> (listening: Listening)
    ensures
        listening.config@ == (ConfigView {
            listen_host: chosen_host(config@, text::optional_string(host)),
            listen_port: chosen_port(config@, port),
            ..config@
        }),
        listening.address@ == address_of(
            chosen_host(config@, text::optional_string(host)),
            chosen_port(config@, port),
        ),
        listening.config.listen_host == match host {
            Some(host) => host,
            None => config.listen_host,
        },
        listening.config.listen_port == match port {
            Some(port) => port,
            None => config.listen_port,
        },
        listening.config.providers == config.providers,
        listening.config.default_model == config.default_model,
        listening.config.fallback_models == config.fallback_models,
        listening.address@ == listening.config.listen_host@ + ":"@ + text::decimal_digits(
            listening.config.listen_port as nat,
        ),
{
    let mut config = config;
    if let Some(host) = host {
        config.listen_host = host;
    }
    if let Some(port) = port {
        config.listen_port = port;
    }
    let address = address(config.listen_host.as_str(), config.listen_port);
    Listening { config, address }
}

/// The provider that the example configuration prefers.
pub open spec fn example_primary() -> ProviderView {
    ProviderView {
        id: "primary"@,
        base_url: "https://api.example.com"@,
        api_key_env: "EXAMPLE_API_KEY"@,
        model: "example-model"@,
    }
}

/// The provider that the example configuration falls back to.
pub open spec fn example_fallback() -> ProviderView {
    ProviderView {
        id: "fallback"@,
        base_url: "https://backup.example.com"@,
        api_key_env: "BACKUP_API_KEY"@,
        model: "backup-model"@,
    }
}

/// The configuration that a first start writes.
pub open spec fn example_view() -> ConfigView {
    ConfigView {
        providers: seq![example_primary(), example_fallback()],
        default_model: "example-model"@,
        fallback_models: seq!["backup-model"@],
        listen_host: "127.0.0.1"@,
        listen_port: 8787,
    }
}

/// The configuration that a first start writes.
pub fn example_config() -> (config: Config)
    ensures
        config@ == example_view(),
{
    let primary = Provider {
        id: "primary".to_owned(),
        base_url: "https://api.example.com".to_owned(),
        api_key_env: "EXAMPLE_API_KEY".to_owned(),
        model: "example-model".to_owned(),
    };
    let fallback = Provider {
        id: "fallback".to_owned(),
        base_url: "https://backup.example.com".to_owned(),
        api_key_env: "BACKUP_API_KEY".to_owned(),
        model: "backup-model".to_owned(),
    };
    let config = Config {
        providers: vec![primary, fallback],
        default_model: "example-model".to_owned(),
        fallback_models: vec!["backup-model".to_owned()],
        listen_host: default_host(),
        listen_port: default_port(),
    };
    assert(config@.providers =~= example_view().providers);
    assert(config@.fallback_models =~= example_view().fallback_models);
    config
}

/// What a first start writes: the example configuration, or nothing where a configuration exists.
pub fn init_config(exists: bool) -> (written: Option<Config>)
    ensures
        match written {
            Some(config) => !exists && config@ == example_view(),
            None => exists,
        },
{
    if exists {
        None
    } else {
        Some(example_config())
    }
}

/// The example configuration is valid, provided that its two URLs are read as `https` URLs.
pub proof fn example_is_valid()
    ensures
        parsed_as_https(example_primary()) && parsed_as_https(example_fallback())
            ==> validation::valid_config(example_view()),
{
    let config = example_view();
    reveal_strlit("primary");
    reveal_strlit("fallback");
    reveal_strlit("EXAMPLE_API_KEY");
    reveal_strlit("BACKUP_API_KEY");
    reveal_strlit("example-model");
    reveal_strlit("backup-model");
    assert(!text::white_space("primary"@[0]));
    assert(!text::white_space("fallback"@[0]));
    assert(!text::white_space("EXAMPLE_API_KEY"@[0]));
    assert(!text::white_space("BACKUP_API_KEY"@[0]));
    assert(!text::white_space("example-model"@[0]));
    assert(!text::white_space("backup-model"@[0]));
    assert("primary"@.len() == 7);
    assert("fallback"@.len() == 8);
    assert("example-model"@.len() == 13);
    assert("backup-model"@.len() == 12);
    assert(config.providers[0].model == config.default_model);
    assert(config.providers[1].model == config.fallback_models[0]);
    assert(config::served(config.providers, config.default_model));
    assert(config::served(config.providers, config.fallback_models[0]));
}

/// Whether a provider's URL is read as an `https` URL.
pub open spec fn parsed_as_https(provider: ProviderView) -> bool {
    validation::parsed_scheme(provider.base_url) == Ok::<Seq<char>, Seq<char>>("https"@)
}

} // verus!
