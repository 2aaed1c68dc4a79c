//! What a configuration must satisfy before the proxy works with it.
use crate::config::{self, Config, ConfigView, ProviderView};
use crate::text;
use vstd::hash_set::StringHashSet;
use vstd::prelude::*;
use vstd::string::*;

verus! {

/// Why a configuration is refused.
#[derive(Debug, PartialEq)]
pub enum ConfigError {
    /// There is no provider.
    NoProvider,
    /// The default model is blank.
    BlankDefaultModel,
    /// A provider's id, model or key variable is blank.
    BlankProvider,
    /// Two providers share an id or a model.
    RepeatedProvider,
    /// A provider's URL is none, for the cause given.
    InvalidUrl { id: String, cause: String },
    /// A provider's URL has another scheme than `http` and `https`.
    UnsupportedScheme,
    /// No provider serves a model that the configuration names.
    UnservedModel(String),
}

/// What a refusal is.
pub enum ConfigErrorView {
    NoProvider,
    BlankDefaultModel,
    BlankProvider,
    RepeatedProvider,
    InvalidUrl { id: Seq<char>, cause: Seq<char> },
    UnsupportedScheme,
    UnservedModel(Seq<char>),
}

impl View for ConfigError {
    type V = ConfigErrorView;

    open spec fn view(&self) -> ConfigErrorView {
        match self {
            ConfigError::NoProvider => ConfigErrorView::NoProvider,
            ConfigError::BlankDefaultModel => ConfigErrorView::BlankDefaultModel,
            ConfigError::BlankProvider => ConfigErrorView::BlankProvider,
            ConfigError::RepeatedProvider => ConfigErrorView::RepeatedProvider,
            ConfigError::InvalidUrl { id, cause } => ConfigErrorView::InvalidUrl {
                id: id@,
                cause: cause@,
            },
            ConfigError::UnsupportedScheme => ConfigErrorView::UnsupportedScheme,
            ConfigError::UnservedModel(model) => ConfigErrorView::UnservedModel(model@),
        }
    }
}

/// The sentence that tells why a configuration is refused.
pub open spec fn message_of(error: ConfigErrorView) -> Seq<char> {
    match error {
        ConfigErrorView::NoProvider => "config must contain at least one provider"@,
        ConfigErrorView::BlankDefaultModel => "default_model must not be empty"@,
        ConfigErrorView::BlankProvider => "provider id, model, and api_key_env must not be empty"@,
        ConfigErrorView::RepeatedProvider => "provider ids and models must be unique"@,
        ConfigErrorView::InvalidUrl { id, cause } => "invalid provider URL for "@ + id,
        ConfigErrorView::UnsupportedScheme => "provider URL must use http or https"@,
        ConfigErrorView::UnservedModel(model) => "configured model has no provider: "@ + model,
    }
}

impl ConfigError {
    /// The sentence that tells why the configuration is refused.
    pub fn message(&self) -> (message: String)
        ensures
            message@ == message_of(self@),
    {
        match self {
            ConfigError::NoProvider => "config must contain at least one provider".to_owned(),
            ConfigError::BlankDefaultModel => "default_model must not be empty".to_owned(),
            ConfigError::BlankProvider =>
                "provider id, model, and api_key_env must not be empty".to_owned(),
            ConfigError::RepeatedProvider => "provider ids and models must be unique".to_owned(),
            ConfigError::InvalidUrl { id, .. } => text::together(
                "invalid provider URL for ",
                id.as_str(),
            ),
            ConfigError::UnsupportedScheme => "provider URL must use http or https".to_owned(),
            ConfigError::UnservedModel(model) => text::together(
                "configured model has no provider: ",
                model.as_str(),
            ),
        }
    }
}

/// The scheme of a URL as `reqwest::Url` reads it, or the sentence that tells why it is none.
pub uninterp spec fn parsed_scheme(url: Seq<char>) -> Result<Seq<char>, Seq<char>>;

/// Calls `reqwest::Url::parse` on a text and hands out the scheme of the URL that it reads, or
/// the text of its error. Both depend on the text alone; which URLs it reads is not stated.
#[verifier::external_body]
fn url_scheme(url: &str) -> (scheme: Result<String, String>)
    ensures
        scheme_view(scheme) == parsed_scheme(url@),
{
    match reqwest::Url::parse(url) {
        Ok(url) => Ok(url.scheme().to_owned()),
        Err(error) => Err(error.to_string()),
    }
}

/// What a scheme, or the reason that there is none, is.
pub open spec fn scheme_view(scheme: Result<String, String>) -> Result<Seq<char>, Seq<char>> {
    match scheme {
        Ok(scheme) => Ok(scheme@),
        Err(cause) => Err(cause@),
    }
}

/// What a verdict on a configuration is: the refusal, or none.
pub open spec fn refusal(verdict: Result<(), ConfigError>) -> Option<ConfigErrorView> {
    match verdict {
        Ok(()) => None,
        Err(error) => Some(error@),
    }
}

/// What is wrong with the URL of a provider, given its scheme.
pub open spec fn scheme_error(id: Seq<char>, scheme: Result<Seq<char>, Seq<char>>) -> Option<
    ConfigErrorView,
> {
    match scheme {
        Err(cause) => Some(ConfigErrorView::InvalidUrl { id, cause }),
        Ok(scheme) => if scheme == "http"@ || scheme == "https"@ {
            None
        } else {
            Some(ConfigErrorView::UnsupportedScheme)
        },
    }
}

/// Whether a provider repeats the id or the model of an earlier one.
pub open spec fn repeats(providers: Seq<ProviderView>, index: int) -> bool {
    exists|i: int|
        0 <= i < index && ((#[trigger] providers[i]).id == providers[index].id
            || providers[i].model == providers[index].model)
}

/// What is wrong with a provider, given those before it.
pub open spec fn provider_error(providers: Seq<ProviderView>, index: int) -> Option<
    ConfigErrorView,
> {
    let provider = providers[index];
    if text::blank(provider.id) || text::blank(provider.model) || text::blank(
        provider.api_key_env,
    ) {
        Some(ConfigErrorView::BlankProvider)
    } else if repeats(providers, index) {
        Some(ConfigErrorView::RepeatedProvider)
    } else {
        scheme_error(provider.id, parsed_scheme(provider.base_url))
    }
}

/// What is wrong with the first faulty one among the first `count` providers.
pub open spec fn first_provider_error(providers: Seq<ProviderView>, count: int) -> Option<
    ConfigErrorView,
>
    decreases count,
{
    if count <= 0 {
        None
    } else {
        match first_provider_error(providers, count - 1) {
            Some(error) => Some(error),
            None => provider_error(providers, count - 1),
        }
    }
}

/// The first model of a list that no provider serves.
pub open spec fn first_unserved(providers: Seq<ProviderView>, models: Seq<Seq<char>>) -> Option<
    ConfigErrorView,
>
    decreases models.len(),
{
    if models.len() == 0 {
        None
    } else if !config::served(providers, models[0]) {
        Some(ConfigErrorView::UnservedModel(models[0]))
    } else {
        first_unserved(providers, models.drop_first())
    }
}

/// Why a configuration is refused; `None` where it is accepted.
pub open spec fn config_error(config: ConfigView) -> Option<ConfigErrorView> {
    if config.providers.len() == 0 {
        Some(ConfigErrorView::NoProvider)
    } else if text::blank(config.default_model) {
        Some(ConfigErrorView::BlankDefaultModel)
    } else {
        match first_provider_error(config.providers, config.providers.len() as int) {
            Some(error) => Some(error),
            None => first_unserved(
                config.providers,
                seq![config.default_model] + config.fallback_models,
            ),
        }
    }
}

/// Judges the URL of a provider by its scheme.
pub fn check_scheme(id: &str, scheme: Result<String, String>) -> (verdict: Result<(), ConfigError>)
    ensures
        refusal(verdict) == scheme_error(id@, scheme_view(scheme)),
{
    match scheme {
        Err(cause) => Err(ConfigError::InvalidUrl { id: id.to_owned(), cause }),
        Ok(scheme) => if text::same(scheme.as_str(), "http") || text::same(
            scheme.as_str(),
            "https",
        ) {
            Ok(())
        } else {
            Err(ConfigError::UnsupportedScheme)
        },
    }
}

pub(crate) proof fn lemma_first_error_stays(providers: Seq<ProviderView>, early: int, count: int)
    requires
        0 <= early <= count,
        first_provider_error(providers, early) is Some,
    ensures
        first_provider_error(providers, count) == first_provider_error(providers, early),
    decreases count - early,
{
    if early < count {
        lemma_first_error_stays(providers, early, count - 1);
    }
}

pub(crate) proof fn lemma_unserved(providers: Seq<ProviderView>, models: Seq<Seq<char>>, index: int)
    requires
        0 <= index < models.len(),
        !config::served(providers, models[index]),
        forall|i: int| 0 <= i < index ==> config::served(providers, #[trigger] models[i]),
    ensures
        first_unserved(providers, models) == Some(ConfigErrorView::UnservedModel(models[index])),
    decreases index,
{
    if index > 0 {
        assert(config::served(providers, models[0]));
        assert forall|i: int| 0 <= i < index - 1 implies config::served(
            providers,
            #[trigger] models.drop_first()[i],
        ) by {
            assert(config::served(providers, models[i + 1]));
        }
        lemma_unserved(providers, models.drop_first(), index - 1);
    }
}

proof fn lemma_all_served(providers: Seq<ProviderView>, models: Seq<Seq<char>>)
    ensures
        first_unserved(providers, models) is None <==> forall|i: int|
            0 <= i < models.len() ==> config::served(providers, #[trigger] models[i]),
    decreases models.len(),
{
    if models.len() > 0 {
        let rest = models.drop_first();
        lemma_all_served(providers, rest);
        if first_unserved(providers, models) is None {
            assert forall|i: int| 0 <= i < models.len() implies config::served(
                providers,
                #[trigger] models[i],
            ) by {
                if i > 0 {
                    assert(models[i] == rest[i - 1]);
                }
            }
        }
        if forall|i: int| 0 <= i < models.len() ==> config::served(providers, #[trigger] models[i]) {
            assert(config::served(providers, models[0]));
            assert forall|i: int| 0 <= i < rest.len() implies config::served(
                providers,
                #[trigger] rest[i],
            ) by {
                assert(config::served(providers, models[i + 1]));
            }
        }
    }
}

/// Judges a configuration.
pub fn validate_config(config: &Config) -> (verdict: Result<(), ConfigError>)
    ensures
        refusal(verdict) == config_error(config@),
        verdict is Ok <==> valid_config(config@),
{
    proof {
        accepted_means_valid(config@);
    }
    if config.providers.is_empty() {
        return Err(ConfigError::NoProvider);
    }
    if text::is_blank(config.default_model.as_str()) {
        return Err(ConfigError::BlankDefaultModel);
    }
    let ghost all = config@.providers;
    let mut ids = StringHashSet::new();
    let mut models = StringHashSet::new();
    for index in 0..config.providers.len()
        invariant
            all == config@.providers,
            all.len() > 0,
            config_error(config@) is None <==> valid_config(config@),
            !text::blank(config@.default_model),
            first_provider_error(all, index as int) is None,
            forall|id: Seq<char>| #[trigger]
                ids@.contains(id) <==> exists|i: int| 0 <= i < index && (#[trigger] all[i]).id == id,
            forall|model: Seq<char>| #[trigger]
                models@.contains(model) <==> exists|i: int|
                    0 <= i < index && (#[trigger] all[i]).model == model,
    {
        let provider = &config.providers[index];
        assert(all[index as int] == provider@);
        if text::is_blank(provider.id.as_str()) || text::is_blank(provider.model.as_str())
            || text::is_blank(provider.api_key_env.as_str()) {
            proof {
                lemma_first_error_stays(all, index + 1, all.len() as int);
            }
            return Err(ConfigError::BlankProvider);
        }
        if !ids.insert(provider.id.clone()) || !models.insert(provider.model.clone()) {
            proof {
                assert(repeats(all, index as int));
                lemma_first_error_stays(all, index + 1, all.len() as int);
            }
            return Err(ConfigError::RepeatedProvider);
        }
        assert(!repeats(all, index as int));
        match check_scheme(provider.id.as_str(), url_scheme(provider.base_url.as_str())) {
            Ok(()) => {},
            Err(error) => {
                proof {
                    lemma_first_error_stays(all, index + 1, all.len() as int);
                }
                return Err(error);
            },
        }
        proof {
            assert forall|id: Seq<char>| #[trigger] ids@.contains(id) implies exists|i: int|
                0 <= i < index + 1 && (#[trigger] all[i]).id == id by {
                if id == provider.id@ {
                    assert(all[index as int].id == id);
                }
            }
            assert forall|model: Seq<char>| #[trigger] models@.contains(model) implies exists|i: int|
                0 <= i < index + 1 && (#[trigger] all[i]).model == model by {
                if model == provider.model@ {
                    assert(all[index as int].model == model);
                }
            }
        }
    }
    let ghost named = seq![config@.default_model] + config@.fallback_models;
    if !models.contains(config.default_model.as_str()) {
        proof {
            lemma_unserved(all, named, 0);
        }
        return Err(ConfigError::UnservedModel(config.default_model.clone()));
    }
    assert(config::served(all, named[0]));
    for index in 0..config.fallback_models.len()
        invariant
            all == config@.providers,
            all.len() > 0,
            config_error(config@) is None <==> valid_config(config@),
            !text::blank(config@.default_model),
            first_provider_error(all, all.len() as int) is None,
            named == seq![config@.default_model] + config@.fallback_models,
            forall|model: Seq<char>| #[trigger]
                models@.contains(model) <==> config::served(all, model),
            forall|i: int| 0 <= i <= index ==> config::served(all, #[trigger] named[i]),
    {
        let model = &config.fallback_models[index];
        assert(named[index + 1] == model@);
        if !models.contains(model.as_str()) {
            proof {
                lemma_unserved(all, named, index + 1);
            }
            return Err(ConfigError::UnservedModel(model.clone()));
        }
    }
    proof {
        lemma_all_served(all, named);
    }
    Ok(())
}

/// Whether a configuration is one that the proxy can work with.
pub open spec fn valid_config(config: ConfigView) -> bool {
    &&& config.providers.len() > 0
    &&& !text::blank(config.default_model)
    &&& forall|i: int| 0 <= i < config.providers.len() ==> sound_provider(#[trigger] config.providers[i])
    &&& forall|i: int, j: int|
        0 <= i < j < config.providers.len() ==> (#[trigger] config.providers[i]).id != (
        #[trigger] config.providers[j]).id && config.providers[i].model != config.providers[j].model
    &&& config::served(config.providers, config.default_model)
    &&& forall|i: int|
        0 <= i < config.fallback_models.len() ==> config::served(
            config.providers,
            #[trigger] config.fallback_models[i],
        )
}

/// Whether a provider has an id, a model, a key variable and a web URL.
pub open spec fn sound_provider(provider: ProviderView) -> bool {
    &&& !text::blank(provider.id)
    &&& !text::blank(provider.model)
    &&& !text::blank(provider.api_key_env)
    &&& (parsed_scheme(provider.base_url) == Ok::<Seq<char>, Seq<char>>("http"@)
        || parsed_scheme(provider.base_url) == Ok::<Seq<char>, Seq<char>>("https"@))
}

proof fn lemma_no_provider_error(providers: Seq<ProviderView>, count: int)
    requires
        0 <= count <= providers.len(),
    ensures
        first_provider_error(providers, count) is None <==> forall|i: int|
            0 <= i < count ==> sound_provider(#[trigger] providers[i]) && !repeats(providers, i),
    decreases count,
{
    if count > 0 {
        lemma_no_provider_error(providers, count - 1);
        let last = providers[count - 1];
        assert(provider_error(providers, count - 1) is None <==> sound_provider(last) && !repeats(
            providers,
            count - 1,
        ));
    }
}

/// Exactly the valid configurations are accepted.
pub proof fn accepted_means_valid(config: ConfigView)
    ensures
        config_error(config) is None <==> valid_config(config),
{
    let providers = config.providers;
    let named = seq![config.default_model] + config.fallback_models;
    lemma_no_provider_error(providers, providers.len() as int);
    lemma_all_served(providers, named);
    if config_error(config) is None {
        assert forall|i: int, j: int| 0 <= i < j < providers.len() implies (
        #[trigger] providers[i]).id != (#[trigger] providers[j]).id && providers[i].model
            != providers[j].model by {
            assert(!repeats(providers, j));
        }
        assert(config::served(providers, named[0]));
        assert forall|i: int| 0 <= i < config.fallback_models.len() implies config::served(
            providers,
            #[trigger] config.fallback_models[i],
        ) by {
            assert(config::served(providers, named[i + 1]));
        }
    }
    if valid_config(config) {
        assert forall|i: int| 0 <= i < providers.len() implies sound_provider(#[trigger] providers[i])
            && !repeats(providers, i) by {}
        assert forall|i: int| 0 <= i < named.len() implies config::served(
            providers,
            #[trigger] named[i],
        ) by {
            if i > 0 {
                assert(config::served(providers, config.fallback_models[i - 1]));
            }
        }
    }
}

} // verus!
