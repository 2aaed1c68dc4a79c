//! What holds of every configuration and of the models tried for a request.
use crate::config::{self, Config, ConfigView, ProviderView};
use crate::text;
use crate::validation::{self, ConfigError, ConfigErrorView};
use vstd::prelude::*;

verus! {

/// A configuration is taken as it stands.
pub proof fn configurations_are_taken_as_they_stand(config: Config)
    ensures
        config@.providers.len() == config.providers@.len(),
        forall|i: int|
            0 <= i < config.providers@.len() ==> {
                let provider = config.providers@[i];
                &&& (#[trigger] config@.providers[i]).id == provider.id@
                &&& config@.providers[i].base_url == provider.base_url@
                &&& config@.providers[i].api_key_env == provider.api_key_env@
                &&& config@.providers[i].model == provider.model@
            },
        config@.default_model == config.default_model@,
        config@.fallback_models.len() == config.fallback_models@.len(),
        forall|i: int|
            0 <= i < config.fallback_models@.len() ==> #[trigger] config@.fallback_models[i]
                == config.fallback_models@[i]@,
        config@.listen_host == config.listen_host@,
        config@.listen_port == config.listen_port,
{
}

/// A model that a request names is the first one tried, whatever the configuration.
pub proof fn named_model_is_tried_first(config: ConfigView, model: Seq<char>)
    requires
        model.len() > 0,
    ensures
        config::candidate_models(config, Some(model)).len() > 0,
        config::candidate_models(config, Some(model))[0] == model,
{
    config::requested_model_comes_first(config, Some(model));
}

/// Where a request names no model, or an empty one, the default model is the first one tried.
pub proof fn default_model_is_tried_first(config: ConfigView, requested: Option<Seq<char>>)
    requires
        requested is None || requested->0.len() == 0,
        config.default_model.len() > 0,
    ensures
        config::candidate_models(config, requested).len() > 0,
        config::candidate_models(config, requested)[0] == config.default_model,
{
    config::requested_model_comes_first(config, requested);
}

/// A model is tried exactly where the request names it, or it is a fallback model, or the request
/// names none and it is the default model. None is tried twice.
pub proof fn no_other_model_is_tried(
    config: ConfigView,
    requested: Option<Seq<char>>,
    model: Seq<char>,
)
    ensures
        config::candidate_models(config, requested).contains(model) <==> {
            ||| model.len() > 0 && requested == Some(model)
            ||| config.fallback_models.contains(model)
            ||| model.len() > 0 && model == config.default_model && (requested is None
                || requested->0.len() == 0)
        },
        forall|i: int, j: int|
            0 <= i < j < config::candidate_models(config, requested).len()
                ==> #[trigger] config::candidate_models(config, requested)[i]
                != #[trigger] config::candidate_models(config, requested)[j],
{
    config::candidates_are_distinct(config, requested);
    let first = config::first_model(config, requested);
    if first.len() > 0 {
        assert(first.contains(first[0]));
    }
    assert(config::candidate_models(config, requested).contains(model) <==> first.contains(model)
        || config.fallback_models.contains(model));
}

/// The fallback models are tried in the order of their first occurrence: one that occurs before
/// another does is tried before it, unless the other is the model tried first of all.
pub proof fn fallback_models_are_tried_in_order(
    config: ConfigView,
    requested: Option<Seq<char>>,
    place: int,
    later: Seq<char>,
) -> (at: (int, int))
    requires
        0 <= place < config.fallback_models.len(),
        config.fallback_models.contains(later),
        forall|i: int| 0 <= i <= place ==> #[trigger] config.fallback_models[i] != later,
        config::candidate_models(config, requested)[0] != later,
    ensures
        0 <= at.0 < at.1 < config::candidate_models(config, requested).len(),
        config::candidate_models(config, requested)[at.0] == config.fallback_models[place],
        config::candidate_models(config, requested)[at.1] == later,
{
    let model = config.fallback_models[place];
    let first = config::first_model(config, requested);
    let list = first + config.fallback_models;
    let tried = config::candidate_models(config, requested);
    config::candidates_are_distinct(config, requested);
    assert(config.fallback_models.contains(model));
    assert(tried.contains(model));
    assert(tried.contains(later));
    let a = choose|a: int| 0 <= a < tried.len() && tried[a] == model;
    let b = choose|b: int| 0 <= b < tried.len() && tried[b] == later;
    if first.len() > 0 {
        config::requested_model_comes_first(config, requested);
    }
    assert(list[first.len() + place] == model);
    config::lemma_first_place(list, model, first.len() + place);
    let q = choose|q: int| 0 <= q < config.fallback_models.len() && config.fallback_models[q] == later;
    assert(list[first.len() + q] == later);
    config::lemma_first_place(list, later, first.len() + q);
    let p = config::first_place(list, later);
    if p < first.len() {
        assert(list[p] == first[p]);
        assert(false);
    }
    assert(list[p] == config.fallback_models[p - first.len()]);
    if p - first.len() <= place {
        assert(config.fallback_models[p - first.len()] != later);
    }
    if b < a {
        config::distinct_keeps_order(list, b, a);
    }
    (a, b)
}

/// The provider found for a model is the first of the configured ones whose own model it is; none
/// is found exactly where no provider has that model.
pub proof fn first_provider_of_the_model_is_found(
    providers: Seq<ProviderView>,
    model: Seq<char>,
) -> (place: int)
    ensures
        config::find_provider(providers, model) is None ==> forall|i: int|
            0 <= i < providers.len() ==> (#[trigger] providers[i]).model != model,
        config::find_provider(providers, model) is Some ==> {
            &&& 0 <= place < providers.len()
            &&& config::find_provider(providers, model)->0 == providers[place]
            &&& providers[place].model == model
            &&& forall|i: int| 0 <= i < place ==> (#[trigger] providers[i]).model != model
        },
    decreases providers.len(),
{
    if providers.len() == 0 {
        0
    } else {
        let rest = providers.drop_last();
        let place = first_provider_of_the_model_is_found(rest, model);
        if config::find_provider(rest, model) is Some {
            assert(rest[place] == providers[place]);
            assert forall|i: int| 0 <= i < place implies (#[trigger] providers[i]).model != model by {
                assert(rest[i].model != model);
            }
            place
        } else {
            assert forall|i: int| 0 <= i < rest.len() implies (#[trigger] providers[i]).model
                != model by {
                assert(rest[i].model != model);
            }
            providers.len() - 1
        }
    }
}

/// A configuration is accepted exactly where it has a provider, a default model that is not blank,
/// providers whose id, model and key variable are not blank, whose ids and models all differ and
/// whose URLs are read as `http` or `https` URLs, and a provider for the default model and for each
/// fallback model.
pub proof fn accepted_configurations(config: ConfigView)
    ensures
        validation::config_error(config) is None <==> {
            &&& config.providers.len() > 0
            &&& !text::blank(config.default_model)
            &&& forall|i: int|
                #![trigger config.providers[i]]
                0 <= i < config.providers.len() ==> {
                    let provider = config.providers[i];
                    let scheme = validation::parsed_scheme(provider.base_url);
                    &&& !text::blank(provider.id)
                    &&& !text::blank(provider.model)
                    &&& !text::blank(provider.api_key_env)
                    &&& scheme is Ok
                    &&& scheme->Ok_0 == "http"@ || scheme->Ok_0 == "https"@
                }
            &&& forall|i: int, j: int|
                0 <= i < j < config.providers.len() ==> (#[trigger] config.providers[i]).id != (
                #[trigger] config.providers[j]).id && config.providers[i].model
                    != config.providers[j].model
            &&& exists|i: int|
                0 <= i < config.providers.len() && (#[trigger] config.providers[i]).model
                    == config.default_model
            &&& forall|k: int|
                0 <= k < config.fallback_models.len() ==> exists|i: int|
                    0 <= i < config.providers.len() && (#[trigger] config.providers[i]).model
                        == #[trigger] config.fallback_models[k]
        },
{
    validation::accepted_means_valid(config);
    let providers = config.providers;
    if validation::config_error(config) is None {
        assert(forall|i: int|
            0 <= i < providers.len() ==> validation::sound_provider(#[trigger] providers[i]));
        assert forall|k: int| 0 <= k < config.fallback_models.len() implies exists|i: int|
            0 <= i < providers.len() && (#[trigger] providers[i]).model
                == #[trigger] config.fallback_models[k] by {
            assert(config::served(providers, config.fallback_models[k]));
        }
    } else if config.providers.len() > 0 && !text::blank(config.default_model) && (forall|i: int|
        #![trigger config.providers[i]]
        0 <= i < config.providers.len() ==> {
            let provider = config.providers[i];
            let scheme = validation::parsed_scheme(provider.base_url);
            &&& !text::blank(provider.id)
            &&& !text::blank(provider.model)
            &&& !text::blank(provider.api_key_env)
            &&& scheme is Ok
            &&& scheme->Ok_0 == "http"@ || scheme->Ok_0 == "https"@
        }) && (forall|k: int|
        0 <= k < config.fallback_models.len() ==> exists|i: int|
            0 <= i < config.providers.len() && (#[trigger] config.providers[i]).model
                == #[trigger] config.fallback_models[k]) {
        assert forall|i: int| 0 <= i < providers.len() implies validation::sound_provider(
            #[trigger] providers[i],
        ) by {}
        assert forall|k: int| 0 <= k < config.fallback_models.len() implies config::served(
            providers,
            #[trigger] config.fallback_models[k],
        ) by {
            let model = config.fallback_models[k];
            let i = choose|i: int|
                0 <= i < providers.len() && (#[trigger] providers[i]).model == model;
            assert(providers[i].model == model);
        }
    }
}

/// A configuration without a provider is refused for that; one with a provider but a blank default
/// model is refused for that, and no other is refused for either.
pub proof fn first_refusals(config: ConfigView)
    ensures
        validation::config_error(config) == Some(ConfigErrorView::NoProvider)
            <==> config.providers.len() == 0,
        validation::config_error(config) == Some(ConfigErrorView::BlankDefaultModel)
            <==> config.providers.len() > 0 && text::blank(config.default_model),
{
    lemma_provider_errors(config.providers, config.providers.len() as int);
    lemma_model_errors(
        config.providers,
        seq![config.default_model] + config.fallback_models,
    );
}

proof fn lemma_provider_errors(providers: Seq<ProviderView>, count: int)
    ensures
        match validation::first_provider_error(providers, count) {
            Some(ConfigErrorView::NoProvider) => false,
            Some(ConfigErrorView::BlankDefaultModel) => false,
            _ => true,
        },
    decreases count,
{
    if count > 0 {
        lemma_provider_errors(providers, count - 1);
    }
}

proof fn lemma_model_errors(providers: Seq<ProviderView>, models: Seq<Seq<char>>)
    ensures
        match validation::first_unserved(providers, models) {
            Some(ConfigErrorView::UnservedModel(model)) => true,
            None => true,
            _ => false,
        },
    decreases models.len(),
{
    if models.len() > 0 {
        lemma_model_errors(providers, models.drop_first());
    }
}

/// Whether a provider is faultless among those before it, by its own fields.
pub open spec fn faultless(providers: Seq<ProviderView>, index: int) -> bool {
    let provider = providers[index];
    let scheme = validation::parsed_scheme(provider.base_url);
    &&& !text::blank(provider.id)
    &&& !text::blank(provider.model)
    &&& !text::blank(provider.api_key_env)
    &&& forall|j: int|
        0 <= j < index ==> (#[trigger] providers[j]).id != provider.id && providers[j].model
            != provider.model
    &&& scheme is Ok
    &&& scheme->Ok_0 == "http"@ || scheme->Ok_0 == "https"@
}

/// The first faulty provider decides the refusal: a blank field comes before a repeated id or
/// model, and that before a faulty URL.
pub proof fn first_faulty_provider_decides(config: ConfigView, index: int)
    requires
        !text::blank(config.default_model),
        0 <= index < config.providers.len(),
        forall|i: int| 0 <= i < index ==> #[trigger] faultless(config.providers, i),
        !faultless(config.providers, index),
    ensures
        ({
            let provider = config.providers[index];
            let scheme = validation::parsed_scheme(provider.base_url);
            let error = validation::config_error(config);
            if text::blank(provider.id) || text::blank(provider.model) || text::blank(
                provider.api_key_env,
            ) {
                error == Some(ConfigErrorView::BlankProvider)
            } else if exists|j: int|
                0 <= j < index && ((#[trigger] config.providers[j]).id == provider.id
                    || config.providers[j].model == provider.model) {
                error == Some(ConfigErrorView::RepeatedProvider)
            } else if scheme is Err {
                error == Some(
                    ConfigErrorView::InvalidUrl { id: provider.id, cause: scheme->Err_0 },
                )
            } else {
                error == Some(ConfigErrorView::UnsupportedScheme)
            }
        }),
{
    let providers = config.providers;
    lemma_faultless(providers, index);
    assert(validation::first_provider_error(providers, index + 1) == validation::provider_error(
        providers,
        index,
    ));
    validation::lemma_first_error_stays(providers, index + 1, providers.len() as int);
}

proof fn lemma_faultless(providers: Seq<ProviderView>, count: int)
    requires
        0 <= count <= providers.len(),
        forall|i: int| 0 <= i < count ==> #[trigger] faultless(providers, i),
    ensures
        validation::first_provider_error(providers, count) is None,
    decreases count,
{
    if count > 0 {
        lemma_faultless(providers, count - 1);
        assert(faultless(providers, count - 1));
        assert(!validation::repeats(providers, count - 1));
    }
}

/// Where no provider is faulty, the first model without a provider decides the refusal: the default
/// model is looked at before the fallback models, and these in their order.
pub proof fn first_model_without_provider_decides(config: ConfigView, index: int)
    requires
        config.providers.len() > 0,
        !text::blank(config.default_model),
        forall|i: int|
            0 <= i < config.providers.len() ==> #[trigger] faultless(config.providers, i),
        -1 <= index < config.fallback_models.len(),
        ({
            let model = if index < 0 {
                config.default_model
            } else {
                config.fallback_models[index]
            };
            forall|i: int|
                0 <= i < config.providers.len() ==> (#[trigger] config.providers[i]).model != model
        }),
        index >= 0 ==> exists|i: int|
            0 <= i < config.providers.len() && (#[trigger] config.providers[i]).model
                == config.default_model,
        forall|k: int|
            0 <= k < index ==> exists|i: int|
                0 <= i < config.providers.len() && (#[trigger] config.providers[i]).model
                    == #[trigger] config.fallback_models[k],
    ensures
        validation::config_error(config) == Some(
            ConfigErrorView::UnservedModel(
                if index < 0 {
                    config.default_model
                } else {
                    config.fallback_models[index]
                },
            ),
        ),
{
    let providers = config.providers;
    let named = seq![config.default_model] + config.fallback_models;
    lemma_faultless(providers, providers.len() as int);
    assert forall|k: int| 0 <= k < index + 1 implies config::served(
        providers,
        #[trigger] named[k],
    ) by {
        if k > 0 {
            let model = config.fallback_models[k - 1];
            let i = choose|i: int|
                0 <= i < providers.len() && (#[trigger] providers[i]).model == model;
            assert(providers[i].model == named[k]);
        } else {
            let i = choose|i: int|
                0 <= i < providers.len() && (#[trigger] providers[i]).model == config.default_model;
            assert(providers[i].model == named[0]);
        }
    }
    validation::lemma_unserved(providers, named, index + 1);
}

/// What a verdict and a scheme are is taken as it stands.
pub proof fn verdicts_are_taken_as_they_stand(
    verdict: Result<(), ConfigError>,
    scheme: Result<String, String>,
)
    ensures
        validation::refusal(verdict) is None <==> verdict is Ok,
        verdict is Err ==> match verdict->Err_0 {
            ConfigError::NoProvider => validation::refusal(verdict)->0 is NoProvider,
            ConfigError::BlankDefaultModel => validation::refusal(verdict)->0 is BlankDefaultModel,
            ConfigError::BlankProvider => validation::refusal(verdict)->0 is BlankProvider,
            ConfigError::RepeatedProvider => validation::refusal(verdict)->0 is RepeatedProvider,
            ConfigError::InvalidUrl { id, cause } => validation::refusal(verdict)->0 == (
            ConfigErrorView::InvalidUrl { id: id@, cause: cause@ }),
            ConfigError::UnsupportedScheme => validation::refusal(verdict)->0 is UnsupportedScheme,
            ConfigError::UnservedModel(model) => validation::refusal(verdict)->0
                == ConfigErrorView::UnservedModel(model@),
        },
        validation::scheme_view(scheme) is Ok <==> scheme is Ok,
        scheme is Ok ==> validation::scheme_view(scheme)->Ok_0 == scheme->Ok_0@,
        scheme is Err ==> validation::scheme_view(scheme)->Err_0 == scheme->Err_0@,
{
}

/// A URL is accepted for its scheme exactly where that is `http` or `https`; what is no URL is told
/// with the provider's id and the cause.
pub proof fn schemes_of_the_web_are_accepted(id: Seq<char>, scheme: Seq<char>, cause: Seq<char>)
    ensures
        validation::scheme_error(id, Ok(scheme)) is None <==> scheme == "http"@ || scheme
            == "https"@,
        validation::scheme_error(id, Ok(scheme)) is Some ==> validation::scheme_error(
            id,
            Ok(scheme),
        )->0 is UnsupportedScheme,
        validation::scheme_error(id, Err(cause)) == Some(
            ConfigErrorView::InvalidUrl { id, cause },
        ),
{
}

/// What a refusal tells of its cause.
pub proof fn refusals_name_their_cause(id: Seq<char>, cause: Seq<char>, model: Seq<char>)
    ensures
        validation::message_of(ConfigErrorView::InvalidUrl { id, cause })
            == "invalid provider URL for "@ + id,
        validation::message_of(ConfigErrorView::UnservedModel(model))
            == "configured model has no provider: "@ + model,
{
}

} // verus!
