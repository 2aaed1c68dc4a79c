//! What a provider is sent, and what the client is replied, told by the fields of the
//! configuration, of the request and of the answers.
use crate::codec;
use crate::config::{self, ConfigView, ProviderView};
use crate::config_laws;
use crate::json::JsonView;
use crate::relay::{
    self, Attempt, Outcome, OutcomeView, Relay, RelayStep, RelayView, StepView,
};
use crate::reply::{self, Reply, ReplyView};
use crate::text;
use vstd::prelude::*;

verus! {

/// A reply is taken as it stands.
pub proof fn replies_are_taken_as_they_stand(answer: Reply)
    ensures
        answer@.status == answer.status,
        answer@.body == answer.body@,
        answer@.content_type is Some <==> answer.content_type is Some,
        answer.content_type is Some ==> answer@.content_type->0 == answer.content_type->0@,
{
}

/// A request to a provider is taken as it stands.
pub proof fn attempts_are_taken_as_they_stand(attempt: Attempt)
    ensures
        attempt@.provider_id == attempt.provider_id@,
        attempt@.url == attempt.url@,
        attempt@.api_key_env == attempt.api_key_env@,
        attempt@.body == attempt.body@,
{
}

/// An outcome, a relay and its steps are taken as they stand.
pub proof fn relays_are_taken_as_they_stand(outcome: Outcome, relay: Relay, step: RelayStep)
    ensures
        outcome is Failed <==> outcome@ is Failed,
        outcome is Answered ==> outcome@->Answered_0 == outcome->Answered_0@,
        relay@.remaining.len() == relay.remaining@.len(),
        forall|i: int|
            0 <= i < relay.remaining@.len() ==> #[trigger] relay@.remaining[i]
                == relay.remaining@[i]@,
        relay@.last is Some <==> relay.last is Some,
        relay.last is Some ==> relay@.last->0 == relay.last->0@,
        step is Send <==> step@ is Send,
        step is Send ==> step@->Send_0 == step->Send_0@ && step@->Send_1 == step->Send_1@,
        step is Respond ==> step@->Respond_0 == step->Respond_0@,
{
}

/// A model is requested exactly where the request is an object whose field `model` is a text, and
/// then it is that text.
pub proof fn requested_model_is_the_field(request: JsonView, model: Seq<char>)
    ensures
        relay::requested_model(request) == Some(model) <==> request is Object
            && request->Object_0.contains_pair("model"@, JsonView::Text(model)),
{
}

/// What a provider is sent is told by its own fields: the request goes to its URL, less the slashes
/// at its end, with the key of the variable that it names, and is the client's request with the
/// model set.
pub proof fn attempt_has_the_fields_of_its_provider(
    request: JsonView,
    model: Seq<char>,
    provider: ProviderView,
    slashes: nat,
)
    requires
        request is Object || request is Null,
        slashes <= provider.base_url.len(),
        forall|i: int|
            provider.base_url.len() - slashes <= i < provider.base_url.len()
                ==> #[trigger] provider.base_url[i] == '/',
        slashes < provider.base_url.len() ==> provider.base_url[provider.base_url.len() - slashes
            - 1] != '/',
    ensures
        ({
            let attempt = relay::attempt_for(request, model, provider);
            &&& attempt.provider_id == provider.id
            &&& attempt.api_key_env == provider.api_key_env
            &&& attempt.url == provider.base_url.take(provider.base_url.len() - slashes)
                + "/v1/chat/completions"@
            &&& attempt.body is Object
            &&& attempt.body->Object_0.contains_pair("model"@, JsonView::Text(model))
            &&& forall|name: Seq<char>|
                name != "model"@ ==> (#[trigger] attempt.body->Object_0.contains_key(name) <==> (
                request is Object && request->Object_0.contains_key(name)))
            &&& forall|name: Seq<char>|
                name != "model"@ && request is Object && request->Object_0.contains_key(name)
                    ==> #[trigger] attempt.body->Object_0[name] == request->Object_0[name]
        }),
{
    lemma_trimmed(provider.base_url, slashes);
}

proof fn lemma_trimmed(row: Seq<char>, slashes: nat)
    requires
        slashes <= row.len(),
        forall|i: int| row.len() - slashes <= i < row.len() ==> #[trigger] row[i] == '/',
        slashes < row.len() ==> row[row.len() - slashes - 1] != '/',
    ensures
        text::without_trailing_slashes(row) == row.take(row.len() - slashes),
    decreases slashes,
{
    if slashes > 0 {
        let rest = row.drop_last();
        assert(row[row.len() - 1] == '/');
        assert forall|i: int| rest.len() - (slashes - 1) <= i < rest.len() implies #[trigger] rest[i]
            == '/' by {
            assert(row[i] == '/');
        }
        lemma_trimmed(rest, (slashes - 1) as nat);
        assert(rest.take(rest.len() - (slashes - 1)) =~= row.take(row.len() - slashes));
    } else {
        assert(row.take(row.len() as int) =~= row);
    }
}

/// For each request that is sent there is a model that is tried and a configured provider, the
/// first with that model, such that the request has that provider's id, its key variable, its URL
/// and that model; and the models keep their order.
pub proof fn attempts_have_the_fields_of_their_providers(
    providers: Seq<ProviderView>,
    request: JsonView,
    models: Seq<Seq<char>>,
) -> (found: (Seq<int>, Seq<int>))
    requires
        request is Object || request is Null,
    ensures
        ({
            let attempts = relay::attempts_for(providers, request, models);
            let (tried, served) = found;
            &&& tried.len() == attempts.len()
            &&& served.len() == attempts.len()
            &&& forall|k: int|
                #![trigger attempts[k]]
                0 <= k < attempts.len() ==> {
                    let provider = providers[served[k]];
                    &&& 0 <= tried[k] < models.len()
                    &&& 0 <= served[k] < providers.len()
                    &&& provider.model == models[tried[k]]
                    &&& forall|i: int|
                        0 <= i < served[k] ==> (#[trigger] providers[i]).model != models[tried[k]]
                    &&& attempts[k].provider_id == provider.id
                    &&& attempts[k].api_key_env == provider.api_key_env
                    &&& attempts[k].url == text::without_trailing_slashes(provider.base_url)
                        + "/v1/chat/completions"@
                    &&& attempts[k].body is Object
                    &&& attempts[k].body->Object_0.contains_pair(
                        "model"@,
                        JsonView::Text(models[tried[k]]),
                    )
                }
            &&& forall|a: int, b: int|
                0 <= a < b < tried.len() ==> #[trigger] tried[a] < #[trigger] tried[b]
        }),
    decreases models.len(),
{
    if models.len() == 0 {
        (Seq::empty(), Seq::empty())
    } else {
        let (before, hosts) = attempts_have_the_fields_of_their_providers(
            providers,
            request,
            models.drop_last(),
        );
        let earlier = relay::attempts_for(providers, request, models.drop_last());
        let attempts = relay::attempts_for(providers, request, models);
        assert forall|k: int| #![trigger earlier[k]] 0 <= k < earlier.len() implies models[before[k]]
            == models.drop_last()[before[k]] && 0 <= before[k] < models.len() - 1 by {
            assert(earlier[k].provider_id == providers[hosts[k]].id);
        }
        let host = config_laws::first_provider_of_the_model_is_found(providers, models.last());
        if config::find_provider(providers, models.last()) is Some {
            let tried = before.push(models.len() - 1);
            let served = hosts.push(host);
            assert forall|k: int| #![trigger attempts[k]] 0 <= k < earlier.len() implies attempts[k]
                == earlier[k] && tried[k] == before[k] && served[k] == hosts[k] by {}
            assert forall|a: int, b: int| 0 <= a < b < tried.len() implies #[trigger] tried[a]
                < #[trigger] tried[b] by {
                if b == before.len() {
                    assert(0 <= earlier[a].url.len());
                }
            }
            (tried, served)
        } else {
            (before, hosts)
        }
    }
}

/// No model that has a provider is passed over: there is a request for each of them.
pub proof fn every_served_model_is_tried(
    providers: Seq<ProviderView>,
    request: JsonView,
    models: Seq<Seq<char>>,
    model: int,
    provider: int,
) -> (place: int)
    requires
        request is Object || request is Null,
        0 <= model < models.len(),
        0 <= provider < providers.len(),
        providers[provider].model == models[model],
    ensures
        0 <= place < relay::attempts_for(providers, request, models).len(),
        relay::attempts_for(providers, request, models)[place].body is Object,
        relay::attempts_for(providers, request, models)[place].body->Object_0.contains_pair(
            "model"@,
            JsonView::Text(models[model]),
        ),
    decreases models.len(),
{
    let before = relay::attempts_for(providers, request, models.drop_last());
    if model == models.len() - 1 {
        config_laws::first_provider_of_the_model_is_found(providers, models.last());
        before.len() as int
    } else {
        let place = every_served_model_is_tried(
            providers,
            request,
            models.drop_last(),
            model,
            provider,
        );
        assert(relay::attempts_for(providers, request, models)[place] == before[place]);
        place
    }
}

/// The first step for a request: without a model to try, the client is replied 500; otherwise the
/// first of the requests is sent and the others are kept, or 502 is replied where there is none.
pub proof fn first_step_of_a_relay(config: ConfigView, request: JsonView)
    ensures
        ({
            let models = config::candidate_models(config, relay::requested_model(request));
            let attempts = relay::attempts_for(config.providers, request, models);
            let step = relay::first_step(config, request);
            if models.len() == 0 {
                step == StepView::Respond(reply::error_reply(500, "no models configured"@))
            } else if attempts.len() == 0 {
                step == StepView::Respond(reply::error_reply(502, "all providers failed"@))
            } else {
                &&& step is Send
                &&& step->Send_0 == attempts[0]
                &&& step->Send_1.remaining == attempts.skip(1)
                &&& step->Send_1.last is None
            }
        }),
{
    let models = config::candidate_models(config, relay::requested_model(request));
    let attempts = relay::attempts_for(config.providers, request, models);
    if attempts.len() > 0 {
        assert(attempts.drop_first() =~= attempts.skip(1));
    }
}

/// The step after an outcome, told by the status alone: 429 and the 500s, like a failure to send or
/// to read, lead to the next request where one is left and to the last answer, or 502, where none
/// is; any other status is handed on with its answer.
pub proof fn status_decides_the_next_step(relay: RelayView, outcome: OutcomeView)
    ensures
        ({
            let step = relay::step_after(relay, outcome);
            let last = if outcome is Answered {
                Some(outcome->Answered_0)
            } else {
                relay.last
            };
            let status = outcome->Answered_0.status;
            if outcome is Answered && status != 429 && !(500 <= status <= 599) {
                step == StepView::Respond(outcome->Answered_0)
            } else if relay.remaining.len() > 0 {
                &&& step is Send
                &&& step->Send_0 == relay.remaining[0]
                &&& step->Send_1.remaining == relay.remaining.skip(1)
                &&& step->Send_1.last == last
            } else if last is Some {
                step == StepView::Respond(last->0)
            } else {
                step == StepView::Respond(reply::error_reply(502, "all providers failed"@))
            }
        }),
{
    if relay.remaining.len() > 0 {
        assert(relay.remaining.drop_first() =~= relay.remaining.skip(1));
    }
}

/// The reply that tells an error has the given status, is JSON, and holds an object whose one field
/// `error` is the whole message.
pub proof fn error_replies_hold_the_message(status: u16, message: Seq<char>, body: JsonView)
    requires
        body is Object,
        body->Object_0.dom() == set!["error"@],
        body->Object_0["error"@] == JsonView::Text(message),
    ensures
        reply::error_reply(status, message).status == status,
        reply::error_reply(status, message).content_type == Some(
            vstd::utf8::encode_utf8("application/json"@),
        ),
        reply::error_reply(status, message).body == vstd::utf8::encode_utf8(
            codec::compact_json(body),
        ),
{
    assert(body->Object_0 =~= Map::empty().insert("error"@, JsonView::Text(message)));
}

/// A label and its text make an object with that field and no other.
pub proof fn labels_are_the_only_field(name: Seq<char>, text: Seq<char>)
    ensures
        reply::labelled(name, text) is Object,
        reply::labelled(name, text)->Object_0.dom() == set![name],
        reply::labelled(name, text)->Object_0[name] == JsonView::Text(text),
{
    assert(reply::labelled(name, text)->Object_0.dom() =~= set![name]);
}

/// A reply with a JSON value has the given status and that value as its body.
pub proof fn json_replies_hold_the_value(status: u16, value: JsonView)
    ensures
        reply::json_reply_view(status, value).status == status,
        reply::json_reply_view(status, value).body == vstd::utf8::encode_utf8(
            codec::compact_json(value),
        ),
        reply::json_reply_view(status, value).content_type == Some(
            vstd::utf8::encode_utf8("application/json"@),
        ),
{
}

/// The body of a reply is read as JSON from its whole text.
pub proof fn bodies_are_read_whole(answer: ReplyView)
    ensures
        reply::body_json(answer) == codec::parsed_json(vstd::utf8::decode_utf8(answer.body)),
{
}

/// Objects and null can be relayed; of other values exactly those can for which no provider has a
/// model that is tried.
pub proof fn requests_that_can_be_relayed(config: ConfigView, request: JsonView)
    ensures
        relay::relayable(config, request) <==> request is Object || request is Null || forall|
            m: int,
            p: int,
        |
            0 <= m < relay::models_for(config, request).len() && 0 <= p < config.providers.len()
                ==> #[trigger] relay::models_for(config, request)[m] != (
            #[trigger] config.providers[p]).model,
        relay::models_for(config, request) == config::candidate_models(
            config,
            relay::requested_model(request),
        ),
{
    lemma_attempts_without_provider(config.providers, request, relay::models_for(config, request));
}

proof fn lemma_attempts_without_provider(
    providers: Seq<ProviderView>,
    request: JsonView,
    models: Seq<Seq<char>>,
)
    ensures
        relay::attempts_for(providers, request, models).len() == 0 <==> forall|m: int, p: int|
            0 <= m < models.len() && 0 <= p < providers.len() ==> #[trigger] models[m] != (
            #[trigger] providers[p]).model,
    decreases models.len(),
{
    if models.len() > 0 {
        let rest = models.drop_last();
        lemma_attempts_without_provider(providers, request, rest);
        let place = config_laws::first_provider_of_the_model_is_found(providers, models.last());
        if relay::attempts_for(providers, request, models).len() == 0 {
            assert forall|m: int, p: int|
                0 <= m < models.len() && 0 <= p < providers.len() implies #[trigger] models[m] != (
            #[trigger] providers[p]).model by {
                if m < rest.len() {
                    assert(rest[m] != providers[p].model);
                }
            }
        } else if forall|m: int, p: int|
            0 <= m < models.len() && 0 <= p < providers.len() ==> #[trigger] models[m] != (
            #[trigger] providers[p]).model {
            assert forall|m: int, p: int|
                0 <= m < rest.len() && 0 <= p < providers.len() implies #[trigger] rest[m] != (
            #[trigger] providers[p]).model by {
                assert(models[m] != providers[p].model);
            }
            if config::find_provider(providers, models.last()) is Some {
                assert(models[models.len() - 1] != providers[place].model);
            }
        }
    }
}

} // verus!
