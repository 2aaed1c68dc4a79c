//! What holds of every relay.
use crate::config::{self, ConfigView, ProviderView};
use crate::json::{self, JsonView};
use crate::relay::{self, AttemptView, OutcomeView, RelayView, StepView};
use crate::reply::{self, ReplyView};
use crate::validation;
use vstd::prelude::*;

verus! {

/// Whether an outcome lets the relay turn to the next provider: a failure to send or to read, too
/// many requests, or a fault of the server.
pub open spec fn fault(outcome: OutcomeView) -> bool {
    match outcome {
        OutcomeView::Failed => true,
        OutcomeView::Answered(reply) => reply.status == 429 || 500 <= reply.status < 600,
    }
}

/// Another provider is asked only after a failure of transport, a status of the 500s, or 429.
pub proof fn fallback_only_after_fault(relay: RelayView, outcome: OutcomeView)
    requires
        relay::step_after(relay, outcome) is Send,
    ensures
        fault(outcome),
{
}

/// After a fault, another provider is asked as long as one is left.
pub proof fn fault_leads_to_next(relay: RelayView, outcome: OutcomeView)
    requires
        fault(outcome),
        relay.remaining.len() > 0,
    ensures
        relay::step_after(relay, outcome) matches StepView::Send(attempt, rest) && attempt
            == relay.remaining[0] && rest.remaining == relay.remaining.drop_first(),
{
}

/// An answer that is no fault, a success or a refusal, goes to the client as it stands.
pub proof fn answer_is_handed_on(relay: RelayView, answer: ReplyView)
    requires
        !fault(OutcomeView::Answered(answer)),
    ensures
        relay::step_after(relay, OutcomeView::Answered(answer)) == StepView::Respond(answer),
{
}

/// Where a relay stands after a number of outcomes.
pub open spec fn run(step: StepView, outcomes: Seq<OutcomeView>) -> StepView
    decreases outcomes.len(),
{
    match step {
        StepView::Send(attempt, rest) => if outcomes.len() > 0 {
            run(relay::step_after(rest, outcomes[0]), outcomes.drop_first())
        } else {
            step
        },
        StepView::Respond(answer) => step,
    }
}

/// Over a whole relay: another provider is asked exactly as long as every outcome so far is a
/// fault and a provider is left, and the providers are asked in their order.
pub proof fn requests_follow_faults(relay: RelayView, outcomes: Seq<OutcomeView>)
    ensures
        run(relay::next_step(relay), outcomes) is Send <==> {
            &&& outcomes.len() < relay.remaining.len()
            &&& forall|i: int| 0 <= i < outcomes.len() ==> fault(#[trigger] outcomes[i])
        },
        run(relay::next_step(relay), outcomes) matches StepView::Send(attempt, rest) ==> {
            &&& attempt == relay.remaining[outcomes.len() as int]
            &&& rest.remaining == relay.remaining.skip(outcomes.len() as int + 1)
        },
    decreases outcomes.len(),
{
    reveal_with_fuel(run, 2);
    if outcomes.len() == 0 {
        if relay.remaining.len() > 0 {
            assert(relay.remaining.drop_first() =~= relay.remaining.skip(1));
        }
    } else if relay.remaining.len() > 0 {
        let left = relay.remaining.drop_first();
        let later = outcomes.drop_first();
        if fault(outcomes[0]) {
            let last = match outcomes[0] {
                OutcomeView::Failed => relay.last,
                OutcomeView::Answered(given) => Some(given),
            };
            requests_follow_faults(RelayView { remaining: left, last }, later);
            if forall|i: int| 0 <= i < later.len() ==> fault(#[trigger] later[i]) {
                assert forall|i: int| 0 <= i < outcomes.len() implies fault(
                    #[trigger] outcomes[i],
                ) by {
                    if i > 0 {
                        assert(fault(later[i - 1]));
                    }
                }
            } else {
                let i = choose|i: int| 0 <= i < later.len() && !fault(#[trigger] later[i]);
                assert(!fault(outcomes[i + 1]));
            }
            if outcomes.len() < relay.remaining.len() {
                assert(left.skip(later.len() as int + 1) =~= relay.remaining.skip(outcomes.len() as int + 1));
            }
        }
    }
}

/// A relay replies after at most as many outcomes as there were requests to send.
pub proof fn relay_ends(relay: RelayView, outcomes: Seq<OutcomeView>)
    requires
        outcomes.len() >= relay.remaining.len(),
    ensures
        run(relay::next_step(relay), outcomes) is Respond,
    decreases relay.remaining.len(),
{
    reveal_with_fuel(run, 2);
    if relay.remaining.len() > 0 {
        let rest = RelayView { remaining: relay.remaining.drop_first(), last: relay.last };
        match outcomes[0] {
            OutcomeView::Failed => {
                relay_ends(rest, outcomes.drop_first());
            },
            OutcomeView::Answered(answer) => {
                relay_ends(
                    RelayView { remaining: rest.remaining, last: Some(answer) },
                    outcomes.drop_first(),
                );
            },
        }
    }
}

/// The last answer among some outcomes, or an earlier one where they hold none.
pub open spec fn last_answer(earlier: Option<ReplyView>, outcomes: Seq<OutcomeView>) -> Option<
    ReplyView,
>
    decreases outcomes.len(),
{
    if outcomes.len() == 0 {
        earlier
    } else {
        match outcomes.last() {
            OutcomeView::Answered(answer) => Some(answer),
            OutcomeView::Failed => last_answer(earlier, outcomes.drop_last()),
        }
    }
}

proof fn lemma_last_answer_from_front(earlier: Option<ReplyView>, outcomes: Seq<OutcomeView>)
    requires
        outcomes.len() > 0,
    ensures
        last_answer(earlier, outcomes) == last_answer(
            match outcomes[0] {
                OutcomeView::Answered(answer) => Some(answer),
                OutcomeView::Failed => earlier,
            },
            outcomes.drop_first(),
        ),
    decreases outcomes.len(),
{
    if outcomes.len() > 1 {
        lemma_last_answer_from_front(earlier, outcomes.drop_last());
        assert(outcomes.drop_first().drop_last() =~= outcomes.drop_last().drop_first());
    } else {
        reveal_with_fuel(last_answer, 2);
        assert(outcomes.drop_last() =~= Seq::empty());
        assert(outcomes.drop_first() =~= Seq::empty());
    }
}

/// Where every provider has a fault, the client gets the last answer that came; where none came,
/// it is told that all providers failed.
pub proof fn exhausted_relay_replies_last_answer(relay: RelayView, outcomes: Seq<OutcomeView>)
    requires
        outcomes.len() == relay.remaining.len(),
        forall|i: int| 0 <= i < outcomes.len() ==> fault(#[trigger] outcomes[i]),
    ensures
        run(relay::next_step(relay), outcomes) == StepView::Respond(
            match last_answer(relay.last, outcomes) {
                Some(answer) => answer,
                None => reply::error_reply(502, "all providers failed"@),
            },
        ),
    decreases outcomes.len(),
{
    if outcomes.len() > 0 {
        let left = relay.remaining.drop_first();
        let later = outcomes.drop_first();
        assert(fault(outcomes[0]));
        assert forall|i: int| 0 <= i < later.len() implies fault(#[trigger] later[i]) by {
            assert(fault(outcomes[i + 1]));
        }
        lemma_last_answer_from_front(relay.last, outcomes);
        match outcomes[0] {
            OutcomeView::Failed => {
                exhausted_relay_replies_last_answer(
                    RelayView { remaining: left, last: relay.last },
                    later,
                );
            },
            OutcomeView::Answered(answer) => {
                exhausted_relay_replies_last_answer(
                    RelayView { remaining: left, last: Some(answer) },
                    later,
                );
            },
        }
    }
}

/// The first answer that is no fault decides, whatever faults came before it.
pub proof fn first_faultless_answer_decides(
    relay: RelayView,
    outcomes: Seq<OutcomeView>,
    answer: ReplyView,
)
    requires
        0 < outcomes.len() <= relay.remaining.len(),
        forall|i: int| 0 <= i < outcomes.len() - 1 ==> fault(#[trigger] outcomes[i]),
        outcomes.last() == OutcomeView::Answered(answer),
        !fault(outcomes.last()),
    ensures
        run(relay::next_step(relay), outcomes) == StepView::Respond(answer),
    decreases outcomes.len(),
{
    reveal_with_fuel(run, 2);
    let left = relay.remaining.drop_first();
    let later = outcomes.drop_first();
    if outcomes.len() > 1 {
        assert(fault(outcomes[0]));
        assert forall|i: int| 0 <= i < later.len() - 1 implies fault(#[trigger] later[i]) by {
            assert(fault(outcomes[i + 1]));
        }
        let last = match outcomes[0] {
            OutcomeView::Failed => relay.last,
            OutcomeView::Answered(given) => Some(given),
        };
        first_faultless_answer_decides(RelayView { remaining: left, last }, later, answer);
    } else {
        assert(outcomes[0] == outcomes.last());
    }
}

/// Whether some outcome is an answer.
pub open spec fn answered_with(outcomes: Seq<OutcomeView>, answer: ReplyView) -> bool {
    exists|i: int| 0 <= i < outcomes.len() && #[trigger] outcomes[i] == OutcomeView::Answered(answer)
}

proof fn lemma_replies_come_from_upstream(relay: RelayView, outcomes: Seq<OutcomeView>, answer: ReplyView)
    requires
        run(relay::next_step(relay), outcomes) == StepView::Respond(answer),
    ensures
        answered_with(outcomes, answer) || relay.last == Some(answer) || answer
            == reply::error_reply(502, "all providers failed"@),
    decreases outcomes.len(),
{
    reveal_with_fuel(run, 2);
    if relay.remaining.len() > 0 && outcomes.len() > 0 {
        let left = relay.remaining.drop_first();
        let later = outcomes.drop_first();
        match outcomes[0] {
            OutcomeView::Failed => {
                lemma_replies_come_from_upstream(
                    RelayView { remaining: left, last: relay.last },
                    later,
                    answer,
                );
            },
            OutcomeView::Answered(given) => {
                if fault(outcomes[0]) {
                    lemma_replies_come_from_upstream(
                        RelayView { remaining: left, last: Some(given) },
                        later,
                        answer,
                    );
                }
                assert(given == answer ==> outcomes[0] == OutcomeView::Answered(answer));
            },
        }
        if answered_with(later, answer) {
            let i = choose|i: int|
                0 <= i < later.len() && #[trigger] later[i] == OutcomeView::Answered(answer);
            assert(outcomes[i + 1] == OutcomeView::Answered(answer));
        }
    }
}

/// The client is told nothing of the proxy's own: a reply is an answer that a provider gave, or
/// one of two fixed errors.
pub proof fn replies_come_from_upstream(
    config: ConfigView,
    request: JsonView,
    outcomes: Seq<OutcomeView>,
    answer: ReplyView,
)
    requires
        run(relay::first_step(config, request), outcomes) == StepView::Respond(answer),
    ensures
        answered_with(outcomes, answer) || answer == reply::error_reply(
            500,
            "no models configured"@,
        ) || answer == reply::error_reply(502, "all providers failed"@),
{
    let models = relay::models_for(config, request);
    if models.len() > 0 {
        lemma_replies_come_from_upstream(
            RelayView {
                remaining: relay::attempts_for(config.providers, request, models),
                last: None,
            },
            outcomes,
            answer,
        );
    }
}

/// A provider gets the client's request with the model set and nothing else changed.
pub proof fn only_the_model_changes(
    request: JsonView,
    model: Seq<char>,
    provider: ProviderView,
    name: Seq<char>,
)
    requires
        request is Object || request is Null,
    ensures
        json::field(relay::attempt_for(request, model, provider).body, name) == if name
            == "model"@ {
            Some(JsonView::Text(model))
        } else {
            json::field(request, name)
        },
{
}

/// The model that a request to a provider names.
pub open spec fn attempted_model(attempt: AttemptView) -> Option<Seq<char>> {
    relay::requested_model(attempt.body)
}

/// Each request goes, for one of the given models, to the first provider that serves it; the
/// requests keep the order of the models, and there are no more of them than models.
pub proof fn attempts_follow_models(
    providers: Seq<ProviderView>,
    request: JsonView,
    models: Seq<Seq<char>>,
) -> (places: Seq<int>)
    ensures
        places.len() == relay::attempts_for(providers, request, models).len(),
        places.len() <= models.len(),
        forall|k: int|
            0 <= k < places.len() ==> 0 <= #[trigger] places[k] < models.len()
                && config::find_provider(providers, models[places[k]]) is Some
                && relay::attempts_for(providers, request, models)[k] == relay::attempt_for(
                request,
                models[places[k]],
                config::find_provider(providers, models[places[k]])->0,
            ),
        forall|a: int, b: int| 0 <= a < b < places.len() ==> #[trigger] places[a] < #[trigger] places[b],
    decreases models.len(),
{
    if models.len() == 0 {
        Seq::empty()
    } else {
        let before = attempts_follow_models(providers, request, models.drop_last());
        if config::find_provider(providers, models.last()) is Some {
            let places = before.push(models.len() - 1);
            assert forall|k: int| 0 <= k < places.len() implies 0 <= #[trigger] places[k]
                < models.len() && config::find_provider(providers, models[places[k]]) is Some
                && relay::attempts_for(providers, request, models)[k] == relay::attempt_for(
                request,
                models[places[k]],
                config::find_provider(providers, models[places[k]])->0,
            ) by {
                if k < before.len() {
                    assert(places[k] == before[k]);
                    assert(models.drop_last()[before[k]] == models[places[k]]);
                }
            }
            places
        } else {
            assert forall|k: int| 0 <= k < before.len() implies 0 <= #[trigger] before[k]
                < models.len() && config::find_provider(providers, models[before[k]]) is Some
                && relay::attempts_for(providers, request, models)[k] == relay::attempt_for(
                request,
                models[before[k]],
                config::find_provider(providers, models[before[k]])->0,
            ) by {
                assert(models.drop_last()[before[k]] == models[before[k]]);
            }
            before
        }
    }
}

/// No model is asked for twice.
pub proof fn no_model_is_tried_twice(config: ConfigView, request: JsonView, i: int, j: int)
    requires
        0 <= i < j < relay::attempts_for(
            config.providers,
            request,
            relay::models_for(config, request),
        ).len(),
    ensures
        ({
            let attempts = relay::attempts_for(
                config.providers,
                request,
                relay::models_for(config, request),
            );
            attempted_model(attempts[i]) != attempted_model(attempts[j])
        }),
{
    let models = relay::models_for(config, request);
    let places = attempts_follow_models(config.providers, request, models);
    config::candidates_are_distinct(config, relay::requested_model(request));
    assert(places[i] < places[j]);
    assert(models[places[i]] != models[places[j]]);
}

proof fn lemma_all_attempted(
    providers: Seq<ProviderView>,
    request: JsonView,
    models: Seq<Seq<char>>,
)
    requires
        forall|i: int|
            0 <= i < models.len() ==> config::find_provider(providers, #[trigger] models[i]) is Some,
    ensures
        relay::attempts_for(providers, request, models).len() == models.len(),
    decreases models.len(),
{
    if models.len() > 0 {
        let rest = models.drop_last();
        assert forall|i: int| 0 <= i < rest.len() implies config::find_provider(
            providers,
            #[trigger] rest[i],
        ) is Some by {
            assert(rest[i] == models[i]);
        }
        lemma_all_attempted(providers, request, rest);
        assert(models[models.len() - 1] == models.last());
    }
}

/// With a valid configuration, a request that names no model, or one that a provider serves, has
/// a provider for each of its models: at least one request is sent, and none is left out.
pub proof fn valid_config_serves_every_candidate(config: ConfigView, request: JsonView)
    requires
        validation::valid_config(config),
        match relay::requested_model(request) {
            Some(model) => model.len() > 0 ==> config::served(config.providers, model),
            None => true,
        },
    ensures
        relay::attempts_for(config.providers, request, relay::models_for(config, request)).len()
            == relay::models_for(config, request).len(),
        relay::first_step(config, request) is Send,
{
    let requested = relay::requested_model(request);
    let models = relay::models_for(config, request);
    let first = config::first_model(config, requested);
    assert(config.default_model.len() > 0);
    config::candidates_are_distinct(config, requested);
    config::requested_model_comes_first(config, requested);
    assert forall|i: int| 0 <= i < models.len() implies config::find_provider(
        config.providers,
        #[trigger] models[i],
    ) is Some by {
        let model = models[i];
        config::found_provider_serves_model(config.providers, model);
        assert(models.contains(model));
        if config.fallback_models.contains(model) {
            let k = choose|k: int|
                0 <= k < config.fallback_models.len() && config.fallback_models[k] == model;
            assert(config::served(config.providers, config.fallback_models[k]));
        } else {
            assert(first.contains(model));
        }
    }
    lemma_all_attempted(config.providers, request, models);
}

} // verus!
