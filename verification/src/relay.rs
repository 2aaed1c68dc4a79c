//! Relaying a chat request to the providers, one after the other.
use crate::config::{self, Config, ConfigView, ProviderView};
use crate::json::{self, Json, JsonView};
use crate::reply::{self, error_response, Reply, ReplyView};
use crate::text;
use vstd::prelude::*;

verus! {

/// A request to send to a provider. `api_key_env` names the environment variable with the key.
#[derive(Debug, PartialEq)]
pub struct Attempt {
    pub provider_id: String,
    pub url: String,
    pub api_key_env: String,
    pub body: Json,
}

/// What a request to a provider is.
pub struct AttemptView {
    pub provider_id: Seq<char>,
    pub url: Seq<char>,
    pub api_key_env: Seq<char>,
    pub body: JsonView,
}

impl View for Attempt {
    type V = AttemptView;

    open spec fn view(&self) -> AttemptView {
        AttemptView {
            provider_id: self.provider_id@,
            url: self.url@,
            api_key_env: self.api_key_env@,
            body: self.body@,
        }
    }
}

/// What the requests of a list are.
pub open spec fn attempt_views(attempts: Seq<Attempt>) -> Seq<AttemptView> {
    Seq::new(attempts.len(), |i: int| attempts[i]@)
}

/// What came of a request to a provider.
#[derive(Debug, PartialEq)]
pub enum Outcome {
    /// The request could not be sent, or the answer could not be read.
    Failed,
    /// The provider answered.
    Answered(Reply),
}

/// What an outcome is.
pub enum OutcomeView {
    Failed,
    Answered(ReplyView),
}

impl View for Outcome {
    type V = OutcomeView;

    open spec fn view(&self) -> OutcomeView {
        match self {
            Outcome::Failed => OutcomeView::Failed,
            Outcome::Answered(reply) => OutcomeView::Answered(reply@),
        }
    }
}

/// A relay that is under way: the requests that may still be sent, and the last answer that told
/// no success.
#[derive(Debug, PartialEq)]
pub struct Relay {
    pub remaining: Vec<Attempt>,
    pub last: Option<Reply>,
}

/// What a relay is.
pub struct RelayView {
    pub remaining: Seq<AttemptView>,
    pub last: Option<ReplyView>,
}

impl View for Relay {
    type V = RelayView;

    open spec fn view(&self) -> RelayView {
        RelayView {
            remaining: attempt_views(self.remaining@),
            last: match self.last {
                Some(reply) => Some(reply@),
                None => None,
            },
        }
    }
}

/// What to do next: send a request and report its outcome to the relay, or reply to the client.
#[derive(Debug, PartialEq)]
pub enum RelayStep {
    Send(Attempt, Relay),
    Respond(Reply),
}

/// What a next step is.
pub enum StepView {
    Send(AttemptView, RelayView),
    Respond(ReplyView),
}

impl View for RelayStep {
    type V = StepView;

    open spec fn view(&self) -> StepView {
        match self {
            RelayStep::Send(attempt, relay) => StepView::Send(attempt@, relay@),
            RelayStep::Respond(reply) => StepView::Respond(reply@),
        }
    }
}

/// The model that a request names.
pub open spec fn requested_model(request: JsonView) -> Option<Seq<char>> {
    json::text_of(json::field(request, "model"@))
}

/// The URL of a provider's chat endpoint.
pub open spec fn chat_url(base_url: Seq<char>) -> Seq<char> {
    text::without_trailing_slashes(base_url) + "/v1/chat/completions"@
}

/// The request as one provider gets it: with the model that it serves, otherwise unchanged.
pub open spec fn attempt_for(request: JsonView, model: Seq<char>, provider: ProviderView) -> AttemptView {
    AttemptView {
        provider_id: provider.id,
        url: chat_url(provider.base_url),
        api_key_env: provider.api_key_env,
        body: json::with_field(request, "model"@, JsonView::Text(model)),
    }
}

/// The requests for a list of models, in order; a model that no provider serves is left out.
pub open spec fn attempts_for(
    providers: Seq<ProviderView>,
    request: JsonView,
    models: Seq<Seq<char>>,
) -> Seq<AttemptView>
    decreases models.len(),
{
    if models.len() == 0 {
        Seq::empty()
    } else {
        let before = attempts_for(providers, request, models.drop_last());
        match config::find_provider(providers, models.last()) {
            Some(provider) => before.push(attempt_for(request, models.last(), provider)),
            None => before,
        }
    }
}

/// The models tried for a request, in order.
pub open spec fn models_for(config: ConfigView, request: JsonView) -> Seq<Seq<char>> {
    config::candidate_models(config, requested_model(request))
}

/// Whether a request can be relayed: where some provider serves it, it must be a JSON object or
/// null, for its model is set.
pub open spec fn relayable(config: ConfigView, request: JsonView) -> bool {
    request is Object || request is Null || attempts_for(
        config.providers,
        request,
        models_for(config, request),
    ).len() == 0
}

/// The next step of a relay: the next request, or, where none is left, the last answer.
pub open spec fn next_step(relay: RelayView) -> StepView {
    if relay.remaining.len() > 0 {
        StepView::Send(
            relay.remaining[0],
            RelayView { remaining: relay.remaining.drop_first(), last: relay.last },
        )
    } else {
        match relay.last {
            Some(reply) => StepView::Respond(reply),
            None => StepView::Respond(reply::error_reply(502, "all providers failed"@)),
        }
    }
}

/// Whether a relay has no request left to send and no answer to hand on.
pub open spec fn exhausted(relay: RelayView) -> bool {
    relay.remaining.len() == 0 && relay.last is None
}

/// The step after an outcome: a success is handed on; a fault that another provider may not have
/// leads to the next request; any other answer is handed on.
pub open spec fn step_after(relay: RelayView, outcome: OutcomeView) -> StepView {
    match outcome {
        OutcomeView::Failed => next_step(relay),
        OutcomeView::Answered(reply) => if !reply::success(reply.status) && reply::retryable(
            reply.status,
        ) {
            next_step(RelayView { remaining: relay.remaining, last: Some(reply) })
        } else {
            StepView::Respond(reply)
        },
    }
}

/// The first step for a request.
pub open spec fn first_step(config: ConfigView, request: JsonView) -> StepView {
    let models = models_for(config, request);
    if models.len() == 0 {
        StepView::Respond(reply::error_reply(500, "no models configured"@))
    } else {
        next_step(
            RelayView { remaining: attempts_for(config.providers, request, models), last: None },
        )
    }
}

fn plan(config: &Config, request: &Json, models: &Vec<&str>) -> (attempts: Vec<Attempt>)
    ensures
        attempt_views(attempts@) == attempts_for(
            config@.providers,
            request@,
            text::slices(models@),
        ),
{
    let mut attempts: Vec<Attempt> = Vec::new();
    let ghost all = text::slices(models@);
    assert(attempt_views(attempts@) =~= attempts_for(config@.providers, request@, all.take(0)));
    for index in 0..models.len()
        invariant
            all == text::slices(models@),
            attempt_views(attempts@) == attempts_for(
                config@.providers,
                request@,
                all.take(index as int),
            ),
    {
        let model = models[index];
        let ghost before = attempt_views(attempts@);
        assert(all.take(index + 1).drop_last() =~= all.take(index as int));
        assert(all.take(index + 1).last() == model@);
        if let Some(provider) = config.provider_for(model) {
            let attempt = Attempt {
                provider_id: provider.id.clone(),
                url: text::together(
                    text::trim_trailing_slashes(provider.base_url.as_str()),
                    "/v1/chat/completions",
                ),
                api_key_env: provider.api_key_env.clone(),
                body: request.clone().with_field("model", Json::text(model)),
            };
            attempts.push(attempt);
            assert(attempt_views(attempts@) =~= before.push(attempt@));
        }
    }
    assert(all.take(all.len() as int) =~= all);
    attempts
}

fn named_model(request: &Json) -> (model: Option<&str>)
    ensures
        text::optional_text(model) == requested_model(request@),
{
    match request.get("model") {
        Some(model) => model.as_str(),
        None => None,
    }
}

/// Whether a request can be relayed.
pub fn is_relayable(config: &Config, request: &Json) -> (result: bool)
    ensures
        result == relayable(config@, request@),
{
    match request {
        Json::Object(_) => true,
        Json::Null => true,
        _ => {
            let models = config.candidates(named_model(request));
            let attempts = plan(config, request, &models);
            assert(attempt_views(attempts@).len() == attempts@.len());
            attempts.is_empty()
        },
    }
}

/// Starts to relay a chat request.
pub fn chat_completions(config: &Config, request: Json) -> (step: RelayStep)
    requires
        relayable(config@, request@),
    ensures
        step@ == first_step(config@, request@),
        step@ == StepView::Respond(reply::error_reply(500, "no models configured"@))
            ==> reply::body_json(step@->Respond_0) == Some(
            reply::labelled("error"@, "no models configured"@),
        ),
        step@ == StepView::Respond(reply::error_reply(502, "all providers failed"@))
            ==> reply::body_json(step@->Respond_0) == Some(
            reply::labelled("error"@, "all providers failed"@),
        ),
{
    let models = config.candidates(named_model(&request));
    assert(text::slices(models@).len() == models@.len());
    if models.is_empty() {
        return RelayStep::Respond(error_response(500, "no models configured"));
    }
    let remaining = plan(config, &request, &models);
    Relay { remaining, last: None }.next()
}

impl Relay {
    fn next(self) -> (step: RelayStep)
        ensures
            step@ == next_step(self@),
            step is Send ==> step->Send_0 == self.remaining@[0],
            exhausted(self@) ==> reply::body_json(step@->Respond_0) == Some(
                reply::labelled("error"@, "all providers failed"@),
            ),
    {
        let mut relay = self;
        let ghost all = attempt_views(relay.remaining@);
        if relay.remaining.len() > 0 {
            let attempt = relay.remaining.remove(0);
            assert(attempt_views(relay.remaining@) =~= all.drop_first());
            RelayStep::Send(attempt, relay)
        } else {
            match relay.last {
                Some(reply) => RelayStep::Respond(reply),
                None => RelayStep::Respond(error_response(502, "all providers failed")),
            }
        }
    }

    /// Goes on after the outcome of the request that was sent.
    pub fn after(self, outcome: Outcome) -> (step: RelayStep)
        ensures
            step@ == step_after(self@, outcome@),
            outcome is Answered && outcome->Answered_0.status != 429 && !(500
                <= outcome->Answered_0.status <= 599) ==> step == RelayStep::Respond(
                outcome->Answered_0,
            ),
            step is Send ==> step->Send_0 == self.remaining@[0],
            outcome is Failed && exhausted(self@) ==> reply::body_json(step@->Respond_0) == Some(
                reply::labelled("error"@, "all providers failed"@),
            ),
    {
        match outcome {
            Outcome::Failed => self.next(),
            Outcome::Answered(reply) => {
                let success = 200 <= reply.status && reply.status < 300;
                let retryable = reply.status == 429 || (500 <= reply.status && reply.status < 600);
                if !success && retryable {
                    Relay { remaining: self.remaining, last: Some(reply) }.next()
                } else {
                    RelayStep::Respond(reply)
                }
            },
        }
    }
}

} // verus!
