//! The configuration: providers, the models they serve, and where the proxy listens.
use crate::text;
use vstd::hash_set::StringHashSet;
use vstd::prelude::*;
use vstd::string::*;

verus! {

/// What the proxy is configured to do.
#[derive(Debug, PartialEq)]
pub struct Config {
    pub providers: Vec<Provider>,
    pub default_model: String,
    pub fallback_models: Vec<String>,
    pub listen_host: String,
    pub listen_port: u16,
}

/// An upstream service and the model it serves.
///
/// The configuration holds no key: `api_key_env` names the environment variable that does.
#[derive(Debug, PartialEq)]
pub struct Provider {
    pub id: String,
    pub base_url: String,
    pub api_key_env: String,
    pub model: String,
}

/// What a provider is.
pub struct ProviderView {
    pub id: Seq<char>,
    pub base_url: Seq<char>,
    pub api_key_env: Seq<char>,
    pub model: Seq<char>,
}

/// What a configuration is.
pub struct ConfigView {
    pub providers: Seq<ProviderView>,
    pub default_model: Seq<char>,
    pub fallback_models: Seq<Seq<char>>,
    pub listen_host: Seq<char>,
    pub listen_port: u16,
}

impl View for Provider {
    type V = ProviderView;

    open spec fn view(&self) -> ProviderView {
        ProviderView {
            id: self.id@,
            base_url: self.base_url@,
            api_key_env: self.api_key_env@,
            model: self.model@,
        }
    }
}

/// What the providers of a list are.
pub open spec fn provider_views(providers: Seq<Provider>) -> Seq<ProviderView> {
    Seq::new(providers.len(), |i: int| providers[i]@)
}

impl View for Config {
    type V = ConfigView;

    open spec fn view(&self) -> ConfigView {
        ConfigView {
            providers: provider_views(self.providers@),
            default_model: self.default_model@,
            fallback_models: text::texts(self.fallback_models@),
            listen_host: self.listen_host@,
            listen_port: self.listen_port,
        }
    }
}

/// The host the proxy listens on when the configuration names none.
pub fn default_host() -> (host: String)
    ensures
        host@ == "127.0.0.1"@,
{
    "127.0.0.1".to_owned()
}

/// The port the proxy listens on when the configuration names none.
pub fn default_port() -> (port: u16)
    ensures
        port == 8787,
{
    8787
}

/// A list without the repetitions: of equal members the first stays.
pub open spec fn distinct(list: Seq<Seq<char>>) -> Seq<Seq<char>>
    decreases list.len(),
{
    if list.len() == 0 {
        Seq::empty()
    } else {
        let before = distinct(list.drop_last());
        if before.contains(list.last()) {
            before
        } else {
            before.push(list.last())
        }
    }
}

/// The model tried first: the requested one, or the default model where none is requested.
pub open spec fn first_model(config: ConfigView, requested: Option<Seq<char>>) -> Seq<Seq<char>> {
    if requested is Some && requested->0.len() > 0 {
        seq![requested->0]
    } else if config.default_model.len() > 0 {
        seq![config.default_model]
    } else {
        Seq::empty()
    }
}

/// The models tried for a request, in order: the first model and then the fallback models, each
/// of them once.
pub open spec fn candidate_models(config: ConfigView, requested: Option<Seq<char>>) -> Seq<
    Seq<char>,
> {
    distinct(first_model(config, requested) + config.fallback_models)
}

/// The first provider of a list that serves a model.
pub open spec fn find_provider(providers: Seq<ProviderView>, model: Seq<char>) -> Option<
    ProviderView,
>
    decreases providers.len(),
{
    if providers.len() == 0 {
        None
    } else {
        match find_provider(providers.drop_last(), model) {
            Some(provider) => Some(provider),
            None => if providers.last().model == model {
                Some(providers.last())
            } else {
                None
            },
        }
    }
}

/// Whether some provider serves a model.
pub open spec fn served(providers: Seq<ProviderView>, model: Seq<char>) -> bool {
    exists|i: int| 0 <= i < providers.len() && (#[trigger] providers[i]).model == model
}

/// Dropping repetitions drops no member, adds none, and leaves each member once.
pub proof fn distinct_keeps_members(list: Seq<Seq<char>>)
    ensures
        distinct(list).no_duplicates(),
        forall|member: Seq<char>| #[trigger]
            list.contains(member) ==> distinct(list).contains(member),
        forall|member: Seq<char>| #[trigger]
            distinct(list).contains(member) ==> list.contains(member),
    decreases list.len(),
{
    if list.len() > 0 {
        let rest = list.drop_last();
        let before = distinct(rest);
        let after = distinct(list);
        distinct_keeps_members(rest);
        assert forall|member: Seq<char>| #[trigger] list.contains(member) implies after.contains(
            member,
        ) by {
            let i = choose|i: int| 0 <= i < list.len() && list[i] == member;
            if i < rest.len() {
                assert(rest[i] == member);
                assert(rest.contains(member));
            }
            if before.contains(member) {
                let k = choose|k: int| 0 <= k < before.len() && before[k] == member;
                assert(after[k] == member);
            } else {
                assert(after[before.len() as int] == member);
            }
        }
        assert forall|member: Seq<char>| #[trigger] after.contains(member) implies list.contains(
            member,
        ) by {
            let k = choose|k: int| 0 <= k < after.len() && after[k] == member;
            if k < before.len() {
                assert(before[k] == member);
                assert(before.contains(member));
                assert(rest.contains(member));
                let i = choose|i: int| 0 <= i < rest.len() && rest[i] == member;
                assert(list[i] == member);
            } else {
                assert(list[list.len() - 1] == member);
            }
        }
    }
}

impl Config {
    /// The models tried for a request that names `requested`, in order.
    pub fn candidates<'a>(&'a self, requested: Option<&'a str>) -> (models: Vec<&'a str>)
        ensures
            text::slices(models@) == candidate_models(self@, text::optional_text(requested)),
            requested is Some && requested->0@.len() > 0 ==> models@.len() > 0 && models@[0]@
                == requested->0@,
            (requested is None || requested->0@.len() == 0) && self.default_model@.len() > 0
                ==> models@.len() > 0 && models@[0]@ == self.default_model@,
    {
        let mut models: Vec<&'a str> = Vec::new();
        let mut seen = StringHashSet::new();
        let ghost wanted = text::optional_text(requested);
        let ghost first = first_model(self@, wanted);
        let first_named: Option<&'a str> = match requested {
            Some(model) if !model.is_empty() => Some(model),
            _ => if !self.default_model.as_str().is_empty() {
                Some(self.default_model.as_str())
            } else {
                None
            },
        };
        if let Some(model) = first_named {
            seen.insert(model.to_owned());
            models.push(model);
        }
        let ghost all = first + self@.fallback_models;
        proof {
            reveal_with_fuel(distinct, 2);
            assert(all.take(first.len() as int) =~= first);
            assert(first.drop_last() =~= Seq::empty() || first.len() == 0);
            assert(text::slices(models@) =~= first);
            assert(distinct(first) =~= first);
            assert(seen@ =~= distinct(first).to_set());
        }
        for index in 0..self.fallback_models.len()
            invariant
                all == first + self@.fallback_models,
                text::slices(models@) == distinct(all.take(first.len() + index)),
                seen@ == text::slices(models@).to_set(),
        {
            let model = self.fallback_models[index].as_str();
            let ghost before = text::slices(models@);
            proof {
                let taken = all.take(first.len() + index + 1);
                assert(taken.drop_last() =~= all.take(first.len() + index));
                assert(taken.last() == model@);
            }
            if seen.insert(model.to_owned()) {
                models.push(model);
                proof {
                    let after = text::slices(models@);
                    assert(after =~= before.push(model@));
                    assert forall|m: Seq<char>| seen@.contains(m) <==> after.contains(m) by {
                        if before.contains(m) {
                            let k = choose|k: int| 0 <= k < before.len() && before[k] == m;
                            assert(after[k] == m);
                        }
                        if m == model@ {
                            assert(after[before.len() as int] == m);
                        }
                    }
                    assert(seen@ =~= after.to_set());
                }
            } else {
                assert(seen@ =~= before.to_set());
            }
        }
        assert(all.take(all.len() as int) =~= all);
        proof {
            if first.len() > 0 {
                requested_model_comes_first(self@, wanted);
                assert(text::slices(models@)[0] == first[0]);
            }
        }
        models
    }

    /// The first provider that serves a model.
    pub fn provider_for(&self, model: &str) -> (provider: Option<&Provider>)
        ensures
            match provider {
                Some(provider) => find_provider(self@.providers, model@) == Some(provider@)
                    && provider.model@ == model@ && self.providers@.contains(*provider),
                None => find_provider(self@.providers, model@) is None,
            },
    {
        let ghost all = self@.providers;
        for index in 0..self.providers.len()
            invariant
                all == self@.providers,
                find_provider(all.take(index as int), model@) is None,
        {
            let provider = &self.providers[index];
            assert(all[index as int] == provider@);
            assert(all.take(index + 1).drop_last() =~= all.take(index as int));
            if text::same(provider.model.as_str(), model) {
                proof {
                    lemma_found_early(all, model@, index + 1);
                }
                return Some(provider);
            }
        }
        assert(all.take(all.len() as int) =~= all);
        None
    }
}

proof fn lemma_found_early(providers: Seq<ProviderView>, model: Seq<char>, count: int)
    requires
        0 <= count <= providers.len(),
        find_provider(providers.take(count), model) is Some,
    ensures
        find_provider(providers, model) == find_provider(providers.take(count), model),
    decreases providers.len(),
{
    if count == providers.len() {
        assert(providers.take(count) =~= providers);
    } else {
        assert(providers.drop_last().take(count) =~= providers.take(count));
        lemma_found_early(providers.drop_last(), model, count);
    }
}

/// A provider is found for exactly the models that some provider serves, and the one found serves
/// the model.
pub proof fn found_provider_serves_model(providers: Seq<ProviderView>, model: Seq<char>)
    ensures
        find_provider(providers, model) is Some <==> served(providers, model),
        find_provider(providers, model) is Some ==> {
            let provider = find_provider(providers, model)->0;
            providers.contains(provider) && provider.model == model
        },
    decreases providers.len(),
{
    if providers.len() > 0 {
        let rest = providers.drop_last();
        found_provider_serves_model(rest, model);
        if served(providers, model) {
            let i = choose|i: int|
                0 <= i < providers.len() && (#[trigger] providers[i]).model == model;
            if i < rest.len() {
                assert(rest[i].model == model);
            }
        }
        if find_provider(rest, model) is Some {
            let provider = find_provider(rest, model)->0;
            let i = choose|i: int| 0 <= i < rest.len() && rest[i] == provider;
            assert(providers[i] == provider);
        } else if providers.last().model == model {
            assert(providers[providers.len() - 1].model == model);
        }
    }
}

/// Each model is tried at most once, and the models tried are the first model and the fallback
/// models, no others.
pub proof fn candidates_are_distinct(config: ConfigView, requested: Option<Seq<char>>)
    ensures
        candidate_models(config, requested).no_duplicates(),
        forall|model: Seq<char>| #[trigger]
            candidate_models(config, requested).contains(model) <==> (first_model(
                config,
                requested,
            ).contains(model) || config.fallback_models.contains(model)),
{
    let first = first_model(config, requested);
    let list = first + config.fallback_models;
    distinct_keeps_members(list);
    assert forall|model: Seq<char>|
        candidate_models(config, requested).contains(model) <==> (first.contains(model)
            || config.fallback_models.contains(model)) by {
        if first.contains(model) {
            let i = choose|i: int| 0 <= i < first.len() && first[i] == model;
            assert(list[i] == model);
            assert(list.contains(model));
        }
        if config.fallback_models.contains(model) {
            let i = choose|i: int|
                0 <= i < config.fallback_models.len() && config.fallback_models[i] == model;
            assert(list[first.len() + i] == model);
            assert(list.contains(model));
        }
        if distinct(list).contains(model) {
            assert(list.contains(model));
            let i = choose|i: int| 0 <= i < list.len() && list[i] == model;
            if i < first.len() {
                assert(first[i] == model);
            } else {
                assert(config.fallback_models[i - first.len()] == model);
            }
        }
    }
}

proof fn lemma_distinct_starts_alike(list: Seq<Seq<char>>)
    requires
        list.len() > 0,
    ensures
        distinct(list).len() > 0,
        distinct(list)[0] == list[0],
    decreases list.len(),
{
    if list.len() > 1 {
        lemma_distinct_starts_alike(list.drop_last());
    } else {
        reveal_with_fuel(distinct, 2);
    }
}

/// The model that a request names is tried first; where it names none, the default model is.
pub proof fn requested_model_comes_first(config: ConfigView, requested: Option<Seq<char>>)
    requires
        first_model(config, requested).len() > 0,
    ensures
        candidate_models(config, requested).len() > 0,
        candidate_models(config, requested)[0] == first_model(config, requested)[0],
{
    lemma_distinct_starts_alike(first_model(config, requested) + config.fallback_models);
}

/// The place of the first occurrence of a member of a list.
pub open spec fn first_place(list: Seq<Seq<char>>, member: Seq<char>) -> int {
    choose|i: int|
        0 <= i < list.len() && list[i] == member && forall|j: int|
            0 <= j < i ==> #[trigger] list[j] != member
}

pub(crate) proof fn lemma_first_place(list: Seq<Seq<char>>, member: Seq<char>, bound: int)
    requires
        0 <= bound < list.len(),
        list[bound] == member,
    ensures
        0 <= first_place(list, member) <= bound,
        list[first_place(list, member)] == member,
        forall|j: int| 0 <= j < first_place(list, member) ==> #[trigger] list[j] != member,
    decreases bound,
{
    if exists|j: int| 0 <= j < bound && list[j] == member {
        let j = choose|j: int| 0 <= j < bound && list[j] == member;
        lemma_first_place(list, member, j);
    } else {
        assert(0 <= bound < list.len() && list[bound] == member && forall|j: int|
            0 <= j < bound ==> #[trigger] list[j] != member);
    }
}

/// Dropping repetitions keeps the order of the members.
pub proof fn distinct_keeps_order(list: Seq<Seq<char>>, i: int, j: int)
    requires
        0 <= i < j < distinct(list).len(),
    ensures
        first_place(list, distinct(list)[i]) < first_place(list, distinct(list)[j]),
    decreases list.len(),
{
    let rest = list.drop_last();
    let before = distinct(rest);
    let a = distinct(list)[i];
    let b = distinct(list)[j];
    distinct_keeps_members(rest);
    distinct_keeps_members(list);
    assert(before.contains(before[i]));
    assert(rest.contains(a));
    let p = choose|p: int| 0 <= p < rest.len() && rest[p] == a;
    assert(list[p] == a);
    lemma_first_place(list, a, p);
    lemma_first_place(rest, a, p);
    assert(list[first_place(rest, a)] == a);
    lemma_first_place(list, a, first_place(rest, a));
    if j < before.len() {
        distinct_keeps_order(rest, i, j);
        assert(before.contains(before[j]));
        assert(rest.contains(b));
        let q = choose|q: int| 0 <= q < rest.len() && rest[q] == b;
        assert(list[q] == b);
        lemma_first_place(list, b, q);
        lemma_first_place(rest, b, q);
        assert(rest[first_place(list, b)] == b);
        lemma_first_place(rest, b, first_place(list, b));
    } else {
        assert(!before.contains(b));
        lemma_first_place(list, b, list.len() - 1);
        if first_place(list, b) < list.len() - 1 {
            assert(rest[first_place(list, b)] == b);
            assert(rest.contains(b));
        }
    }
}

} // verus!
