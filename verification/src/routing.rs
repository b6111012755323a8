//! Which routes may serve a call, in which order, and what health they report
//! while a change of health could not be persisted.

use crate::errors::RelayError;
use crate::find::{find, lemma_find, lemma_found};
use crate::order::{
    in_order, lemma_ranked, lemma_text_order, ranked, sort_ranked, text_at_most, text_le, Ranked,
};
use crate::protocol::{no_route_data, no_route_error, protocol_name, StreamProtocol};
use crate::recovery::RouteHealth;
use crate::store::{
    has_text, key_at, lists_text, model_at, provider_at, route_at, route_ok, KeyRow,
    ModelRouteCandidate, ModelRow, ProviderRow, RouteRow, Store,
};
use crate::text::same_text;
use vstd::prelude::*;
use vstd::string::*;

verus! {

/// A health that could not be persisted.
#[derive(Debug, Clone)]
pub struct RouteHealthOverride {
    pub state: RouteHealth,
    pub failure_category: Option<String>,
}

/// The health of routes whose last change could not be persisted; it takes the
/// place of the persisted one.
#[derive(Debug)]
pub struct HealthOverlay {
    pub entries: Vec<(String, RouteHealthOverride)>,
}

/// Whether an entry is that of a route.
pub open spec fn entry_of(route_id: Seq<char>) -> spec_fn((String, RouteHealthOverride)) -> bool {
    |entry: (String, RouteHealthOverride)| entry.0@ == route_id
}

/// What an overlay says of a route.
pub open spec fn overlay_entry(overlay: HealthOverlay, route_id: Seq<char>) -> Option<
    RouteHealthOverride,
> {
    match find(overlay.entries@, entry_of(route_id)) {
        Some(i) => Some(overlay.entries@[i].1),
        None => None,
    }
}

/// The health that a route reports.
pub open spec fn effective(
    overlay: HealthOverlay,
    route_id: Seq<char>,
    persisted: RouteHealth,
) -> RouteHealth {
    match overlay_entry(overlay, route_id) {
        Some(entry) => entry.state,
        None => persisted,
    }
}

/// What an overlay says of one route becomes `entry`; what it says of the others
/// stays.
pub open spec fn entry_becomes(
    before: HealthOverlay,
    after: HealthOverlay,
    route_id: Seq<char>,
    entry: Option<RouteHealthOverride>,
) -> bool {
    &&& overlay_entry(after, route_id) == entry
    &&& forall|id: Seq<char>|
        id != route_id ==> #[trigger] overlay_entry(after, id) == overlay_entry(before, id)
}

impl HealthOverlay {
    /// An overlay that says nothing.
    pub fn new() -> (r: Self)
        ensures
            forall|id: Seq<char>| overlay_entry(r, id) is None,
    {
        let r = HealthOverlay { entries: Vec::new() };
        proof {
            assert forall|id: Seq<char>| overlay_entry(r, id) is None by {
                lemma_found(r.entries@, entry_of(id), 0);
            }
        }
        r
    }

    /// Where the entry of a route stands.
    fn place(&self, route_id: &str) -> (r: Option<usize>)
        ensures
            r is Some <==> find(self.entries@, entry_of(route_id@)) is Some,
            r matches Some(i) ==> find(self.entries@, entry_of(route_id@)) == Some(i as int) && i
                < self.entries@.len() && self.entries@[i as int].0@ == route_id@,
    {
        let ghost wanted = entry_of(route_id@);
        let mut i: usize = 0;
        while i < self.entries.len()
            invariant
                i <= self.entries@.len(),
                wanted == entry_of(route_id@),
                forall|k: int| 0 <= k < i ==> !wanted(#[trigger] self.entries@[k]),
            decreases self.entries@.len() - i,
        {
            if same_text(self.entries[i].0.as_str(), route_id) {
                proof {
                    lemma_found(self.entries@, wanted, i as int);
                }
                return Some(i);
            }
            i = i + 1;
        }
        proof {
            lemma_found(self.entries@, wanted, i as int);
        }
        None
    }

    /// What the overlay says of a route.
    pub fn get(&self, route_id: &str) -> (r: Option<&RouteHealthOverride>)
        ensures
            r is Some <==> overlay_entry(*self, route_id@) is Some,
            r matches Some(entry) ==> overlay_entry(*self, route_id@) == Some(*entry),
    {
        match self.place(route_id) {
            Some(i) => Some(&self.entries[i].1),
            None => None,
        }
    }

    /// Forgets what was said of a route.
    pub fn remove(&mut self, route_id: &str)
        ensures
            entry_becomes(*old(self), *final(self), route_id@, None),
    {
        let ghost all = self.entries@;
        let mut kept: Vec<(String, RouteHealthOverride)> = Vec::new();
        let mut taken: Vec<(String, RouteHealthOverride)> = Vec::new();
        std::mem::swap(&mut taken, &mut self.entries);
        for entry in it: taken
            invariant
                it.seq() == all,
                kept@ == without_route(all.take(it.index() as int), route_id@),
        {
            proof {
                let i = it.index() as int;
                assert(all.take(i + 1).drop_last() =~= all.take(i));
                assert(all.take(i + 1).last() == entry);
            }
            if !same_text(entry.0.as_str(), route_id) {
                kept.push(entry);
            }
        }
        self.entries = kept;
        proof {
            assert(all.take(all.len() as int) =~= all);
            assert forall|id: Seq<char>| id != route_id@ implies overlay_entry(*self, id)
                == overlay_entry(*old(self), id) by {
                lemma_without_route(all, route_id@, id);
            }
            lemma_without_route(all, route_id@, route_id@);
        }
    }

    /// Says something of a route, in place of what was said before.
    pub fn insert(&mut self, route_id: &str, entry: RouteHealthOverride)
        ensures
            entry_becomes(*old(self), *final(self), route_id@, Some(entry)),
    {
        self.remove(route_id);
        let ghost cleared = *self;
        let name = route_id.to_owned();
        let ghost added = (name, entry);
        self.entries.push((name, entry));
        proof {
            assert forall|id: Seq<char>| overlay_entry(*self, id) == (if id == route_id@ {
                Some(entry)
            } else {
                overlay_entry(cleared, id)
            }) by {
                crate::find::lemma_find_push(cleared.entries@, added, entry_of(id));
                lemma_find(cleared.entries@, entry_of(id));
            }
        }
    }

    /// Forgets everything.
    pub fn clear(&mut self)
        ensures
            forall|id: Seq<char>| overlay_entry(*final(self), id) is None,
    {
        self.entries.clear();
        proof {
            assert forall|id: Seq<char>| overlay_entry(*self, id) is None by {
                lemma_found(self.entries@, entry_of(id), 0);
            }
        }
    }
}

/// The entries of other routes.
spec fn without_route(
    entries: Seq<(String, RouteHealthOverride)>,
    route_id: Seq<char>,
) -> Seq<(String, RouteHealthOverride)>
    decreases entries.len(),
{
    if entries.len() == 0 {
        entries
    } else {
        let before = without_route(entries.drop_last(), route_id);
        if entries.last().0@ == route_id {
            before
        } else {
            before.push(entries.last())
        }
    }
}

/// What is said of the other routes stays, of the one nothing.
proof fn lemma_without_route(
    entries: Seq<(String, RouteHealthOverride)>,
    route_id: Seq<char>,
    id: Seq<char>,
)
    ensures
        ({
            let rest = without_route(entries, route_id);
            let there = find(entries, entry_of(id));
            let here = find(rest, entry_of(id));
            &&& id == route_id ==> here is None
            &&& id != route_id ==> (here is Some <==> there is Some)
            &&& id != route_id && here is Some ==> rest[here->0] == entries[there->0]
        }),
    decreases entries.len(),
{
    let rest = without_route(entries, route_id);
    if entries.len() == 0 {
        lemma_found(entries, entry_of(id), 0);
    } else {
        let t = entries.drop_last();
        let u = without_route(t, route_id);
        lemma_without_route(t, route_id, id);
        assert(t.push(entries.last()) =~= entries);
        crate::find::lemma_find_push(t, entries.last(), entry_of(id));
        crate::find::lemma_find_push(u, entries.last(), entry_of(id));
        lemma_find(t, entry_of(id));
        lemma_find(u, entry_of(id));
    }
}

/// The health that a route reports.
pub fn effective_health(overlay: &HealthOverlay, route_id: &str, persisted_health: RouteHealth) -> (r:
    RouteHealth)
    ensures
        r == effective(*overlay, route_id@, persisted_health),
{
    match overlay.get(route_id) {
        Some(entry) => entry.state,
        None => persisted_health,
    }
}

/// A route that could serve a call, and its price.
#[derive(Debug)]
pub struct PricedCandidate {
    pub cost: i64,
    pub candidate: ModelRouteCandidate,
}

impl Ranked for PricedCandidate {
    open spec fn rank_le(self, other: Self) -> bool {
        self.cost < other.cost || (self.cost == other.cost && text_le(
            self.candidate.route_id@,
            other.candidate.route_id@,
        ))
    }

    proof fn lemma_rank_order(a: Self, b: Self, c: Self) {
        lemma_text_order(a.candidate.route_id@, b.candidate.route_id@, c.candidate.route_id@);
    }

    fn at_most(&self, other: &Self) -> (r: bool) {
        self.cost < other.cost || (self.cost == other.cost && text_at_most(
            self.candidate.route_id.as_str(),
            other.candidate.route_id.as_str(),
        ))
    }
}

/// Whether a key may use a route.
pub open spec fn key_allows(store: Store, key_id: Seq<char>, route_id: Seq<char>) -> bool {
    match key_at(store.keys@, key_id) {
        Some(k) => lists_text(store.keys@[k].model_route_ids@, route_id),
        None => false,
    }
}

/// Whether a route serves a published model by a protocol, and the key may use
/// it.
pub open spec fn eligible(
    store: Store,
    key_id: Seq<char>,
    model_name: Seq<char>,
    protocol: Seq<char>,
    route: RouteRow,
) -> bool {
    &&& key_allows(store, key_id, route.id@)
    &&& model_at(store.models@, route.published_model_id@) matches Some(m)
        && store.models@[m].name@ == model_name
    &&& route.protocol@ == protocol
}

/// What a call through a route needs.
pub open spec fn candidate_of(route: RouteRow, provider: ProviderRow) -> ModelRouteCandidate {
    ModelRouteCandidate {
        route_id: route.id,
        provider_id: provider.id,
        provider_name: provider.display_name,
        base_url: provider.base_url,
        api_key: provider.api_key,
        upstream_model_name: route.upstream_model_name,
        health: route.health.state,
    }
}

/// The eligible ones among the first `n` routes, with their prices.
pub open spec fn eligible_upto(
    store: Store,
    key_id: Seq<char>,
    model_name: Seq<char>,
    protocol: Seq<char>,
    n: int,
) -> Seq<PricedCandidate>
    decreases n,
{
    if n <= 0 {
        Seq::empty()
    } else {
        let before = eligible_upto(store, key_id, model_name, protocol, n - 1);
        let route = store.routes@[n - 1];
        match provider_at(store.providers@, route.provider_id@) {
            Some(p) => if eligible(store, key_id, model_name, protocol, route) {
                before.push(
                    PricedCandidate {
                        cost: route.cost_multiplier_micros,
                        candidate: candidate_of(route, store.providers@[p]),
                    },
                )
            } else {
                before
            },
            None => before,
        }
    }
}

/// The eligible routes in order: the cheapest first, those of one price by id.
pub open spec fn eligible_routes(
    store: Store,
    key_id: Seq<char>,
    model_name: Seq<char>,
    protocol: Seq<char>,
) -> Seq<PricedCandidate> {
    ranked(eligible_upto(store, key_id, model_name, protocol, store.routes@.len() as int))
}

/// The routes of candidates in order, without their prices.
pub open spec fn unpriced(priced: Seq<PricedCandidate>) -> Seq<ModelRouteCandidate> {
    priced.map_values(|p: PricedCandidate| p.candidate)
}

/// A route that a key may use, with the name of its model.
#[derive(Debug, Clone)]
pub struct EligibleModelRoute {
    pub model_name: String,
    pub route_id: String,
    pub health: RouteHealth,
}

impl Ranked for EligibleModelRoute {
    open spec fn rank_le(self, other: Self) -> bool {
        (self.model_name@ != other.model_name@ && text_le(self.model_name@, other.model_name@)) || (
        self.model_name@ == other.model_name@ && text_le(self.route_id@, other.route_id@))
    }

    proof fn lemma_rank_order(a: Self, b: Self, c: Self) {
        lemma_text_order(a.model_name@, b.model_name@, c.model_name@);
        lemma_text_order(b.model_name@, a.model_name@, c.model_name@);
        lemma_text_order(c.model_name@, b.model_name@, a.model_name@);
        lemma_text_order(a.route_id@, b.route_id@, c.route_id@);
    }

    fn at_most(&self, other: &Self) -> (r: bool) {
        if same_text(self.model_name.as_str(), other.model_name.as_str()) {
            text_at_most(self.route_id.as_str(), other.route_id.as_str())
        } else {
            text_at_most(self.model_name.as_str(), other.model_name.as_str())
        }
    }
}

/// The routes among the first `n` that a key may use.
pub open spec fn allowed_upto(store: Store, key_id: Seq<char>, n: int) -> Seq<EligibleModelRoute>
    decreases n,
{
    if n <= 0 {
        Seq::empty()
    } else {
        let before = allowed_upto(store, key_id, n - 1);
        let route = store.routes@[n - 1];
        match model_at(store.models@, route.published_model_id@) {
            Some(m) => if key_allows(store, key_id, route.id@) {
                before.push(
                    EligibleModelRoute {
                        model_name: store.models@[m].name,
                        route_id: route.id,
                        health: route.health.state,
                    },
                )
            } else {
                before
            },
            None => before,
        }
    }
}

impl Store {
    /// Whether a key may use a route.
    pub fn key_allows_route(&self, key_id: &str, route_id: &str) -> (r: bool)
        ensures
            r == key_allows(*self, key_id@, route_id@),
    {
        match self.find_key(key_id) {
            Some(k) => has_text(&self.keys[k].model_route_ids, route_id),
            None => false,
        }
    }

    /// Whether the route at `i` serves a published model by a protocol, and the
    /// key may use it.
    fn is_eligible(&self, key_id: &str, model_name: &str, protocol: &str, i: usize) -> (r: bool)
        requires
            i < self.routes@.len(),
        ensures
            r == eligible(*self, key_id@, model_name@, protocol@, self.routes@[i as int]),
    {
        let route = &self.routes[i];
        self.key_allows_route(key_id, route.id.as_str()) && (match self.find_model(
            route.published_model_id.as_str(),
        ) {
            Some(m) => same_text(self.models[m].name.as_str(), model_name),
            None => false,
        }) && same_text(route.protocol.as_str(), protocol)
    }

    /// The routes that may serve a call, the cheapest first, each with its
    /// recorded health.
    fn eligible_protocol_routes(&self, key_id: &str, model_name: &str, protocol: &str) -> (r: Vec<
        ModelRouteCandidate,
    >)
        ensures
            r@ == unpriced(eligible_routes(*self, key_id@, model_name@, protocol@)),
    {
        let mut found: Vec<PricedCandidate> = Vec::new();
        for i in 0..self.routes.len()
            invariant
                found@ == eligible_upto(*self, key_id@, model_name@, protocol@, i as int),
        {
            let route = &self.routes[i];
            match self.find_provider(route.provider_id.as_str()) {
                Some(p) => if self.is_eligible(key_id, model_name, protocol, i) {
                    let provider = &self.providers[p];
                    found.push(
                        PricedCandidate {
                            cost: route.cost_multiplier_micros,
                            candidate: ModelRouteCandidate {
                                route_id: route.id.clone(),
                                provider_id: provider.id.clone(),
                                provider_name: provider.display_name.clone(),
                                base_url: provider.base_url.clone(),
                                api_key: provider.api_key.clone(),
                                upstream_model_name: route.upstream_model_name.clone(),
                                health: route.health.state,
                            },
                        },
                    );
                },
                None => {},
            }
        }
        let priced = sort_ranked(found);
        let ghost order = priced@;
        let mut out: Vec<ModelRouteCandidate> = Vec::new();
        for entry in it: priced
            invariant
                it.seq() == order,
                out@ == unpriced(order.take(it.index() as int)),
        {
            out.push(entry.candidate);
            proof {
                let i = it.index() as int;
                assert(unpriced(order.take(i + 1)) =~= unpriced(order.take(i)).push(
                    order[i].candidate,
                ));
            }
        }
        proof {
            assert(order.take(order.len() as int) =~= order);
        }
        out
    }

    /// The routes that may serve a chat completion, the cheapest first.
    pub fn eligible_chat_routes(&self, key_id: &str, published_model_name: &str) -> (r: Vec<
        ModelRouteCandidate,
    >)
        ensures
            r@ == unpriced(
                eligible_routes(*self, key_id@, published_model_name@, "chat_completions"@),
            ),
    {
        self.eligible_protocol_routes(key_id, published_model_name, "chat_completions")
    }

    /// The routes that may serve a response, the cheapest first.
    pub fn eligible_responses_routes(&self, key_id: &str, published_model_name: &str) -> (r: Vec<
        ModelRouteCandidate,
    >)
        ensures
            r@ == unpriced(eligible_routes(*self, key_id@, published_model_name@, "responses"@)),
    {
        self.eligible_protocol_routes(key_id, published_model_name, "responses")
    }

    /// Whether any route is set up for a key, a model and a protocol.
    fn has_eligible_route(&self, key_id: &str, model_name: &str, protocol: &str) -> (r: bool)
        ensures
            r == has_eligible(*self, key_id@, model_name@, protocol@),
    {
        for i in 0..self.routes.len()
            invariant
                forall|k: int|
                    0 <= k < i ==> !eligible(
                        *self,
                        key_id@,
                        model_name@,
                        protocol@,
                        #[trigger] self.routes@[k],
                    ),
        {
            if self.is_eligible(key_id, model_name, protocol, i) {
                return true;
            }
        }
        false
    }

    /// Whether any route is set up for a key and a model for chat completions.
    pub fn has_eligible_chat_route(&self, key_id: &str, published_model_name: &str) -> (r: bool)
        ensures
            r == has_eligible(*self, key_id@, published_model_name@, "chat_completions"@),
    {
        self.has_eligible_route(key_id, published_model_name, "chat_completions")
    }

    /// Whether any route is set up for a key and a model for responses.
    pub fn has_eligible_responses_route(&self, key_id: &str, published_model_name: &str) -> (r:
        bool)
        ensures
            r == has_eligible(*self, key_id@, published_model_name@, "responses"@),
    {
        self.has_eligible_route(key_id, published_model_name, "responses")
    }

    /// The routes that a key may use, by the name of their model, then by id.
    pub fn eligible_model_route_health(&self, key_id: &str) -> (r: Vec<EligibleModelRoute>)
        ensures
            r@ == ranked(allowed_upto(*self, key_id@, self.routes@.len() as int)),
    {
        let mut found: Vec<EligibleModelRoute> = Vec::new();
        for i in 0..self.routes.len()
            invariant
                found@ == allowed_upto(*self, key_id@, i as int),
        {
            let route = &self.routes[i];
            match self.find_model(route.published_model_id.as_str()) {
                Some(m) => if self.key_allows_route(key_id, route.id.as_str()) {
                    found.push(
                        EligibleModelRoute {
                            model_name: self.models[m].name.clone(),
                            route_id: route.id.clone(),
                            health: route.health.state,
                        },
                    );
                },
                None => {},
            }
        }
        sort_ranked(found)
    }
}

/// Whether any route is set up for a key, a model and a protocol.
pub open spec fn has_eligible(
    store: Store,
    key_id: Seq<char>,
    model_name: Seq<char>,
    protocol: Seq<char>,
) -> bool {
    exists|k: int|
        0 <= k < store.routes@.len() && eligible(
            store,
            key_id,
            model_name,
            protocol,
            #[trigger] store.routes@[k],
        )
}

/// The candidates among `candidates` that report to be available.
pub open spec fn available_only(
    overlay: HealthOverlay,
    candidates: Seq<ModelRouteCandidate>,
) -> Seq<ModelRouteCandidate>
    decreases candidates.len(),
{
    if candidates.len() == 0 {
        candidates
    } else {
        let before = available_only(overlay, candidates.drop_last());
        let last = candidates.last();
        if effective(overlay, last.route_id@, last.health) == RouteHealth::Available {
            before.push(last)
        } else {
            before
        }
    }
}

/// The candidates that report to be available, in their order.
pub fn effective_candidates(overlay: &HealthOverlay, candidates: Vec<ModelRouteCandidate>) -> (r: Vec<
    ModelRouteCandidate,
>)
    ensures
        r@ == available_only(*overlay, candidates@),
{
    let ghost all = candidates@;
    let mut out: Vec<ModelRouteCandidate> = Vec::new();
    for candidate in it: candidates
        invariant
            it.seq() == all,
            out@ == available_only(*overlay, all.take(it.index() as int)),
    {
        proof {
            let i = it.index() as int;
            assert(all.take(i + 1).drop_last() =~= all.take(i));
            assert(all.take(i + 1).last() == candidate);
        }
        if effective_health(overlay, candidate.route_id.as_str(), candidate.health)
            == RouteHealth::Available {
            out.push(candidate);
        }
    }
    proof {
        assert(all.take(all.len() as int) =~= all);
    }
    out
}

/// The routes that are tried for a call, in order.
pub open spec fn tried_routes(
    store: Store,
    overlay: HealthOverlay,
    protocol: StreamProtocol,
    key_id: Seq<char>,
    model_name: Seq<char>,
) -> Seq<ModelRouteCandidate> {
    available_only(
        overlay,
        unpriced(eligible_routes(store, key_id, model_name, protocol_name(protocol))),
    )
}

impl Store {
    /// The routes that are tried for a call, in order. Where there is none, the
    /// call is refused; whether a route is set up for the key and model decides
    /// how.
    pub fn candidates_or_refusal(
        &self,
        overlay: &HealthOverlay,
        protocol: StreamProtocol,
        key_id: &str,
        published_model_name: &str,
    ) -> (r: Result<Vec<ModelRouteCandidate>, RelayError>)
        ensures
            ({
                let tried = tried_routes(*self, *overlay, protocol, key_id@, published_model_name@);
                &&& r is Ok <==> tried.len() > 0
                &&& r matches Ok(candidates) ==> candidates@ == tried
                &&& r matches Err(error) ==> error@ == no_route_data(
                    has_eligible(*self, key_id@, published_model_name@, protocol_name(protocol)),
                )
            }),
    {
        let eligible_ones = match protocol {
            StreamProtocol::ChatCompletions => self.eligible_chat_routes(
                key_id,
                published_model_name,
            ),
            StreamProtocol::Responses => self.eligible_responses_routes(
                key_id,
                published_model_name,
            ),
        };
        let candidates = effective_candidates(overlay, eligible_ones);
        if candidates.len() > 0 {
            return Ok(candidates);
        }
        let configured = match protocol {
            StreamProtocol::ChatCompletions => self.has_eligible_chat_route(
                key_id,
                published_model_name,
            ),
            StreamProtocol::Responses => self.has_eligible_responses_route(
                key_id,
                published_model_name,
            ),
        };
        Err(no_route_error(configured))
    }
}

/// The names of the models with a route that reports to be available, each
/// named once where its routes stand together.
pub open spec fn available_models(overlay: HealthOverlay, routes: Seq<EligibleModelRoute>) -> Seq<
    String,
>
    decreases routes.len(),
{
    if routes.len() == 0 {
        Seq::empty()
    } else {
        let before = available_models(overlay, routes.drop_last());
        let last = routes.last();
        if effective(overlay, last.route_id@, last.health) == RouteHealth::Available && !(
        before.len() > 0 && before.last()@ == last.model_name@) {
            before.push(last.model_name)
        } else {
            before
        }
    }
}

/// The names of the models with a route that reports to be available.
pub fn listed_models(overlay: &HealthOverlay, routes: &Vec<EligibleModelRoute>) -> (r: Vec<String>)
    ensures
        r@ == available_models(*overlay, routes@),
{
    let mut out: Vec<String> = Vec::new();
    for i in 0..routes.len()
        invariant
            out@ == available_models(*overlay, routes@.take(i as int)),
    {
        proof {
            assert(routes@.take(i + 1).drop_last() =~= routes@.take(i as int));
        }
        let route = &routes[i];
        if effective_health(overlay, route.route_id.as_str(), route.health)
            == RouteHealth::Available {
            let count: usize = out.len();
            let named = count > 0 && same_text(
                out[count - 1].as_str(),
                route.model_name.as_str(),
            );
            if !named {
                out.push(route.model_name.clone());
            }
        }
    }
    proof {
        assert(routes@.take(routes@.len() as int) =~= routes@);
    }
    out
}

/// Candidates come cheapest first: an earlier one never costs more than a later
/// one, and of two with the same price the one with the lesser id comes first.
pub proof fn law_cheapest_first(
    store: Store,
    key_id: Seq<char>,
    model_name: Seq<char>,
    protocol: Seq<char>,
    i: int,
    j: int,
)
    requires
        0 <= i < j < eligible_routes(store, key_id, model_name, protocol).len(),
    ensures
        ({
            let list = eligible_routes(store, key_id, model_name, protocol);
            list[i].cost < list[j].cost || (list[i].cost == list[j].cost && text_le(
                list[i].candidate.route_id@,
                list[j].candidate.route_id@,
            ))
        }),
{
    let found = eligible_upto(store, key_id, model_name, protocol, store.routes@.len() as int);
    lemma_ranked(found);
    let list = ranked(found);
    assert(in_order(list));
    assert(list[i].rank_le(list[j]));
}

/// Every eligible route is among those found.
proof fn lemma_eligible_found(
    store: Store,
    key_id: Seq<char>,
    model_name: Seq<char>,
    protocol: Seq<char>,
    n: int,
    k: int,
) -> (m: int)
    requires
        store.wf(),
        0 <= k < n <= store.routes@.len(),
        eligible(store, key_id, model_name, protocol, store.routes@[k]),
    ensures
        0 <= m < eligible_upto(store, key_id, model_name, protocol, n).len(),
        eligible_upto(store, key_id, model_name, protocol, n)[m].candidate.route_id
            == store.routes@[k].id,
        eligible_upto(store, key_id, model_name, protocol, n)[m].cost
            == store.routes@[k].cost_multiplier_micros,
    decreases n,
{
    let now = eligible_upto(store, key_id, model_name, protocol, n);
    assert(route_ok(store, store.routes@[n - 1]));
    if k == n - 1 {
        now.len() - 1
    } else {
        let m = lemma_eligible_found(store, key_id, model_name, protocol, n - 1, k);
        assert(now[m] == eligible_upto(store, key_id, model_name, protocol, n - 1)[m]);
        m
    }
}

/// Every route found is eligible.
proof fn lemma_found_eligible(
    store: Store,
    key_id: Seq<char>,
    model_name: Seq<char>,
    protocol: Seq<char>,
    n: int,
    m: int,
) -> (k: int)
    requires
        0 <= n <= store.routes@.len(),
        0 <= m < eligible_upto(store, key_id, model_name, protocol, n).len(),
    ensures
        0 <= k < n,
        eligible(store, key_id, model_name, protocol, store.routes@[k]),
        eligible_upto(store, key_id, model_name, protocol, n)[m].candidate.route_id
            == store.routes@[k].id,
        eligible_upto(store, key_id, model_name, protocol, n)[m].candidate.health
            == store.routes@[k].health.state,
    decreases n,
{
    let now = eligible_upto(store, key_id, model_name, protocol, n);
    let before = eligible_upto(store, key_id, model_name, protocol, n - 1);
    if m < before.len() {
        assert(now[m] == before[m]);
        lemma_found_eligible(store, key_id, model_name, protocol, n - 1, m)
    } else {
        n - 1
    }
}

/// Every available candidate is a candidate that reports to be available, and
/// every such candidate is kept.
proof fn lemma_available_only(
    overlay: HealthOverlay,
    candidates: Seq<ModelRouteCandidate>,
    c: ModelRouteCandidate,
)
    ensures
        available_only(overlay, candidates).contains(c) <==> candidates.contains(c) && effective(
            overlay,
            c.route_id@,
            c.health,
        ) == RouteHealth::Available,
    decreases candidates.len(),
{
    let kept = available_only(overlay, candidates);
    if candidates.len() > 0 {
        let t = candidates.drop_last();
        let before = available_only(overlay, t);
        lemma_available_only(overlay, t, c);
        let last = candidates.last();
        assert(candidates[candidates.len() - 1] == last);
        if t.contains(c) {
            let i = choose|i: int| 0 <= i < t.len() && t[i] == c;
            assert(candidates[i] == c);
        }
        if candidates.contains(c) {
            let i = choose|i: int| 0 <= i < candidates.len() && candidates[i] == c;
            if i < t.len() {
                assert(t[i] == c);
            }
        }
        if before.contains(c) {
            let i = choose|i: int| 0 <= i < before.len() && before[i] == c;
            assert(kept[i] == c);
        }
        if kept.contains(c) {
            let i = choose|i: int| 0 <= i < kept.len() && kept[i] == c;
            if i < before.len() {
                assert(before[i] == c);
            }
        }
        if effective(overlay, last.route_id@, last.health) == RouteHealth::Available {
            assert(kept[kept.len() - 1] == last);
        }
    }
}

/// A route is tried for a call exactly when the key may use it, it serves the
/// model by the protocol, and it reports to be available.
pub proof fn law_candidates_are_the_available_eligible_routes(
    store: Store,
    overlay: HealthOverlay,
    key_id: Seq<char>,
    model_name: Seq<char>,
    protocol: Seq<char>,
    k: int,
)
    requires
        store.wf(),
        0 <= k < store.routes@.len(),
    ensures
        ({
            let route = store.routes@[k];
            let tried = available_only(
                overlay,
                unpriced(eligible_routes(store, key_id, model_name, protocol)),
            );
            (exists|i: int|
                0 <= i < tried.len() && (#[trigger] tried[i]).route_id@ == route.id@) <==> eligible(
                store,
                key_id,
                model_name,
                protocol,
                route,
            ) && effective(overlay, route.id@, route.health.state) == RouteHealth::Available
        }),
{
    let n = store.routes@.len() as int;
    let route = store.routes@[k];
    let found = eligible_upto(store, key_id, model_name, protocol, n);
    let list = ranked(found);
    let all = unpriced(list);
    let tried = available_only(overlay, all);
    lemma_ranked(found);
    if exists|i: int| 0 <= i < tried.len() && (#[trigger] tried[i]).route_id@ == route.id@ {
        let i = choose|i: int| 0 <= i < tried.len() && (#[trigger] tried[i]).route_id@ == route.id@;
        let c = tried[i];
        assert(tried.contains(c));
        lemma_available_only(overlay, all, c);
        let q = choose|q: int| 0 <= q < all.len() && all[q] == c;
        assert(list.contains(list[q]));
        assert(found.contains(list[q]));
        let m = choose|m: int| 0 <= m < found.len() && found[m] == list[q];
        let j = lemma_found_eligible(store, key_id, model_name, protocol, n, m);
        assert(store.routes@[j].id@ == route.id@);
        if j < k {
            assert(store.routes@[j].id@ != store.routes@[k].id@);
        } else if k < j {
            assert(store.routes@[k].id@ != store.routes@[j].id@);
        }
    }
    if eligible(store, key_id, model_name, protocol, route) && effective(
        overlay,
        route.id@,
        route.health.state,
    ) == RouteHealth::Available {
        let m = lemma_eligible_found(store, key_id, model_name, protocol, n, k);
        let j = lemma_found_eligible(store, key_id, model_name, protocol, n, m);
        if j < k {
            assert(store.routes@[j].id@ != store.routes@[k].id@);
        } else if k < j {
            assert(store.routes@[k].id@ != store.routes@[j].id@);
        }
        assert(found.contains(found[m]));
        assert(list.contains(found[m]));
        let q = choose|q: int| 0 <= q < list.len() && list[q] == found[m];
        let c = all[q];
        assert(all.contains(c));
        lemma_available_only(overlay, all, c);
        let i = choose|i: int| 0 <= i < tried.len() && tried[i] == c;
        assert(tried[i].route_id@ == route.id@);
    }
}

/// Where no route is set up for a key and a model, none is tried.
pub proof fn law_nothing_is_tried_where_nothing_is_set_up(
    store: Store,
    overlay: HealthOverlay,
    protocol: StreamProtocol,
    key_id: Seq<char>,
    model_name: Seq<char>,
)
    requires
        !has_eligible(store, key_id, model_name, protocol_name(protocol)),
    ensures
        tried_routes(store, overlay, protocol, key_id, model_name).len() == 0,
{
    let n = store.routes@.len() as int;
    let name = protocol_name(protocol);
    let found = eligible_upto(store, key_id, model_name, name, n);
    if found.len() > 0 {
        let k = lemma_found_eligible(store, key_id, model_name, name, n, 0);
        assert(eligible(store, key_id, model_name, name, store.routes@[k]));
    }
    lemma_ranked(found);
}

/// Whether an available route among `routes` serves a model.
pub open spec fn serves(
    overlay: HealthOverlay,
    routes: Seq<EligibleModelRoute>,
    name: Seq<char>,
) -> bool {
    exists|i: int|
        0 <= i < routes.len() && (#[trigger] routes[i]).model_name@ == name && effective(
            overlay,
            routes[i].route_id@,
            routes[i].health,
        ) == RouteHealth::Available
}

/// A model is listed exactly when an available route serves it.
proof fn lemma_listed(overlay: HealthOverlay, routes: Seq<EligibleModelRoute>, name: Seq<char>)
    ensures
        lists_text(available_models(overlay, routes), name) <==> serves(overlay, routes, name),
    decreases routes.len(),
{
    let now = available_models(overlay, routes);
    if routes.len() > 0 {
        let t = routes.drop_last();
        let before = available_models(overlay, t);
        let last = routes.last();
        lemma_listed(overlay, t, name);
        if serves(overlay, t, name) {
            let i = choose|i: int|
                0 <= i < t.len() && (#[trigger] t[i]).model_name@ == name && effective(
                    overlay,
                    t[i].route_id@,
                    t[i].health,
                ) == RouteHealth::Available;
            assert(routes[i] == t[i]);
        }
        if serves(overlay, routes, name) {
            let i = choose|i: int|
                0 <= i < routes.len() && (#[trigger] routes[i]).model_name@ == name && effective(
                    overlay,
                    routes[i].route_id@,
                    routes[i].health,
                ) == RouteHealth::Available;
            if i < t.len() {
                assert(t[i] == routes[i]);
            } else if before.len() > 0 && before.last()@ == last.model_name@ {
                assert(before[before.len() - 1]@ == name);
            } else {
                assert(now[now.len() - 1]@ == name);
            }
        }
        if lists_text(before, name) {
            let i = choose|i: int| 0 <= i < before.len() && (#[trigger] before[i])@ == name;
            assert(now[i] == before[i]);
        }
        if lists_text(now, name) {
            let i = choose|i: int| 0 <= i < now.len() && (#[trigger] now[i])@ == name;
            if i < before.len() {
                assert(before[i] == now[i]);
            } else {
                assert(routes[routes.len() - 1].model_name@ == name);
            }
        }
    }
}

/// The names listed for ordered routes stand in order, none twice.
proof fn lemma_listed_in_order(overlay: HealthOverlay, routes: Seq<EligibleModelRoute>)
    requires
        in_order(routes),
    ensures
        ({
            let now = available_models(overlay, routes);
            &&& forall|i: int, j: int|
                0 <= i < j < now.len() ==> (#[trigger] now[i])@ != (#[trigger] now[j])@ && text_le(
                    now[i]@,
                    now[j]@,
                )
            &&& forall|i: int|
                0 <= i < now.len() ==> text_le((#[trigger] now[i])@, routes.last().model_name@)
        }),
    decreases routes.len(),
{
    let now = available_models(overlay, routes);
    if routes.len() > 0 {
        let t = routes.drop_last();
        let before = available_models(overlay, t);
        let last = routes.last();
        assert forall|i: int, j: int| 0 <= i <= j < t.len() implies #[trigger] t[i].rank_le(
            #[trigger] t[j],
        ) by {
            assert(routes[i].rank_le(routes[j]));
        }
        lemma_listed_in_order(overlay, t);
        lemma_text_order(last.model_name@, last.model_name@, last.model_name@);
        assert forall|i: int| 0 <= i < before.len() implies text_le(
            (#[trigger] before[i])@,
            last.model_name@,
        ) by {
            assert(t.len() > 0);
            assert(routes[t.len() - 1].rank_le(routes[t.len() as int]));
            lemma_text_order(before[i]@, t.last().model_name@, last.model_name@);
        }
        assert forall|i: int, j: int| 0 <= i < j < now.len() implies (#[trigger] now[i])@ != (
        #[trigger] now[j])@ && text_le(now[i]@, now[j]@) by {
            if j < before.len() {
                assert(now[i] == before[i] && now[j] == before[j]);
            } else {
                assert(now[i] == before[i]);
                assert(text_le(before[i]@, last.model_name@));
                if before[i]@ == last.model_name@ {
                    let e = before.len() - 1;
                    if i < e {
                        assert(before[i]@ != before[e]@ && text_le(before[i]@, before[e]@));
                        assert(text_le(before[e]@, last.model_name@));
                        lemma_text_order(before[i]@, before[e]@, before[i]@);
                    }
                }
            }
        }
        assert forall|i: int| 0 <= i < now.len() implies text_le(
            (#[trigger] now[i])@,
            routes.last().model_name@,
        ) by {
            if i < before.len() {
                assert(now[i] == before[i]);
            }
        }
    }
}

/// A model is listed for a key exactly when the key may use an available route
/// of it; the list is in order and names no model twice.
pub proof fn law_models_listed_are_those_served(
    store: Store,
    overlay: HealthOverlay,
    key_id: Seq<char>,
    name: Seq<char>,
)
    ensures
        ({
            let routes = ranked(allowed_upto(store, key_id, store.routes@.len() as int));
            let listed = available_models(overlay, routes);
            &&& lists_text(listed, name) <==> serves(overlay, routes, name)
            &&& forall|i: int, j: int|
                0 <= i < j < listed.len() ==> (#[trigger] listed[i])@ != (#[trigger] listed[j])@
                    && text_le(listed[i]@, listed[j]@)
        }),
{
    let found = allowed_upto(store, key_id, store.routes@.len() as int);
    lemma_ranked(found);
    lemma_listed(overlay, ranked(found), name);
    lemma_listed_in_order(overlay, ranked(found));
}

/// What an overlay says after a failure was held against a route.
pub open spec fn quarantine_noted(
    before: HealthOverlay,
    after: HealthOverlay,
    route_id: Seq<char>,
    failure_category: Seq<char>,
    persisted: bool,
) -> bool {
    &&& match overlay_entry(after, route_id) {
        None => persisted,
        Some(entry) => !persisted && entry.state == RouteHealth::Unavailable
            && entry.failure_category is Some && entry.failure_category->0@ == failure_category,
    }
    &&& forall|id: Seq<char>|
        id != route_id ==> #[trigger] overlay_entry(after, id) == overlay_entry(before, id)
}

/// What an overlay says after a route was probed.
pub open spec fn probe_noted(
    before: HealthOverlay,
    after: HealthOverlay,
    route_id: Seq<char>,
    available: bool,
    persisted: bool,
) -> bool {
    &&& match overlay_entry(after, route_id) {
        None => persisted,
        Some(entry) => !persisted && if available {
            entry.state == RouteHealth::Available && entry.failure_category is None
        } else {
            entry.state == RouteHealth::Unavailable && entry.failure_category is Some
                && entry.failure_category->0@ == "native_check_failed"@
        },
    }
    &&& forall|id: Seq<char>|
        id != route_id ==> #[trigger] overlay_entry(after, id) == overlay_entry(before, id)
}

/// Takes in whether a failure that was held against a route could be persisted:
/// where it could not, the route reports to be unavailable all the same.
pub fn note_quarantine(
    overlay: &mut HealthOverlay,
    route_id: &str,
    failure_category: &str,
    persisted: bool,
)
    ensures
        quarantine_noted(*old(overlay), *final(overlay), route_id@, failure_category@, persisted),
{
    if persisted {
        overlay.remove(route_id);
    } else {
        overlay.insert(
            route_id,
            RouteHealthOverride {
                state: RouteHealth::Unavailable,
                failure_category: Some(failure_category.to_owned()),
            },
        );
    }
}

/// Takes in whether the result of a probe could be persisted: where it could
/// not, the route reports the result all the same.
pub fn note_probe_result(
    overlay: &mut HealthOverlay,
    route_id: &str,
    available: bool,
    persisted: bool,
)
    ensures
        probe_noted(*old(overlay), *final(overlay), route_id@, available, persisted),
{
    if persisted {
        overlay.remove(route_id);
    } else if available {
        overlay.insert(
            route_id,
            RouteHealthOverride { state: RouteHealth::Available, failure_category: None },
        );
    } else {
        overlay.insert(
            route_id,
            RouteHealthOverride {
                state: RouteHealth::Unavailable,
                failure_category: Some("native_check_failed".to_owned()),
            },
        );
    }
}

/// A route whose quarantine could not be persisted is no candidate, whatever is
/// recorded of it.
pub proof fn law_unpersisted_quarantine_excludes(
    overlay: HealthOverlay,
    candidates: Seq<ModelRouteCandidate>,
    route_id: Seq<char>,
    i: int,
)
    requires
        overlay_entry(overlay, route_id) matches Some(entry) && entry.state
            == RouteHealth::Unavailable,
        0 <= i < available_only(overlay, candidates).len(),
    ensures
        available_only(overlay, candidates)[i].route_id@ != route_id,
{
    let tried = available_only(overlay, candidates);
    assert(tried.contains(tried[i]));
    lemma_available_only(overlay, candidates, tried[i]);
}

/// Two candidates that are kept were candidates in the same order.
proof fn lemma_kept_in_order(
    overlay: HealthOverlay,
    candidates: Seq<ModelRouteCandidate>,
    i: int,
    j: int,
) -> (places: (int, int))
    requires
        0 <= i < j < available_only(overlay, candidates).len(),
    ensures
        0 <= places.0 < places.1 < candidates.len(),
        candidates[places.0] == available_only(overlay, candidates)[i],
        candidates[places.1] == available_only(overlay, candidates)[j],
    decreases candidates.len(),
{
    let t = candidates.drop_last();
    let before = available_only(overlay, t);
    let now = available_only(overlay, candidates);
    if j < before.len() {
        let (p, q) = lemma_kept_in_order(overlay, t, i, j);
        assert(now[i] == before[i] && now[j] == before[j]);
        assert(candidates[p] == t[p] && candidates[q] == t[q]);
        (p, q)
    } else {
        assert(now[i] == before[i]);
        assert(before.contains(before[i]));
        lemma_available_only(overlay, t, before[i]);
        let p = choose|p: int| 0 <= p < t.len() && t[p] == before[i];
        assert(candidates[p] == t[p]);
        (p, candidates.len() - 1)
    }
}

/// A call is tried through the cheapest available route first: of two routes
/// that are tried, the earlier costs no more.
pub proof fn law_calls_try_the_cheapest_first(
    store: Store,
    overlay: HealthOverlay,
    key_id: Seq<char>,
    model_name: Seq<char>,
    protocol: Seq<char>,
    i: int,
    j: int,
)
    requires
        0 <= i < j < available_only(
            overlay,
            unpriced(eligible_routes(store, key_id, model_name, protocol)),
        ).len(),
    ensures
        ({
            let list = eligible_routes(store, key_id, model_name, protocol);
            let tried = available_only(overlay, unpriced(list));
            exists|p: int, q: int|
                0 <= p < q < list.len() && (#[trigger] list[p]).candidate == tried[i] && (
                #[trigger] list[q]).candidate == tried[j] && list[p].cost <= list[q].cost
        }),
{
    let list = eligible_routes(store, key_id, model_name, protocol);
    let all = unpriced(list);
    let tried = available_only(overlay, all);
    let (p, q) = lemma_kept_in_order(overlay, all, i, j);
    assert(all[p] == list[p].candidate && all[q] == list[q].candidate);
    law_cheapest_first(store, key_id, model_name, protocol, p, q);
    assert(list[p].candidate == tried[i] && list[q].candidate == tried[j] && list[p].cost
        <= list[q].cost);
}

/// No key may use a route that is not set up yet: a new route has to be
/// authorized.
pub proof fn law_new_routes_need_authorization(
    store: Store,
    key_id: Seq<char>,
    new_route_id: Seq<char>,
)
    requires
        store.wf(),
        route_at(store.routes@, new_route_id) is None,
    ensures
        !key_allows(store, key_id, new_route_id),
{
    lemma_find(store.keys@, crate::store::key_with(key_id));
    match key_at(store.keys@, key_id) {
        Some(k) => {
            let key = store.keys@[k];
            assert(crate::store::key_ok(store, key));
            if lists_text(key.model_route_ids@, new_route_id) {
                let i = choose|i: int|
                    0 <= i < key.model_route_ids@.len() && (#[trigger] key.model_route_ids@[i])@
                        == new_route_id;
                assert(route_at(store.routes@, key.model_route_ids@[i]@) is Some);
            }
        },
        None => {},
    }
}

/// A route serves one protocol only.
pub proof fn law_protocols_do_not_mix(
    store: Store,
    key_id: Seq<char>,
    model_name: Seq<char>,
    route: RouteRow,
)
    ensures
        !(eligible(store, key_id, model_name, "chat_completions"@, route) && eligible(
            store,
            key_id,
            model_name,
            "responses"@,
            route,
        )),
{
    reveal_strlit("chat_completions");
    reveal_strlit("responses");
    assert("chat_completions"@.len() == 16 && "responses"@.len() == 9);
}

/// Taking a model out of use for new routes leaves the routes that serve it as
/// they are.
pub proof fn law_deprecation_keeps_routes_in_service(
    before: Store,
    after: Store,
    i: int,
    key_id: Seq<char>,
    model_name: Seq<char>,
    protocol: Seq<char>,
)
    requires
        crate::store::models_apart(before, after),
        0 <= i < before.models@.len(),
        crate::store::model_edited(before.models@, after.models@, i),
    ensures
        eligible_routes(after, key_id, model_name, protocol) == eligible_routes(
            before,
            key_id,
            model_name,
            protocol,
        ),
{
    lemma_same_eligible(
        before,
        after,
        i,
        key_id,
        model_name,
        protocol,
        before.routes@.len() as int,
    );
}

proof fn lemma_same_eligible(
    before: Store,
    after: Store,
    i: int,
    key_id: Seq<char>,
    model_name: Seq<char>,
    protocol: Seq<char>,
    n: int,
)
    requires
        crate::store::models_apart(before, after),
        0 <= i < before.models@.len(),
        crate::store::model_edited(before.models@, after.models@, i),
        0 <= n <= before.routes@.len(),
    ensures
        eligible_upto(after, key_id, model_name, protocol, n) == eligible_upto(
            before,
            key_id,
            model_name,
            protocol,
            n,
        ),
    decreases n,
{
    if n > 0 {
        lemma_same_eligible(before, after, i, key_id, model_name, protocol, n - 1);
        let id = before.routes@[n - 1].published_model_id@;
        let wanted = crate::store::model_with(id);
        assert forall|k: int| 0 <= k < after.models@.len() implies wanted(
            #[trigger] after.models@[k],
        ) == wanted(before.models@[k]) by {
            if k != i {
                assert(after.models@[k] == before.models@[k]);
            }
        }
        crate::find::lemma_find_agrees(after.models@, before.models@, wanted);
        lemma_find(before.models@, wanted);
        if model_at(before.models@, id) is Some {
            let m = model_at(before.models@, id)->0;
            if m != i {
                assert(after.models@[m] == before.models@[m]);
            }
        }
    }
}

/// No call is tried through a route that is being checked: after the start,
/// when every route is, none is tried until a probe has succeeded.
pub proof fn law_unchecked_routes_are_not_tried(
    store: Store,
    overlay: HealthOverlay,
    key_id: Seq<char>,
    model_name: Seq<char>,
    protocol: Seq<char>,
)
    requires
        forall|k: int|
            0 <= k < store.routes@.len() ==> (#[trigger] store.routes@[k]).health.state
                == RouteHealth::Checking,
        forall|id: Seq<char>| overlay_entry(overlay, id) is None,
    ensures
        available_only(
            overlay,
            unpriced(eligible_routes(store, key_id, model_name, protocol)),
        ).len() == 0,
{
    let n = store.routes@.len() as int;
    let found = eligible_upto(store, key_id, model_name, protocol, n);
    let list = ranked(found);
    let all = unpriced(list);
    let tried = available_only(overlay, all);
    lemma_ranked(found);
    if tried.len() > 0 {
        let c = tried[0];
        assert(tried.contains(c));
        lemma_available_only(overlay, all, c);
        let q = choose|q: int| 0 <= q < all.len() && all[q] == c;
        assert(list.contains(list[q]));
        assert(found.contains(list[q]));
        let m = choose|m: int| 0 <= m < found.len() && found[m] == list[q];
        let k = lemma_found_eligible(store, key_id, model_name, protocol, n, m);
        assert(store.routes@[k].health.state == RouteHealth::Checking);
        assert(overlay_entry(overlay, c.route_id@) is None);
    }
}

/// Whether a key lists a route among those it may use.
pub open spec fn key_lists(keys: Seq<KeyRow>, key_id: Seq<char>, route_id: Seq<char>) -> bool {
    exists|k: int, i: int|
        #![trigger keys[k].model_route_ids@[i]]
        0 <= k < keys.len() && keys[k].id@ == key_id && 0 <= i < keys[k].model_route_ids@.len()
            && keys[k].model_route_ids@[i]@ == route_id
}

/// Whether a model with an id is published under a name.
pub open spec fn published_as(models: Seq<ModelRow>, id: Seq<char>, name: Seq<char>) -> bool {
    exists|m: int| 0 <= m < models.len() && (#[trigger] models[m]).id@ == id && models[m].name@ == name
}

/// A route is eligible for a call exactly when the key lists it, its model is
/// published under the name that was asked for, and it speaks the protocol.
pub proof fn law_eligible_routes(
    store: Store,
    key_id: Seq<char>,
    model_name: Seq<char>,
    protocol: StreamProtocol,
    route: RouteRow,
)
    requires
        store.wf(),
    ensures
        eligible(store, key_id, model_name, protocol_name(protocol), route) <==> key_lists(
            store.keys@,
            key_id,
            route.id@,
        ) && published_as(store.models@, route.published_model_id@, model_name)
            && route.protocol@ == (match protocol {
            StreamProtocol::ChatCompletions => "chat_completions"@,
            StreamProtocol::Responses => "responses"@,
        }),
{
    lemma_allowed(store, key_id, model_name, route);
}

/// Looking a key and a model up finds what the configuration holds.
proof fn lemma_allowed(store: Store, key_id: Seq<char>, model_name: Seq<char>, route: RouteRow)
    requires
        store.wf(),
    ensures
        key_allows(store, key_id, route.id@) <==> key_lists(store.keys@, key_id, route.id@),
        (model_at(store.models@, route.published_model_id@) matches Some(m)
            && store.models@[m].name@ == model_name) <==> published_as(
            store.models@,
            route.published_model_id@,
            model_name,
        ),
{
    let keys = store.keys@;
    let models = store.models@;
    lemma_find(keys, crate::store::key_with(key_id));
    lemma_find(models, crate::store::model_with(route.published_model_id@));
    if key_lists(keys, key_id, route.id@) {
        let (k, i) = choose|k: int, i: int|
            #![trigger keys[k].model_route_ids@[i]]
            0 <= k < keys.len() && keys[k].id@ == key_id && 0 <= i < keys[k].model_route_ids@.len()
                && keys[k].model_route_ids@[i]@ == route.id@;
        let wanted = crate::store::key_with(key_id);
        assert(wanted(keys[k]));
        let f = key_at(keys, key_id)->0;
        if f < k {
            assert(keys[f].id@ != keys[k].id@);
        } else if k < f {
            assert(keys[k].id@ != keys[f].id@);
        }
        assert(keys[f].model_route_ids@[i]@ == route.id@);
    }
    if key_allows(store, key_id, route.id@) {
        let k = key_at(keys, key_id)->0;
        let i = choose|i: int|
            0 <= i < keys[k].model_route_ids@.len() && (#[trigger] keys[k].model_route_ids@[i])@
                == route.id@;
        assert(keys[k].model_route_ids@[i]@ == route.id@);
    }
    if published_as(models, route.published_model_id@, model_name) {
        let m = choose|m: int|
            0 <= m < models.len() && (#[trigger] models[m]).id@ == route.published_model_id@
                && models[m].name@ == model_name;
        let wanted = crate::store::model_with(route.published_model_id@);
        assert(wanted(models[m]));
        let f = model_at(models, route.published_model_id@)->0;
        if f < m {
            assert(models[f].id@ != models[m].id@);
        } else if m < f {
            assert(models[m].id@ != models[f].id@);
        }
    }
}

/// Every candidate of a call is a route as it is set up: it carries the route's
/// own upstream model and the connection of the provider that the route names.
pub proof fn law_candidates_carry_their_route(
    store: Store,
    overlay: HealthOverlay,
    protocol: StreamProtocol,
    key_id: Seq<char>,
    model_name: Seq<char>,
    i: int,
)
    requires
        store.wf(),
        0 <= i < tried_routes(store, overlay, protocol, key_id, model_name).len(),
    ensures
        ({
            let candidate = tried_routes(store, overlay, protocol, key_id, model_name)[i];
            exists|k: int, p: int|
                #![trigger store.routes@[k], store.providers@[p]]
                0 <= k < store.routes@.len() && 0 <= p < store.providers@.len() && {
                    let route = store.routes@[k];
                    let provider = store.providers@[p];
                    &&& candidate.route_id@ == route.id@
                    &&& candidate.upstream_model_name@ == route.upstream_model_name@
                    &&& route.provider_id@ == provider.id@
                    &&& candidate.provider_id@ == provider.id@
                    &&& candidate.provider_name@ == provider.display_name@
                    &&& candidate.base_url@ == provider.base_url@
                    &&& candidate.api_key@ == provider.api_key@
                    &&& candidate.health == route.health.state
                    &&& key_lists(store.keys@, key_id, route.id@)
                    &&& published_as(store.models@, route.published_model_id@, model_name)
                    &&& match protocol {
                        StreamProtocol::ChatCompletions => route.protocol@ == "chat_completions"@,
                        StreamProtocol::Responses => route.protocol@ == "responses"@,
                    }
                    &&& match overlay_entry(overlay, route.id@) {
                        Some(entry) => entry.state == RouteHealth::Available,
                        None => route.health.state == RouteHealth::Available,
                    }
                }
        }),
{
    let n = store.routes@.len() as int;
    let name = protocol_name(protocol);
    let found = eligible_upto(store, key_id, model_name, name, n);
    let list = ranked(found);
    let all = unpriced(list);
    let tried = tried_routes(store, overlay, protocol, key_id, model_name);
    lemma_ranked(found);
    let c = tried[i];
    assert(tried.contains(c));
    lemma_available_only(overlay, all, c);
    let q = choose|q: int| 0 <= q < all.len() && all[q] == c;
    assert(list.contains(list[q]));
    assert(found.contains(list[q]));
    let m = choose|m: int| 0 <= m < found.len() && found[m] == list[q];
    let k = lemma_found_eligible(store, key_id, model_name, name, n, m);
    let p = lemma_found_connection(store, key_id, model_name, name, n, m, k);
    law_eligible_routes(store, key_id, model_name, protocol, store.routes@[k]);
    assert(store.routes@[k].id == c.route_id && store.providers@[p].id == c.provider_id);
}

/// What a route found carries.
proof fn lemma_found_connection(
    store: Store,
    key_id: Seq<char>,
    model_name: Seq<char>,
    protocol: Seq<char>,
    n: int,
    m: int,
    k: int,
) -> (p: int)
    requires
        store.wf(),
        0 <= n <= store.routes@.len(),
        0 <= k < store.routes@.len(),
        0 <= m < eligible_upto(store, key_id, model_name, protocol, n).len(),
        eligible_upto(store, key_id, model_name, protocol, n)[m].candidate.route_id
            == store.routes@[k].id,
    ensures
        0 <= p < store.providers@.len(),
        ({
            let c = eligible_upto(store, key_id, model_name, protocol, n)[m].candidate;
            let (route, provider) = (store.routes@[k], store.providers@[p]);
            &&& route.provider_id@ == provider.id@
            &&& c.upstream_model_name == route.upstream_model_name
            &&& c.provider_id == provider.id
            &&& c.provider_name == provider.display_name
            &&& c.base_url == provider.base_url
            &&& c.api_key == provider.api_key
            &&& c.health == route.health.state
        }),
    decreases n,
{
    let now = eligible_upto(store, key_id, model_name, protocol, n);
    let before = eligible_upto(store, key_id, model_name, protocol, n - 1);
    if m < before.len() {
        assert(now[m] == before[m]);
        lemma_found_connection(store, key_id, model_name, protocol, n - 1, m, k)
    } else {
        let route = store.routes@[n - 1];
        lemma_find(store.providers@, crate::store::provider_with(route.provider_id@));
        if k < n - 1 {
            assert(store.routes@[k].id@ != store.routes@[n - 1].id@);
        } else if n - 1 < k {
            assert(store.routes@[n - 1].id@ != store.routes@[k].id@);
        }
        provider_at(store.providers@, route.provider_id@)->0
    }
}

/// No route that is set up for a call and reports to be available is left out.
pub proof fn law_available_routes_are_tried(
    store: Store,
    overlay: HealthOverlay,
    protocol: StreamProtocol,
    key_id: Seq<char>,
    model_name: Seq<char>,
    k: int,
)
    requires
        store.wf(),
        0 <= k < store.routes@.len(),
        key_lists(store.keys@, key_id, store.routes@[k].id@),
        published_as(store.models@, store.routes@[k].published_model_id@, model_name),
        protocol == StreamProtocol::ChatCompletions ==> store.routes@[k].protocol@
            == "chat_completions"@,
        protocol == StreamProtocol::Responses ==> store.routes@[k].protocol@ == "responses"@,
        match overlay_entry(overlay, store.routes@[k].id@) {
            Some(entry) => entry.state == RouteHealth::Available,
            None => store.routes@[k].health.state == RouteHealth::Available,
        },
    ensures
        ({
            let tried = tried_routes(store, overlay, protocol, key_id, model_name);
            exists|i: int|
                0 <= i < tried.len() && (#[trigger] tried[i]).route_id@ == store.routes@[k].id@
        }),
{
    law_eligible_routes(store, key_id, model_name, protocol, store.routes@[k]);
    law_candidates_are_the_available_eligible_routes(
        store,
        overlay,
        key_id,
        model_name,
        protocol_name(protocol),
        k,
    );
    let tried = tried_routes(store, overlay, protocol, key_id, model_name);
    let route = store.routes@[k];
    assert(effective(overlay, route.id@, route.health.state) == RouteHealth::Available);
    let i = choose|i: int| 0 <= i < tried.len() && (#[trigger] tried[i]).route_id@ == route.id@;
    assert(tried[i].route_id@ == route.id@);
}

/// What is tried stands in the order of price: of two routes that are tried, the
/// earlier has the lower multiplier, or the same and the lesser id.
pub proof fn law_tried_routes_stand_by_price(
    store: Store,
    overlay: HealthOverlay,
    protocol: StreamProtocol,
    key_id: Seq<char>,
    model_name: Seq<char>,
    i: int,
    j: int,
    a: int,
    b: int,
)
    requires
        store.wf(),
        0 <= i < j < tried_routes(store, overlay, protocol, key_id, model_name).len(),
        0 <= a < store.routes@.len(),
        0 <= b < store.routes@.len(),
        store.routes@[a].id@ == tried_routes(
            store,
            overlay,
            protocol,
            key_id,
            model_name,
        )[i].route_id@,
        store.routes@[b].id@ == tried_routes(
            store,
            overlay,
            protocol,
            key_id,
            model_name,
        )[j].route_id@,
    ensures
        ({
            let (first, second) = (store.routes@[a], store.routes@[b]);
            first.cost_multiplier_micros < second.cost_multiplier_micros || (
            first.cost_multiplier_micros == second.cost_multiplier_micros && text_le(
                first.id@,
                second.id@,
            ))
        }),
{
    let n = store.routes@.len() as int;
    let name = protocol_name(protocol);
    let found = eligible_upto(store, key_id, model_name, name, n);
    let list = ranked(found);
    let all = unpriced(list);
    lemma_ranked(found);
    let (p, q) = lemma_kept_in_order(overlay, all, i, j);
    law_cheapest_first(store, key_id, model_name, name, p, q);
    assert(list.contains(list[p]) && list.contains(list[q]));
    assert(found.contains(list[p]) && found.contains(list[q]));
    let x = choose|x: int| 0 <= x < found.len() && found[x] == list[p];
    let y = choose|y: int| 0 <= y < found.len() && found[y] == list[q];
    lemma_found_price(store, key_id, model_name, name, n, x, a);
    lemma_found_price(store, key_id, model_name, name, n, y, b);
}

/// The price of a route found is that of the route.
proof fn lemma_found_price(
    store: Store,
    key_id: Seq<char>,
    model_name: Seq<char>,
    protocol: Seq<char>,
    n: int,
    m: int,
    k: int,
)
    requires
        store.wf(),
        0 <= n <= store.routes@.len(),
        0 <= k < store.routes@.len(),
        0 <= m < eligible_upto(store, key_id, model_name, protocol, n).len(),
        eligible_upto(store, key_id, model_name, protocol, n)[m].candidate.route_id@
            == store.routes@[k].id@,
    ensures
        eligible_upto(store, key_id, model_name, protocol, n)[m].cost
            == store.routes@[k].cost_multiplier_micros,
    decreases n,
{
    let now = eligible_upto(store, key_id, model_name, protocol, n);
    let before = eligible_upto(store, key_id, model_name, protocol, n - 1);
    if m < before.len() {
        assert(now[m] == before[m]);
        lemma_found_price(store, key_id, model_name, protocol, n - 1, m, k);
    } else if k < n - 1 {
        assert(store.routes@[k].id@ != store.routes@[n - 1].id@);
    } else if n - 1 < k {
        assert(store.routes@[n - 1].id@ != store.routes@[k].id@);
    }
}

/// No route is tried twice for a call.
pub proof fn law_no_route_is_tried_twice(
    store: Store,
    overlay: HealthOverlay,
    protocol: StreamProtocol,
    key_id: Seq<char>,
    model_name: Seq<char>,
    i: int,
    j: int,
)
    requires
        store.wf(),
        0 <= i < j < tried_routes(store, overlay, protocol, key_id, model_name).len(),
    ensures
        tried_routes(store, overlay, protocol, key_id, model_name)[i].route_id@ != tried_routes(
            store,
            overlay,
            protocol,
            key_id,
            model_name,
        )[j].route_id@,
{
    let n = store.routes@.len() as int;
    let name = protocol_name(protocol);
    let found = eligible_upto(store, key_id, model_name, name, n);
    let list = ranked(found);
    lemma_ranked(found);
    let (p, q) = lemma_kept_in_order(overlay, unpriced(list), i, j);
    lemma_found_once(store, key_id, model_name, name, n);
    assert(found.no_duplicates());
    found.lemma_multiset_has_no_duplicates();
    list.lemma_multiset_has_no_duplicates_conv();
    assert(list.contains(list[p]) && list.contains(list[q]));
    assert(found.contains(list[p]) && found.contains(list[q]));
    let x = choose|x: int| 0 <= x < found.len() && found[x] == list[p];
    let y = choose|y: int| 0 <= y < found.len() && found[y] == list[q];
    assert(list[p] != list[q]);
    if x < y {
        assert(found[x].candidate.route_id@ != found[y].candidate.route_id@);
    } else {
        assert(found[y].candidate.route_id@ != found[x].candidate.route_id@);
    }
}

/// No route is found twice.
proof fn lemma_found_once(
    store: Store,
    key_id: Seq<char>,
    model_name: Seq<char>,
    protocol: Seq<char>,
    n: int,
)
    requires
        store.wf(),
        0 <= n <= store.routes@.len(),
    ensures
        ({
            let found = eligible_upto(store, key_id, model_name, protocol, n);
            forall|x: int, y: int|
                0 <= x < y < found.len() ==> (#[trigger] found[x]).candidate.route_id@ != (
                #[trigger] found[y]).candidate.route_id@
        }),
    decreases n,
{
    if n > 0 {
        let now = eligible_upto(store, key_id, model_name, protocol, n);
        let before = eligible_upto(store, key_id, model_name, protocol, n - 1);
        lemma_found_once(store, key_id, model_name, protocol, n - 1);
        assert forall|x: int, y: int| 0 <= x < y < now.len() implies (
        #[trigger] now[x]).candidate.route_id@ != (#[trigger] now[y]).candidate.route_id@ by {
            assert(now[x] == before[x]);
            if y < before.len() {
                assert(now[y] == before[y]);
            } else {
                let k = lemma_found_eligible(store, key_id, model_name, protocol, n - 1, x);
                assert(store.routes@[k].id@ != store.routes@[n - 1].id@);
            }
        }
    }
}

/// A route allowed among those found is one of the store's.
proof fn lemma_allowed_found(store: Store, key_id: Seq<char>, n: int, m: int) -> (k: int)
    requires
        0 <= n <= store.routes@.len(),
        0 <= m < allowed_upto(store, key_id, n).len(),
    ensures
        0 <= k < n,
        ({
            let (route, listed) = (store.routes@[k], allowed_upto(store, key_id, n)[m]);
            &&& key_allows(store, key_id, route.id@)
            &&& model_at(store.models@, route.published_model_id@) matches Some(p)
                && store.models@[p].name == listed.model_name
            &&& listed.route_id == route.id
            &&& listed.health == route.health.state
        }),
    decreases n,
{
    let now = allowed_upto(store, key_id, n);
    let before = allowed_upto(store, key_id, n - 1);
    if m < before.len() {
        assert(now[m] == before[m]);
        lemma_allowed_found(store, key_id, n - 1, m)
    } else {
        n - 1
    }
}

/// A route that a key may use is found.
proof fn lemma_found_allowed(store: Store, key_id: Seq<char>, n: int, k: int) -> (m: int)
    requires
        0 <= k < n <= store.routes@.len(),
        key_allows(store, key_id, store.routes@[k].id@),
        model_at(store.models@, store.routes@[k].published_model_id@) is Some,
    ensures
        0 <= m < allowed_upto(store, key_id, n).len(),
        ({
            let (route, listed) = (store.routes@[k], allowed_upto(store, key_id, n)[m]);
            &&& listed.route_id == route.id
            &&& listed.health == route.health.state
            &&& listed.model_name == store.models@[model_at(
                store.models@,
                route.published_model_id@,
            )->0].name
        }),
    decreases n,
{
    let now = allowed_upto(store, key_id, n);
    let before = allowed_upto(store, key_id, n - 1);
    if k == n - 1 {
        now.len() - 1
    } else {
        let m = lemma_found_allowed(store, key_id, n - 1, k);
        assert(now[m] == before[m]);
        m
    }
}

/// A model is listed for a key exactly when the key lists a route of it that
/// reports to be available.
pub proof fn law_listed_models_have_an_available_route(
    store: Store,
    overlay: HealthOverlay,
    key_id: Seq<char>,
    name: Seq<char>,
)
    requires
        store.wf(),
    ensures
        lists_text(
            available_models(
                overlay,
                ranked(allowed_upto(store, key_id, store.routes@.len() as int)),
            ),
            name,
        ) <==> exists|k: int|
            0 <= k < store.routes@.len() && key_lists(
                store.keys@,
                key_id,
                (#[trigger] store.routes@[k]).id@,
            ) && published_as(store.models@, store.routes@[k].published_model_id@, name)
                && RouteHealth::Available == match overlay_entry(overlay, store.routes@[k].id@) {
                Some(entry) => entry.state,
                None => store.routes@[k].health.state,
            },
{
    let n = store.routes@.len() as int;
    let found = allowed_upto(store, key_id, n);
    let routes = ranked(found);
    law_models_listed_are_those_served(store, overlay, key_id, name);
    lemma_ranked(found);
    if serves(overlay, routes, name) {
        let i = choose|i: int|
            0 <= i < routes.len() && (#[trigger] routes[i]).model_name@ == name && effective(
                overlay,
                routes[i].route_id@,
                routes[i].health,
            ) == RouteHealth::Available;
        assert(routes.contains(routes[i]));
        assert(found.contains(routes[i]));
        let m = choose|m: int| 0 <= m < found.len() && found[m] == routes[i];
        let k = lemma_allowed_found(store, key_id, n, m);
        lemma_allowed(store, key_id, name, store.routes@[k]);
        assert(store.routes@[k].id@ == routes[i].route_id@);
    }
    if exists|k: int|
        0 <= k < store.routes@.len() && key_lists(
            store.keys@,
            key_id,
            (#[trigger] store.routes@[k]).id@,
        ) && published_as(store.models@, store.routes@[k].published_model_id@, name)
            && RouteHealth::Available == match overlay_entry(overlay, store.routes@[k].id@) {
            Some(entry) => entry.state,
            None => store.routes@[k].health.state,
        } {
        let k = choose|k: int|
            0 <= k < store.routes@.len() && key_lists(
                store.keys@,
                key_id,
                (#[trigger] store.routes@[k]).id@,
            ) && published_as(store.models@, store.routes@[k].published_model_id@, name)
                && RouteHealth::Available == match overlay_entry(overlay, store.routes@[k].id@) {
                Some(entry) => entry.state,
                None => store.routes@[k].health.state,
            };
        lemma_allowed(store, key_id, name, store.routes@[k]);
        let m = lemma_found_allowed(store, key_id, n, k);
        assert(found.contains(found[m]));
        assert(routes.contains(found[m]));
        let i = choose|i: int| 0 <= i < routes.len() && routes[i] == found[m];
        assert(routes[i].model_name@ == name);
    }
}

/// What could not be persisted takes the place of what was; a route of which
/// nothing is held reports what is persisted.
pub proof fn law_held_health_comes_first(
    overlay: HealthOverlay,
    route_id: Seq<char>,
    persisted: RouteHealth,
    i: int,
)
    ensures
        (forall|k: int| 0 <= k < overlay.entries@.len() ==> (#[trigger] overlay.entries@[k]).0@ != route_id)
            ==> effective(overlay, route_id, persisted) == persisted,
        0 <= i < overlay.entries@.len() && overlay.entries@[i].0@ == route_id && (forall|k: int|
            0 <= k < i ==> (#[trigger] overlay.entries@[k]).0@ != route_id) ==> effective(
            overlay,
            route_id,
            persisted,
        ) == overlay.entries@[i].1.state,
{
    let wanted = entry_of(route_id);
    if forall|k: int| 0 <= k < overlay.entries@.len() ==> (#[trigger] overlay.entries@[k]).0@ != route_id {
        lemma_found(overlay.entries@, wanted, overlay.entries@.len() as int);
    }
    if 0 <= i < overlay.entries@.len() && overlay.entries@[i].0@ == route_id && (forall|k: int|
        0 <= k < i ==> (#[trigger] overlay.entries@[k]).0@ != route_id) {
        lemma_found(overlay.entries@, wanted, i);
    }
}

/// What is said of one route is what was said last; what is said of the others
/// stays as it was.
pub proof fn law_overlays_hold_what_was_said_last(
    before: HealthOverlay,
    after: HealthOverlay,
    route_id: Seq<char>,
    other: Seq<char>,
    entry: RouteHealthOverride,
    persisted: RouteHealth,
)
    requires
        other != route_id,
    ensures
        entry_becomes(before, after, route_id, Some(entry)) ==> effective(
            after,
            route_id,
            persisted,
        ) == entry.state,
        entry_becomes(before, after, route_id, None) ==> effective(after, route_id, persisted)
            == persisted,
        entry_becomes(before, after, route_id, Some(entry)) || entry_becomes(
            before,
            after,
            route_id,
            None,
        ) ==> effective(after, other, persisted) == effective(before, other, persisted),
{
}

/// A failure that could not be persisted makes its route unavailable, for the
/// reason given; one that was persisted leaves the route to what is recorded.
/// No other route is touched.
pub proof fn law_quarantines_are_noted(
    before: HealthOverlay,
    after: HealthOverlay,
    route_id: Seq<char>,
    other: Seq<char>,
    category: Seq<char>,
    persisted: bool,
    recorded: RouteHealth,
)
    requires
        quarantine_noted(before, after, route_id, category, persisted),
    ensures
        persisted ==> effective(after, route_id, recorded) == recorded,
        !persisted ==> effective(after, route_id, recorded) == RouteHealth::Unavailable,
        !persisted ==> (overlay_entry(after, route_id) matches Some(entry)
            && entry.failure_category matches Some(held) && held@ == category),
        other != route_id ==> overlay_entry(after, other) == overlay_entry(before, other),
{
}

/// The result of a probe that could not be persisted is what its route reports:
/// available without a reason, or unavailable because the check failed. One that
/// was persisted leaves the route to what is recorded. No other route is touched.
pub proof fn law_probe_results_are_noted(
    before: HealthOverlay,
    after: HealthOverlay,
    route_id: Seq<char>,
    other: Seq<char>,
    available: bool,
    persisted: bool,
    recorded: RouteHealth,
)
    requires
        probe_noted(before, after, route_id, available, persisted),
    ensures
        persisted ==> effective(after, route_id, recorded) == recorded,
        !persisted && available ==> effective(after, route_id, recorded) == RouteHealth::Available
            && overlay_entry(after, route_id)->0.failure_category is None,
        !persisted && !available ==> effective(after, route_id, recorded)
            == RouteHealth::Unavailable,
        !persisted && !available ==> (overlay_entry(after, route_id) matches Some(entry)
            && entry.failure_category matches Some(held) && held@ == "native_check_failed"@),
        other != route_id ==> overlay_entry(after, other) == overlay_entry(before, other),
{
}

/// A route is set up where one of the routes is eligible, and only there: none is
/// in a store without routes.
pub proof fn law_set_up_routes_are_eligible(
    store: Store,
    key_id: Seq<char>,
    model_name: Seq<char>,
    protocol: Seq<char>,
    k: int,
)
    ensures
        store.routes@.len() == 0 ==> !has_eligible(store, key_id, model_name, protocol),
        0 <= k < store.routes@.len() && eligible(
            store,
            key_id,
            model_name,
            protocol,
            store.routes@[k],
        ) ==> has_eligible(store, key_id, model_name, protocol),
        (forall|i: int|
            0 <= i < store.routes@.len() ==> !eligible(
                store,
                key_id,
                model_name,
                protocol,
                #[trigger] store.routes@[i],
            )) ==> !has_eligible(store, key_id, model_name, protocol),
{
}

} // verus!
