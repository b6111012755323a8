//! What the operations page shows of the configuration and its health.

use crate::decimal::{decimal_text, format_decimal, law_decimal_round_trip, read_decimal, Reading};
use crate::find::lemma_found;
use crate::order::{
    lemma_ranked, lemma_text_order, ranked, sort_ranked, text_at_most, text_le, Ranked,
};
use crate::recovery::{
    interval, law_intervals_double_up_to_the_limit, settings_ok, RecoverySettings, RouteHealth,
};
use crate::routing::{effective, effective_health, overlay_entry, HealthOverlay};
use crate::store::{
    model_at, model_with, provider_at, provider_with, route_ok, ModelRow, ProviderRow, ProviderSummary, RouteRow, Store,
};
use crate::text::same_text;
use vstd::prelude::*;
use vstd::string::*;

verus! {

/// A published model as it is listed.
#[derive(Debug, Clone)]
pub struct PublishedModel {
    pub id: String,
    pub name: String,
    pub input_price_rmb: String,
    pub output_price_rmb: String,
    pub cached_input_price_rmb: String,
    pub deprecated: bool,
}

/// A model route as it is listed.
#[derive(Debug, Clone)]
pub struct RouteSummary {
    pub id: String,
    pub published_model_id: String,
    pub published_model_name: String,
    pub provider_id: String,
    pub provider_name: String,
    pub upstream_model_name: String,
    pub protocol: String,
    pub cost_multiplier: String,
    pub health: RouteHealth,
    pub last_checked_at: Option<i64>,
    pub failure_category: Option<String>,
    pub last_http_status: Option<i64>,
    pub failed_probe_count: i64,
    pub next_probe_at_ms: Option<i64>,
}

/// The configuration as it is listed.
#[derive(Debug, Clone)]
pub struct OperationsSnapshot {
    pub catalog: Vec<PublishedModel>,
    pub providers: Vec<ProviderSummary>,
    pub routes: Vec<RouteSummary>,
}

/// An entry's place, and the name and id by which it is listed.
#[derive(Debug)]
pub struct NamedPlace {
    pub place: usize,
    pub name: String,
    pub id: String,
}

impl Ranked for NamedPlace {
    open spec fn rank_le(self, other: Self) -> bool {
        (self.name@ != other.name@ && text_le(self.name@, other.name@)) || (self.name@
            == other.name@ && text_le(self.id@, other.id@))
    }

    proof fn lemma_rank_order(a: Self, b: Self, c: Self) {
        lemma_text_order(a.name@, b.name@, c.name@);
        lemma_text_order(b.name@, a.name@, c.name@);
        lemma_text_order(c.name@, b.name@, a.name@);
        lemma_text_order(a.id@, b.id@, c.id@);
    }

    fn at_most(&self, other: &Self) -> (r: bool) {
        if same_text(self.name.as_str(), other.name.as_str()) {
            text_at_most(self.id.as_str(), other.id.as_str())
        } else {
            text_at_most(self.name.as_str(), other.name.as_str())
        }
    }
}

/// The models by name.
pub open spec fn model_places(models: Seq<ModelRow>) -> Seq<NamedPlace> {
    ranked(
        Seq::new(
            models.len(),
            |i: int| NamedPlace { place: i as usize, name: models[i].name, id: models[i].id },
        ),
    )
}

/// The providers by name, then by id.
pub open spec fn provider_places(providers: Seq<ProviderRow>) -> Seq<NamedPlace> {
    ranked(
        Seq::new(
            providers.len(),
            |i: int|
                NamedPlace {
                    place: i as usize,
                    name: providers[i].display_name,
                    id: providers[i].id,
                },
        ),
    )
}

/// The routes by the name of their model, then by id.
pub open spec fn route_places(store: Store) -> Seq<NamedPlace> {
    ranked(
        Seq::new(
            store.routes@.len(),
            |i: int|
                NamedPlace {
                    place: i as usize,
                    name: store.models@[model_at(
                        store.models@,
                        store.routes@[i].published_model_id@,
                    )->0].name,
                    id: store.routes@[i].id,
                },
        ),
    )
}

/// A model as it is listed.
pub open spec fn lists_model(model: ModelRow, listed: PublishedModel) -> bool {
    &&& listed.id == model.id
    &&& listed.name == model.name
    &&& listed.input_price_rmb@ == decimal_text(model.input_price_micros as int)
    &&& listed.output_price_rmb@ == decimal_text(model.output_price_micros as int)
    &&& listed.cached_input_price_rmb@ == decimal_text(model.cached_input_price_micros as int)
    &&& listed.deprecated == (model.deprecated_at is Some)
}

/// A provider as it is listed.
pub open spec fn lists_provider(provider: ProviderRow, listed: ProviderSummary) -> bool {
    &&& listed.id == provider.id
    &&& listed.display_name == provider.display_name
    &&& listed.api_key_masked@ == "********"@
}

/// A route as it is listed.
pub open spec fn lists_route(store: Store, route: RouteRow, listed: RouteSummary) -> bool {
    let model = store.models@[model_at(store.models@, route.published_model_id@)->0];
    let provider = store.providers@[provider_at(store.providers@, route.provider_id@)->0];
    &&& listed.id == route.id
    &&& listed.published_model_id == model.id
    &&& listed.published_model_name == model.name
    &&& listed.provider_id == provider.id
    &&& listed.provider_name == provider.display_name
    &&& listed.upstream_model_name == route.upstream_model_name
    &&& listed.protocol == route.protocol
    &&& listed.cost_multiplier@ == decimal_text(route.cost_multiplier_micros as int)
    &&& listed.health == route.health.state
    &&& listed.last_checked_at == route.health.checked_at
    &&& listed.failure_category == route.health.failure_category
    &&& listed.last_http_status == route.health.last_http_status
    &&& listed.failed_probe_count == route.health.failed_probe_count
    &&& listed.next_probe_at_ms == route.health.next_probe_at_ms
}

/// Every place in an ordered listing is one of those that were ordered.
proof fn lemma_place_bound(found: Seq<NamedPlace>, m: int)
    requires
        forall|i: int| 0 <= i < found.len() ==> (#[trigger] found[i]).place < found.len(),
        0 <= m < ranked(found).len(),
    ensures
        ranked(found)[m].place < found.len(),
{
    lemma_ranked(found);
    let order = ranked(found);
    assert(order.contains(order[m]));
    let q = choose|q: int| 0 <= q < found.len() && found[q] == order[m];
    assert(found[q].place < found.len());
}

impl Store {
    /// The models as they are listed, by name.
    pub fn catalog(&self) -> (r: Vec<PublishedModel>)
        ensures
            r@.len() == self.models@.len(),
            forall|i: int|
                0 <= i < r@.len() ==> lists_model(
                    self.models@[model_places(self.models@)[i].place as int],
                    #[trigger] r@[i],
                ),
    {
        let total: usize = self.models.len();
        let mut found: Vec<NamedPlace> = Vec::new();
        for i in 0..total
            invariant
                total == self.models@.len(),
                found@.len() == i,
                forall|k: int|
                    0 <= k < i ==> #[trigger] found@[k] == (NamedPlace {
                        place: k as usize,
                        name: self.models@[k].name,
                        id: self.models@[k].id,
                    }),
        {
            found.push(
                NamedPlace {
                    place: i,
                    name: self.models[i].name.clone(),
                    id: self.models[i].id.clone(),
                },
            );
        }
        let ghost unordered = found@;
        proof {
            assert(ranked(unordered) == model_places(self.models@)) by {
                assert(unordered =~= Seq::new(
                    self.models@.len(),
                    |i: int|
                        NamedPlace {
                            place: i as usize,
                            name: self.models@[i].name,
                            id: self.models@[i].id,
                        },
                ));
            }
            lemma_ranked(unordered);
        }
        let order = sort_ranked(found);
        let mut out: Vec<PublishedModel> = Vec::new();
        for m in 0..order.len()
            invariant
                total == self.models@.len() == unordered.len(),
                order@ == ranked(unordered),
                order@ == model_places(self.models@),
                forall|k: int|
                    0 <= k < unordered.len() ==> (#[trigger] unordered[k]).place < unordered.len(),
                out@.len() == m,
                forall|i: int|
                    0 <= i < m ==> lists_model(
                        self.models@[order@[i].place as int],
                        #[trigger] out@[i],
                    ),
        {
            proof {
                lemma_place_bound(unordered, m as int);
            }
            let model = &self.models[order[m].place];
            out.push(
                PublishedModel {
                    id: model.id.clone(),
                    name: model.name.clone(),
                    input_price_rmb: format_decimal(model.input_price_micros),
                    output_price_rmb: format_decimal(model.output_price_micros),
                    cached_input_price_rmb: format_decimal(model.cached_input_price_micros),
                    deprecated: model.deprecated_at.is_some(),
                },
            );
        }
        out
    }

    /// The providers as they are listed, by name, then by id.
    pub fn provider_summaries(&self) -> (r: Vec<ProviderSummary>)
        ensures
            r@.len() == self.providers@.len(),
            forall|i: int|
                0 <= i < r@.len() ==> lists_provider(
                    self.providers@[provider_places(self.providers@)[i].place as int],
                    #[trigger] r@[i],
                ),
    {
        let total: usize = self.providers.len();
        let mut found: Vec<NamedPlace> = Vec::new();
        for i in 0..total
            invariant
                total == self.providers@.len(),
                found@.len() == i,
                forall|k: int|
                    0 <= k < i ==> #[trigger] found@[k] == (NamedPlace {
                        place: k as usize,
                        name: self.providers@[k].display_name,
                        id: self.providers@[k].id,
                    }),
        {
            found.push(
                NamedPlace {
                    place: i,
                    name: self.providers[i].display_name.clone(),
                    id: self.providers[i].id.clone(),
                },
            );
        }
        let ghost unordered = found@;
        proof {
            assert(unordered =~= Seq::new(
                self.providers@.len(),
                |i: int|
                    NamedPlace {
                        place: i as usize,
                        name: self.providers@[i].display_name,
                        id: self.providers@[i].id,
                    },
            ));
            lemma_ranked(unordered);
        }
        let order = sort_ranked(found);
        let mut out: Vec<ProviderSummary> = Vec::new();
        for m in 0..order.len()
            invariant
                total == self.providers@.len() == unordered.len(),
                order@ == ranked(unordered),
                order@ == provider_places(self.providers@),
                forall|k: int|
                    0 <= k < unordered.len() ==> (#[trigger] unordered[k]).place < unordered.len(),
                out@.len() == m,
                forall|i: int|
                    0 <= i < m ==> lists_provider(
                        self.providers@[order@[i].place as int],
                        #[trigger] out@[i],
                    ),
        {
            proof {
                lemma_place_bound(unordered, m as int);
            }
            let provider = &self.providers[order[m].place];
            out.push(
                ProviderSummary {
                    id: provider.id.clone(),
                    display_name: provider.display_name.clone(),
                    api_key_masked: "********",
                },
            );
        }
        out
    }

    /// The routes as they are listed, by the name of their model, then by id.
    pub fn route_summaries(&self) -> (r: Vec<RouteSummary>)
        requires
            self.wf(),
        ensures
            r@.len() == self.routes@.len(),
            forall|i: int|
                0 <= i < r@.len() ==> lists_route(
                    *self,
                    self.routes@[route_places(*self)[i].place as int],
                    #[trigger] r@[i],
                ),
    {
        let total: usize = self.routes.len();
        let mut found: Vec<NamedPlace> = Vec::new();
        for i in 0..total
            invariant
                self.wf(),
                total == self.routes@.len(),
                found@.len() == i,
                forall|k: int|
                    0 <= k < i ==> #[trigger] found@[k] == (NamedPlace {
                        place: k as usize,
                        name: self.models@[model_at(
                            self.models@,
                            self.routes@[k].published_model_id@,
                        )->0].name,
                        id: self.routes@[k].id,
                    }),
        {
            proof {
                assert(route_ok(*self, self.routes@[i as int]));
            }
            match self.find_model(self.routes[i].published_model_id.as_str()) {
                Some(m) => found.push(
                    NamedPlace {
                        place: i,
                        name: self.models[m].name.clone(),
                        id: self.routes[i].id.clone(),
                    },
                ),
                None => {},
            }
        }
        let ghost unordered = found@;
        proof {
            assert(unordered =~= Seq::new(
                self.routes@.len(),
                |i: int|
                    NamedPlace {
                        place: i as usize,
                        name: self.models@[model_at(
                            self.models@,
                            self.routes@[i].published_model_id@,
                        )->0].name,
                        id: self.routes@[i].id,
                    },
            ));
            lemma_ranked(unordered);
        }
        let order = sort_ranked(found);
        let mut out: Vec<RouteSummary> = Vec::new();
        for m in 0..order.len()
            invariant
                self.wf(),
                total == self.routes@.len() == unordered.len(),
                order@ == ranked(unordered),
                order@ == route_places(*self),
                forall|k: int|
                    0 <= k < unordered.len() ==> (#[trigger] unordered[k]).place < unordered.len(),
                out@.len() == m,
                forall|i: int|
                    0 <= i < m ==> lists_route(
                        *self,
                        self.routes@[order@[i].place as int],
                        #[trigger] out@[i],
                    ),
        {
            proof {
                lemma_place_bound(unordered, m as int);
                assert(route_ok(*self, self.routes@[order@[m as int].place as int]));
            }
            let route = &self.routes[order[m].place];
            match (
                self.find_model(route.published_model_id.as_str()),
                self.find_provider(route.provider_id.as_str()),
            ) {
                (Some(model), Some(provider)) => out.push(
                    RouteSummary {
                        id: route.id.clone(),
                        published_model_id: self.models[model].id.clone(),
                        published_model_name: self.models[model].name.clone(),
                        provider_id: self.providers[provider].id.clone(),
                        provider_name: self.providers[provider].display_name.clone(),
                        upstream_model_name: route.upstream_model_name.clone(),
                        protocol: route.protocol.clone(),
                        cost_multiplier: format_decimal(route.cost_multiplier_micros),
                        health: route.health.state,
                        last_checked_at: route.health.checked_at,
                        failure_category: route.health.failure_category.clone(),
                        last_http_status: route.health.last_http_status,
                        failed_probe_count: route.health.failed_probe_count,
                        next_probe_at_ms: route.health.next_probe_at_ms,
                    },
                ),
                _ => {},
            }
        }
        out
    }

    /// The configuration as it is listed.
    pub fn operations_snapshot(&self) -> (r: OperationsSnapshot)
        requires
            self.wf(),
        ensures
            r.catalog@.len() == self.models@.len(),
            forall|i: int|
                0 <= i < r.catalog@.len() ==> lists_model(
                    self.models@[model_places(self.models@)[i].place as int],
                    #[trigger] r.catalog@[i],
                ),
            r.providers@.len() == self.providers@.len(),
            forall|i: int|
                0 <= i < r.providers@.len() ==> lists_provider(
                    self.providers@[provider_places(self.providers@)[i].place as int],
                    #[trigger] r.providers@[i],
                ),
            r.routes@.len() == self.routes@.len(),
            forall|i: int|
                0 <= i < r.routes@.len() ==> lists_route(
                    *self,
                    self.routes@[route_places(*self)[i].place as int],
                    #[trigger] r.routes@[i],
                ),
    {
        OperationsSnapshot {
            catalog: self.catalog(),
            providers: self.provider_summaries(),
            routes: self.route_summaries(),
        }
    }
}

/// What is shown of a route at a time.
#[derive(Debug)]
pub struct RouteStatus {
    pub health: RouteHealth,
    pub failure_category: Option<String>,
    pub state_age_seconds: Option<i64>,
    pub current_interval_ms: Option<i64>,
}

/// The seconds since a time, none backwards, held within 64 bits.
pub open spec fn age(now: int, at: int) -> int {
    if now - at < 0 {
        0
    } else if now - at > i64::MAX {
        i64::MAX as int
    } else {
        now - at
    }
}

/// What is shown of a route: the health that it reports, the category of its
/// failure, how long ago it was checked, and, while it is unavailable, the
/// interval of its probes.
pub open spec fn shown_status(
    overlay: HealthOverlay,
    settings: RecoverySettings,
    now: int,
    route: RouteSummary,
) -> RouteStatus {
    let health = effective(overlay, route.id@, route.health);
    let entry = overlay_entry(overlay, route.id@);
    RouteStatus {
        health,
        failure_category: if entry is Some && entry->0.failure_category is Some {
            entry->0.failure_category
        } else {
            route.failure_category
        },
        state_age_seconds: match route.last_checked_at {
            Some(at) => Some(age(now, at as int) as i64),
            None => None,
        },
        current_interval_ms: if health == RouteHealth::Unavailable {
            Some(interval(settings, route.failed_probe_count as int) as i64)
        } else {
            None
        },
    }
}

/// What is shown of a route at a time.
pub fn route_status(
    overlay: &HealthOverlay,
    settings: &RecoverySettings,
    now: i64,
    route: &RouteSummary,
) -> (r: RouteStatus)
    requires
        settings_ok(*settings),
    ensures
        r == shown_status(*overlay, *settings, now as int, *route),
{
    let health = effective_health(overlay, route.id.as_str(), route.health);
    let overlaid: Option<String> = match overlay.get(route.id.as_str()) {
        Some(entry) => entry.failure_category.clone(),
        None => None,
    };
    let failure_category = if overlaid.is_some() {
        overlaid
    } else {
        route.failure_category.clone()
    };
    let state_age_seconds: Option<i64> = match route.last_checked_at {
        Some(at) => {
            let elapsed: i128 = now as i128 - at as i128;
            Some(
                if elapsed < 0 {
                    0
                } else if elapsed > 0x7fff_ffff_ffff_ffff {
                    0x7fff_ffff_ffff_ffff
                } else {
                    elapsed as i64
                },
            )
        },
        None => None,
    };
    let current_interval_ms: Option<i64> = if health == RouteHealth::Unavailable {
        proof {
            let k = if route.failed_probe_count < 0 {
                0
            } else {
                route.failed_probe_count as int
            };
            law_intervals_double_up_to_the_limit(*settings, k);
        }
        Some(settings.interval_for(route.failed_probe_count))
    } else {
        None
    };
    RouteStatus { health, failure_category, state_age_seconds, current_interval_ms }
}

/// How many routes report each health.
#[derive(Debug, Clone, Copy, PartialEq, Eq, Structural)]
pub struct HealthCounts {
    pub available: usize,
    pub checking: usize,
    pub unavailable: usize,
}

/// How many of the first `n` routes report a health.
pub open spec fn reporting(
    overlay: HealthOverlay,
    routes: Seq<RouteSummary>,
    health: RouteHealth,
    n: int,
) -> nat
    decreases n,
{
    if n <= 0 {
        0
    } else {
        let before = reporting(overlay, routes, health, n - 1);
        if effective(overlay, routes[n - 1].id@, routes[n - 1].health) == health {
            before + 1
        } else {
            before
        }
    }
}

/// How many routes report each health.
pub fn health_counts(overlay: &HealthOverlay, routes: &Vec<RouteSummary>) -> (r: HealthCounts)
    ensures
        r.available == reporting(
            *overlay,
            routes@,
            RouteHealth::Available,
            routes@.len() as int,
        ),
        r.checking == reporting(*overlay, routes@, RouteHealth::Checking, routes@.len() as int),
        r.unavailable == reporting(
            *overlay,
            routes@,
            RouteHealth::Unavailable,
            routes@.len() as int,
        ),
        r.available + r.checking + r.unavailable == routes@.len(),
{
    let mut counts = HealthCounts { available: 0, checking: 0, unavailable: 0 };
    for i in 0..routes.len()
        invariant
            counts.available == reporting(*overlay, routes@, RouteHealth::Available, i as int),
            counts.checking == reporting(*overlay, routes@, RouteHealth::Checking, i as int),
            counts.unavailable == reporting(
                *overlay,
                routes@,
                RouteHealth::Unavailable,
                i as int,
            ),
            counts.available + counts.checking + counts.unavailable == i,
    {
        match effective_health(overlay, routes[i].id.as_str(), routes[i].health) {
            RouteHealth::Available => {
                counts.available = counts.available + 1;
            },
            RouteHealth::Checking => {
                counts.checking = counts.checking + 1;
            },
            RouteHealth::Unavailable => {
                counts.unavailable = counts.unavailable + 1;
            },
        }
    }
    counts
}

/// A model is listed under its id and name, with its prices in their places, and
/// as deprecated once it is.
pub proof fn law_models_are_listed(model: ModelRow, listed: PublishedModel)
    requires
        lists_model(model, listed),
    ensures
        listed.id@ == model.id@,
        listed.name@ == model.name@,
        read_decimal(listed.input_price_rmb@) == Reading::Millionths(
            model.input_price_micros as int,
        ),
        read_decimal(listed.output_price_rmb@) == Reading::Millionths(
            model.output_price_micros as int,
        ),
        read_decimal(listed.cached_input_price_rmb@) == Reading::Millionths(
            model.cached_input_price_micros as int,
        ),
        model.deprecated_at is Some ==> listed.deprecated,
        model.deprecated_at is None ==> !listed.deprecated,
{
    law_decimal_round_trip(model.input_price_micros);
    law_decimal_round_trip(model.output_price_micros);
    law_decimal_round_trip(model.cached_input_price_micros);
}

/// A provider is listed under its id and name, and never with its key.
pub proof fn law_providers_are_listed(provider: ProviderRow, listed: ProviderSummary)
    requires
        lists_provider(provider, listed),
    ensures
        listed.id@ == provider.id@,
        listed.display_name@ == provider.display_name@,
        listed.api_key_masked@ == "********"@,
{
}

/// A route is listed with its model, its provider, its price and its health.
pub proof fn law_routes_are_listed(
    store: Store,
    route: RouteRow,
    listed: RouteSummary,
    m: int,
    p: int,
)
    requires
        store.wf(),
        lists_route(store, route, listed),
        0 <= m < store.models@.len(),
        store.models@[m].id@ == route.published_model_id@,
        0 <= p < store.providers@.len(),
        store.providers@[p].id@ == route.provider_id@,
    ensures
        listed.id@ == route.id@,
        listed.published_model_id@ == store.models@[m].id@,
        listed.published_model_name@ == store.models@[m].name@,
        listed.provider_id@ == store.providers@[p].id@,
        listed.provider_name@ == store.providers@[p].display_name@,
        listed.upstream_model_name@ == route.upstream_model_name@,
        listed.protocol@ == route.protocol@,
        read_decimal(listed.cost_multiplier@) == Reading::Millionths(
            route.cost_multiplier_micros as int,
        ),
        listed.health == route.health.state,
        listed.last_checked_at == route.health.checked_at,
        listed.failure_category == route.health.failure_category,
        listed.last_http_status == route.health.last_http_status,
        listed.failed_probe_count == route.health.failed_probe_count,
        listed.next_probe_at_ms == route.health.next_probe_at_ms,
{
    law_decimal_round_trip(route.cost_multiplier_micros);
    assert forall|q: int| 0 <= q < m implies !(model_with(store.models@[m].id@))(
        #[trigger] store.models@[q],
    ) by {
        assert(store.models@[q].id@ != store.models@[m].id@);
    }
    lemma_found(store.models@, model_with(store.models@[m].id@), m);
    assert forall|q: int| 0 <= q < p implies !(provider_with(store.providers@[p].id@))(
        #[trigger] store.providers@[q],
    ) by {
        assert(store.providers@[q].id@ != store.providers@[p].id@);
    }
    lemma_found(store.providers@, provider_with(store.providers@[p].id@), p);
}

/// Every place is listed once, by name, and by id where names are the same.
proof fn lemma_listed_places(found: Seq<NamedPlace>, i: int)
    requires
        found.len() <= usize::MAX,
        forall|k: int| 0 <= k < found.len() ==> (#[trigger] found[k]).place == k,
        0 <= i < found.len(),
    ensures
        ranked(found).len() == found.len(),
        exists|m: int| 0 <= m < found.len() && (#[trigger] ranked(found)[m]).place == i,
        forall|m: int|
            0 <= m < found.len() ==> (#[trigger] ranked(found)[m]).place < found.len()
                && ranked(found)[m] == found[ranked(found)[m].place as int],
        forall|a: int, b: int|
            0 <= a <= b < found.len() ==> #[trigger] ranked(found)[a].rank_le(
                #[trigger] ranked(found)[b],
            ),
{
    lemma_ranked(found);
    let order = ranked(found);
    assert(found.contains(found[i]));
    assert(order.contains(found[i]));
    let m = choose|m: int| 0 <= m < order.len() && order[m] == found[i];
    assert(order[m].place == i);
    assert forall|m: int| 0 <= m < found.len() implies (#[trigger] order[m]).place < found.len()
        && order[m] == found[order[m].place as int] by {
        assert(order.contains(order[m]));
        let q = choose|q: int| 0 <= q < found.len() && found[q] == order[m];
        assert(found[q].place == q);
    }
}

/// Every model has its place in the list, and the list goes by name.
pub proof fn law_models_stand_by_name(models: Seq<ModelRow>, i: int, a: int, b: int)
    requires
        models.len() <= usize::MAX,
        0 <= i < models.len(),
        0 <= a <= b < models.len(),
    ensures
        model_places(models).len() == models.len(),
        exists|m: int| 0 <= m < models.len() && (#[trigger] model_places(models)[m]).place == i,
        text_le(
            models[model_places(models)[a].place as int].name@,
            models[model_places(models)[b].place as int].name@,
        ),
{
    let found = Seq::new(
        models.len(),
        |i: int| NamedPlace { place: i as usize, name: models[i].name, id: models[i].id },
    );
    lemma_listed_places(found, i);
    assert(ranked(found)[a].rank_le(ranked(found)[b]));
    lemma_text_order(ranked(found)[a].name@, ranked(found)[b].name@, ranked(found)[a].name@);
}

/// Every provider has its place in the list, and the list goes by name.
pub proof fn law_providers_stand_by_name(providers: Seq<ProviderRow>, i: int, a: int, b: int)
    requires
        providers.len() <= usize::MAX,
        0 <= i < providers.len(),
        0 <= a <= b < providers.len(),
    ensures
        provider_places(providers).len() == providers.len(),
        exists|m: int|
            0 <= m < providers.len() && (#[trigger] provider_places(providers)[m]).place == i,
        text_le(
            providers[provider_places(providers)[a].place as int].display_name@,
            providers[provider_places(providers)[b].place as int].display_name@,
        ),
{
    let found = Seq::new(
        providers.len(),
        |i: int|
            NamedPlace { place: i as usize, name: providers[i].display_name, id: providers[i].id },
    );
    lemma_listed_places(found, i);
    assert(ranked(found)[a].rank_le(ranked(found)[b]));
    lemma_text_order(ranked(found)[a].name@, ranked(found)[b].name@, ranked(found)[a].name@);
}

/// Every route has its place in the list.
pub proof fn law_routes_stand_in_the_list(store: Store, i: int)
    requires
        store.routes@.len() <= usize::MAX,
        0 <= i < store.routes@.len(),
    ensures
        route_places(store).len() == store.routes@.len(),
        exists|m: int|
            0 <= m < store.routes@.len() && (#[trigger] route_places(store)[m]).place == i,
        forall|m: int|
            0 <= m < store.routes@.len() ==> (#[trigger] route_places(store)[m]).id
                == store.routes@[route_places(store)[m].place as int].id,
{
    let found = Seq::new(
        store.routes@.len(),
        |i: int|
            NamedPlace {
                place: i as usize,
                name: store.models@[model_at(
                    store.models@,
                    store.routes@[i].published_model_id@,
                )->0].name,
                id: store.routes@[i].id,
            },
    );
    lemma_listed_places(found, i);
}

/// A route shows what is held of it before what is persisted, how long ago it
/// was checked, and its probes' interval exactly while it is unavailable.
pub proof fn law_routes_show_their_status(
    overlay: HealthOverlay,
    settings: RecoverySettings,
    now: int,
    route: RouteSummary,
)
    ensures
        ({
            let shown = shown_status(overlay, settings, now, route);
            let entry = overlay_entry(overlay, route.id@);
            &&& entry is None ==> shown.health == route.health && shown.failure_category
                == route.failure_category
            &&& entry matches Some(held) ==> shown.health == held.state
            &&& entry matches Some(held) ==> (held.failure_category is Some
                ==> shown.failure_category == held.failure_category)
            &&& entry matches Some(held) ==> (held.failure_category is None
                ==> shown.failure_category == route.failure_category)
            &&& shown.current_interval_ms is Some <==> shown.health == RouteHealth::Unavailable
            &&& shown.state_age_seconds is Some <==> route.last_checked_at is Some
            &&& route.last_checked_at matches Some(at) ==> (0 <= now - at <= i64::MAX
                ==> shown.state_age_seconds == Some((now - at) as i64))
            &&& route.last_checked_at matches Some(at) ==> (now < at ==> shown.state_age_seconds
                == Some(0i64))
        }),
{
}

/// Each route counts once, under the health that it reports.
pub proof fn law_each_route_counts_under_its_health(
    overlay: HealthOverlay,
    routes: Seq<RouteSummary>,
    n: int,
)
    requires
        0 <= n < routes.len(),
    ensures
        reporting(overlay, routes, RouteHealth::Available, 0) == 0,
        ({
            let health = match overlay_entry(overlay, routes[n].id@) {
                Some(held) => held.state,
                None => routes[n].health,
            };
            forall|h: RouteHealth|
                #![trigger reporting(overlay, routes, h, n + 1)]
                reporting(overlay, routes, h, n + 1) == reporting(overlay, routes, h, n) + (if h
                    == health {
                    1nat
                } else {
                    0nat
                })
        }),
{
}

} // verus!
