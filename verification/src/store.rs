//! The configuration of the relay: providers, published models, model routes
//! with their health, access keys and settings, and the operations on them.

use crate::decimal::{
    decimal_complaint, parse_non_negative_decimal, parse_positive_decimal, read_decimal, Reading,
};
use crate::find::{find, lemma_find, lemma_find_agrees, lemma_find_push, lemma_found};
use crate::order::{lemma_ranked, lemma_text_order, ranked, sort_ranked, text_at_most, text_le, Ranked};
use crate::recovery::{
    counts_failures, probe_due, rechecking, settings_ok, unchecked, HealthData, HealthRow,
    RecoverySettings, RouteHealth,
};
use crate::text::{same_text, trimmed};
use crate::validate::{
    base_url_complaint, distinct_texts, fits, kept_base_url, known_protocol, parsed_url,
    validate_api_key, validate_base_url, validate_display_name, validate_protocol,
    validate_published_model_name, validate_upstream_model_name, no_repeats, FieldError,
};
use vstd::prelude::*;
use vstd::string::*;
use vstd::utf8::encode_utf8;

verus! {

/// Why an operation is refused, and by which form field.
pub struct Refusal {
    pub field: Option<Seq<char>>,
    pub message: Seq<char>,
}

/// A refused operation, with the form field it is laid to where there is one.
#[derive(Debug)]
pub struct StoreError {
    pub field: Option<&'static str>,
    pub message: String,
}

impl View for StoreError {
    type V = Refusal;

    open spec fn view(&self) -> Refusal {
        Refusal {
            field: match self.field {
                Some(field) => Some(field@),
                None => None,
            },
            message: self.message@,
        }
    }
}

/// A refusal laid to a form field.
pub open spec fn at_field(field: Seq<char>, message: Seq<char>) -> Refusal {
    Refusal { field: Some(field), message }
}

/// A refusal laid to no field.
pub open spec fn plain(message: Seq<char>) -> Refusal {
    Refusal { field: None, message }
}

/// A refusal laid to a form field.
pub fn refused_at(field: &'static str, message: &str) -> (r: StoreError)
    ensures
        r@ == at_field(field@, message@),
{
    StoreError { field: Some(field), message: message.to_owned() }
}

/// A refusal laid to no field.
pub fn refused(message: &str) -> (r: StoreError)
    ensures
        r@ == plain(message@),
{
    StoreError { field: None, message: message.to_owned() }
}

/// A refused value as a refused operation.
pub fn refused_value(error: FieldError) -> (r: StoreError)
    ensures
        r@ == at_field(error.field@, error.message@),
{
    StoreError { field: Some(error.field), message: error.message }
}

/// An upstream provider.
#[derive(Debug, Clone, PartialEq, Eq)]
pub struct ProviderRow {
    pub id: String,
    pub display_name: String,
    pub base_url: String,
    pub api_key: String,
    pub created_at: i64,
}

/// A published model; prices in millionths per million tokens.
#[derive(Debug, Clone, PartialEq, Eq)]
pub struct ModelRow {
    pub id: String,
    pub name: String,
    pub input_price_micros: i64,
    pub output_price_micros: i64,
    pub cached_input_price_micros: i64,
    pub deprecated_at: Option<i64>,
}

/// A model route and its health.
#[derive(Debug, Clone, PartialEq, Eq)]
pub struct RouteRow {
    pub id: String,
    pub published_model_id: String,
    pub provider_id: String,
    pub upstream_model_name: String,
    pub protocol: String,
    pub cost_multiplier_micros: i64,
    pub created_at: i64,
    pub health: HealthRow,
}

/// A relay access key and the routes that it may use.
#[derive(Debug, Clone, PartialEq, Eq)]
pub struct KeyRow {
    pub id: String,
    pub secret_prefix: String,
    pub secret_hash: Vec<u8>,
    /// The secret itself, where it was kept for showing it again.
    pub secret: Option<String>,
    pub label: String,
    pub created_at: i64,
    pub revoked_at: Option<i64>,
    pub model_route_ids: Vec<String>,
}

/// The configuration.
#[derive(Debug, Clone)]
pub struct Store {
    /// The version of the schema that the configuration is kept in.
    pub schema: i64,
    pub providers: Vec<ProviderRow>,
    pub models: Vec<ModelRow>,
    pub routes: Vec<RouteRow>,
    pub keys: Vec<KeyRow>,
    pub settings: RecoverySettings,
}

/// A provider as it is listed.
#[derive(Debug, Clone)]
pub struct ProviderSummary {
    pub id: String,
    pub display_name: String,
    pub api_key_masked: &'static str,
}

/// A provider as it is edited.
#[derive(Debug, Clone)]
pub struct ProviderConfiguration {
    pub id: String,
    pub display_name: String,
    pub base_url: String,
}

/// What a probe of a route needs.
#[derive(Debug, Clone)]
pub struct ProbeConfiguration {
    pub route_id: String,
    pub provider_id: String,
    pub base_url: String,
    pub api_key: String,
    pub upstream_model_name: String,
    pub protocol: String,
    /// The route's quarantine epoch when the probe was set up.
    pub quarantine_epoch: i64,
}

/// What a call through a route needs.
#[derive(Debug, Clone)]
pub struct ModelRouteCandidate {
    pub route_id: String,
    pub provider_id: String,
    pub provider_name: String,
    pub base_url: String,
    pub api_key: String,
    pub upstream_model_name: String,
    pub health: RouteHealth,
}

/// Where the provider with an id stands.
pub open spec fn provider_at(providers: Seq<ProviderRow>, id: Seq<char>) -> Option<int> {
    find(providers, provider_with(id))
}

/// Whether a provider has an id.
pub open spec fn provider_with(id: Seq<char>) -> spec_fn(ProviderRow) -> bool {
    |row: ProviderRow| row.id@ == id
}

/// The id, base URL and key of each provider.
pub open spec fn connections(providers: Seq<ProviderRow>) -> Seq<(String, String, String)> {
    providers.map_values(|row: ProviderRow| (row.id, row.base_url, row.api_key))
}

impl Ranked for (String, String, String) {
    /// By the first text.
    open spec fn rank_le(self, other: Self) -> bool {
        text_le(self.0@, other.0@)
    }

    proof fn lemma_rank_order(a: Self, b: Self, c: Self) {
        lemma_text_order(a.0@, b.0@, c.0@);
    }

    fn at_most(&self, other: &Self) -> (r: bool) {
        text_at_most(self.0.as_str(), other.0.as_str())
    }
}

/// Where the model with an id stands.
pub open spec fn model_at(models: Seq<ModelRow>, id: Seq<char>) -> Option<int> {
    find(models, model_with(id))
}

/// Whether a model has an id.
pub open spec fn model_with(id: Seq<char>) -> spec_fn(ModelRow) -> bool {
    |row: ModelRow| row.id@ == id
}

/// Where the route with an id stands.
pub open spec fn route_at(routes: Seq<RouteRow>, id: Seq<char>) -> Option<int> {
    find(routes, route_with(id))
}

/// Whether a route has an id.
pub open spec fn route_with(id: Seq<char>) -> spec_fn(RouteRow) -> bool {
    |row: RouteRow| row.id@ == id
}

/// Where the key with an id stands.
pub open spec fn key_at(keys: Seq<KeyRow>, id: Seq<char>) -> Option<int> {
    find(keys, key_with(id))
}

/// Whether a key has an id.
pub open spec fn key_with(id: Seq<char>) -> spec_fn(KeyRow) -> bool {
    |row: KeyRow| row.id@ == id
}

/// Whether a text is among texts.
pub open spec fn lists_text(texts: Seq<String>, text: Seq<char>) -> bool {
    exists|i: int| 0 <= i < texts.len() && (#[trigger] texts[i])@ == text
}

/// Whether a text is among texts.
pub fn has_text(texts: &Vec<String>, text: &str) -> (r: bool)
    ensures
        r == lists_text(texts@, text@),
{
    for i in 0..texts.len()
        invariant
            forall|k: int| 0 <= k < i ==> (#[trigger] texts@[k])@ != text@,
    {
        if same_text(texts[i].as_str(), text) {
            return true;
        }
    }
    false
}

/// Whether two routes have the same model, provider, upstream model and
/// protocol.
pub open spec fn same_identity(a: RouteRow, b: RouteRow) -> bool {
    &&& a.published_model_id@ == b.published_model_id@
    &&& a.provider_id@ == b.provider_id@
    &&& a.upstream_model_name@ == b.upstream_model_name@
    &&& a.protocol@ == b.protocol@
}

/// Whether a route's provider and model are there, and its protocol and price
/// in order.
pub open spec fn route_ok(store: Store, route: RouteRow) -> bool {
    &&& provider_at(store.providers@, route.provider_id@) is Some
    &&& model_at(store.models@, route.published_model_id@) is Some
    &&& known_protocol(route.protocol@)
    &&& route.cost_multiplier_micros > 0
}

/// Whether a key's routes are there, none twice.
pub open spec fn key_ok(store: Store, key: KeyRow) -> bool {
    &&& key.model_route_ids@.len() > 0
    &&& distinct_texts(key.model_route_ids@)
    &&& forall|i: int|
        0 <= i < key.model_route_ids@.len() ==> route_at(
            store.routes@,
            (#[trigger] key.model_route_ids@[i])@,
        ) is Some
}

impl Store {
    /// What holds of the configuration at any time: nothing has the id of
    /// another, and no route the identity of another; a model's name is its
    /// id; what a route or a key refers to is there.
    pub open spec fn wf(self) -> bool {
        &&& forall|i: int, j: int|
            0 <= i < j < self.providers@.len() ==> (#[trigger] self.providers@[i]).id@ != (
            #[trigger] self.providers@[j]).id@
        &&& forall|i: int, j: int|
            0 <= i < j < self.models@.len() ==> (#[trigger] self.models@[i]).id@ != (
            #[trigger] self.models@[j]).id@
        &&& forall|i: int|
            0 <= i < self.models@.len() ==> (#[trigger] self.models@[i]).name@ == self.models@[i].id@
        &&& forall|i: int, j: int|
            0 <= i < j < self.routes@.len() ==> (#[trigger] self.routes@[i]).id@ != (
            #[trigger] self.routes@[j]).id@ && !same_identity(self.routes@[i], self.routes@[j])
        &&& forall|i: int, j: int|
            0 <= i < j < self.keys@.len() ==> (#[trigger] self.keys@[i]).id@ != (
            #[trigger] self.keys@[j]).id@
        &&& forall|i: int| 0 <= i < self.routes@.len() ==> route_ok(self, #[trigger] self.routes@[i])
        &&& forall|i: int| 0 <= i < self.keys@.len() ==> key_ok(self, #[trigger] self.keys@[i])
        &&& settings_ok(self.settings)
    }

    /// Where the provider with an id stands.
    pub fn find_provider(&self, id: &str) -> (r: Option<usize>)
        ensures
            r is Some <==> provider_at(self.providers@, id@) is Some,
            r matches Some(i) ==> provider_at(self.providers@, id@) == Some(i as int) && i
                < self.providers@.len() && self.providers@[i as int].id@ == id@,
    {
        let ghost wanted = provider_with(id@);
        let mut i: usize = 0;
        while i < self.providers.len()
            invariant
                i <= self.providers@.len(),
                wanted == provider_with(id@),
                forall|k: int| 0 <= k < i ==> !wanted(#[trigger] self.providers@[k]),
            decreases self.providers@.len() - i,
        {
            if same_text(self.providers[i].id.as_str(), id) {
                proof {
                    lemma_found(self.providers@, wanted, i as int);
                }
                return Some(i);
            }
            i = i + 1;
        }
        proof {
            lemma_found(self.providers@, wanted, i as int);
        }
        None
    }

    /// Where the model with an id stands.
    pub fn find_model(&self, id: &str) -> (r: Option<usize>)
        ensures
            r is Some <==> model_at(self.models@, id@) is Some,
            r matches Some(i) ==> model_at(self.models@, id@) == Some(i as int) && i
                < self.models@.len() && self.models@[i as int].id@ == id@,
    {
        let ghost wanted = model_with(id@);
        let mut i: usize = 0;
        while i < self.models.len()
            invariant
                i <= self.models@.len(),
                wanted == model_with(id@),
                forall|k: int| 0 <= k < i ==> !wanted(#[trigger] self.models@[k]),
            decreases self.models@.len() - i,
        {
            if same_text(self.models[i].id.as_str(), id) {
                proof {
                    lemma_found(self.models@, wanted, i as int);
                }
                return Some(i);
            }
            i = i + 1;
        }
        proof {
            lemma_found(self.models@, wanted, i as int);
        }
        None
    }

    /// Where the route with an id stands.
    pub fn find_route(&self, id: &str) -> (r: Option<usize>)
        ensures
            r is Some <==> route_at(self.routes@, id@) is Some,
            r matches Some(i) ==> route_at(self.routes@, id@) == Some(i as int) && i
                < self.routes@.len() && self.routes@[i as int].id@ == id@,
    {
        let ghost wanted = route_with(id@);
        let mut i: usize = 0;
        while i < self.routes.len()
            invariant
                i <= self.routes@.len(),
                wanted == route_with(id@),
                forall|k: int| 0 <= k < i ==> !wanted(#[trigger] self.routes@[k]),
            decreases self.routes@.len() - i,
        {
            if same_text(self.routes[i].id.as_str(), id) {
                proof {
                    lemma_found(self.routes@, wanted, i as int);
                }
                return Some(i);
            }
            i = i + 1;
        }
        proof {
            lemma_found(self.routes@, wanted, i as int);
        }
        None
    }

    /// Where the key with an id stands.
    pub fn find_key(&self, id: &str) -> (r: Option<usize>)
        ensures
            r is Some <==> key_at(self.keys@, id@) is Some,
            r matches Some(i) ==> key_at(self.keys@, id@) == Some(i as int) && i
                < self.keys@.len() && self.keys@[i as int].id@ == id@,
    {
        let ghost wanted = key_with(id@);
        let mut i: usize = 0;
        while i < self.keys.len()
            invariant
                i <= self.keys@.len(),
                wanted == key_with(id@),
                forall|k: int| 0 <= k < i ==> !wanted(#[trigger] self.keys@[k]),
            decreases self.keys@.len() - i,
        {
            if same_text(self.keys[i].id.as_str(), id) {
                proof {
                    lemma_found(self.keys@, wanted, i as int);
                }
                return Some(i);
            }
            i = i + 1;
        }
        proof {
            lemma_found(self.keys@, wanted, i as int);
        }
        None
    }
}

/// Which routes are to be probed.
#[derive(Debug)]
pub enum ProbeSelection {
    All,
    Available,
    /// Unavailable ones whose next probe is due at the given time.
    Due(i64),
    OfProvider(String),
}

/// Whether a route is to be probed.
pub open spec fn selects(selection: ProbeSelection, route: RouteRow) -> bool {
    match selection {
        ProbeSelection::All => true,
        ProbeSelection::Available => route.health.state == RouteHealth::Available,
        ProbeSelection::Due(now_ms) => probe_due(route.health@, now_ms as int),
        ProbeSelection::OfProvider(provider_id) => route.provider_id@ == provider_id@,
    }
}

/// The time by which the probes of a selection are ordered before their ids.
pub open spec fn probe_place(selection: ProbeSelection, route: RouteRow) -> i64 {
    match selection {
        ProbeSelection::Due(_) => match route.health.next_probe_at_ms {
            Some(next) => next,
            None => 0,
        },
        _ => 0,
    }
}

/// What a probe of a route needs.
pub open spec fn probe_of(schema: int, route: RouteRow, provider: ProviderRow) -> ProbeConfiguration {
    ProbeConfiguration {
        route_id: route.id,
        provider_id: provider.id,
        base_url: provider.base_url,
        api_key: provider.api_key,
        upstream_model_name: route.upstream_model_name,
        protocol: route.protocol,
        quarantine_epoch: if counts_failures(schema) {
            route.health.quarantine_epoch
        } else {
            0
        },
    }
}

/// A probe and its place in the order.
#[derive(Debug)]
pub struct PlacedProbe {
    pub place: i64,
    pub probe: ProbeConfiguration,
}

impl Ranked for PlacedProbe {
    open spec fn rank_le(self, other: Self) -> bool {
        self.place < other.place || (self.place == other.place && text_le(
            self.probe.route_id@,
            other.probe.route_id@,
        ))
    }

    proof fn lemma_rank_order(a: Self, b: Self, c: Self) {
        lemma_text_order(a.probe.route_id@, b.probe.route_id@, c.probe.route_id@);
    }

    fn at_most(&self, other: &Self) -> (r: bool) {
        self.place < other.place || (self.place == other.place && text_at_most(
            self.probe.route_id.as_str(),
            other.probe.route_id.as_str(),
        ))
    }
}

/// The selected probes among the first `n` routes.
pub open spec fn probes_upto(store: Store, selection: ProbeSelection, n: int) -> Seq<PlacedProbe>
    decreases n,
{
    if n <= 0 {
        Seq::empty()
    } else {
        let before = probes_upto(store, selection, n - 1);
        let route = store.routes@[n - 1];
        match provider_at(store.providers@, route.provider_id@) {
            Some(i) => if selects(selection, route) {
                before.push(
                    PlacedProbe {
                        place: probe_place(selection, route),
                        probe: probe_of(store.schema as int, route, store.providers@[i]),
                    },
                )
            } else {
                before
            },
            None => before,
        }
    }
}

/// The selected probes in order: by time where they are due, then by route id.
pub open spec fn probe_list(store: Store, selection: ProbeSelection) -> Seq<ProbeConfiguration> {
    ranked(probes_upto(store, selection, store.routes@.len() as int)).map_values(
        |placed: PlacedProbe| placed.probe,
    )
}

impl ProbeSelection {
    /// Whether a route is to be probed.
    pub fn selects(&self, route: &RouteRow) -> (r: bool)
        ensures
            r == selects(*self, *route),
    {
        match self {
            ProbeSelection::All => true,
            ProbeSelection::Available => route.health.state == RouteHealth::Available,
            ProbeSelection::Due(now_ms) => route.health.is_due(*now_ms),
            ProbeSelection::OfProvider(provider_id) => same_text(
                route.provider_id.as_str(),
                provider_id.as_str(),
            ),
        }
    }

    /// The time by which the probe of a route is ordered.
    fn place(&self, route: &RouteRow) -> (r: i64)
        ensures
            r == probe_place(*self, *route),
    {
        match self {
            ProbeSelection::Due(_) => match route.health.next_probe_at_ms {
                Some(next) => next,
                None => 0,
            },
            _ => 0,
        }
    }
}

impl Store {
    /// What a probe of the route at `i` through the provider at `j` needs.
    pub fn probe_at(&self, i: usize, j: usize) -> (r: ProbeConfiguration)
        requires
            i < self.routes@.len(),
            j < self.providers@.len(),
        ensures
            r == probe_of(
                self.schema as int,
                self.routes@[i as int],
                self.providers@[j as int],
            ),
    {
        let route = &self.routes[i];
        let provider = &self.providers[j];
        ProbeConfiguration {
            route_id: route.id.clone(),
            provider_id: provider.id.clone(),
            base_url: provider.base_url.clone(),
            api_key: provider.api_key.clone(),
            upstream_model_name: route.upstream_model_name.clone(),
            protocol: route.protocol.clone(),
            quarantine_epoch: if self.schema >= 14 {
                route.health.quarantine_epoch
            } else {
                0
            },
        }
    }

    /// The selected probes, in order.
    pub fn probes(&self, selection: &ProbeSelection) -> (r: Vec<ProbeConfiguration>)
        ensures
            r@ == probe_list(*self, *selection),
    {
        let mut found: Vec<PlacedProbe> = Vec::new();
        for i in 0..self.routes.len()
            invariant
                found@ == probes_upto(*self, *selection, i as int),
        {
            let route = &self.routes[i];
            match self.find_provider(route.provider_id.as_str()) {
                Some(j) => if selection.selects(route) {
                    let place: i64 = selection.place(route);
                    let probe = self.probe_at(i, j);
                    found.push(PlacedProbe { place, probe });
                },
                None => {},
            }
        }
        let placed = sort_ranked(found);
        let ghost order = placed@;
        let mut out: Vec<ProbeConfiguration> = Vec::new();
        for entry in it: placed
            invariant
                it.seq() == order,
                out@ == order.take(it.index() as int).map_values(|placed: PlacedProbe| placed.probe),
        {
            out.push(entry.probe);
            proof {
                assert(order.take(it.index() + 1).map_values(|placed: PlacedProbe| placed.probe)
                    =~= order.take(it.index() as int).map_values(
                    |placed: PlacedProbe| placed.probe,
                ).push(order[it.index() as int].probe));
            }
        }
        proof {
            assert(order.take(order.len() as int) =~= order);
        }
        out
    }
}

/// Whether two routes differ at most in their health.
pub open spec fn health_apart(before: RouteRow, after: RouteRow) -> bool {
    &&& after.id == before.id
    &&& after.published_model_id == before.published_model_id
    &&& after.provider_id == before.provider_id
    &&& after.upstream_model_name == before.upstream_model_name
    &&& after.protocol == before.protocol
    &&& after.cost_multiplier_micros == before.cost_multiplier_micros
    &&& after.created_at == before.created_at
}

/// Whether the health of every route became `next` of what it was, and nothing
/// else of any route changed.
pub open spec fn healths_become(
    before: Seq<RouteRow>,
    after: Seq<RouteRow>,
    next: spec_fn(RouteRow) -> HealthData,
) -> bool {
    &&& after.len() == before.len()
    &&& forall|k: int|
        0 <= k < before.len() ==> health_apart(before[k], #[trigger] after[k]) && after[k].health@
            == next(before[k])
}

/// The health of the routes of a provider after they went back to being
/// checked.
pub open spec fn provider_rechecked(schema: int, provider_id: Seq<char>) -> spec_fn(
    RouteRow,
) -> HealthData {
    |route: RouteRow|
        if route.provider_id@ == provider_id {
            rechecking(schema, route.health@)
        } else {
            route.health@
        }
}

/// Why a provider is refused.
pub open spec fn provider_refusal(
    display_name: Seq<char>,
    base_url: Seq<char>,
    api_key: Seq<char>,
) -> Option<Refusal> {
    if !fits(trimmed(display_name), 128) {
        Some(at_field("display_name"@, "provider name must be between 1 and 128 characters"@))
    } else {
        match base_url_complaint(parsed_url(kept_base_url(base_url))) {
            Some(complaint) => Some(at_field("base_url"@, complaint)),
            None => if !fits(trimmed(api_key), 8_192) {
                Some(
                    at_field(
                        "api_key"@,
                        "upstream API key must be between 1 and 8192 characters"@,
                    ),
                )
            } else {
                None
            },
        }
    }
}

/// A provider's name, base URL and key as they are kept.
fn check_provider(display_name: &str, base_url: &str, api_key: &str) -> (r: Result<
    (String, String, String),
    StoreError,
>)
    ensures
        r matches Ok(kept) ==> {
            &&& provider_refusal(display_name@, base_url@, api_key@) is None
            &&& kept.0@ == trimmed(display_name@)
            &&& kept.1@ == kept_base_url(base_url@)
            &&& kept.2@ == trimmed(api_key@)
        },
        r matches Err(error) ==> provider_refusal(display_name@, base_url@, api_key@) == Some(
            error@,
        ),
{
    let name = match validate_display_name(display_name) {
        Ok(name) => name,
        Err(error) => {
            return Err(refused_value(error));
        },
    };
    let url = match validate_base_url(base_url) {
        Ok(url) => url,
        Err(error) => {
            return Err(refused_value(error));
        },
    };
    match validate_api_key(api_key) {
        Ok(key) => Ok((name, url, key)),
        Err(error) => Err(refused_value(error)),
    }
}

/// A configuration with one provider more.
pub open spec fn with_provider(before: Store, after: Store, row: ProviderRow) -> bool {
    &&& after.providers@ == before.providers@.push(row)
    &&& after.schema == before.schema
    &&& after.models == before.models
    &&& after.routes == before.routes
    &&& after.keys == before.keys
    &&& after.settings == before.settings
}

/// Whether a connection is another than that of a provider.
pub open spec fn connection_changed(provider: ProviderRow, base_url: Seq<char>, api_key: Seq<char>) -> bool {
    provider.base_url@ != base_url || provider.api_key@ != api_key
}

/// A configuration with the provider at `i` edited. Where the connection
/// changed, the provider's routes go back to being checked.
pub open spec fn with_provider_edited(
    before: Store,
    after: Store,
    i: int,
    display_name: Seq<char>,
    base_url: Seq<char>,
    api_key: Seq<char>,
) -> bool {
    let provider = before.providers@[i];
    &&& after.providers@.len() == before.providers@.len()
    &&& forall|k: int|
        0 <= k < before.providers@.len() && k != i ==> #[trigger] after.providers@[k]
            == before.providers@[k]
    &&& after.providers@[i].id == provider.id
    &&& after.providers@[i].display_name@ == display_name
    &&& after.providers@[i].base_url@ == base_url
    &&& after.providers@[i].api_key@ == api_key
    &&& after.providers@[i].created_at == provider.created_at
    &&& if connection_changed(provider, base_url, api_key) {
        healths_become(
            before.routes@,
            after.routes@,
            provider_rechecked(before.schema as int, provider.id@),
        )
    } else {
        after.routes == before.routes
    }
    &&& after.schema == before.schema
    &&& after.models == before.models
    &&& after.keys == before.keys
    &&& after.settings == before.settings
}

/// Routes that differ at most in their health are found in the same places.
proof fn lemma_routes_found(before: Seq<RouteRow>, after: Seq<RouteRow>, id: Seq<char>)
    requires
        before.len() == after.len(),
        forall|k: int| 0 <= k < before.len() ==> health_apart(before[k], #[trigger] after[k]),
    ensures
        route_at(after, id) == route_at(before, id),
{
    let wanted = route_with(id);
    assert forall|k: int| 0 <= k < after.len() implies wanted(#[trigger] after[k]) == wanted(
        before[k],
    ) by {
        assert(health_apart(before[k], after[k]));
    }
    lemma_find_agrees(after, before, wanted);
}

/// A change of health alone keeps the configuration in order.
pub proof fn lemma_healths_keep_order(before: Store, after: Store)
    requires
        before.wf(),
        after.providers@ == before.providers@,
        after.models@ == before.models@,
        after.keys@ == before.keys@,
        settings_ok(after.settings),
        before.routes@.len() == after.routes@.len(),
        forall|k: int|
            0 <= k < before.routes@.len() ==> health_apart(
                before.routes@[k],
                #[trigger] after.routes@[k],
            ),
    ensures
        after.wf(),
{
    assert forall|i: int, j: int| 0 <= i < j < after.routes@.len() implies (
    #[trigger] after.routes@[i]).id@ != (#[trigger] after.routes@[j]).id@ && !same_identity(
        after.routes@[i],
        after.routes@[j],
    ) by {
        assert(health_apart(before.routes@[i], after.routes@[i]));
        assert(health_apart(before.routes@[j], after.routes@[j]));
        assert(before.routes@[i].id@ != before.routes@[j].id@);
    }
    assert forall|i: int| 0 <= i < after.routes@.len() implies route_ok(
        after,
        #[trigger] after.routes@[i],
    ) by {
        assert(health_apart(before.routes@[i], after.routes@[i]));
        assert(route_ok(before, before.routes@[i]));
    }
    assert forall|i: int| 0 <= i < after.keys@.len() implies key_ok(
        after,
        #[trigger] after.keys@[i],
    ) by {
        let key = after.keys@[i];
        assert(key_ok(before, before.keys@[i]));
        assert forall|n: int| 0 <= n < key.model_route_ids@.len() implies route_at(
            after.routes@,
            (#[trigger] key.model_route_ids@[n])@,
        ) is Some by {
            lemma_routes_found(before.routes@, after.routes@, key.model_route_ids@[n]@);
        }
    }
}

/// What comes of adding a provider: a refusal changes nothing; else the provider
/// is the last, with its values as they are kept.
pub open spec fn provider_created(
    before: Store,
    after: Store,
    r: Result<ProviderSummary, StoreError>,
    id: String,
    created_at: i64,
    display_name: Seq<char>,
    base_url: Seq<char>,
    api_key: Seq<char>,
) -> bool {
    match provider_refusal(display_name, base_url, api_key) {
        Some(refusal) => r is Err && r->Err_0@ == refusal && after == before,
        None => {
            &&& r is Ok
            &&& r->Ok_0.id == id
            &&& r->Ok_0.display_name@ == trimmed(display_name)
            &&& r->Ok_0.api_key_masked@ == "********"@
            &&& with_provider(before, after, after.providers@.last())
            &&& after.providers@.last().id == id
            &&& after.providers@.last().display_name@ == trimmed(display_name)
            &&& after.providers@.last().base_url@ == kept_base_url(base_url)
            &&& after.providers@.last().api_key@ == trimmed(api_key)
            &&& after.providers@.last().created_at == created_at
        },
    }
}

/// What comes of editing a provider with values that were checked.
pub open spec fn provider_changed(
    before: Store,
    after: Store,
    r: Result<Vec<ProbeConfiguration>, StoreError>,
    provider_id: Seq<char>,
    display_name: String,
    base_url: String,
    api_key: String,
) -> bool {
    match provider_at(before.providers@, provider_id) {
        None => r is Err && r->Err_0@ == plain("upstream provider does not exist"@)
            && after == before,
        Some(i) => {
            &&& r is Ok
            &&& with_provider_edited(
                before,
                after,
                i,
                display_name@,
                base_url@,
                api_key@,
            )
            &&& r->Ok_0@ == if connection_changed(
                before.providers@[i],
                base_url@,
                api_key@,
            ) {
                probe_list(
                    after,
                    ProbeSelection::OfProvider(before.providers@[i].id),
                )
            } else {
                Seq::empty()
            }
        },
    }
}

/// What comes of editing a provider.
pub open spec fn provider_updated(
    before: Store,
    after: Store,
    r: Result<Vec<ProbeConfiguration>, StoreError>,
    provider_id: Seq<char>,
    display_name: Seq<char>,
    base_url: Seq<char>,
    api_key: Seq<char>,
) -> bool {
    match (
        provider_refusal(display_name, base_url, api_key),
        provider_at(before.providers@, provider_id),
    ) {
        (Some(refusal), _) => r is Err && r->Err_0@ == refusal && after
            == before,
        (None, None) => r is Err && r->Err_0@ == plain("upstream provider does not exist"@)
            && after == before,
        (None, Some(i)) => {
            &&& r is Ok
            &&& with_provider_edited(
                before,
                after,
                i,
                trimmed(display_name),
                kept_base_url(base_url),
                trimmed(api_key),
            )
            &&& r->Ok_0@ == if connection_changed(
                before.providers@[i],
                kept_base_url(base_url),
                trimmed(api_key),
            ) {
                probe_list(
                    after,
                    ProbeSelection::OfProvider(before.providers@[i].id),
                )
            } else {
                Seq::empty()
            }
        },
    }
}

/// Whether `r` is a provider as it is edited.
pub open spec fn provider_to_edit(
    store: Store,
    r: Result<ProviderConfiguration, StoreError>,
    provider_id: Seq<char>,
) -> bool {
    match provider_at(store.providers@, provider_id) {
        Some(i) => r is Ok && r->Ok_0 == (ProviderConfiguration {
            id: store.providers@[i].id,
            display_name: store.providers@[i].display_name,
            base_url: store.providers@[i].base_url,
        }),
        None => r is Err && r->Err_0@ == plain("upstream provider does not exist"@),
    }
}

/// Whether `r` is a provider's base URL and key.
pub open spec fn connection_of(
    store: Store,
    r: Option<(String, String)>,
    provider_id: Seq<char>,
) -> bool {
    match provider_at(store.providers@, provider_id) {
        Some(i) => r == Some((store.providers@[i].base_url, store.providers@[i].api_key)),
        None => r is None,
    }
}

impl Store {
    /// Adds a provider that was checked.
    pub fn add_provider(&mut self, row: ProviderRow) -> (r: ProviderSummary)
        requires
            old(self).wf(),
            provider_at(old(self).providers@, row.id@) is None,
        ensures
            with_provider(*old(self), *final(self), row),
            final(self).wf(),
            r.id == row.id,
            r.display_name == row.display_name,
            r.api_key_masked@ == "********"@,
    {
        let summary = ProviderSummary {
            id: row.id.clone(),
            display_name: row.display_name.clone(),
            api_key_masked: "********",
        };
        proof {
            lemma_find(self.providers@, provider_with(row.id@));
            assert forall|i: int| 0 <= i < self.routes@.len() implies provider_at(
                self.providers@.push(row),
                (#[trigger] self.routes@[i]).provider_id@,
            ) is Some by {
                let id = self.routes@[i].provider_id@;
                assert(route_ok(*self, self.routes@[i]));
                lemma_find_push(self.providers@, row, provider_with(id));
            }
        }
        self.providers.push(row);
        proof {
            let before = *old(self);
            assert forall|i: int| 0 <= i < self.routes@.len() implies route_ok(
                *self,
                #[trigger] self.routes@[i],
            ) by {
                assert(route_ok(before, before.routes@[i]));
            }
            assert forall|i: int| 0 <= i < self.keys@.len() implies key_ok(
                *self,
                #[trigger] self.keys@[i],
            ) by {
                assert(key_ok(before, before.keys@[i]));
            }
        }
        summary
    }

    /// Adds a provider under a new id.
    pub fn create_provider(
        &mut self,
        id: String,
        created_at: i64,
        display_name: &str,
        base_url: &str,
        api_key: &str,
    ) -> (r: Result<ProviderSummary, StoreError>)
        requires
            old(self).wf(),
            provider_at(old(self).providers@, id@) is None,
        ensures
            final(self).wf(),
            provider_created(
                *old(self),
                *final(self),
                r,
                id,
                created_at,
                display_name@,
                base_url@,
                api_key@,
            ),
    {
        match check_provider(display_name, base_url, api_key) {
            Err(error) => Err(error),
            Ok(kept) => {
                let (display_name, base_url, api_key) = kept;
                Ok(
                    self.add_provider(
                        ProviderRow { id, display_name, base_url, api_key, created_at },
                    ),
                )
            },
        }
    }

    /// A provider as it is edited.
    pub fn provider_configuration(&self, provider_id: &str) -> (r: Result<
        ProviderConfiguration,
        StoreError,
    >)
        ensures
            provider_to_edit(*self, r, provider_id@),
    {
        match self.find_provider(provider_id) {
            Some(i) => Ok(
                ProviderConfiguration {
                    id: self.providers[i].id.clone(),
                    display_name: self.providers[i].display_name.clone(),
                    base_url: self.providers[i].base_url.clone(),
                },
            ),
            None => Err(refused("upstream provider does not exist")),
        }
    }

    /// A provider's base URL and key.
    pub fn provider_connection(&self, provider_id: &str) -> (r: Option<(String, String)>)
        ensures
            connection_of(*self, r, provider_id@),
    {
        match self.find_provider(provider_id) {
            Some(i) => Some(
                (self.providers[i].base_url.clone(), self.providers[i].api_key.clone()),
            ),
            None => None,
        }
    }

    /// Every provider's id, base URL and key, by id.
    pub fn provider_connections(&self) -> (r: Vec<(String, String, String)>)
        ensures
            r@ == ranked(connections(self.providers@)),
    {
        let mut found: Vec<(String, String, String)> = Vec::new();
        for i in 0..self.providers.len()
            invariant
                found@ == connections(self.providers@).take(i as int),
        {
            let provider = &self.providers[i];
            found.push((provider.id.clone(), provider.base_url.clone(), provider.api_key.clone()));
            proof {
                assert(connections(self.providers@).take(i + 1) =~= connections(
                    self.providers@,
                ).take(i as int).push(connections(self.providers@)[i as int]));
            }
        }
        proof {
            assert(connections(self.providers@).take(self.providers@.len() as int)
                =~= connections(self.providers@));
        }
        sort_ranked(found)
    }

    /// Sends the routes of a provider back to being checked.
    fn recheck_provider(&mut self, provider_id: &str)
        ensures
            healths_become(
                old(self).routes@,
                final(self).routes@,
                provider_rechecked(old(self).schema as int, provider_id@),
            ),
            final(self).schema == old(self).schema,
            final(self).providers == old(self).providers,
            final(self).models == old(self).models,
            final(self).keys == old(self).keys,
            final(self).settings == old(self).settings,
    {
        let schema: i64 = self.schema;
        let total: usize = self.routes.len();
        let ghost before = self.routes@;
        let ghost next = provider_rechecked(schema as int, provider_id@);
        for i in 0..total
            invariant
                schema == old(self).schema,
                self.schema == old(self).schema,
                self.providers == old(self).providers,
                self.models == old(self).models,
                self.keys == old(self).keys,
                self.settings == old(self).settings,
                next == provider_rechecked(schema as int, provider_id@),
                before == old(self).routes@,
                self.routes@.len() == before.len() == total,
                forall|k: int|
                    0 <= k < i ==> health_apart(before[k], #[trigger] self.routes@[k])
                        && self.routes@[k].health@ == next(before[k]),
                forall|k: int| i <= k < total ==> #[trigger] self.routes@[k] == before[k],
        {
            if same_text(self.routes[i].provider_id.as_str(), provider_id) {
                self.routes[i].health.recheck(schema);
            }
        }
    }

    /// Edits a provider with values that were checked. Where the connection
    /// changed, the provider's routes go back to being checked, and the answer
    /// says what their probes need.
    pub fn change_provider(
        &mut self,
        provider_id: &str,
        display_name: String,
        base_url: String,
        api_key: String,
    ) -> (r: Result<Vec<ProbeConfiguration>, StoreError>)
        requires
            old(self).wf(),
        ensures
            final(self).wf(),
            provider_changed(
                *old(self),
                *final(self),
                r,
                provider_id@,
                display_name,
                base_url,
                api_key,
            ),
    {
        let ghost before = *self;
        let i: usize = match self.find_provider(provider_id) {
            Some(i) => i,
            None => {
                return Err(refused("upstream provider does not exist"));
            },
        };
        let changed = !same_text(self.providers[i].base_url.as_str(), base_url.as_str())
            || !same_text(self.providers[i].api_key.as_str(), api_key.as_str());
        let id = self.providers[i].id.clone();
        self.providers[i].display_name = display_name;
        self.providers[i].base_url = base_url;
        self.providers[i].api_key = api_key;
        let ghost middle = *self;
        proof {
            lemma_provider_edit_keeps_order(before, middle, i as int);
        }
        if changed {
            self.recheck_provider(id.as_str());
            proof {
                lemma_healths_keep_order(middle, *self);
            }
            let selection = ProbeSelection::OfProvider(id);
            Ok(self.probes(&selection))
        } else {
            Ok(Vec::new())
        }
    }

    /// Edits a provider.
    pub fn update_provider(
        &mut self,
        provider_id: &str,
        display_name: &str,
        base_url: &str,
        api_key: &str,
    ) -> (r: Result<Vec<ProbeConfiguration>, StoreError>)
        requires
            old(self).wf(),
        ensures
            final(self).wf(),
            provider_updated(
                *old(self),
                *final(self),
                r,
                provider_id@,
                display_name@,
                base_url@,
                api_key@,
            ),
    {
        match check_provider(display_name, base_url, api_key) {
            Err(error) => Err(error),
            Ok(kept) => {
                let (display_name, base_url, api_key) = kept;
                self.change_provider(provider_id, display_name, base_url, api_key)
            },
        }
    }
}

/// An edit of a provider that keeps its id keeps the configuration in order.
proof fn lemma_provider_edit_keeps_order(before: Store, after: Store, i: int)
    requires
        before.wf(),
        0 <= i < before.providers@.len(),
        after.providers@.len() == before.providers@.len(),
        forall|k: int|
            0 <= k < before.providers@.len() ==> (#[trigger] after.providers@[k]).id
                == before.providers@[k].id,
        after.models@ == before.models@,
        after.routes@ == before.routes@,
        after.keys@ == before.keys@,
        after.settings == before.settings,
    ensures
        after.wf(),
{
    assert forall|n: int| 0 <= n < after.routes@.len() implies route_ok(
        after,
        #[trigger] after.routes@[n],
    ) by {
        assert(route_ok(before, before.routes@[n]));
        let id = before.routes@[n].provider_id@;
        let wanted = provider_with(id);
        assert forall|k: int| 0 <= k < after.providers@.len() implies wanted(
            #[trigger] after.providers@[k],
        ) == wanted(before.providers@[k]) by {}
        lemma_find_agrees(after.providers@, before.providers@, wanted);
    }
    assert forall|n: int| 0 <= n < after.keys@.len() implies key_ok(
        after,
        #[trigger] after.keys@[n],
    ) by {
        assert(key_ok(before, before.keys@[n]));
    }
    assert forall|a: int, b: int| 0 <= a < b < after.providers@.len() implies (
    #[trigger] after.providers@[a]).id@ != (#[trigger] after.providers@[b]).id@ by {
        assert(before.providers@[a].id@ != before.providers@[b].id@);
    }
}

/// Why a price is refused.
pub open spec fn price_refusal(value: Seq<char>, label: Seq<char>, field: Seq<char>) -> Option<
    Refusal,
> {
    match read_decimal(value) {
        Reading::Millionths(amount) => if amount < 0 {
            Some(at_field(field, label + " must not be negative"@))
        } else {
            None
        },
        other => Some(at_field(field, label + decimal_complaint(other))),
    }
}

/// Why three prices are refused: the first that is.
pub open spec fn prices_refusal(input: Seq<char>, output: Seq<char>, cached: Seq<char>) -> Option<
    Refusal,
> {
    match price_refusal(input, "input price"@, "input_price_rmb"@) {
        Some(refusal) => Some(refusal),
        None => match price_refusal(output, "output price"@, "output_price_rmb"@) {
            Some(refusal) => Some(refusal),
            None => price_refusal(cached, "cached input price"@, "cached_input_price_rmb"@),
        },
    }
}

/// The millionths that a text gives.
pub open spec fn amount_of(value: Seq<char>) -> int {
    read_decimal(value)->Millionths_0
}

/// Reads three prices.
fn read_prices(input: &str, output: &str, cached: &str) -> (r: Result<(i64, i64, i64), StoreError>)
    ensures
        r matches Ok(prices) ==> {
            &&& prices_refusal(input@, output@, cached@) is None
            &&& prices.0 == amount_of(input@)
            &&& prices.1 == amount_of(output@)
            &&& prices.2 == amount_of(cached@)
        },
        r matches Err(error) ==> prices_refusal(input@, output@, cached@) == Some(error@),
{
    let first: i64 = match parse_non_negative_decimal(input, "input price", "input_price_rmb") {
        Ok(price) => price,
        Err(error) => {
            return Err(refused_value(error));
        },
    };
    let second: i64 = match parse_non_negative_decimal(
        output,
        "output price",
        "output_price_rmb",
    ) {
        Ok(price) => price,
        Err(error) => {
            return Err(refused_value(error));
        },
    };
    match parse_non_negative_decimal(cached, "cached input price", "cached_input_price_rmb") {
        Ok(third) => Ok((first, second, third)),
        Err(error) => Err(refused_value(error)),
    }
}

/// Why a new published model is refused.
pub open spec fn model_refusal(
    store: Store,
    name: Seq<char>,
    input: Seq<char>,
    output: Seq<char>,
    cached: Seq<char>,
) -> Option<Refusal> {
    if !fits(trimmed(name), 128) {
        Some(at_field("name"@, "published model name must be between 1 and 128 characters"@))
    } else {
        match prices_refusal(input, output, cached) {
            Some(refusal) => Some(refusal),
            None => if model_at(store.models@, trimmed(name)) is Some {
                Some(plain("a published model with this name already exists"@))
            } else {
                None
            },
        }
    }
}

/// Whether two configurations differ at most in their models.
pub open spec fn models_apart(before: Store, after: Store) -> bool {
    &&& after.schema == before.schema
    &&& after.providers == before.providers
    &&& after.routes == before.routes
    &&& after.keys == before.keys
    &&& after.settings == before.settings
}

/// Whether the models differ at most at `i`, and there not in id or name.
pub open spec fn model_edited(before: Seq<ModelRow>, after: Seq<ModelRow>, i: int) -> bool {
    &&& after.len() == before.len()
    &&& forall|k: int| 0 <= k < before.len() && k != i ==> #[trigger] after[k] == before[k]
    &&& after[i].id == before[i].id
    &&& after[i].name == before[i].name
}

/// An edit of a model that keeps its id and name keeps the configuration in
/// order.
proof fn lemma_model_edit_keeps_order(before: Store, after: Store, i: int)
    requires
        before.wf(),
        0 <= i < before.models@.len(),
        models_apart(before, after),
        model_edited(before.models@, after.models@, i),
    ensures
        after.wf(),
{
    assert forall|n: int| 0 <= n < after.routes@.len() implies route_ok(
        after,
        #[trigger] after.routes@[n],
    ) by {
        assert(route_ok(before, before.routes@[n]));
        let id = before.routes@[n].published_model_id@;
        let wanted = model_with(id);
        assert forall|k: int| 0 <= k < after.models@.len() implies wanted(
            #[trigger] after.models@[k],
        ) == wanted(before.models@[k]) by {
            if k != i {
                assert(after.models@[k] == before.models@[k]);
            }
        }
        lemma_find_agrees(after.models@, before.models@, wanted);
    }
    assert forall|n: int| 0 <= n < after.keys@.len() implies key_ok(
        after,
        #[trigger] after.keys@[n],
    ) by {
        assert(key_ok(before, before.keys@[n]));
    }
    assert forall|k: int| 0 <= k < after.models@.len() implies (#[trigger] after.models@[k]).id
        == before.models@[k].id && after.models@[k].name == before.models@[k].name by {
        if k != i {
            assert(after.models@[k] == before.models@[k]);
        }
    }
    assert forall|a: int, b: int| 0 <= a < b < after.models@.len() implies (
    #[trigger] after.models@[a]).id@ != (#[trigger] after.models@[b]).id@ by {
        assert(before.models@[a].id@ != before.models@[b].id@);
    }
}

/// What comes of publishing a model.
pub open spec fn model_created(
    before: Store,
    after: Store,
    r: Result<(), StoreError>,
    name: Seq<char>,
    input_price_rmb: Seq<char>,
    output_price_rmb: Seq<char>,
    cached_input_price_rmb: Seq<char>,
) -> bool {
    match model_refusal(
        before,
        name,
        input_price_rmb,
        output_price_rmb,
        cached_input_price_rmb,
    ) {
        Some(refusal) => r is Err && r->Err_0@ == refusal && after == before,
        None => {
            let added = after.models@.last();
            &&& r is Ok
            &&& models_apart(before, after)
            &&& after.models@ == before.models@.push(added)
            &&& added.id@ == trimmed(name)
            &&& added.name@ == trimmed(name)
            &&& added.input_price_micros == amount_of(input_price_rmb)
            &&& added.output_price_micros == amount_of(output_price_rmb)
            &&& added.cached_input_price_micros == amount_of(cached_input_price_rmb)
            &&& added.deprecated_at is None
        },
    }
}

/// What comes of taking a model out of use for new routes.
pub open spec fn model_deprecated(
    before: Store,
    after: Store,
    r: Result<(), StoreError>,
    model_id: Seq<char>,
    now: i64,
) -> bool {
    match model_at(before.models@, model_id) {
        None => r is Err && r->Err_0@ == plain("published model does not exist"@)
            && after == before,
        Some(i) => {
            let (was, is) = (before.models@[i], after.models@[i]);
            &&& r is Ok
            &&& models_apart(before, after)
            &&& model_edited(before.models@, after.models@, i)
            &&& is == (ModelRow {
                deprecated_at: match was.deprecated_at {
                    Some(at) => Some(at),
                    None => Some(now),
                },
                ..was
            })
        },
    }
}

/// What comes of setting the prices of a model.
pub open spec fn model_repriced(
    before: Store,
    after: Store,
    r: Result<(), StoreError>,
    model_id: Seq<char>,
    input_price_rmb: Seq<char>,
    output_price_rmb: Seq<char>,
    cached_input_price_rmb: Seq<char>,
) -> bool {
    match (
        prices_refusal(input_price_rmb, output_price_rmb, cached_input_price_rmb),
        model_at(before.models@, model_id),
    ) {
        (Some(refusal), _) => r is Err && r->Err_0@ == refusal && after
            == before,
        (None, None) => r is Err && r->Err_0@ == plain("published model does not exist"@)
            && after == before,
        (None, Some(i)) => {
            &&& r is Ok
            &&& models_apart(before, after)
            &&& model_edited(before.models@, after.models@, i)
            &&& after.models@[i] == (ModelRow {
                input_price_micros: amount_of(input_price_rmb) as i64,
                output_price_micros: amount_of(output_price_rmb) as i64,
                cached_input_price_micros: amount_of(cached_input_price_rmb) as i64,
                ..before.models@[i]
            })
        },
    }
}

impl Store {
    /// Publishes a model; its name is its id.
    pub fn create_published_model(
        &mut self,
        name: &str,
        input_price_rmb: &str,
        output_price_rmb: &str,
        cached_input_price_rmb: &str,
    ) -> (r: Result<(), StoreError>)
        requires
            old(self).wf(),
        ensures
            final(self).wf(),
            model_created(
                *old(self),
                *final(self),
                r,
                name@,
                input_price_rmb@,
                output_price_rmb@,
                cached_input_price_rmb@,
            ),
    {
        let ghost before = *self;
        let name = match validate_published_model_name(name) {
            Ok(name) => name,
            Err(error) => {
                return Err(refused_value(error));
            },
        };
        let (input, output, cached) = match read_prices(
            input_price_rmb,
            output_price_rmb,
            cached_input_price_rmb,
        ) {
            Ok(prices) => prices,
            Err(error) => {
                return Err(error);
            },
        };
        if self.find_model(name.as_str()).is_some() {
            return Err(refused("a published model with this name already exists"));
        }
        let row = ModelRow {
            id: name.clone(),
            name,
            input_price_micros: input,
            output_price_micros: output,
            cached_input_price_micros: cached,
            deprecated_at: None,
        };
        let ghost added = row;
        self.models.push(row);
        proof {
            lemma_find(before.models@, model_with(added.id@));
            assert forall|n: int| 0 <= n < self.routes@.len() implies route_ok(
                *self,
                #[trigger] self.routes@[n],
            ) by {
                assert(route_ok(before, before.routes@[n]));
                lemma_find_push(
                    before.models@,
                    added,
                    model_with(before.routes@[n].published_model_id@),
                );
            }
            assert forall|n: int| 0 <= n < self.keys@.len() implies key_ok(
                *self,
                #[trigger] self.keys@[n],
            ) by {
                assert(key_ok(before, before.keys@[n]));
            }
        }
        Ok(())
    }

    /// Takes a model out of use for new routes. Done twice, the first time
    /// stays on record.
    pub fn deprecate_published_model(&mut self, model_id: &str, now: i64) -> (r: Result<
        (),
        StoreError,
    >)
        requires
            old(self).wf(),
        ensures
            final(self).wf(),
            model_deprecated(
                *old(self),
                *final(self),
                r,
                model_id@,
                now,
            ),
    {
        let ghost before = *self;
        match self.find_model(model_id) {
            None => Err(refused("published model does not exist")),
            Some(i) => {
                if self.models[i].deprecated_at.is_none() {
                    self.models[i].deprecated_at = Some(now);
                }
                proof {
                    lemma_model_edit_keeps_order(before, *self, i as int);
                }
                Ok(())
            },
        }
    }

    /// Sets the prices of a model.
    pub fn update_published_model_prices(
        &mut self,
        model_id: &str,
        input_price_rmb: &str,
        output_price_rmb: &str,
        cached_input_price_rmb: &str,
    ) -> (r: Result<(), StoreError>)
        requires
            old(self).wf(),
        ensures
            final(self).wf(),
            model_repriced(
                *old(self),
                *final(self),
                r,
                model_id@,
                input_price_rmb@,
                output_price_rmb@,
                cached_input_price_rmb@,
            ),
    {
        let ghost before = *self;
        let (input, output, cached) = match read_prices(
            input_price_rmb,
            output_price_rmb,
            cached_input_price_rmb,
        ) {
            Ok(prices) => prices,
            Err(error) => {
                return Err(error);
            },
        };
        match self.find_model(model_id) {
            None => Err(refused("published model does not exist")),
            Some(i) => {
                self.models[i].input_price_micros = input;
                self.models[i].output_price_micros = output;
                self.models[i].cached_input_price_micros = cached;
                proof {
                    lemma_model_edit_keeps_order(before, *self, i as int);
                }
                Ok(())
            },
        }
    }
}

/// The message for a second route of the same identity.
pub const DUPLICATE_ROUTE_IDENTITY_MESSAGE: &'static str =
    "a model route with this published model, provider, upstream model, and protocol already exists";

/// Why the values of a route are refused.
pub open spec fn route_values_refusal(
    upstream_model_name: Seq<char>,
    protocol: Seq<char>,
    cost_multiplier: Seq<char>,
) -> Option<Refusal> {
    if !fits(trimmed(upstream_model_name), 256) {
        Some(
            at_field(
                "upstream_model_name"@,
                "upstream model name must be between 1 and 256 characters"@,
            ),
        )
    } else if !known_protocol(protocol) {
        Some(at_field("protocol"@, "protocol must be chat_completions or responses"@))
    } else {
        match read_decimal(cost_multiplier) {
            Reading::Millionths(amount) => if amount <= 0 {
                Some(
                    at_field(
                        "cost_multiplier"@,
                        "cost multiplier"@ + " must be greater than zero"@,
                    ),
                )
            } else {
                None
            },
            other => Some(
                at_field("cost_multiplier"@, "cost multiplier"@ + decimal_complaint(other)),
            ),
        }
    }
}

/// Whether a route other than `except` has an identity.
pub open spec fn identity_taken(
    routes: Seq<RouteRow>,
    published_model_id: Seq<char>,
    provider_id: Seq<char>,
    upstream_model_name: Seq<char>,
    protocol: Seq<char>,
    except: Option<Seq<char>>,
) -> bool {
    exists|k: int|
        0 <= k < routes.len() && has_identity(
            #[trigger] routes[k],
            published_model_id,
            provider_id,
            upstream_model_name,
            protocol,
        ) && except != Some(routes[k].id@)
}

/// Whether a route has an identity.
pub open spec fn has_identity(
    route: RouteRow,
    published_model_id: Seq<char>,
    provider_id: Seq<char>,
    upstream_model_name: Seq<char>,
    protocol: Seq<char>,
) -> bool {
    &&& route.published_model_id@ == published_model_id
    &&& route.provider_id@ == provider_id
    &&& route.upstream_model_name@ == upstream_model_name
    &&& route.protocol@ == protocol
}

/// Why a new route is refused.
pub open spec fn new_route_refusal(
    store: Store,
    published_model_id: Seq<char>,
    provider_id: Seq<char>,
    upstream_model_name: Seq<char>,
    protocol: Seq<char>,
    cost_multiplier: Seq<char>,
) -> Option<Refusal> {
    match route_values_refusal(upstream_model_name, protocol, cost_multiplier) {
        Some(refusal) => Some(refusal),
        None => if provider_at(store.providers@, provider_id) is None {
            Some(at_field("provider_id"@, "selected upstream provider does not exist"@))
        } else {
            match model_at(store.models@, published_model_id) {
                None => Some(
                    at_field("published_model_id"@, "selected published model does not exist"@),
                ),
                Some(i) => if store.schema >= 16 && store.models@[i].deprecated_at is Some {
                    Some(
                        at_field(
                            "published_model_id"@,
                            "selected published model is deprecated; choose an active model"@,
                        ),
                    )
                } else if identity_taken(
                    store.routes@,
                    published_model_id,
                    provider_id,
                    trimmed(upstream_model_name),
                    protocol,
                    None,
                ) {
                    Some(plain(DUPLICATE_ROUTE_IDENTITY_MESSAGE@))
                } else {
                    None
                },
            }
        },
    }
}

/// Why an edit of a route is refused.
pub open spec fn route_edit_refusal(
    store: Store,
    route_id: Seq<char>,
    published_model_id: Seq<char>,
    provider_id: Seq<char>,
    upstream_model_name: Seq<char>,
    protocol: Seq<char>,
    cost_multiplier: Seq<char>,
) -> Option<Refusal> {
    match route_values_refusal(upstream_model_name, protocol, cost_multiplier) {
        Some(refusal) => Some(refusal),
        None => if provider_at(store.providers@, provider_id) is None {
            Some(at_field("provider_id"@, "selected upstream provider does not exist"@))
        } else if model_at(store.models@, published_model_id) is None {
            Some(at_field("published_model_id"@, "selected published model does not exist"@))
        } else if route_at(store.routes@, route_id) is None {
            Some(plain("model route does not exist"@))
        } else if identity_taken(
            store.routes@,
            published_model_id,
            provider_id,
            trimmed(upstream_model_name),
            protocol,
            Some(route_id),
        ) {
            Some(plain(DUPLICATE_ROUTE_IDENTITY_MESSAGE@))
        } else {
            None
        },
    }
}

/// Reads the values of a route.
fn check_route_values(upstream_model_name: &str, protocol: &str, cost_multiplier: &str) -> (r: Result<
    (String, i64),
    StoreError,
>)
    ensures
        r matches Ok(values) ==> {
            &&& route_values_refusal(upstream_model_name@, protocol@, cost_multiplier@) is None
            &&& values.0@ == trimmed(upstream_model_name@)
            &&& values.1 == amount_of(cost_multiplier@)
            &&& values.1 > 0
        },
        r matches Err(error) ==> route_values_refusal(
            upstream_model_name@,
            protocol@,
            cost_multiplier@,
        ) == Some(error@),
{
    let name = match validate_upstream_model_name(upstream_model_name) {
        Ok(name) => name,
        Err(error) => {
            return Err(refused_value(error));
        },
    };
    match validate_protocol(protocol) {
        Ok(()) => {},
        Err(error) => {
            return Err(refused_value(error));
        },
    }
    match parse_positive_decimal(cost_multiplier, "cost multiplier", "cost_multiplier") {
        Ok(multiplier) => Ok((name, multiplier)),
        Err(error) => Err(refused_value(error)),
    }
}

/// Whether two configurations differ at most in their routes.
pub open spec fn routes_apart(before: Store, after: Store) -> bool {
    &&& after.schema == before.schema
    &&& after.providers == before.providers
    &&& after.models == before.models
    &&& after.keys == before.keys
    &&& after.settings == before.settings
}

/// What comes of setting up a route.
pub open spec fn route_created(
    before: Store,
    after: Store,
    r: Result<ProbeConfiguration, StoreError>,
    id: String,
    created_at: i64,
    published_model_id: Seq<char>,
    provider_id: Seq<char>,
    upstream_model_name: Seq<char>,
    protocol: Seq<char>,
    cost_multiplier: Seq<char>,
) -> bool {
    match new_route_refusal(
        before,
        published_model_id,
        provider_id,
        upstream_model_name,
        protocol,
        cost_multiplier,
    ) {
        Some(refusal) => r is Err && r->Err_0@ == refusal && after == before,
        None => {
            let added = after.routes@.last();
            let provider = before.providers@[provider_at(
                before.providers@,
                provider_id,
            )->0];
            &&& r is Ok
            &&& routes_apart(before, after)
            &&& after.routes@ == before.routes@.push(added)
            &&& added.id == id
            &&& has_identity(
                added,
                published_model_id,
                provider_id,
                trimmed(upstream_model_name),
                protocol,
            )
            &&& added.cost_multiplier_micros == amount_of(cost_multiplier)
            &&& added.created_at == created_at
            &&& added.health@ == unchecked()
            &&& r->Ok_0 == probe_of(before.schema as int, added, provider)
        },
    }
}

/// What comes of editing a route.
pub open spec fn route_updated(
    before: Store,
    after: Store,
    r: Result<Option<ProbeConfiguration>, StoreError>,
    route_id: Seq<char>,
    published_model_id: Seq<char>,
    provider_id: Seq<char>,
    upstream_model_name: Seq<char>,
    protocol: Seq<char>,
    cost_multiplier: Seq<char>,
) -> bool {
    match route_edit_refusal(
        before,
        route_id,
        published_model_id,
        provider_id,
        upstream_model_name,
        protocol,
        cost_multiplier,
    ) {
        Some(refusal) => r is Err && r->Err_0@ == refusal && after == before,
        None => {
            let i = route_at(before.routes@, route_id)->0;
            let (was, is) = (before.routes@[i], after.routes@[i]);
            let provider = before.providers@[provider_at(
                before.providers@,
                provider_id,
            )->0];
            let recheck = needs_check(
                was,
                provider_id,
                trimmed(upstream_model_name),
                protocol,
            );
            &&& r is Ok
            &&& routes_apart(before, after)
            &&& after.routes@ == before.routes@.update(i, is)
            &&& is.id == was.id
            &&& has_identity(
                is,
                published_model_id,
                provider_id,
                trimmed(upstream_model_name),
                protocol,
            )
            &&& is.cost_multiplier_micros == amount_of(cost_multiplier)
            &&& is.created_at == was.created_at
            &&& is.health@ == if recheck {
                rechecking(before.schema as int, was.health@)
            } else {
                was.health@
            }
            &&& r->Ok_0 == if recheck {
                Some(probe_of(before.schema as int, is, provider))
            } else {
                None
            }
        },
    }
}

impl Store {
    /// Whether a route other than `except` has an identity.
    pub fn route_identity_conflict(
        &self,
        published_model_id: &str,
        provider_id: &str,
        upstream_model_name: &str,
        protocol: &str,
        except: Option<&str>,
    ) -> (r: bool)
        ensures
            r == identity_taken(
                self.routes@,
                published_model_id@,
                provider_id@,
                upstream_model_name@,
                protocol@,
                match except {
                    Some(id) => Some(id@),
                    None => None,
                },
            ),
    {
        let ghost but = match except {
            Some(id) => Some(id@),
            None => None,
        };
        for i in 0..self.routes.len()
            invariant
                but == (match except {
                    Some(id) => Some(id@),
                    None => None,
                }),
                forall|k: int|
                    0 <= k < i ==> !(has_identity(
                        #[trigger] self.routes@[k],
                        published_model_id@,
                        provider_id@,
                        upstream_model_name@,
                        protocol@,
                    ) && but != Some(self.routes@[k].id@)),
        {
            let route = &self.routes[i];
            let own = match except {
                Some(id) => same_text(route.id.as_str(), id),
                None => false,
            };
            if !own && same_text(route.published_model_id.as_str(), published_model_id)
                && same_text(route.provider_id.as_str(), provider_id) && same_text(
                route.upstream_model_name.as_str(),
                upstream_model_name,
            ) && same_text(route.protocol.as_str(), protocol) {
                return true;
            }
        }
        false
    }

    /// Sets up a route under a new id; it is being checked.
    pub fn create_model_route(
        &mut self,
        id: String,
        created_at: i64,
        published_model_id: &str,
        provider_id: &str,
        upstream_model_name: &str,
        protocol: &str,
        cost_multiplier: &str,
    ) -> (r: Result<ProbeConfiguration, StoreError>)
        requires
            old(self).wf(),
            route_at(old(self).routes@, id@) is None,
        ensures
            final(self).wf(),
            route_created(
                *old(self),
                *final(self),
                r,
                id,
                created_at,
                published_model_id@,
                provider_id@,
                upstream_model_name@,
                protocol@,
                cost_multiplier@,
            ),
    {
        let ghost before = *self;
        let (name, multiplier) = match check_route_values(
            upstream_model_name,
            protocol,
            cost_multiplier,
        ) {
            Ok(values) => values,
            Err(error) => {
                return Err(error);
            },
        };
        let p: usize = match self.find_provider(provider_id) {
            Some(p) => p,
            None => {
                return Err(
                    refused_at("provider_id", "selected upstream provider does not exist"),
                );
            },
        };
        match self.find_model(published_model_id) {
            None => {
                return Err(
                    refused_at("published_model_id", "selected published model does not exist"),
                );
            },
            Some(m) => {
                if self.schema >= 16 && self.models[m].deprecated_at.is_some() {
                    return Err(
                        refused_at(
                            "published_model_id",
                            "selected published model is deprecated; choose an active model",
                        ),
                    );
                }
            },
        }
        if self.route_identity_conflict(
            published_model_id,
            provider_id,
            name.as_str(),
            protocol,
            None,
        ) {
            return Err(refused(DUPLICATE_ROUTE_IDENTITY_MESSAGE));
        }
        let row = RouteRow {
            id,
            published_model_id: published_model_id.to_owned(),
            provider_id: provider_id.to_owned(),
            upstream_model_name: name,
            protocol: protocol.to_owned(),
            cost_multiplier_micros: multiplier,
            created_at,
            health: HealthRow::unchecked(),
        };
        let ghost added = row;
        let last: usize = self.routes.len();
        self.routes.push(row);
        proof {
            lemma_route_added(before, *self, added);
        }
        Ok(self.probe_at(last, p))
    }

    /// Edits a route. Where its provider, upstream model or protocol changed,
    /// it goes back to being checked, and the answer says what its probe
    /// needs.
    pub fn update_model_route(
        &mut self,
        route_id: &str,
        published_model_id: &str,
        provider_id: &str,
        upstream_model_name: &str,
        protocol: &str,
        cost_multiplier: &str,
    ) -> (r: Result<Option<ProbeConfiguration>, StoreError>)
        requires
            old(self).wf(),
        ensures
            final(self).wf(),
            route_updated(
                *old(self),
                *final(self),
                r,
                route_id@,
                published_model_id@,
                provider_id@,
                upstream_model_name@,
                protocol@,
                cost_multiplier@,
            ),
    {
        let ghost before = *self;
        let (name, multiplier) = match check_route_values(
            upstream_model_name,
            protocol,
            cost_multiplier,
        ) {
            Ok(values) => values,
            Err(error) => {
                return Err(error);
            },
        };
        let p: usize = match self.find_provider(provider_id) {
            Some(p) => p,
            None => {
                return Err(
                    refused_at("provider_id", "selected upstream provider does not exist"),
                );
            },
        };
        if self.find_model(published_model_id).is_none() {
            return Err(
                refused_at("published_model_id", "selected published model does not exist"),
            );
        }
        let i: usize = match self.find_route(route_id) {
            Some(i) => i,
            None => {
                return Err(refused("model route does not exist"));
            },
        };
        if self.route_identity_conflict(
            published_model_id,
            provider_id,
            name.as_str(),
            protocol,
            Some(route_id),
        ) {
            return Err(refused(DUPLICATE_ROUTE_IDENTITY_MESSAGE));
        }
        let recheck = !same_text(self.routes[i].provider_id.as_str(), provider_id) || !same_text(
            self.routes[i].upstream_model_name.as_str(),
            name.as_str(),
        ) || !same_text(self.routes[i].protocol.as_str(), protocol);
        let schema: i64 = self.schema;
        self.routes[i].published_model_id = published_model_id.to_owned();
        self.routes[i].provider_id = provider_id.to_owned();
        self.routes[i].upstream_model_name = name;
        self.routes[i].protocol = protocol.to_owned();
        self.routes[i].cost_multiplier_micros = multiplier;
        if recheck {
            self.routes[i].health.recheck(schema);
        }
        proof {
            assert(self.routes@ =~= before.routes@.update(i as int, self.routes@[i as int]));
            lemma_route_edited(before, *self, i as int);
        }
        if recheck {
            Ok(Some(self.probe_at(i, p)))
        } else {
            Ok(None)
        }
    }
}

/// Whether an edit changes what a route calls.
pub open spec fn needs_check(
    route: RouteRow,
    provider_id: Seq<char>,
    upstream_model_name: Seq<char>,
    protocol: Seq<char>,
) -> bool {
    route.provider_id@ != provider_id || route.upstream_model_name@ != upstream_model_name
        || route.protocol@ != protocol
}

/// A new route keeps the configuration in order.
proof fn lemma_route_added(before: Store, after: Store, added: RouteRow)
    requires
        before.wf(),
        routes_apart(before, after),
        after.routes@ == before.routes@.push(added),
        route_at(before.routes@, added.id@) is None,
        route_ok(before, added),
        !identity_taken(
            before.routes@,
            added.published_model_id@,
            added.provider_id@,
            added.upstream_model_name@,
            added.protocol@,
            None,
        ),
    ensures
        after.wf(),
{
    lemma_find(before.routes@, route_with(added.id@));
    assert forall|i: int, j: int| 0 <= i < j < after.routes@.len() implies (
    #[trigger] after.routes@[i]).id@ != (#[trigger] after.routes@[j]).id@ && !same_identity(
        after.routes@[i],
        after.routes@[j],
    ) by {
        assert(after.routes@[i] == before.routes@[i]);
        if j < before.routes@.len() {
            assert(after.routes@[j] == before.routes@[j]);
            assert(before.routes@[i].id@ != before.routes@[j].id@);
        } else {
            assert(!(route_with(added.id@))(before.routes@[i]));
            assert(!has_identity(
                before.routes@[i],
                added.published_model_id@,
                added.provider_id@,
                added.upstream_model_name@,
                added.protocol@,
            ));
        }
    }
    assert forall|i: int| 0 <= i < after.routes@.len() implies route_ok(
        after,
        #[trigger] after.routes@[i],
    ) by {
        if i < before.routes@.len() {
            assert(route_ok(before, before.routes@[i]));
        }
    }
    assert forall|i: int| 0 <= i < after.keys@.len() implies key_ok(
        after,
        #[trigger] after.keys@[i],
    ) by {
        let key = after.keys@[i];
        assert(key_ok(before, before.keys@[i]));
        assert forall|n: int| 0 <= n < key.model_route_ids@.len() implies route_at(
            after.routes@,
            (#[trigger] key.model_route_ids@[n])@,
        ) is Some by {
            lemma_find_push(before.routes@, added, route_with(key.model_route_ids@[n]@));
        }
    }
}

/// An edited route keeps the configuration in order.
proof fn lemma_route_edited(before: Store, after: Store, i: int)
    requires
        before.wf(),
        routes_apart(before, after),
        0 <= i < before.routes@.len(),
        after.routes@ == before.routes@.update(i, after.routes@[i]),
        after.routes@[i].id == before.routes@[i].id,
        route_ok(before, after.routes@[i]),
        !identity_taken(
            before.routes@,
            after.routes@[i].published_model_id@,
            after.routes@[i].provider_id@,
            after.routes@[i].upstream_model_name@,
            after.routes@[i].protocol@,
            Some(before.routes@[i].id@),
        ),
    ensures
        after.wf(),
{
    let row = after.routes@[i];
    assert forall|k: int| 0 <= k < before.routes@.len() && k != i implies !same_identity(
        #[trigger] before.routes@[k],
        row,
    ) && before.routes@[k].id@ != row.id@ by {
        if k < i {
            assert(before.routes@[k].id@ != before.routes@[i].id@);
        } else {
            assert(before.routes@[i].id@ != before.routes@[k].id@);
        }
        assert(!has_identity(
            before.routes@[k],
            row.published_model_id@,
            row.provider_id@,
            row.upstream_model_name@,
            row.protocol@,
        ));
    }
    assert forall|a: int, b: int| 0 <= a < b < after.routes@.len() implies (
    #[trigger] after.routes@[a]).id@ != (#[trigger] after.routes@[b]).id@ && !same_identity(
        after.routes@[a],
        after.routes@[b],
    ) by {
        if a != i && b != i {
            assert(before.routes@[a].id@ != before.routes@[b].id@);
        } else if a == i {
            assert(!same_identity(before.routes@[b], row));
        } else {
            assert(!same_identity(before.routes@[a], row));
        }
    }
    assert forall|k: int| 0 <= k < after.routes@.len() implies route_ok(
        after,
        #[trigger] after.routes@[k],
    ) by {
        if k != i {
            assert(route_ok(before, before.routes@[k]));
        }
    }
    assert forall|k: int| 0 <= k < after.keys@.len() implies key_ok(
        after,
        #[trigger] after.keys@[k],
    ) by {
        let key = after.keys@[k];
        assert(key_ok(before, before.keys@[k]));
        assert forall|n: int| 0 <= n < key.model_route_ids@.len() implies route_at(
            after.routes@,
            (#[trigger] key.model_route_ids@[n])@,
        ) is Some by {
            let wanted = route_with(key.model_route_ids@[n]@);
            assert forall|q: int| 0 <= q < after.routes@.len() implies wanted(
                #[trigger] after.routes@[q],
            ) == wanted(before.routes@[q]) by {}
            lemma_find_agrees(after.routes@, before.routes@, wanted);
        }
    }
}

impl Store {
    /// An installation without providers, routes and keys: the models that are
    /// published from the start, and the default settings.
    pub fn fresh(schema: i64) -> (r: Self)
        ensures
            r.wf(),
            r.schema == schema,
            r.providers@.len() == 0,
            r.routes@.len() == 0,
            r.keys@.len() == 0,
            r.settings == crate::recovery::default_settings(),
            r.models@.len() == 3,
            is_seed(r.models@[0], "gpt-5.6-sol"@, 5_000_000, 30_000_000, 500_000),
            is_seed(r.models@[1], "gpt-5.6-terra"@, 2_000_000, 12_000_000, 200_000),
            is_seed(r.models@[2], "deepseek-v4-flash"@, 1_000_000, 2_000_000, 20_000),
    {
        let models = seed_published_models();
        Store {
            schema,
            providers: Vec::new(),
            models,
            routes: Vec::new(),
            keys: Vec::new(),
            settings: RecoverySettings::default(),
        }
    }

    /// Whether the configuration is in order.
    pub fn is_consistent(&self) -> (r: bool)
        ensures
            r == self.wf(),
    {
        self.ids_apart() && self.references_hold() && crate::recovery::check_settings(
            &self.settings,
        ).is_ok()
    }

    /// Whether nothing has the id of another, no route the identity of another,
    /// and every model's name is its id.
    fn ids_apart(&self) -> (r: bool)
        ensures
            r == ids_are_apart(*self),
    {
        for i in 0..self.providers.len()
            invariant
                forall|a: int, b: int|
                    0 <= a < b < i ==> (#[trigger] self.providers@[a]).id@ != (
                    #[trigger] self.providers@[b]).id@,
        {
            for j in 0..i
                invariant
                    i < self.providers@.len(),
                    forall|a: int|
                        0 <= a < j ==> (#[trigger] self.providers@[a]).id@
                            != self.providers@[i as int].id@,
            {
                if same_text(self.providers[j].id.as_str(), self.providers[i].id.as_str()) {
                    return false;
                }
            }
        }
        for i in 0..self.models.len()
            invariant
                forall|a: int, b: int|
                    0 <= a < b < i ==> (#[trigger] self.models@[a]).id@ != (
                    #[trigger] self.models@[b]).id@,
                forall|a: int|
                    0 <= a < i ==> (#[trigger] self.models@[a]).name@ == self.models@[a].id@,
        {
            if !same_text(self.models[i].name.as_str(), self.models[i].id.as_str()) {
                return false;
            }
            for j in 0..i
                invariant
                    i < self.models@.len(),
                    forall|a: int|
                        0 <= a < j ==> (#[trigger] self.models@[a]).id@
                            != self.models@[i as int].id@,
            {
                if same_text(self.models[j].id.as_str(), self.models[i].id.as_str()) {
                    return false;
                }
            }
        }
        for i in 0..self.routes.len()
            invariant
                forall|a: int, b: int|
                    0 <= a < b < i ==> (#[trigger] self.routes@[a]).id@ != (
                    #[trigger] self.routes@[b]).id@ && !same_identity(
                        self.routes@[a],
                        self.routes@[b],
                    ),
        {
            for j in 0..i
                invariant
                    i < self.routes@.len(),
                    forall|a: int|
                        0 <= a < j ==> (#[trigger] self.routes@[a]).id@
                            != self.routes@[i as int].id@ && !same_identity(
                            self.routes@[a],
                            self.routes@[i as int],
                        ),
            {
                let (one, other) = (&self.routes[j], &self.routes[i]);
                if same_text(one.id.as_str(), other.id.as_str()) || (same_text(
                    one.published_model_id.as_str(),
                    other.published_model_id.as_str(),
                ) && same_text(one.provider_id.as_str(), other.provider_id.as_str()) && same_text(
                    one.upstream_model_name.as_str(),
                    other.upstream_model_name.as_str(),
                ) && same_text(one.protocol.as_str(), other.protocol.as_str())) {
                    return false;
                }
            }
        }
        for i in 0..self.keys.len()
            invariant
                forall|a: int, b: int|
                    0 <= a < b < i ==> (#[trigger] self.keys@[a]).id@ != (
                    #[trigger] self.keys@[b]).id@,
        {
            for j in 0..i
                invariant
                    i < self.keys@.len(),
                    forall|a: int|
                        0 <= a < j ==> (#[trigger] self.keys@[a]).id@ != self.keys@[i as int].id@,
            {
                if same_text(self.keys[j].id.as_str(), self.keys[i].id.as_str()) {
                    return false;
                }
            }
        }
        true
    }

    /// Whether what routes and keys refer to is there.
    fn references_hold(&self) -> (r: bool)
        ensures
            r == references_are_held(*self),
    {
        for i in 0..self.routes.len()
            invariant
                forall|k: int| 0 <= k < i ==> route_ok(*self, #[trigger] self.routes@[k]),
        {
            let route = &self.routes[i];
            if self.find_provider(route.provider_id.as_str()).is_none() || self.find_model(
                route.published_model_id.as_str(),
            ).is_none() || validate_protocol(route.protocol.as_str()).is_err()
                || route.cost_multiplier_micros <= 0 {
                proof {
                    assert(!route_ok(*self, self.routes@[i as int]));
                }
                return false;
            }
        }
        for i in 0..self.keys.len()
            invariant
                forall|k: int| 0 <= k < i ==> key_ok(*self, #[trigger] self.keys@[k]),
        {
            let key = &self.keys[i];
            if key.model_route_ids.len() == 0 || !no_repeats(&key.model_route_ids) {
                proof {
                    assert(!key_ok(*self, self.keys@[i as int]));
                }
                return false;
            }
            for n in 0..key.model_route_ids.len()
                invariant
                    i < self.keys@.len(),
                    *key == self.keys@[i as int],
                    forall|k: int|
                        0 <= k < n ==> route_at(
                            self.routes@,
                            (#[trigger] key.model_route_ids@[k])@,
                        ) is Some,
            {
                if self.find_route(key.model_route_ids[n].as_str()).is_none() {
                    proof {
                        assert(route_at(self.routes@, key.model_route_ids@[n as int]@) is None);
                        assert(!key_ok(*self, self.keys@[i as int]));
                    }
                    return false;
                }
            }
        }
        true
    }
}

/// Whether nothing has the id of another, no route the identity of another,
/// and every model's name is its id.
spec fn ids_are_apart(store: Store) -> bool {
    &&& forall|i: int, j: int|
        0 <= i < j < store.providers@.len() ==> (#[trigger] store.providers@[i]).id@ != (
        #[trigger] store.providers@[j]).id@
    &&& forall|i: int, j: int|
        0 <= i < j < store.models@.len() ==> (#[trigger] store.models@[i]).id@ != (
        #[trigger] store.models@[j]).id@
    &&& forall|i: int|
        0 <= i < store.models@.len() ==> (#[trigger] store.models@[i]).name@
            == store.models@[i].id@
    &&& forall|i: int, j: int|
        0 <= i < j < store.routes@.len() ==> (#[trigger] store.routes@[i]).id@ != (
        #[trigger] store.routes@[j]).id@ && !same_identity(store.routes@[i], store.routes@[j])
    &&& forall|i: int, j: int|
        0 <= i < j < store.keys@.len() ==> (#[trigger] store.keys@[i]).id@ != (
        #[trigger] store.keys@[j]).id@
}

/// Whether what routes and keys refer to is there.
spec fn references_are_held(store: Store) -> bool {
    &&& forall|i: int| 0 <= i < store.routes@.len() ==> route_ok(store, #[trigger] store.routes@[i])
    &&& forall|i: int| 0 <= i < store.keys@.len() ==> key_ok(store, #[trigger] store.keys@[i])
}

/// Whether a model is one that is published from the start.
pub open spec fn is_seed(model: ModelRow, name: Seq<char>, input: i64, output: i64, cached: i64) -> bool {
    &&& model.id@ == name
    &&& model.name@ == name
    &&& model.input_price_micros == input
    &&& model.output_price_micros == output
    &&& model.cached_input_price_micros == cached
    &&& model.deprecated_at is None
}

/// A model that is published from the start.
fn seed(name: &str, input: i64, output: i64, cached: i64) -> (r: ModelRow)
    ensures
        is_seed(r, name@, input, output, cached),
{
    ModelRow {
        id: name.to_owned(),
        name: name.to_owned(),
        input_price_micros: input,
        output_price_micros: output,
        cached_input_price_micros: cached,
        deprecated_at: None,
    }
}

/// The models that are published from the start.
pub fn seed_published_models() -> (r: Vec<ModelRow>)
    ensures
        r@.len() == 3,
        is_seed(r@[0], "gpt-5.6-sol"@, 5_000_000, 30_000_000, 500_000),
        is_seed(r@[1], "gpt-5.6-terra"@, 2_000_000, 12_000_000, 200_000),
        is_seed(r@[2], "deepseek-v4-flash"@, 1_000_000, 2_000_000, 20_000),
        forall|i: int, j: int|
            0 <= i < j < r@.len() ==> (#[trigger] r@[i]).id@ != (#[trigger] r@[j]).id@,
{
    let mut models: Vec<ModelRow> = Vec::new();
    models.push(seed("gpt-5.6-sol", 5_000_000, 30_000_000, 500_000));
    models.push(seed("gpt-5.6-terra", 2_000_000, 12_000_000, 200_000));
    models.push(seed("deepseek-v4-flash", 1_000_000, 2_000_000, 20_000));
    proof {
        reveal_strlit("gpt-5.6-sol");
        reveal_strlit("gpt-5.6-terra");
        reveal_strlit("deepseek-v4-flash");
        assert("gpt-5.6-sol"@.len() == 11 && "gpt-5.6-terra"@.len() == 13
            && "deepseek-v4-flash"@.len() == 17);
    }
    models
}

/// All routes can be selected, or those that are available, those that are
/// unavailable and whose next probe is due, or those of a provider.
pub proof fn law_routes_are_selected(
    route: RouteRow,
    now_ms: i64,
    provider_id: String,
)
    ensures
        selects(ProbeSelection::All, route),
        selects(ProbeSelection::Available, route) <==> route.health.state
            == RouteHealth::Available,
        route.health.state == RouteHealth::Unavailable && (
        route.health.next_probe_at_ms matches Some(next) && next <= now_ms) ==> selects(
            ProbeSelection::Due(now_ms),
            route,
        ),
        selects(ProbeSelection::Due(now_ms), route) ==> route.health.state
            == RouteHealth::Unavailable && (route.health.next_probe_at_ms matches Some(next) && next
            <= now_ms),
        selects(ProbeSelection::OfProvider(provider_id), route) <==> route.provider_id@
            == provider_id@,
{
}

/// A probe asks for the route's upstream model in the route's protocol, at the
/// base URL and with the key of the provider; it carries the quarantine epoch
/// where quarantines are counted.
pub proof fn law_probes_ask_through_the_provider(
    schema: int,
    route: RouteRow,
    provider: ProviderRow,
)
    ensures
        ({
            let probe = probe_of(schema, route, provider);
            &&& probe.route_id@ == route.id@
            &&& probe.provider_id@ == provider.id@
            &&& probe.base_url@ == provider.base_url@
            &&& probe.api_key@ == provider.api_key@
            &&& probe.upstream_model_name@ == route.upstream_model_name@
            &&& probe.protocol@ == route.protocol@
            &&& schema >= 14 ==> probe.quarantine_epoch == route.health.quarantine_epoch
            &&& schema < 14 ==> probe.quarantine_epoch == 0
        }),
{
}

proof fn lemma_probes_upto(store: Store, selection: ProbeSelection, n: int, i: int, j: int)
    requires
        0 <= i < n <= store.routes@.len(),
        selects(selection, store.routes@[i]),
        provider_at(store.providers@, store.routes@[i].provider_id@) == Some(j),
    ensures
        probes_upto(store, selection, n).contains(
            PlacedProbe {
                place: probe_place(selection, store.routes@[i]),
                probe: probe_of(store.schema as int, store.routes@[i], store.providers@[j]),
            },
        ),
    decreases n,
{
    let before = probes_upto(store, selection, n - 1);
    let now = probes_upto(store, selection, n);
    let placed = PlacedProbe {
        place: probe_place(selection, store.routes@[i]),
        probe: probe_of(store.schema as int, store.routes@[i], store.providers@[j]),
    };
    if i < n - 1 {
        lemma_probes_upto(store, selection, n - 1, i, j);
        let k = choose|k: int| 0 <= k < before.len() && before[k] == placed;
        assert(now[k] == placed);
    } else {
        assert(now[before.len() as int] == placed);
    }
}

proof fn lemma_probes_from(store: Store, selection: ProbeSelection, n: int, k: int) -> (r: (int, int))
    requires
        0 <= n <= store.routes@.len(),
        0 <= k < probes_upto(store, selection, n).len(),
    ensures
        0 <= r.0 < n,
        selects(selection, store.routes@[r.0]),
        0 <= r.1 < store.providers@.len(),
        store.providers@[r.1].id@ == store.routes@[r.0].provider_id@,
        probes_upto(store, selection, n)[k] == (PlacedProbe {
            place: probe_place(selection, store.routes@[r.0]),
            probe: probe_of(store.schema as int, store.routes@[r.0], store.providers@[r.1]),
        }),
    decreases n,
{
    let before = probes_upto(store, selection, n - 1);
    if k < before.len() {
        assert(probes_upto(store, selection, n)[k] == before[k]);
        lemma_probes_from(store, selection, n - 1, k)
    } else {
        let route = store.routes@[n - 1];
        lemma_find(store.providers@, provider_with(route.provider_id@));
        (n - 1, provider_at(store.providers@, route.provider_id@)->0)
    }
}

/// Every selected route whose provider is there is probed, through that
/// provider.
pub proof fn law_selected_routes_are_probed(store: Store, selection: ProbeSelection, i: int, j: int)
    requires
        0 <= i < store.routes@.len(),
        0 <= j < store.providers@.len(),
        store.providers@[j].id@ == store.routes@[i].provider_id@,
        forall|k: int| 0 <= k < j ==> (#[trigger] store.providers@[k]).id@ != store.providers@[j].id@,
        selects(selection, store.routes@[i]),
    ensures
        exists|k: int|
            0 <= k < probe_list(store, selection).len() && {
                let probe = #[trigger] probe_list(store, selection)[k];
                &&& probe.route_id@ == store.routes@[i].id@
                &&& probe.provider_id@ == store.providers@[j].id@
                &&& probe.base_url@ == store.providers@[j].base_url@
                &&& probe.api_key@ == store.providers@[j].api_key@
                &&& probe.upstream_model_name@ == store.routes@[i].upstream_model_name@
                &&& probe.protocol@ == store.routes@[i].protocol@
            },
{
    lemma_found(store.providers@, provider_with(store.routes@[i].provider_id@), j);
    let n = store.routes@.len() as int;
    lemma_probes_upto(store, selection, n, i, j);
    let found = probes_upto(store, selection, n);
    lemma_ranked(found);
    let placed = PlacedProbe {
        place: probe_place(selection, store.routes@[i]),
        probe: probe_of(store.schema as int, store.routes@[i], store.providers@[j]),
    };
    assert(ranked(found).contains(placed));
    let k = choose|k: int| 0 <= k < ranked(found).len() && ranked(found)[k] == placed;
    assert(probe_list(store, selection)[k] == placed.probe);
}

/// Every probe is that of a selected route, through its provider; the probes
/// stand by their routes' ids, those that are due by the time they are due
/// before that.
pub proof fn law_probed_routes_are_selected(store: Store, selection: ProbeSelection, k: int) -> (r: (
    int,
    int,
))
    requires
        0 <= k < probe_list(store, selection).len(),
    ensures
        0 <= r.0 < store.routes@.len(),
        0 <= r.1 < store.providers@.len(),
        selects(selection, store.routes@[r.0]),
        store.providers@[r.1].id@ == store.routes@[r.0].provider_id@,
        probe_list(store, selection)[k] == probe_of(
            store.schema as int,
            store.routes@[r.0],
            store.providers@[r.1],
        ),
        !(selection is Due) ==> forall|m: int|
            k <= m < probe_list(store, selection).len() ==> text_le(
                probe_list(store, selection)[k].route_id@,
                (#[trigger] probe_list(store, selection)[m]).route_id@,
            ),
{
    let n = store.routes@.len() as int;
    let found = probes_upto(store, selection, n);
    lemma_ranked(found);
    let order = ranked(found);
    assert(order.contains(order[k]));
    let f = choose|f: int| 0 <= f < found.len() && found[f] == order[k];
    let r = lemma_probes_from(store, selection, n, f);
    if !(selection is Due) {
        assert forall|m: int| k <= m < probe_list(store, selection).len() implies text_le(
            probe_list(store, selection)[k].route_id@,
            (#[trigger] probe_list(store, selection)[m]).route_id@,
        ) by {
            assert(order.contains(order[m]));
            let g = choose|g: int| 0 <= g < found.len() && found[g] == order[m];
            let q = lemma_probes_from(store, selection, n, g);
            assert(order[k].rank_le(order[m]));
        }
    }
    r
}

/// Probes that are due are asked in the order in which they fell due.
pub proof fn law_due_probes_come_by_time(
    store: Store,
    now_ms: i64,
    a: int,
    b: int,
    k: int,
    m: int,
)
    requires
        0 <= k < m < ranked(
            probes_upto(store, ProbeSelection::Due(now_ms), store.routes@.len() as int),
        ).len(),
        0 <= a < store.routes@.len(),
        0 <= b < store.routes@.len(),
        store.routes@[a].health.next_probe_at_ms is Some,
        store.routes@[b].health.next_probe_at_ms is Some,
        ranked(probes_upto(store, ProbeSelection::Due(now_ms), store.routes@.len() as int))[k].place
            == probe_place(ProbeSelection::Due(now_ms), store.routes@[a]),
        ranked(probes_upto(store, ProbeSelection::Due(now_ms), store.routes@.len() as int))[m].place
            == probe_place(ProbeSelection::Due(now_ms), store.routes@[b]),
    ensures
        store.routes@[a].health.next_probe_at_ms->0 <= store.routes@[b].health.next_probe_at_ms->0,
{
    let order = ranked(
        probes_upto(store, ProbeSelection::Due(now_ms), store.routes@.len() as int),
    );
    lemma_ranked(probes_upto(store, ProbeSelection::Due(now_ms), store.routes@.len() as int));
    assert(order[k].rank_le(order[m]));
}

/// A provider is accepted where its name takes 1 to 128 bytes, its base URL is
/// without complaint and its key takes 1 to 8192 bytes; what is refused is laid
/// to the first field that is wrong.
pub proof fn law_providers_are_accepted(
    display_name: Seq<char>,
    base_url: Seq<char>,
    api_key: Seq<char>,
)
    ensures
        ({
            let name_ok = trimmed(display_name).len() > 0 && encode_utf8(
                trimmed(display_name),
            ).len() <= 128;
            let complaint = base_url_complaint(parsed_url(kept_base_url(base_url)));
            let key_ok = trimmed(api_key).len() > 0 && encode_utf8(trimmed(api_key)).len() <= 8192;
            let refusal = provider_refusal(display_name, base_url, api_key);
            &&& name_ok && complaint is None && key_ok <==> refusal is None
            &&& !name_ok ==> refusal->0.field == Some("display_name"@)
            &&& name_ok && complaint is Some ==> refusal->0.field == Some("base_url"@)
                && refusal->0.message == complaint->0
            &&& name_ok && complaint is None && !key_ok ==> refusal->0.field == Some("api_key"@)
        }),
{
}

/// A refused provider changes nothing; an accepted one comes last, with its
/// name, base URL and key as they are kept, and its key is not shown.
pub proof fn law_created_providers_are_kept(
    before: Store,
    after: Store,
    r: Result<ProviderSummary, StoreError>,
    id: String,
    created_at: i64,
    display_name: Seq<char>,
    base_url: Seq<char>,
    api_key: Seq<char>,
)
    requires
        provider_created(before, after, r, id, created_at, display_name, base_url, api_key),
    ensures
        r is Err ==> after == before,
        r is Err <==> provider_refusal(display_name, base_url, api_key) is Some,
        r matches Ok(summary) ==> {
            let added = after.providers@.last();
            &&& after.providers@.drop_last() == before.providers@
            &&& after.providers@.len() == before.providers@.len() + 1
            &&& added.id@ == id@ && summary.id@ == id@
            &&& added.display_name@ == trimmed(display_name) && summary.display_name@ == trimmed(
                display_name,
            )
            &&& added.base_url@ == kept_base_url(base_url)
            &&& added.api_key@ == trimmed(api_key)
            &&& added.created_at == created_at
            &&& summary.api_key_masked@ == "********"@
            &&& after.models == before.models
            &&& after.routes == before.routes
            &&& after.keys == before.keys
            &&& after.settings == before.settings
            &&& after.schema == before.schema
        },
{
    if r is Ok {
        assert(after.providers@.drop_last() =~= before.providers@);
    }
}

/// A new connection sends the provider's routes back to being checked and has
/// them probed; the routes of other providers keep their health.
pub proof fn law_a_new_connection_is_checked(
    before: Store,
    after: Store,
    r: Result<Vec<ProbeConfiguration>, StoreError>,
    display_name: Seq<char>,
    base_url: Seq<char>,
    api_key: Seq<char>,
    i: int,
    k: int,
)
    requires
        before.wf(),
        0 <= i < before.providers@.len(),
        0 <= k < before.routes@.len(),
        provider_refusal(display_name, base_url, api_key) is None,
        provider_updated(
            before,
            after,
            r,
            before.providers@[i].id@,
            display_name,
            base_url,
            api_key,
        ),
        kept_base_url(base_url) != before.providers@[i].base_url@ || trimmed(api_key)
            != before.providers@[i].api_key@,
    ensures
        r matches Ok(probes) && {
            &&& after.providers@[i].display_name@ == trimmed(display_name)
            &&& after.providers@[i].base_url@ == kept_base_url(base_url)
            &&& after.providers@[i].api_key@ == trimmed(api_key)
            &&& before.routes@[k].provider_id@ == before.providers@[i].id@ ==> {
                &&& after.routes@[k].health@.state == RouteHealth::Checking
                &&& after.routes@[k].health@.failed_probe_count == 0
                &&& after.routes@[k].health@.next_probe_at_ms is None
                &&& after.routes@[k].id == before.routes@[k].id
            }
            &&& before.routes@[k].provider_id@ != before.providers@[i].id@ ==> after.routes@[k].health@
                == before.routes@[k].health@
            &&& probes@ == probe_list(
                after,
                ProbeSelection::OfProvider(before.providers@[i].id),
            )
        },
{
    assert forall|q: int| 0 <= q < i implies !(provider_with(before.providers@[i].id@))(
        #[trigger] before.providers@[q],
    ) by {
        assert(before.providers@[q].id@ != before.providers@[i].id@);
    }
    lemma_found(before.providers@, provider_with(before.providers@[i].id@), i);
    assert(after.routes@.len() == before.routes@.len());
    assert(health_apart(before.routes@[k], after.routes@[k]));
}

/// An edit that keeps the connection leaves every route as it is and probes
/// none; other providers stay as they are in any case.
pub proof fn law_a_kept_connection_is_not_checked(
    before: Store,
    after: Store,
    r: Result<Vec<ProbeConfiguration>, StoreError>,
    display_name: Seq<char>,
    base_url: Seq<char>,
    api_key: Seq<char>,
    i: int,
    k: int,
)
    requires
        before.wf(),
        0 <= i < before.providers@.len(),
        0 <= k < before.providers@.len(),
        provider_refusal(display_name, base_url, api_key) is None,
        provider_updated(
            before,
            after,
            r,
            before.providers@[i].id@,
            display_name,
            base_url,
            api_key,
        ),
    ensures
        r is Ok,
        k != i ==> after.providers@[k] == before.providers@[k],
        after.providers@[i].id == before.providers@[i].id,
        after.providers@[i].created_at == before.providers@[i].created_at,
        after.models == before.models && after.keys == before.keys && after.settings
            == before.settings,
        kept_base_url(base_url) == before.providers@[i].base_url@ && trimmed(api_key)
            == before.providers@[i].api_key@ ==> {
            &&& after.routes == before.routes
            &&& r->Ok_0@.len() == 0
            &&& after.providers@[i].display_name@ == trimmed(display_name)
        },
{
    assert forall|q: int| 0 <= q < i implies !(provider_with(before.providers@[i].id@))(
        #[trigger] before.providers@[q],
    ) by {
        assert(before.providers@[q].id@ != before.providers@[i].id@);
    }
    lemma_found(before.providers@, provider_with(before.providers@[i].id@), i);
}

/// The edit of a provider that is not there is refused, and so is one with a
/// value that is refused; neither changes anything.
pub proof fn law_refused_provider_edits_change_nothing(
    before: Store,
    after: Store,
    r: Result<Vec<ProbeConfiguration>, StoreError>,
    provider_id: Seq<char>,
    display_name: Seq<char>,
    base_url: Seq<char>,
    api_key: Seq<char>,
)
    requires
        provider_updated(before, after, r, provider_id, display_name, base_url, api_key),
    ensures
        r is Err ==> after == before,
        provider_refusal(display_name, base_url, api_key) is Some ==> r is Err && r->Err_0@
            == provider_refusal(display_name, base_url, api_key)->0,
        provider_refusal(display_name, base_url, api_key) is None && (forall|k: int|
            0 <= k < before.providers@.len() ==> (#[trigger] before.providers@[k]).id@
                != provider_id) ==> r is Err && r->Err_0@.message
            == "upstream provider does not exist"@,
{
    lemma_find(before.providers@, provider_with(provider_id));
    if let Some(i) = provider_at(before.providers@, provider_id) {
        assert(before.providers@[i].id@ == provider_id);
    }
}

/// A provider is shown for editing with its name and base URL and found by its
/// id; its connection is its base URL and its key.
pub proof fn law_providers_are_found_by_id(
    store: Store,
    shown: Result<ProviderConfiguration, StoreError>,
    connection: Option<(String, String)>,
    i: int,
)
    requires
        store.wf(),
        0 <= i < store.providers@.len(),
        provider_to_edit(store, shown, store.providers@[i].id@),
        connection_of(store, connection, store.providers@[i].id@),
    ensures
        shown matches Ok(provider) && {
            &&& provider.id == store.providers@[i].id
            &&& provider.display_name == store.providers@[i].display_name
            &&& provider.base_url == store.providers@[i].base_url
        },
        connection matches Some(parts) && {
            &&& parts.0 == store.providers@[i].base_url
            &&& parts.1 == store.providers@[i].api_key
        },
{
    assert forall|q: int| 0 <= q < i implies !(provider_with(store.providers@[i].id@))(
        #[trigger] store.providers@[q],
    ) by {
        assert(store.providers@[q].id@ != store.providers@[i].id@);
    }
    lemma_found(store.providers@, provider_with(store.providers@[i].id@), i);
}

/// Every provider has its connection listed, under its id and by it.
pub proof fn law_connections_are_listed(providers: Seq<ProviderRow>, i: int)
    requires
        0 <= i < providers.len(),
    ensures
        ranked(connections(providers)).len() == providers.len(),
        ranked(connections(providers)).contains(
            (providers[i].id, providers[i].base_url, providers[i].api_key),
        ),
        forall|j: int, k: int|
            0 <= j <= k < providers.len() ==> text_le(
                (#[trigger] ranked(connections(providers))[j]).0@,
                (#[trigger] ranked(connections(providers))[k]).0@,
            ),
{
    let all = connections(providers);
    lemma_ranked(all);
    assert(all[i] == (providers[i].id, providers[i].base_url, providers[i].api_key));
    assert(all.contains(all[i]));
    assert forall|j: int, k: int| 0 <= j <= k < providers.len() implies text_le(
        (#[trigger] ranked(all)[j]).0@,
        (#[trigger] ranked(all)[k]).0@,
    ) by {
        assert(ranked(all)[j].rank_le(ranked(all)[k]));
    }
}

/// Prices are accepted where each is an amount of at least zero; what is refused
/// is laid to the first price that is wrong.
pub proof fn law_prices_are_accepted(input: Seq<char>, output: Seq<char>, cached: Seq<char>)
    ensures
        ({
            let refusal = prices_refusal(input, output, cached);
            let input_ok = read_decimal(input) matches Reading::Millionths(a) && a >= 0;
            let output_ok = read_decimal(output) matches Reading::Millionths(a) && a >= 0;
            let cached_ok = read_decimal(cached) matches Reading::Millionths(a) && a >= 0;
            &&& input_ok && output_ok && cached_ok <==> refusal is None
            &&& !input_ok ==> refusal->0.field == Some("input_price_rmb"@)
            &&& input_ok && !output_ok ==> refusal->0.field == Some("output_price_rmb"@)
            &&& input_ok && output_ok && !cached_ok ==> refusal->0.field == Some(
                "cached_input_price_rmb"@,
            )
        }),
{
}

/// A new model is refused for its name, for its prices, or where its name is
/// taken; a free name with good prices is published.
pub proof fn law_models_are_accepted(
    store: Store,
    name: Seq<char>,
    input: Seq<char>,
    output: Seq<char>,
    cached: Seq<char>,
)
    ensures
        ({
            let refusal = model_refusal(store, name, input, output, cached);
            let name_ok = trimmed(name).len() > 0 && encode_utf8(trimmed(name)).len() <= 128;
            let taken = exists|k: int|
                0 <= k < store.models@.len() && (#[trigger] store.models@[k]).id@ == trimmed(name);
            &&& refusal is None <==> name_ok && prices_refusal(input, output, cached) is None
                && !taken
            &&& !name_ok ==> refusal->0.field == Some("name"@)
            &&& name_ok && prices_refusal(input, output, cached) is Some ==> refusal
                == prices_refusal(input, output, cached)
            &&& name_ok && prices_refusal(input, output, cached) is None && taken
                ==> refusal->0.message == "a published model with this name already exists"@
        }),
{
    lemma_find(store.models@, model_with(trimmed(name)));
    if let Some(m) = model_at(store.models@, trimmed(name)) {
        assert(store.models@[m].id@ == trimmed(name));
    } else {
        assert forall|k: int| 0 <= k < store.models@.len() implies (
        #[trigger] store.models@[k]).id@ != trimmed(name) by {
            assert(!(model_with(trimmed(name)))(store.models@[k]));
        }
    }
}

/// A published model comes last, under its trimmed name and with its prices in
/// their places, and is in use; a refused one changes nothing.
pub proof fn law_created_models_are_kept(
    before: Store,
    after: Store,
    r: Result<(), StoreError>,
    name: Seq<char>,
    input: Seq<char>,
    output: Seq<char>,
    cached: Seq<char>,
)
    requires
        model_created(before, after, r, name, input, output, cached),
    ensures
        r is Err ==> after == before,
        r is Ok <==> model_refusal(before, name, input, output, cached) is None,
        r is Ok ==> {
            let added = after.models@.last();
            &&& after.models@.drop_last() == before.models@
            &&& after.models@.len() == before.models@.len() + 1
            &&& added.id@ == trimmed(name) && added.name@ == trimmed(name)
            &&& read_decimal(input) == Reading::Millionths(added.input_price_micros as int)
            &&& read_decimal(output) == Reading::Millionths(added.output_price_micros as int)
            &&& read_decimal(cached) == Reading::Millionths(added.cached_input_price_micros as int)
            &&& added.deprecated_at is None
            &&& after.providers == before.providers && after.routes == before.routes && after.keys
                == before.keys && after.settings == before.settings && after.schema == before.schema
        },
{
    if r is Ok {
        assert(after.models@.drop_last() =~= before.models@);
    }
}

/// A model is found where no model before it has its id.
proof fn lemma_model_found(store: Store, i: int)
    requires
        store.wf(),
        0 <= i < store.models@.len(),
    ensures
        model_at(store.models@, store.models@[i].id@) == Some(i),
{
    assert forall|q: int| 0 <= q < i implies !(model_with(store.models@[i].id@))(
        #[trigger] store.models@[q],
    ) by {
        assert(store.models@[q].id@ != store.models@[i].id@);
    }
    lemma_found(store.models@, model_with(store.models@[i].id@), i);
}

/// A provider is found where no provider before it has its id.
proof fn lemma_provider_found(store: Store, i: int)
    requires
        store.wf(),
        0 <= i < store.providers@.len(),
    ensures
        provider_at(store.providers@, store.providers@[i].id@) == Some(i),
{
    assert forall|q: int| 0 <= q < i implies !(provider_with(store.providers@[i].id@))(
        #[trigger] store.providers@[q],
    ) by {
        assert(store.providers@[q].id@ != store.providers@[i].id@);
    }
    lemma_found(store.providers@, provider_with(store.providers@[i].id@), i);
}

/// A route is found where no route before it has its id.
proof fn lemma_route_found(store: Store, i: int)
    requires
        store.wf(),
        0 <= i < store.routes@.len(),
    ensures
        route_at(store.routes@, store.routes@[i].id@) == Some(i),
{
    assert forall|q: int| 0 <= q < i implies !(route_with(store.routes@[i].id@))(
        #[trigger] store.routes@[q],
    ) by {
        assert(store.routes@[q].id@ != store.routes@[i].id@);
    }
    lemma_found(store.routes@, route_with(store.routes@[i].id@), i);
}

/// A model is taken out of use from now on, and the first time stays on record;
/// its prices and all else stay.
pub proof fn law_models_are_deprecated_once(
    before: Store,
    after: Store,
    r: Result<(), StoreError>,
    now: i64,
    i: int,
    k: int,
)
    requires
        before.wf(),
        0 <= i < before.models@.len(),
        0 <= k < before.models@.len(),
        model_deprecated(before, after, r, before.models@[i].id@, now),
    ensures
        r is Ok,
        before.models@[i].deprecated_at is None ==> after.models@[i].deprecated_at == Some(now),
        before.models@[i].deprecated_at is Some ==> after.models@[i].deprecated_at
            == before.models@[i].deprecated_at,
        after.models@[i].id == before.models@[i].id,
        after.models@[i].input_price_micros == before.models@[i].input_price_micros,
        after.models@[i].output_price_micros == before.models@[i].output_price_micros,
        after.models@[i].cached_input_price_micros == before.models@[i].cached_input_price_micros,
        k != i ==> after.models@[k] == before.models@[k],
        after.routes == before.routes,
        after.keys == before.keys,
        after.providers == before.providers,
{
    lemma_model_found(before, i);
}

/// New prices take the places of the old ones; the model and all else stay.
pub proof fn law_models_get_their_prices(
    before: Store,
    after: Store,
    r: Result<(), StoreError>,
    input: Seq<char>,
    output: Seq<char>,
    cached: Seq<char>,
    i: int,
    k: int,
)
    requires
        before.wf(),
        0 <= i < before.models@.len(),
        0 <= k < before.models@.len(),
        model_repriced(before, after, r, before.models@[i].id@, input, output, cached),
    ensures
        r is Ok <==> prices_refusal(input, output, cached) is None,
        r is Err ==> after == before,
        r is Ok ==> {
            &&& read_decimal(input) == Reading::Millionths(
                after.models@[i].input_price_micros as int,
            )
            &&& read_decimal(output) == Reading::Millionths(
                after.models@[i].output_price_micros as int,
            )
            &&& read_decimal(cached) == Reading::Millionths(
                after.models@[i].cached_input_price_micros as int,
            )
            &&& after.models@[i].id == before.models@[i].id
            &&& after.models@[i].name == before.models@[i].name
            &&& after.models@[i].deprecated_at == before.models@[i].deprecated_at
            &&& k != i ==> after.models@[k] == before.models@[k]
            &&& after.routes == before.routes && after.keys == before.keys && after.providers
                == before.providers
        },
{
    lemma_model_found(before, i);
    crate::decimal::law_amounts_are_well_formed(input);
    crate::decimal::law_amounts_are_well_formed(output);
    crate::decimal::law_amounts_are_well_formed(cached);
}

/// A model that is not there can neither be taken out of use nor be priced.
pub proof fn law_unknown_models_are_refused(
    before: Store,
    after: Store,
    r: Result<(), StoreError>,
    model_id: Seq<char>,
    now: i64,
    input: Seq<char>,
    output: Seq<char>,
    cached: Seq<char>,
)
    requires
        forall|k: int|
            0 <= k < before.models@.len() ==> (#[trigger] before.models@[k]).id@ != model_id,
    ensures
        model_deprecated(before, after, r, model_id, now) ==> r is Err && after == before
            && r->Err_0@.message == "published model does not exist"@,
        model_repriced(before, after, r, model_id, input, output, cached) ==> r is Err && after
            == before,
{
    lemma_find(before.models@, model_with(model_id));
    if let Some(m) = model_at(before.models@, model_id) {
        assert(before.models@[m].id@ == model_id);
    }
}

/// The values of a route are accepted where the upstream model's name takes 1
/// to 256 bytes, the protocol is known and the multiplier is above zero.
pub proof fn law_route_values_are_accepted(
    upstream_model_name: Seq<char>,
    protocol: Seq<char>,
    cost_multiplier: Seq<char>,
)
    ensures
        ({
            let refusal = route_values_refusal(upstream_model_name, protocol, cost_multiplier);
            let name_ok = trimmed(upstream_model_name).len() > 0 && encode_utf8(
                trimmed(upstream_model_name),
            ).len() <= 256;
            let protocol_ok = protocol == "chat_completions"@ || protocol == "responses"@;
            let multiplier_ok = read_decimal(cost_multiplier) matches Reading::Millionths(a) && a
                > 0;
            &&& refusal is None <==> name_ok && protocol_ok && multiplier_ok
            &&& !name_ok ==> refusal->0.field == Some("upstream_model_name"@)
            &&& name_ok && !protocol_ok ==> refusal->0.field == Some("protocol"@)
            &&& name_ok && protocol_ok && !multiplier_ok ==> refusal->0.field == Some(
                "cost_multiplier"@,
            )
        }),
{
}

/// A new route with good values is accepted where its provider is there, its
/// model is there and in use, and no route has its model, provider, upstream
/// model and protocol.
pub proof fn law_new_routes_are_accepted(
    store: Store,
    upstream_model_name: Seq<char>,
    protocol: Seq<char>,
    cost_multiplier: Seq<char>,
    m: int,
    p: int,
)
    requires
        store.wf(),
        0 <= m < store.models@.len(),
        0 <= p < store.providers@.len(),
        route_values_refusal(upstream_model_name, protocol, cost_multiplier) is None,
    ensures
        ({
            let refusal = new_route_refusal(
                store,
                store.models@[m].id@,
                store.providers@[p].id@,
                upstream_model_name,
                protocol,
                cost_multiplier,
            );
            let taken = exists|k: int|
                0 <= k < store.routes@.len() && (
                #[trigger] store.routes@[k]).published_model_id@ == store.models@[m].id@
                    && store.routes@[k].provider_id@ == store.providers@[p].id@
                    && store.routes@[k].upstream_model_name@ == trimmed(upstream_model_name)
                    && store.routes@[k].protocol@ == protocol;
            &&& store.models@[m].deprecated_at is None ==> (refusal is None <==> !taken)
            &&& store.schema < 16 ==> (refusal is None <==> !taken)
            &&& store.schema >= 16 && store.models@[m].deprecated_at is Some ==> refusal is Some
                && refusal->0.field == Some("published_model_id"@)
        }),
{
    lemma_model_found(store, m);
    lemma_provider_found(store, p);
    let taken = identity_taken(
        store.routes@,
        store.models@[m].id@,
        store.providers@[p].id@,
        trimmed(upstream_model_name),
        protocol,
        None,
    );
    if taken {
        let k = choose|k: int|
            0 <= k < store.routes@.len() && has_identity(
                #[trigger] store.routes@[k],
                store.models@[m].id@,
                store.providers@[p].id@,
                trimmed(upstream_model_name),
                protocol,
            );
        assert(store.routes@[k].published_model_id@ == store.models@[m].id@);
    } else {
        assert forall|k: int| 0 <= k < store.routes@.len() implies !((
        #[trigger] store.routes@[k]).published_model_id@ == store.models@[m].id@
            && store.routes@[k].provider_id@ == store.providers@[p].id@
            && store.routes@[k].upstream_model_name@ == trimmed(upstream_model_name)
            && store.routes@[k].protocol@ == protocol) by {
            assert(!has_identity(
                store.routes@[k],
                store.models@[m].id@,
                store.providers@[p].id@,
                trimmed(upstream_model_name),
                protocol,
            ));
        }
    }
}

/// Bad values, a provider or a model that is not there: each refuses a route,
/// new or edited.
pub proof fn law_routes_need_their_parts(
    store: Store,
    route_id: Seq<char>,
    published_model_id: Seq<char>,
    provider_id: Seq<char>,
    upstream_model_name: Seq<char>,
    protocol: Seq<char>,
    cost_multiplier: Seq<char>,
)
    ensures
        ({
            let values = route_values_refusal(upstream_model_name, protocol, cost_multiplier);
            let new = new_route_refusal(
                store,
                published_model_id,
                provider_id,
                upstream_model_name,
                protocol,
                cost_multiplier,
            );
            let edit = route_edit_refusal(
                store,
                route_id,
                published_model_id,
                provider_id,
                upstream_model_name,
                protocol,
                cost_multiplier,
            );
            let no_provider = forall|k: int|
                0 <= k < store.providers@.len() ==> (#[trigger] store.providers@[k]).id@
                    != provider_id;
            let no_model = forall|k: int|
                0 <= k < store.models@.len() ==> (#[trigger] store.models@[k]).id@
                    != published_model_id;
            let no_route = forall|k: int|
                0 <= k < store.routes@.len() ==> (#[trigger] store.routes@[k]).id@ != route_id;
            &&& values is Some ==> new == values && edit == values
            &&& values is None && no_provider ==> new is Some && new->0.field == Some(
                "provider_id"@,
            ) && edit == new
            &&& values is None && !no_provider && no_model ==> new is Some && new->0.field == Some(
                "published_model_id"@,
            ) && edit == new
            &&& values is None && !no_provider && !no_model && no_route ==> edit is Some
                && edit->0.message == "model route does not exist"@
        }),
{
    lemma_find(store.providers@, provider_with(provider_id));
    lemma_find(store.models@, model_with(published_model_id));
    lemma_find(store.routes@, route_with(route_id));
    if let Some(k) = provider_at(store.providers@, provider_id) {
        assert(store.providers@[k].id@ == provider_id);
    } else {
        assert forall|k: int| 0 <= k < store.providers@.len() implies (
        #[trigger] store.providers@[k]).id@ != provider_id by {
            assert(!(provider_with(provider_id))(store.providers@[k]));
        }
    }
    if let Some(k) = model_at(store.models@, published_model_id) {
        assert(store.models@[k].id@ == published_model_id);
    } else {
        assert forall|k: int| 0 <= k < store.models@.len() implies (
        #[trigger] store.models@[k]).id@ != published_model_id by {
            assert(!(model_with(published_model_id))(store.models@[k]));
        }
    }
    if let Some(k) = route_at(store.routes@, route_id) {
        assert(store.routes@[k].id@ == route_id);
    }
}

/// An edited route with good values is accepted unless another route has its
/// model, provider, upstream model and protocol; its own are no obstacle.
pub proof fn law_route_edits_are_accepted(
    store: Store,
    upstream_model_name: Seq<char>,
    protocol: Seq<char>,
    cost_multiplier: Seq<char>,
    i: int,
    m: int,
    p: int,
)
    requires
        store.wf(),
        0 <= i < store.routes@.len(),
        0 <= m < store.models@.len(),
        0 <= p < store.providers@.len(),
        route_values_refusal(upstream_model_name, protocol, cost_multiplier) is None,
    ensures
        ({
            let refusal = route_edit_refusal(
                store,
                store.routes@[i].id@,
                store.models@[m].id@,
                store.providers@[p].id@,
                upstream_model_name,
                protocol,
                cost_multiplier,
            );
            let taken = exists|k: int|
                0 <= k < store.routes@.len() && k != i && (
                #[trigger] store.routes@[k]).published_model_id@ == store.models@[m].id@
                    && store.routes@[k].provider_id@ == store.providers@[p].id@
                    && store.routes@[k].upstream_model_name@ == trimmed(upstream_model_name)
                    && store.routes@[k].protocol@ == protocol;
            refusal is None <==> !taken
        }),
{
    lemma_model_found(store, m);
    lemma_provider_found(store, p);
    lemma_route_found(store, i);
    let taken = identity_taken(
        store.routes@,
        store.models@[m].id@,
        store.providers@[p].id@,
        trimmed(upstream_model_name),
        protocol,
        Some(store.routes@[i].id@),
    );
    if taken {
        let k = choose|k: int|
            0 <= k < store.routes@.len() && has_identity(
                #[trigger] store.routes@[k],
                store.models@[m].id@,
                store.providers@[p].id@,
                trimmed(upstream_model_name),
                protocol,
            ) && Some(store.routes@[i].id@) != Some(store.routes@[k].id@);
        assert(store.routes@[k].published_model_id@ == store.models@[m].id@);
        assert(k != i);
    } else {
        assert forall|k: int| 0 <= k < store.routes@.len() && k != i implies !((
        #[trigger] store.routes@[k]).published_model_id@ == store.models@[m].id@
            && store.routes@[k].provider_id@ == store.providers@[p].id@
            && store.routes@[k].upstream_model_name@ == trimmed(upstream_model_name)
            && store.routes@[k].protocol@ == protocol) by {
            if k < i {
                assert(store.routes@[k].id@ != store.routes@[i].id@);
            } else {
                assert(store.routes@[i].id@ != store.routes@[k].id@);
            }
            assert(!has_identity(
                store.routes@[k],
                store.models@[m].id@,
                store.providers@[p].id@,
                trimmed(upstream_model_name),
                protocol,
            ));
        }
    }
}

/// A new route comes last, with its parts in their places, unchecked and with
/// its probe to be asked; a refused one changes nothing.
pub proof fn law_created_routes_are_kept(
    before: Store,
    after: Store,
    r: Result<ProbeConfiguration, StoreError>,
    id: String,
    created_at: i64,
    published_model_id: Seq<char>,
    upstream_model_name: Seq<char>,
    protocol: Seq<char>,
    cost_multiplier: Seq<char>,
    p: int,
)
    requires
        before.wf(),
        0 <= p < before.providers@.len(),
        route_created(
            before,
            after,
            r,
            id,
            created_at,
            published_model_id,
            before.providers@[p].id@,
            upstream_model_name,
            protocol,
            cost_multiplier,
        ),
    ensures
        r is Err ==> after == before,
        r is Ok <==> new_route_refusal(
            before,
            published_model_id,
            before.providers@[p].id@,
            upstream_model_name,
            protocol,
            cost_multiplier,
        ) is None,
        r matches Ok(probe) ==> {
            let added = after.routes@.last();
            &&& after.routes@.drop_last() == before.routes@
            &&& after.routes@.len() == before.routes@.len() + 1
            &&& added.id@ == id@
            &&& added.published_model_id@ == published_model_id
            &&& added.provider_id@ == before.providers@[p].id@
            &&& added.upstream_model_name@ == trimmed(upstream_model_name)
            &&& added.protocol@ == protocol
            &&& read_decimal(cost_multiplier) == Reading::Millionths(
                added.cost_multiplier_micros as int,
            )
            &&& added.created_at == created_at
            &&& added.health@.state == RouteHealth::Checking
            &&& added.health@.consecutive_failures == 0
            &&& added.health@.quarantine_epoch == 0
            &&& probe.route_id@ == id@
            &&& probe.base_url@ == before.providers@[p].base_url@
            &&& probe.api_key@ == before.providers@[p].api_key@
            &&& probe.upstream_model_name@ == trimmed(upstream_model_name)
            &&& probe.protocol@ == protocol
            &&& after.providers == before.providers && after.models == before.models && after.keys
                == before.keys && after.settings == before.settings
        },
{
    lemma_provider_found(before, p);
    if r is Ok {
        assert(after.routes@.drop_last() =~= before.routes@);
    }
}

/// An edit of what a route calls has it checked anew; an edit of its model or
/// its price alone keeps its health and asks no probe. Other routes stay.
pub proof fn law_edited_routes_are_checked(
    before: Store,
    after: Store,
    r: Result<Option<ProbeConfiguration>, StoreError>,
    published_model_id: Seq<char>,
    upstream_model_name: Seq<char>,
    protocol: Seq<char>,
    cost_multiplier: Seq<char>,
    i: int,
    k: int,
    p: int,
)
    requires
        before.wf(),
        0 <= i < before.routes@.len(),
        0 <= k < before.routes@.len(),
        0 <= p < before.providers@.len(),
        route_updated(
            before,
            after,
            r,
            before.routes@[i].id@,
            published_model_id,
            before.providers@[p].id@,
            upstream_model_name,
            protocol,
            cost_multiplier,
        ),
    ensures
        r is Err ==> after == before,
        r matches Ok(probe) ==> {
            let (was, is) = (before.routes@[i], after.routes@[i]);
            let same_call = was.provider_id@ == before.providers@[p].id@
                && was.upstream_model_name@ == trimmed(upstream_model_name) && was.protocol@
                == protocol;
            &&& is.id == was.id && is.created_at == was.created_at
            &&& is.published_model_id@ == published_model_id
            &&& is.provider_id@ == before.providers@[p].id@
            &&& is.upstream_model_name@ == trimmed(upstream_model_name)
            &&& is.protocol@ == protocol
            &&& read_decimal(cost_multiplier) == Reading::Millionths(
                is.cost_multiplier_micros as int,
            )
            &&& same_call ==> probe is None && is.health@ == was.health@
            &&& !same_call ==> is.health@.state == RouteHealth::Checking
                && is.health@.failed_probe_count == 0 && is.health@.next_probe_at_ms is None
            &&& !same_call ==> (probe matches Some(asked) && asked.route_id@ == was.id@
                && asked.base_url@ == before.providers@[p].base_url@ && asked.api_key@
                == before.providers@[p].api_key@ && asked.upstream_model_name@ == trimmed(
                upstream_model_name,
            ) && asked.protocol@ == protocol)
            &&& k != i ==> after.routes@[k] == before.routes@[k]
            &&& after.routes@.len() == before.routes@.len()
            &&& after.providers == before.providers && after.models == before.models && after.keys
                == before.keys && after.settings == before.settings
        },
{
    lemma_provider_found(before, p);
    lemma_route_found(before, i);
}

/// A model published from the start has its name for its id, its prices, and is
/// in use.
pub proof fn law_seeds_are_in_use(
    model: ModelRow,
    name: Seq<char>,
    input: i64,
    output: i64,
    cached: i64,
)
    requires
        is_seed(model, name, input, output, cached),
    ensures
        model.id@ == name && model.name@ == name,
        model.input_price_micros == input,
        model.output_price_micros == output,
        model.cached_input_price_micros == cached,
        model.deprecated_at is None,
{
}

/// In a configuration in order no two providers, models, routes or keys share an
/// id, no two routes share model, provider, upstream model and protocol, and
/// every route has its provider and its model.
pub proof fn law_configurations_in_order(store: Store, i: int, j: int)
    requires
        store.wf(),
        0 <= i,
        0 <= j,
        i != j,
    ensures
        i < store.providers@.len() && j < store.providers@.len() ==> store.providers@[i].id@
            != store.providers@[j].id@,
        i < store.models@.len() && j < store.models@.len() ==> store.models@[i].id@
            != store.models@[j].id@,
        i < store.routes@.len() && j < store.routes@.len() ==> store.routes@[i].id@
            != store.routes@[j].id@,
        i < store.keys@.len() && j < store.keys@.len() ==> store.keys@[i].id@
            != store.keys@[j].id@,
        i < store.routes@.len() && j < store.routes@.len() ==> !(
        store.routes@[i].published_model_id@ == store.routes@[j].published_model_id@
            && store.routes@[i].provider_id@ == store.routes@[j].provider_id@
            && store.routes@[i].upstream_model_name@ == store.routes@[j].upstream_model_name@
            && store.routes@[i].protocol@ == store.routes@[j].protocol@),
        i < store.routes@.len() ==> (exists|p: int|
            0 <= p < store.providers@.len() && (#[trigger] store.providers@[p]).id@
                == store.routes@[i].provider_id@) && (exists|m: int|
            0 <= m < store.models@.len() && (#[trigger] store.models@[m]).id@
                == store.routes@[i].published_model_id@),
{
    let (a, b) = if i < j {
        (i, j)
    } else {
        (j, i)
    };
    if b < store.providers@.len() {
        assert(store.providers@[a].id@ != store.providers@[b].id@);
    }
    if b < store.models@.len() {
        assert(store.models@[a].id@ != store.models@[b].id@);
    }
    if b < store.routes@.len() {
        assert(store.routes@[a].id@ != store.routes@[b].id@);
    }
    if b < store.keys@.len() {
        assert(store.keys@[a].id@ != store.keys@[b].id@);
    }
    if i < store.routes@.len() {
        assert(route_ok(store, store.routes@[i]));
        lemma_find(store.providers@, provider_with(store.routes@[i].provider_id@));
        lemma_find(store.models@, model_with(store.routes@[i].published_model_id@));
        let p = provider_at(store.providers@, store.routes@[i].provider_id@)->0;
        let m = model_at(store.models@, store.routes@[i].published_model_id@)->0;
        assert(store.providers@[p].id@ == store.routes@[i].provider_id@);
        assert(store.models@[m].id@ == store.routes@[i].published_model_id@);
    }
}

} // verus!
