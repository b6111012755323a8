//! Operations on the health of the configured routes, and the settings they
//! follow.

use crate::find::{lemma_find, lemma_found};
use crate::order::{lemma_ranked, ranked};
use crate::recovery::{
    after_failure, after_probe, after_success, clock_fits, counters_ok, counts_failures,
    merge_settings, probe_counts, quarantines, rechecking, requested_settings, rescheduled,
    settings_ok, settings_refusal, Clocks, HealthData, RecoverySettings, RouteHealth, SettingsRequest,
};
use crate::store::{
    health_apart, healths_become, lemma_healths_keep_order, plain, probe_list, probe_of,
    probes_upto, provider_at, provider_with, refused, route_at, route_ok, route_with,
    routes_apart, selects,
    ProbeConfiguration, ProbeSelection, RouteRow, Store, StoreError,
};
use vstd::prelude::*;
use vstd::string::*;

verus! {

/// Whether two configurations differ at most in the health of the route at
/// `i`, which is `health` after.
pub open spec fn health_set(before: Store, after: Store, i: int, health: HealthData) -> bool {
    &&& routes_apart(before, after)
    &&& after.routes@.len() == before.routes@.len()
    &&& forall|k: int|
        0 <= k < before.routes@.len() && k != i ==> #[trigger] after.routes@[k]
            == before.routes@[k]
    &&& health_apart(before.routes@[i], after.routes@[i])
    &&& after.routes@[i].health@ == health
}

/// A change of one route's health keeps the configuration in order.
proof fn lemma_health_set(before: Store, after: Store, i: int, health: HealthData)
    requires
        before.wf(),
        0 <= i < before.routes@.len(),
        health_set(before, after, i, health),
    ensures
        after.wf(),
{
    assert forall|k: int| 0 <= k < before.routes@.len() implies health_apart(
        before.routes@[k],
        #[trigger] after.routes@[k],
    ) by {
        if k != i {
            assert(after.routes@[k] == before.routes@[k]);
        }
    }
    lemma_healths_keep_order(before, after);
}

/// Whether the counters of every route have room for one more.
pub open spec fn all_counters_ok(store: Store) -> bool {
    forall|k: int| 0 <= k < store.routes@.len() ==> counters_ok((#[trigger] store.routes@[k]).health@)
}

/// The health of every route after it went back to being checked.
pub open spec fn all_rechecked(schema: int) -> spec_fn(RouteRow) -> HealthData {
    |route: RouteRow| rechecking(schema, route.health@)
}

/// The health of every route under new settings.
pub open spec fn all_rescheduled(settings: RecoverySettings, clocks: Clocks) -> spec_fn(
    RouteRow,
) -> HealthData {
    |route: RouteRow| rescheduled(route.health@, settings, clocks)
}

/// What comes of the result of a probe.
pub open spec fn probe_recorded(
    before: Store,
    after: Store,
    r: Result<bool, StoreError>,
    route_id: Seq<char>,
    quarantine_epoch: i64,
    available: bool,
    http_status: Option<i64>,
    clocks: Clocks,
) -> bool {
    match route_at(before.routes@, route_id) {
        None => r is Err && r->Err_0@ == plain("model route does not exist"@)
            && after == before,
        Some(i) => {
            let was = before.routes@[i].health@;
            let schema = before.schema as int;
            &&& r == Ok::<bool, StoreError>(probe_counts(schema, was, quarantine_epoch))
            &&& health_set(
                before,
                after,
                i,
                after_probe(
                    schema,
                    was,
                    before.settings,
                    clocks,
                    quarantine_epoch,
                    available,
                    http_status,
                ),
            )
        },
    }
}

/// What comes of a failure that speaks against a route.
pub open spec fn failure_recorded(
    before: Store,
    after: Store,
    r: Result<bool, StoreError>,
    route_id: Seq<char>,
    failure_category: Seq<char>,
    http_status: Option<i64>,
    clocks: Clocks,
) -> bool {
    match route_at(before.routes@, route_id) {
        None => after == before && if counts_failures(before.schema as int) {
            r is Err && r->Err_0@ == plain("Query returned no rows"@)
        } else {
            r == Ok::<bool, StoreError>(false)
        },
        Some(i) => {
            let was = before.routes@[i].health@;
            let schema = before.schema as int;
            &&& r == Ok::<bool, StoreError>(quarantines(schema, was, before.settings))
            &&& health_set(
                before,
                after,
                i,
                after_failure(
                    schema,
                    was,
                    before.settings,
                    clocks,
                    failure_category,
                    http_status,
                ),
            )
        },
    }
}

/// What comes of a call through a route that succeeded.
pub open spec fn success_recorded(
    before: Store,
    after: Store,
    route_id: Seq<char>,
) -> bool {
    match route_at(before.routes@, route_id) {
        None => after == before,
        Some(i) => health_set(
            before,
            after,
            i,
            after_success(before.schema as int, before.routes@[i].health@),
        ),
    }
}

/// What comes of sending a route back to being checked.
pub open spec fn checking_reset(
    before: Store,
    after: Store,
    route_id: Seq<char>,
) -> bool {
    match route_at(before.routes@, route_id) {
        None => after == before,
        Some(i) => health_set(
            before,
            after,
            i,
            rechecking(before.schema as int, before.routes@[i].health@),
        ),
    }
}

/// Whether `r` is what the probe of a route needs.
pub open spec fn route_probe(
    store: Store,
    r: Result<ProbeConfiguration, StoreError>,
    route_id: Seq<char>,
) -> bool {
    match route_at(store.routes@, route_id) {
        None => r is Err && r->Err_0@ == plain("model route does not exist"@),
        Some(i) => {
            let route = store.routes@[i];
            let provider = store.providers@[provider_at(
                store.providers@,
                route.provider_id@,
            )->0];
            r is Ok && r->Ok_0 == probe_of(store.schema as int, route, provider)
        },
    }
}

/// What comes of setting the settings that are asked for.
pub open spec fn settings_updated(
    before: Store,
    after: Store,
    r: Result<(), StoreError>,
    request: SettingsRequest,
    clocks: Clocks,
) -> bool {
    let asked = requested_settings(before.settings, request);
    match settings_refusal(asked) {
        Some(message) => r is Err && r->Err_0@ == plain(message) && after == before,
        None => {
            &&& r is Ok
            &&& after.settings == asked
            &&& after.schema == before.schema
            &&& after.providers == before.providers
            &&& after.models == before.models
            &&& after.keys == before.keys
            &&& healths_become(before.routes@, after.routes@, all_rescheduled(asked, clocks))
        },
    }
}

impl Store {
    /// Whether the counters of every route have room for one more.
    pub fn counters_fit(&self) -> (r: bool)
        ensures
            r == all_counters_ok(*self),
    {
        for i in 0..self.routes.len()
            invariant
                forall|k: int| 0 <= k < i ==> counters_ok((#[trigger] self.routes@[k]).health@),
        {
            if !self.routes[i].health.counters_fit() {
                return false;
            }
        }
        true
    }

    /// Takes in the result of a probe of a route; the answer says whether it
    /// counted. One that was set up before the route's last quarantine does
    /// not.
    pub fn record_probe_result(
        &mut self,
        route_id: &str,
        quarantine_epoch: i64,
        available: bool,
        http_status: Option<i64>,
        clocks: &Clocks,
    ) -> (r: Result<bool, StoreError>)
        requires
            old(self).wf(),
            clock_fits(*clocks),
            route_at(old(self).routes@, route_id@) matches Some(i) ==> counters_ok(
                old(self).routes@[i].health@,
            ),
        ensures
            final(self).wf(),
            probe_recorded(
                *old(self),
                *final(self),
                r,
                route_id@,
                quarantine_epoch,
                available,
                http_status,
                *clocks,
            ),
    {
        let ghost before = *self;
        let schema: i64 = self.schema;
        let settings = self.settings;
        match self.find_route(route_id) {
            None => Err(refused("model route does not exist")),
            Some(i) => {
                let counted = self.routes[i].health.record_probe_result(
                    schema,
                    &settings,
                    clocks,
                    quarantine_epoch,
                    available,
                    http_status,
                );
                proof {
                    lemma_health_set(before, *self, i as int, self.routes@[i as int].health@);
                }
                Ok(counted)
            },
        }
    }

    /// Takes in a failure that speaks against a route; the answer says whether
    /// it quarantined the route.
    pub fn quarantine_route(
        &mut self,
        route_id: &str,
        failure_category: &str,
        http_status: Option<i64>,
        clocks: &Clocks,
    ) -> (r: Result<bool, StoreError>)
        requires
            old(self).wf(),
            clock_fits(*clocks),
            route_at(old(self).routes@, route_id@) matches Some(i) ==> counters_ok(
                old(self).routes@[i].health@,
            ),
        ensures
            final(self).wf(),
            failure_recorded(
                *old(self),
                *final(self),
                r,
                route_id@,
                failure_category@,
                http_status,
                *clocks,
            ),
    {
        let ghost before = *self;
        let schema: i64 = self.schema;
        let settings = self.settings;
        match self.find_route(route_id) {
            None => if schema >= 14 {
                Err(refused("Query returned no rows"))
            } else {
                Ok(false)
            },
            Some(i) => {
                let quarantined = self.routes[i].health.record_failure(
                    schema,
                    &settings,
                    clocks,
                    failure_category,
                    http_status,
                );
                proof {
                    lemma_health_set(before, *self, i as int, self.routes@[i as int].health@);
                }
                Ok(quarantined)
            },
        }
    }

    /// Takes in a call through a route that succeeded.
    pub fn clear_route_failure_count(&mut self, route_id: &str)
        requires
            old(self).wf(),
        ensures
            final(self).wf(),
            success_recorded(*old(self), *final(self), route_id@),
    {
        let ghost before = *self;
        let schema: i64 = self.schema;
        match self.find_route(route_id) {
            None => {},
            Some(i) => {
                self.routes[i].health.record_success(schema);
                proof {
                    lemma_health_set(before, *self, i as int, self.routes@[i as int].health@);
                }
            },
        }
    }

    /// Sends a route back to being checked.
    pub fn reset_route_checking(&mut self, route_id: &str)
        requires
            old(self).wf(),
        ensures
            final(self).wf(),
            checking_reset(*old(self), *final(self), route_id@),
    {
        let ghost before = *self;
        let schema: i64 = self.schema;
        match self.find_route(route_id) {
            None => {},
            Some(i) => {
                self.routes[i].health.recheck(schema);
                proof {
                    lemma_health_set(before, *self, i as int, self.routes@[i as int].health@);
                }
            },
        }
    }

    /// Sends every route back to being checked, whatever was recorded of it;
    /// the answer says what their probes need.
    pub fn startup_probe_configurations(&mut self) -> (r: Vec<ProbeConfiguration>)
        requires
            old(self).wf(),
        ensures
            final(self).wf(),
            routes_apart(*old(self), *final(self)),
            healths_become(
                old(self).routes@,
                final(self).routes@,
                all_rechecked(old(self).schema as int),
            ),
            r@ == probe_list(*final(self), ProbeSelection::All),
    {
        let ghost before = *self;
        let schema: i64 = self.schema;
        let total: usize = self.routes.len();
        let ghost next = all_rechecked(schema as int);
        for i in 0..total
            invariant
                schema == before.schema,
                next == all_rechecked(schema as int),
                routes_apart(before, *self),
                self.routes@.len() == before.routes@.len() == total,
                forall|k: int|
                    0 <= k < i ==> health_apart(before.routes@[k], #[trigger] self.routes@[k])
                        && self.routes@[k].health@ == next(before.routes@[k]),
                forall|k: int| i <= k < total ==> #[trigger] self.routes@[k] == before.routes@[k],
        {
            self.routes[i].health.recheck(schema);
        }
        proof {
            lemma_healths_keep_order(before, *self);
        }
        self.probes(&ProbeSelection::All)
    }

    /// What the probes need that are due at a time, the longest due first.
    pub fn recovery_due_probes(&self, now_ms: i64) -> (r: Vec<ProbeConfiguration>)
        ensures
            r@ == probe_list(*self, ProbeSelection::Due(now_ms)),
    {
        self.probes(&ProbeSelection::Due(now_ms))
    }

    /// What the probes of the available routes need.
    pub fn available_route_probe_configurations(&self) -> (r: Vec<ProbeConfiguration>)
        ensures
            r@ == probe_list(*self, ProbeSelection::Available),
    {
        self.probes(&ProbeSelection::Available)
    }

    /// What the probe of a route needs.
    pub fn model_route_probe(&self, route_id: &str) -> (r: Result<ProbeConfiguration, StoreError>)
        requires
            self.wf(),
        ensures
            route_probe(*self, r, route_id@),
    {
        match self.find_route(route_id) {
            None => Err(refused("model route does not exist")),
            Some(i) => {
                proof {
                    assert(route_ok(*self, self.routes@[i as int]));
                }
                match self.find_provider(self.routes[i].provider_id.as_str()) {
                    None => Err(refused("model route does not exist")),
                    Some(j) => Ok(self.probe_at(i, j)),
                }
            },
        }
    }

    /// Sets the settings that are asked for; what is left out stays. Every
    /// unavailable route is scheduled anew.
    pub fn update_recovery_settings(&mut self, request: &SettingsRequest, clocks: &Clocks) -> (r:
        Result<(), StoreError>)
        requires
            old(self).wf(),
            clock_fits(*clocks),
            all_counters_ok(*old(self)),
        ensures
            final(self).wf(),
            settings_updated(
                *old(self),
                *final(self),
                r,
                *request,
                *clocks,
            ),
    {
        let ghost before = *self;
        let settings = match merge_settings(&self.settings, request) {
            Ok(settings) => settings,
            Err(message) => {
                return Err(refused(message));
            },
        };
        self.settings = settings;
        let total: usize = self.routes.len();
        let ghost next = all_rescheduled(settings, *clocks);
        for i in 0..total
            invariant
                clock_fits(*clocks),
                settings_ok(settings),
                all_counters_ok(before),
                next == all_rescheduled(settings, *clocks),
                self.settings == settings,
                self.schema == before.schema,
                self.providers == before.providers,
                self.models == before.models,
                self.keys == before.keys,
                self.routes@.len() == before.routes@.len() == total,
                forall|k: int|
                    0 <= k < i ==> health_apart(before.routes@[k], #[trigger] self.routes@[k])
                        && self.routes@[k].health@ == next(before.routes@[k]),
                forall|k: int| i <= k < total ==> #[trigger] self.routes@[k] == before.routes@[k],
        {
            proof {
                assert(counters_ok(before.routes@[i as int].health@));
                assert(self.routes@[i as int] == before.routes@[i as int]);
            }
            self.routes[i].health.reschedule(&settings, clocks);
        }
        proof {
            lemma_healths_keep_order(before, *self);
        }
        Ok(())
    }
}

/// The probes of a selection are those of the selected routes.
proof fn lemma_probes_upto(store: Store, selection: ProbeSelection, n: int, k: int)
    requires
        store.wf(),
        0 <= k < n <= store.routes@.len(),
        selects(selection, store.routes@[k]),
    ensures
        exists|m: int|
            0 <= m < probes_upto(store, selection, n).len() && (#[trigger] probes_upto(
                store,
                selection,
                n,
            )[m]).probe.route_id == store.routes@[k].id,
    decreases n,
{
    let now = probes_upto(store, selection, n);
    assert(route_ok(store, store.routes@[n - 1]));
    if k == n - 1 {
        assert(now[now.len() - 1].probe.route_id == store.routes@[k].id);
    } else {
        lemma_probes_upto(store, selection, n - 1, k);
        let before = probes_upto(store, selection, n - 1);
        let m = choose|m: int|
            0 <= m < before.len() && (#[trigger] before[m]).probe.route_id == store.routes@[k].id;
        assert(now[m] == before[m]);
    }
}

/// Every probe of a selection is that of a selected route.
proof fn lemma_probes_are_selected(store: Store, selection: ProbeSelection, n: int, m: int)
    requires
        0 <= n <= store.routes@.len(),
        0 <= m < probes_upto(store, selection, n).len(),
    ensures
        exists|k: int|
            0 <= k < n && selects(selection, #[trigger] store.routes@[k])
                && store.routes@[k].id == probes_upto(store, selection, n)[m].probe.route_id,
    decreases n,
{
    let now = probes_upto(store, selection, n);
    let before = probes_upto(store, selection, n - 1);
    if m < before.len() {
        lemma_probes_are_selected(store, selection, n - 1, m);
        assert(now[m] == before[m]);
        let k = choose|k: int|
            0 <= k < n - 1 && selects(selection, #[trigger] store.routes@[k])
                && store.routes@[k].id == before[m].probe.route_id;
        assert(selects(selection, store.routes@[k]));
    } else {
        assert(selects(selection, store.routes@[n - 1]));
    }
}

/// A route is probed exactly when the selection takes it.
pub proof fn law_selected_routes_are_probed(store: Store, selection: ProbeSelection, k: int)
    requires
        store.wf(),
        0 <= k < store.routes@.len(),
    ensures
        selects(selection, store.routes@[k]) <==> exists|m: int|
            0 <= m < probe_list(store, selection).len() && (#[trigger] probe_list(
                store,
                selection,
            )[m]).route_id@ == store.routes@[k].id@,
{
    let n = store.routes@.len() as int;
    let found = probes_upto(store, selection, n);
    let order = ranked(found);
    let list = probe_list(store, selection);
    lemma_ranked(found);
    if selects(selection, store.routes@[k]) {
        lemma_probes_upto(store, selection, n, k);
        let m = choose|m: int|
            0 <= m < found.len() && (#[trigger] found[m]).probe.route_id == store.routes@[k].id;
        assert(found.contains(found[m]));
        assert(order.contains(found[m]));
        let q = choose|q: int| 0 <= q < order.len() && order[q] == found[m];
        assert(list[q].route_id@ == store.routes@[k].id@);
    }
    if exists|m: int|
        0 <= m < list.len() && (#[trigger] list[m]).route_id@ == store.routes@[k].id@ {
        let m = choose|m: int|
            0 <= m < list.len() && (#[trigger] list[m]).route_id@ == store.routes@[k].id@;
        assert(order.contains(order[m]));
        assert(found.contains(order[m]));
        let q = choose|q: int| 0 <= q < found.len() && found[q] == order[m];
        lemma_probes_are_selected(store, selection, n, q);
        let j = choose|j: int|
            0 <= j < n && selects(selection, #[trigger] store.routes@[j]) && store.routes@[j].id
                == found[q].probe.route_id;
        assert(store.routes@[j].id@ == store.routes@[k].id@);
        assert(j == k) by {
            if j < k {
                assert(store.routes@[j].id@ != store.routes@[k].id@);
            } else if k < j {
                assert(store.routes@[k].id@ != store.routes@[j].id@);
            }
        }
    }
}

/// A route is found where no route before it has its id.
proof fn lemma_route_found(store: Store, i: int)
    requires
        store.wf(),
        0 <= i < store.routes@.len(),
    ensures
        route_at(store.routes@, store.routes@[i].id@) == Some(i),
{
    assert forall|q: int| 0 <= q < i implies !(route_with(store.routes@[i].id@))(
        #[trigger] store.routes@[q],
    ) by {
        assert(store.routes@[q].id@ != store.routes@[i].id@);
    }
    lemma_found(store.routes@, route_with(store.routes@[i].id@), i);
}

/// A probe's result changes the health of the probed route and no other; one of
/// an earlier quarantine is not counted and changes nothing.
pub proof fn law_probe_results_reach_their_route(
    before: Store,
    after: Store,
    r: Result<bool, StoreError>,
    quarantine_epoch: i64,
    available: bool,
    http_status: Option<i64>,
    clocks: Clocks,
    i: int,
    k: int,
)
    requires
        before.wf(),
        0 <= i < before.routes@.len(),
        0 <= k < before.routes@.len(),
        probe_recorded(
            before,
            after,
            r,
            before.routes@[i].id@,
            quarantine_epoch,
            available,
            http_status,
            clocks,
        ),
    ensures
        r is Ok,
        before.schema < 14 || before.routes@[i].health@.quarantine_epoch == quarantine_epoch
            ==> r->Ok_0,
        before.schema >= 14 && before.routes@[i].health@.quarantine_epoch != quarantine_epoch
            ==> !r->Ok_0 && after.routes@[i].health@ == before.routes@[i].health@,
        r->Ok_0 && available ==> after.routes@[i].health@.state == RouteHealth::Available,
        r->Ok_0 && !available ==> after.routes@[i].health@.state == RouteHealth::Unavailable,
        after.routes@[i].id == before.routes@[i].id,
        after.routes@[i].provider_id == before.routes@[i].provider_id,
        after.routes@[i].cost_multiplier_micros == before.routes@[i].cost_multiplier_micros,
        k != i ==> after.routes@[k] == before.routes@[k],
        after.providers == before.providers,
        after.settings == before.settings,
{
    lemma_route_found(before, i);
}

/// A failure that speaks against a route makes an available one unavailable
/// once the threshold is reached, says so, and touches no other route.
pub proof fn law_failures_reach_their_route(
    before: Store,
    after: Store,
    r: Result<bool, StoreError>,
    category: Seq<char>,
    http_status: Option<i64>,
    clocks: Clocks,
    i: int,
    k: int,
)
    requires
        before.wf(),
        0 <= i < before.routes@.len(),
        0 <= k < before.routes@.len(),
        failure_recorded(
            before,
            after,
            r,
            before.routes@[i].id@,
            category,
            http_status,
            clocks,
        ),
    ensures
        r is Ok,
        ({
            let was = before.routes@[i].health@;
            let reached = before.schema < 14 || was.consecutive_failures + 1
                >= before.settings.quarantine_threshold;
            &&& r->Ok_0 <==> was.state == RouteHealth::Available && reached
            &&& r->Ok_0 ==> after.routes@[i].health@.state == RouteHealth::Unavailable
                && after.routes@[i].health@.failure_category == Some(category)
            &&& !r->Ok_0 ==> after.routes@[i].health@.state == was.state
        }),
        after.routes@[i].id == before.routes@[i].id,
        k != i ==> after.routes@[k] == before.routes@[k],
        after.providers == before.providers,
        after.settings == before.settings,
{
    lemma_route_found(before, i);
}

/// A success forgets the failures in a row, a reset has the route checked anew;
/// neither touches another route.
pub proof fn law_successes_and_resets_reach_their_route(
    before: Store,
    after: Store,
    i: int,
    k: int,
)
    requires
        before.wf(),
        0 <= i < before.routes@.len(),
        0 <= k < before.routes@.len(),
    ensures
        success_recorded(before, after, before.routes@[i].id@) ==> {
            &&& before.schema >= 14 ==> after.routes@[i].health@.consecutive_failures == 0
            &&& after.routes@[i].health@.state == before.routes@[i].health@.state
            &&& after.routes@[i].health@.next_probe_at_ms
                == before.routes@[i].health@.next_probe_at_ms
            &&& k != i ==> after.routes@[k] == before.routes@[k]
        },
        checking_reset(before, after, before.routes@[i].id@) ==> {
            &&& after.routes@[i].health@.state == RouteHealth::Checking
            &&& after.routes@[i].health@.next_probe_at_ms is None
            &&& after.routes@[i].health@.failed_probe_count == 0
            &&& k != i ==> after.routes@[k] == before.routes@[k]
        },
{
    lemma_route_found(before, i);
}

/// What is said of a route that is not there changes nothing.
pub proof fn law_unknown_routes_change_nothing(
    before: Store,
    after: Store,
    r: Result<bool, StoreError>,
    probe: Result<ProbeConfiguration, StoreError>,
    route_id: Seq<char>,
    category: Seq<char>,
    quarantine_epoch: i64,
    available: bool,
    http_status: Option<i64>,
    clocks: Clocks,
)
    requires
        forall|k: int|
            0 <= k < before.routes@.len() ==> (#[trigger] before.routes@[k]).id@ != route_id,
    ensures
        probe_recorded(
            before,
            after,
            r,
            route_id,
            quarantine_epoch,
            available,
            http_status,
            clocks,
        ) ==> r is Err && after == before,
        failure_recorded(before, after, r, route_id, category, http_status, clocks) ==> after
            == before && (before.schema >= 14 ==> r is Err) && (before.schema < 14 ==> r is Ok
            && !r->Ok_0),
        success_recorded(before, after, route_id) ==> after == before,
        checking_reset(before, after, route_id) ==> after == before,
        route_probe(before, probe, route_id) ==> probe is Err && probe->Err_0@.message
            == "model route does not exist"@,
{
    lemma_find(before.routes@, route_with(route_id));
    if let Some(k) = route_at(before.routes@, route_id) {
        assert(before.routes@[k].id@ == route_id);
    }
}

/// The probe of a route asks for its model in its protocol through its
/// provider.
pub proof fn law_a_route_is_probed_through_its_provider(
    store: Store,
    probe: Result<ProbeConfiguration, StoreError>,
    i: int,
    p: int,
)
    requires
        store.wf(),
        0 <= i < store.routes@.len(),
        0 <= p < store.providers@.len(),
        store.providers@[p].id@ == store.routes@[i].provider_id@,
        route_probe(store, probe, store.routes@[i].id@),
    ensures
        probe matches Ok(asked) && asked.route_id@ == store.routes@[i].id@ && asked.base_url@
            == store.providers@[p].base_url@ && asked.api_key@ == store.providers@[p].api_key@
            && asked.upstream_model_name@ == store.routes@[i].upstream_model_name@
            && asked.protocol@ == store.routes@[i].protocol@,
{
    lemma_route_found(store, i);
    assert forall|q: int| 0 <= q < p implies !(provider_with(store.providers@[p].id@))(
        #[trigger] store.providers@[q],
    ) by {
        assert(store.providers@[q].id@ != store.providers@[p].id@);
    }
    lemma_found(store.providers@, provider_with(store.providers@[p].id@), p);
}

/// New settings are in force, with what was left out as it was; routes keep
/// their states, and routes that are not unavailable all of their health.
pub proof fn law_settings_reach_the_routes(
    before: Store,
    after: Store,
    r: Result<(), StoreError>,
    request: SettingsRequest,
    clocks: Clocks,
    k: int,
)
    requires
        settings_updated(before, after, r, request, clocks),
        0 <= k < before.routes@.len(),
    ensures
        r is Err ==> after == before,
        r is Ok ==> {
            &&& after.settings == requested_settings(before.settings, request)
            &&& after.routes@.len() == before.routes@.len()
            &&& after.routes@[k].id == before.routes@[k].id
            &&& after.routes@[k].health@.state == before.routes@[k].health@.state
            &&& before.routes@[k].health@.state != RouteHealth::Unavailable
                ==> after.routes@[k].health@ == before.routes@[k].health@
            &&& after.providers == before.providers && after.models == before.models && after.keys
                == before.keys
        },
        r is Ok <==> settings_refusal(requested_settings(before.settings, request)) is None,
{
    if r is Ok {
        assert(health_apart(before.routes@[k], after.routes@[k]));
    }
}

/// Starting anew has every route checked.
pub proof fn law_routes_start_unchecked(schema: int, route: RouteRow)
    ensures
        all_rechecked(schema)(route).state == RouteHealth::Checking,
        all_rechecked(schema)(route).next_probe_at_ms is None,
        all_rechecked(schema)(route).failure_category is None,
        all_rechecked(schema)(route).failed_probe_count == 0,
{
}

} // verus!
