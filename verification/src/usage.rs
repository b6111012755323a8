//! Accounting of usage: costs, daily totals, windows, and the gaps in what is
//! known.

use crate::find::{find, lemma_find, lemma_found};
use crate::order::{
    in_order, lemma_ranked, lemma_text_order, ranked, sort_ranked, text_at_most, text_le, Ranked,
};
use crate::protocol::Usage;
use crate::recorder::{ModelRouteAttempt, NewCallRecord};
use crate::store::{route_at, route_with, ModelRow, Store};
use crate::text::same_text;
use crate::timeutil::{date_key, day_of_instant, is_date_key};
use vstd::prelude::*;
use vstd::string::*;

verus! {

pub const OPERATIONAL_CATEGORY_CALL_RECORDS: &'static str = "call_records";

pub const OPERATIONAL_CATEGORY_ROUTE_HEALTH: &'static str = "route_health";

pub const USAGE_GAP_KIND_PERSISTENCE: &'static str = "persistence";

pub const USAGE_GAP_KIND_MISSING_UPSTREAM_USAGE: &'static str = "missing_upstream_usage";

/// Whether a recorded attempt succeeded.
pub open spec fn attempt_succeeded() -> spec_fn(ModelRouteAttempt) -> bool {
    |attempt: ModelRouteAttempt| attempt.outcome@ == "success"@
}

/// Where the first recorded attempt that succeeded stands.
pub fn successful_attempt(record: &NewCallRecord) -> (r: Option<usize>)
    ensures
        r is Some <==> find(record.attempts@, attempt_succeeded()) is Some,
        r matches Some(i) ==> find(record.attempts@, attempt_succeeded()) == Some(i as int) && i
            < record.attempts@.len(),
{
    let ghost wanted = attempt_succeeded();
    let mut i: usize = 0;
    while i < record.attempts.len()
        invariant
            i <= record.attempts@.len(),
            wanted == attempt_succeeded(),
            forall|k: int| 0 <= k < i ==> !wanted(#[trigger] record.attempts@[k]),
        decreases record.attempts@.len() - i,
    {
        if same_text(record.attempts[i].outcome.as_str(), "success") {
            proof {
                lemma_found(record.attempts@, wanted, i as int);
            }
            return Some(i);
        }
        i = i + 1;
    }
    proof {
        lemma_found(record.attempts@, wanted, i as int);
    }
    None
}

/// What the cost of a call is made of: tokens, prices in millionths per million
/// tokens, and the route's multiplier in millionths. The cost is
/// `(uncached * input price + cached * cached price + output * output price)
/// * multiplier`, divided by ten to the power 18.
#[derive(Debug, Clone, Copy, PartialEq, Eq, Structural)]
pub struct CostParts {
    pub uncached_tokens: i64,
    pub cached_tokens: i64,
    pub output_tokens: i64,
    pub input_price_micros: i64,
    pub cached_input_price_micros: i64,
    pub output_price_micros: i64,
    pub cost_multiplier_micros: i64,
}

/// Whether a model has a name.
pub open spec fn model_named(name: Seq<char>) -> spec_fn(ModelRow) -> bool {
    |model: ModelRow| model.name@ == name
}

/// What the cost of a recorded call is made of. It is unknown for a call that
/// failed, without usage, without a successful attempt, and where the route or
/// the model is gone.
pub open spec fn cost_parts(store: Store, record: NewCallRecord) -> Option<CostParts> {
    match (record.succeeded, record.usage, find(record.attempts@, attempt_succeeded())) {
        (true, Some(usage), Some(a)) => match (
            route_at(store.routes@, record.attempts@[a].route_id@),
            find(store.models@, model_named(record.published_model_name@)),
        ) {
            (Some(r), Some(m)) => Some(
                CostParts {
                    uncached_tokens: (if usage.input_tokens > usage.cached_input_tokens {
                        usage.input_tokens - usage.cached_input_tokens
                    } else {
                        0
                    }) as i64,
                    cached_tokens: usage.cached_input_tokens,
                    output_tokens: usage.output_tokens,
                    input_price_micros: store.models@[m].input_price_micros,
                    cached_input_price_micros: store.models@[m].cached_input_price_micros,
                    output_price_micros: store.models@[m].output_price_micros,
                    cost_multiplier_micros: store.routes@[r].cost_multiplier_micros,
                },
            ),
            _ => None,
        },
        _ => None,
    }
}

/// Whether the uncached tokens of a usage can be counted.
pub open spec fn usage_fits(usage: Option<Usage>) -> bool {
    usage matches Some(u) ==> u.input_tokens - u.cached_input_tokens <= i64::MAX
}

impl Store {
    /// Where the model with a name stands.
    fn find_model_named(&self, name: &str) -> (r: Option<usize>)
        ensures
            r is Some <==> find(self.models@, model_named(name@)) is Some,
            r matches Some(i) ==> find(self.models@, model_named(name@)) == Some(i as int) && i
                < self.models@.len(),
    {
        let ghost wanted = model_named(name@);
        let mut i: usize = 0;
        while i < self.models.len()
            invariant
                i <= self.models@.len(),
                wanted == model_named(name@),
                forall|k: int| 0 <= k < i ==> !wanted(#[trigger] self.models@[k]),
            decreases self.models@.len() - i,
        {
            if same_text(self.models[i].name.as_str(), name) {
                proof {
                    lemma_found(self.models@, wanted, i as int);
                }
                return Some(i);
            }
            i = i + 1;
        }
        proof {
            lemma_found(self.models@, wanted, i as int);
        }
        None
    }

    /// What the cost of a recorded call is made of, by the prices in force.
    pub fn call_cost_parts(&self, record: &NewCallRecord) -> (r: Option<CostParts>)
        requires
            usage_fits(record.usage),
        ensures
            r == cost_parts(*self, *record),
    {
        if !record.succeeded {
            return None;
        }
        let usage = match record.usage {
            Some(usage) => usage,
            None => {
                return None;
            },
        };
        let a: usize = match successful_attempt(record) {
            Some(a) => a,
            None => {
                return None;
            },
        };
        let route: usize = match self.find_route(record.attempts[a].route_id.as_str()) {
            Some(route) => route,
            None => {
                return None;
            },
        };
        let model: usize = match self.find_model_named(record.published_model_name.as_str()) {
            Some(model) => model,
            None => {
                return None;
            },
        };
        let uncached_tokens: i64 = if usage.input_tokens > usage.cached_input_tokens {
            usage.input_tokens - usage.cached_input_tokens
        } else {
            0
        };
        Some(
            CostParts {
                uncached_tokens,
                cached_tokens: usage.cached_input_tokens,
                output_tokens: usage.output_tokens,
                input_price_micros: self.models[model].input_price_micros,
                cached_input_price_micros: self.models[model].cached_input_price_micros,
                output_price_micros: self.models[model].output_price_micros,
                cost_multiplier_micros: self.routes[route].cost_multiplier_micros,
            },
        )
    }
}

/// The share of a call in the totals of a day, or such totals.
#[derive(Debug, Clone)]
pub struct DailyEntry {
    pub day: String,
    pub published_model_name: String,
    pub provider_id: String,
    pub provider_name: String,
    pub usage: Usage,
}

/// Whether `r` is the share of a recorded call in the totals of its day.
pub open spec fn daily_share(r: Option<DailyEntry>, record: NewCallRecord, cost_known: bool) -> bool {
    &&& r is Some <==> cost_known && record.usage is Some && find(
        record.attempts@,
        attempt_succeeded(),
    ) is Some
    &&& r matches Some(entry) ==> {
        let success = record.attempts@[find(record.attempts@, attempt_succeeded())->0];
        &&& is_date_key(entry.day@, day_of_instant(record.created_at_ms as int))
        &&& entry.published_model_name == record.published_model_name
        &&& entry.provider_id == success.provider_id
        &&& entry.provider_name == success.provider_name
        &&& entry.usage == record.usage->0
    }
}

/// The share of a recorded call in the totals of its day: that of a call whose
/// cost is known, under the provider that served it.
pub fn daily_entry(record: &NewCallRecord, cost_known: bool) -> (r: Option<DailyEntry>)
    ensures
        daily_share(r, *record, cost_known),
{
    if !cost_known {
        return None;
    }
    match (record.usage, successful_attempt(record)) {
        (Some(usage), Some(a)) => Some(
            DailyEntry {
                day: date_key(record.created_at_ms),
                published_model_name: record.published_model_name.clone(),
                provider_id: record.attempts[a].provider_id.clone(),
                provider_name: record.attempts[a].provider_name.clone(),
                usage,
            },
        ),
        _ => None,
    }
}

/// The look-back of a usage window in milliseconds; none for all time.
pub open spec fn window_span(window: Seq<char>) -> Option<i64> {
    if window == "1h"@ {
        Some(3_600_000)
    } else if window == "5h"@ {
        Some(18_000_000)
    } else if window == "24h"@ {
        Some(86_400_000)
    } else if window == "7d"@ {
        Some(604_800_000)
    } else if window == "14d"@ {
        Some(1_209_600_000)
    } else {
        None
    }
}

/// The look-back of a usage window in milliseconds; none for all time.
pub fn window_span_ms(window: &str) -> (r: Option<i64>)
    ensures
        r == window_span(window@),
{
    if same_text(window, "1h") {
        Some(3_600_000)
    } else if same_text(window, "5h") {
        Some(18_000_000)
    } else if same_text(window, "24h") {
        Some(86_400_000)
    } else if same_text(window, "7d") {
        Some(604_800_000)
    } else if same_text(window, "14d") {
        Some(1_209_600_000)
    } else {
        None
    }
}

/// Whether a window is one of the six.
pub open spec fn known_window(window: Seq<char>) -> bool {
    window == "1h"@ || window == "5h"@ || window == "24h"@ || window == "7d"@ || window == "14d"@
        || window == "all"@
}

/// The window asked for, where it is one of the six, else 24 hours.
pub open spec fn window_asked_for(raw: Option<Seq<char>>) -> Seq<char> {
    match raw {
        Some(window) => if known_window(window) {
            window
        } else {
            "24h"@
        },
        None => "24h"@,
    }
}

/// The window asked for, where it is one of the six, else 24 hours.
pub fn normalize_usage_window(raw: Option<&str>) -> (r: String)
    ensures
        r@ == window_asked_for(
            match raw {
                Some(window) => Some(window@),
                None => None,
            },
        ),
{
    match raw {
        Some(window) => if same_text(window, "1h") || same_text(window, "5h") || same_text(
            window,
            "24h",
        ) || same_text(window, "7d") || same_text(window, "14d") || same_text(window, "all") {
            window.to_owned()
        } else {
            "24h".to_owned()
        },
        None => "24h".to_owned(),
    }
}

/// A known gap in the usage.
#[derive(Debug, Clone)]
pub struct UsageGap {
    pub kind: &'static str,
    pub category: String,
    pub started_at_ms: i64,
    pub ended_at_ms: Option<i64>,
    pub lost_records: i64,
}

impl Ranked for UsageGap {
    open spec fn rank_le(self, other: Self) -> bool {
        self.started_at_ms < other.started_at_ms || (self.started_at_ms == other.started_at_ms
            && text_le(self.category@, other.category@))
    }

    proof fn lemma_rank_order(a: Self, b: Self, c: Self) {
        lemma_text_order(a.category@, b.category@, c.category@);
    }

    fn at_most(&self, other: &Self) -> (r: bool) {
        self.started_at_ms < other.started_at_ms || (self.started_at_ms == other.started_at_ms
            && text_at_most(self.category.as_str(), other.category.as_str()))
    }
}

/// Whether the gap of a category is still open.
pub open spec fn open_gap(gap: UsageGap, category: Seq<char>) -> bool {
    gap.category@ == category && gap.ended_at_ms is None
}

/// Whether any gap of a category is still open.
pub open spec fn has_open_gap(gaps: Seq<UsageGap>, category: Seq<char>) -> bool {
    exists|i: int| 0 <= i < gaps.len() && open_gap(#[trigger] gaps[i], category)
}

/// A gap with one record more lost, where it is open.
pub open spec fn widened(gap: UsageGap, category: Seq<char>) -> UsageGap {
    if open_gap(gap, category) {
        UsageGap { lost_records: (gap.lost_records + 1) as i64, ..gap }
    } else {
        gap
    }
}

/// A gap closed at a time, where it is open.
pub open spec fn closed(gap: UsageGap, category: Seq<char>, at_ms: i64) -> UsageGap {
    if open_gap(gap, category) {
        UsageGap { ended_at_ms: Some(at_ms), ..gap }
    } else {
        gap
    }
}

/// Whether a gap of a category is still open.
fn is_open_gap(gap: &UsageGap, category: &str) -> (r: bool)
    ensures
        r == open_gap(*gap, category@),
{
    gap.ended_at_ms.is_none() && same_text(gap.category.as_str(), category)
}

/// The gaps after a record of a category was lost: the open gap of the category
/// widens; where there is none, one opens.
pub open spec fn with_lost_record(
    before: Seq<UsageGap>,
    after: Seq<UsageGap>,
    category: Seq<char>,
    now_ms: i64,
) -> bool {
    if has_open_gap(before, category) {
        after == before.map_values(|gap: UsageGap| widened(gap, category))
    } else {
        let opened = after.last();
        &&& after == before.push(opened)
        &&& opened.kind@ == "persistence"@
        &&& opened.category@ == category
        &&& opened.started_at_ms == now_ms
        &&& opened.ended_at_ms is None
        &&& opened.lost_records == 1
    }
}

/// The gaps after a record of a category was kept: its open gaps are closed.
pub open spec fn with_kept_record(gaps: Seq<UsageGap>, category: Seq<char>, at_ms: i64) -> Seq<
    UsageGap,
> {
    gaps.map_values(|gap: UsageGap| closed(gap, category, at_ms))
}

/// Takes in a record that was lost: the open gap of its category widens; where
/// there is none, one opens. The answer says whether one opened.
pub fn record_usage_gap(gaps: &mut Vec<UsageGap>, category: &str, now_ms: i64) -> (r: bool)
    requires
        forall|i: int| 0 <= i < old(gaps)@.len() ==> (#[trigger] old(gaps)@[i]).lost_records < i64::MAX,
    ensures
        r == !has_open_gap(old(gaps)@, category@),
        with_lost_record(old(gaps)@, final(gaps)@, category@, now_ms),
{
    let ghost before = gaps@;
    let total: usize = gaps.len();
    let mut found = false;
    for i in 0..total
        invariant
            gaps@.len() == before.len() == total,
            forall|k: int| 0 <= k < before.len() ==> (#[trigger] before[k]).lost_records < i64::MAX,
            forall|k: int| 0 <= k < i ==> #[trigger] gaps@[k] == widened(before[k], category@),
            forall|k: int| i <= k < total ==> #[trigger] gaps@[k] == before[k],
            found == exists|k: int| 0 <= k < i && open_gap(#[trigger] before[k], category@),
    {
        if is_open_gap(&gaps[i], category) {
            proof {
                assert(open_gap(before[i as int], category@));
                assert(before[i as int].lost_records < i64::MAX);
            }
            let lost: i64 = gaps[i].lost_records + 1;
            gaps[i].lost_records = lost;
            found = true;
        }
    }
    if found {
        proof {
            assert(gaps@ =~= before.map_values(|gap: UsageGap| widened(gap, category@)));
        }
        false
    } else {
        proof {
            assert forall|k: int| 0 <= k < total implies gaps@[k] == before[k] by {
                assert(gaps@[k] == widened(before[k], category@));
            }
            assert(gaps@ =~= before);
        }
        gaps.push(
            UsageGap {
                kind: USAGE_GAP_KIND_PERSISTENCE,
                category: category.to_owned(),
                started_at_ms: now_ms,
                ended_at_ms: None,
                lost_records: 1,
            },
        );
        true
    }
}

/// Takes in a record of a category that was kept: its open gaps close. The
/// answer says whether any did.
pub fn close_usage_gaps(gaps: &mut Vec<UsageGap>, category: &str, at_ms: i64) -> (r: bool)
    ensures
        r == has_open_gap(old(gaps)@, category@),
        final(gaps)@ == with_kept_record(old(gaps)@, category@, at_ms),
{
    let ghost before = gaps@;
    let total: usize = gaps.len();
    let mut found = false;
    for i in 0..total
        invariant
            gaps@.len() == before.len() == total,
            forall|k: int| 0 <= k < i ==> #[trigger] gaps@[k] == closed(before[k], category@, at_ms),
            forall|k: int| i <= k < total ==> #[trigger] gaps@[k] == before[k],
            found == exists|k: int| 0 <= k < i && open_gap(#[trigger] before[k], category@),
    {
        if is_open_gap(&gaps[i], category) {
            proof {
                assert(open_gap(before[i as int], category@));
            }
            gaps[i].ended_at_ms = Some(at_ms);
            found = true;
        }
    }
    proof {
        assert(gaps@ =~= before.map_values(|gap: UsageGap| closed(gap, category@, at_ms)));
    }
    found
}

/// A gap stays on record when it is closed, with the records that it lost; and
/// once its category is closed no gap of it is open.
pub proof fn law_gaps_are_kept(gap: UsageGap, category: Seq<char>, at_ms: i64)
    ensures
        closed(gap, category, at_ms).started_at_ms == gap.started_at_ms,
        closed(gap, category, at_ms).lost_records == gap.lost_records,
        !open_gap(closed(gap, category, at_ms), category),
        gap.ended_at_ms is Some ==> closed(gap, category, at_ms) == gap,
{
}

/// Whether a gap falls into a window that looks back `span` from `now`.
pub open spec fn gap_in_window(gap: UsageGap, span: Option<i64>, now_ms: int) -> bool {
    match span {
        None => true,
        Some(length) => gap.started_at_ms < now_ms && (gap.ended_at_ms matches Some(end) ==> end
            >= now_ms - length),
    }
}

/// Whether a call falls into a window.
pub open spec fn call_in_window(created_at_ms: int, span: Option<i64>, now_ms: int) -> bool {
    match span {
        None => true,
        Some(length) => created_at_ms >= now_ms - length,
    }
}

/// The gaps among the first `n` that fall into a window.
pub open spec fn gaps_upto(gaps: Seq<UsageGap>, span: Option<i64>, now_ms: int, n: int) -> Seq<UsageGap>
    decreases n,
{
    if n <= 0 {
        Seq::empty()
    } else {
        let before = gaps_upto(gaps, span, now_ms, n - 1);
        if gap_in_window(gaps[n - 1], span, now_ms) {
            before.push(gaps[n - 1])
        } else {
            before
        }
    }
}

/// The calls among the first `n` that fall into a window.
pub open spec fn calls_upto(calls: Seq<i64>, span: Option<i64>, now_ms: int, n: int) -> Seq<i64>
    decreases n,
{
    if n <= 0 {
        Seq::empty()
    } else {
        let before = calls_upto(calls, span, now_ms, n - 1);
        if call_in_window(calls[n - 1] as int, span, now_ms) {
            before.push(calls[n - 1])
        } else {
            before
        }
    }
}

/// Whether a gap is that of a call whose upstream reported no usage.
pub open spec fn missing_usage_gap(gap: UsageGap, created_at_ms: i64) -> bool {
    &&& gap.kind@ == "missing_upstream_usage"@
    &&& gap.category@ == "upstream_usage"@
    &&& gap.started_at_ms == created_at_ms
    &&& gap.ended_at_ms == Some(created_at_ms)
    &&& gap.lost_records == 1
}

/// Whether `found` are the gaps in a window, before they are ordered: the kept
/// ones, then one for each call without usage.
pub open spec fn window_gaps(
    found: Seq<UsageGap>,
    kept: Seq<UsageGap>,
    unreported: Seq<i64>,
    span: Option<i64>,
    now_ms: int,
) -> bool {
    let gaps = gaps_upto(kept, span, now_ms, kept.len() as int);
    let calls = calls_upto(unreported, span, now_ms, unreported.len() as int);
    &&& found.len() == gaps.len() + calls.len()
    &&& found.take(gaps.len() as int) == gaps
    &&& forall|i: int|
        0 <= i < calls.len() ==> missing_usage_gap(#[trigger] found[gaps.len() + i], calls[i])
}

/// A copy of a gap.
fn copy_gap(gap: &UsageGap) -> (r: UsageGap)
    ensures
        r == *gap,
{
    UsageGap {
        kind: gap.kind,
        category: gap.category.clone(),
        started_at_ms: gap.started_at_ms,
        ended_at_ms: gap.ended_at_ms,
        lost_records: gap.lost_records,
    }
}

/// The gaps in a window that looks back `span` from `now_ms`, by their
/// beginning, then by category: the kept ones, and one for each successful call
/// whose upstream reported no usage.
pub fn collect_usage_gaps(
    kept: &Vec<UsageGap>,
    unreported: &Vec<i64>,
    span: Option<i64>,
    now_ms: i64,
) -> (r: Vec<UsageGap>)
    ensures
        exists|found: Seq<UsageGap>|
            window_gaps(found, kept@, unreported@, span, now_ms as int) && r@ == #[trigger] ranked(
                found,
            ),
{
    let mut found: Vec<UsageGap> = Vec::new();
    for i in 0..kept.len()
        invariant
            found@ == gaps_upto(kept@, span, now_ms as int, i as int),
    {
        let gap = &kept[i];
        let inside = match span {
            None => true,
            Some(length) => gap.started_at_ms < now_ms && match gap.ended_at_ms {
                Some(end) => end as i128 >= now_ms as i128 - length as i128,
                None => true,
            },
        };
        if inside {
            found.push(copy_gap(gap));
        }
    }
    let ghost gaps = found@;
    proof {
        assert(found@.take(gaps.len() as int) =~= gaps);
    }
    for i in 0..unreported.len()
        invariant
            gaps == gaps_upto(kept@, span, now_ms as int, kept@.len() as int),
            found@.len() == gaps.len() + calls_upto(
                unreported@,
                span,
                now_ms as int,
                i as int,
            ).len(),
            found@.take(gaps.len() as int) == gaps,
            forall|k: int|
                0 <= k < calls_upto(unreported@, span, now_ms as int, i as int).len()
                    ==> missing_usage_gap(
                    #[trigger] found@[gaps.len() + k],
                    calls_upto(unreported@, span, now_ms as int, i as int)[k],
                ),
    {
        let created_at_ms: i64 = unreported[i];
        let inside = match span {
            None => true,
            Some(length) => created_at_ms as i128 >= now_ms as i128 - length as i128,
        };
        if inside {
            let ghost before = found@;
            found.push(
                UsageGap {
                    kind: USAGE_GAP_KIND_MISSING_UPSTREAM_USAGE,
                    category: "upstream_usage".to_owned(),
                    started_at_ms: created_at_ms,
                    ended_at_ms: Some(created_at_ms),
                    lost_records: 1,
                },
            );
            proof {
                assert(found@.take(gaps.len() as int) =~= gaps);
                let calls = calls_upto(unreported@, span, now_ms as int, i as int);
                let now_calls = calls_upto(unreported@, span, now_ms as int, i + 1);
                assert forall|k: int| 0 <= k < now_calls.len() implies missing_usage_gap(
                    #[trigger] found@[gaps.len() + k],
                    now_calls[k],
                ) by {
                    if k < calls.len() {
                        assert(found@[gaps.len() + k] == before[gaps.len() + k]);
                        assert(now_calls[k] == calls[k]);
                    }
                }
            }
        }
    }
    let ghost all = found@;
    proof {
        assert(window_gaps(all, kept@, unreported@, span, now_ms as int));
    }
    sort_ranked(found)
}

/// Whether the usage of a window is all known, and the gaps where it is not.
#[derive(Debug, Clone)]
pub struct UsageIntegrity {
    pub complete: bool,
    pub gaps: Vec<UsageGap>,
}

/// Whether the usage of a window is all known.
pub fn usage_integrity(
    kept: &Vec<UsageGap>,
    unreported: &Vec<i64>,
    window: &str,
    now_ms: i64,
) -> (r: UsageIntegrity)
    ensures
        exists|found: Seq<UsageGap>|
            window_gaps(found, kept@, unreported@, window_span(window@), now_ms as int)
                && r.gaps@ == #[trigger] ranked(found),
        r.complete <==> r.gaps@.len() == 0,
{
    let gaps = collect_usage_gaps(kept, unreported, window_span_ms(window), now_ms);
    UsageIntegrity { complete: gaps.len() == 0, gaps }
}

/// Whether the usage of all time is known.
pub fn usage_integrity_all(kept: &Vec<UsageGap>, unreported: &Vec<i64>) -> (r: UsageIntegrity)
    ensures
        exists|found: Seq<UsageGap>|
            window_gaps(found, kept@, unreported@, None, 0) && r.gaps@ == #[trigger] ranked(found),
        r.complete <==> r.gaps@.len() == 0,
{
    let gaps = collect_usage_gaps(kept, unreported, None, 0);
    UsageIntegrity { complete: gaps.len() == 0, gaps }
}

/// Usage is complete for all time exactly when no gap is on record and no
/// successful call lacks its usage; closing a gap does not make it complete.
pub proof fn law_gaps_are_never_forgotten(
    found: Seq<UsageGap>,
    kept: Seq<UsageGap>,
    unreported: Seq<i64>,
)
    requires
        window_gaps(found, kept, unreported, None, 0),
    ensures
        ranked(found).len() == kept.len() + unreported.len(),
{
    lemma_all_gaps(kept, kept.len() as int);
    lemma_all_calls(unreported, unreported.len() as int);
    lemma_ranked(found);
}

proof fn lemma_all_gaps(kept: Seq<UsageGap>, n: int)
    requires
        0 <= n <= kept.len(),
    ensures
        gaps_upto(kept, None, 0, n).len() == n,
    decreases n,
{
    if n > 0 {
        lemma_all_gaps(kept, n - 1);
    }
}

proof fn lemma_all_calls(calls: Seq<i64>, n: int)
    requires
        0 <= n <= calls.len(),
    ensures
        calls_upto(calls, None, 0, n).len() == n,
    decreases n,
{
    if n > 0 {
        lemma_all_calls(calls, n - 1);
    }
}

/// Whether a gap is one of records that could not be kept, and still open.
pub open spec fn still_losing(gap: UsageGap) -> bool {
    gap.kind@ == "persistence"@ && gap.ended_at_ms is None
}

/// The places of the gaps among the first `n` that are still open.
pub open spec fn losing_upto(gaps: Seq<UsageGap>, n: int) -> Seq<usize>
    decreases n,
{
    if n <= 0 {
        Seq::empty()
    } else {
        let before = losing_upto(gaps, n - 1);
        if still_losing(gaps[n - 1]) {
            before.push((n - 1) as usize)
        } else {
            before
        }
    }
}

/// The places of the gaps of records that could not be kept and that are still
/// open.
pub fn accounting_gaps(gaps: &Vec<UsageGap>) -> (r: Vec<usize>)
    ensures
        r@ == losing_upto(gaps@, gaps@.len() as int),
{
    let mut out: Vec<usize> = Vec::new();
    for i in 0..gaps.len()
        invariant
            out@ == losing_upto(gaps@, i as int),
    {
        if gaps[i].ended_at_ms.is_none() && same_text(gaps[i].kind, USAGE_GAP_KIND_PERSISTENCE) {
            out.push(i);
        }
    }
    out
}

/// What is said of the usage as a whole.
pub open spec fn usage_name(gaps: int, has_data: bool) -> Seq<char> {
    if gaps > 0 {
        "incomplete"@
    } else if has_data {
        "complete"@
    } else {
        "no_data"@
    }
}

/// What is said of the usage as a whole.
pub fn usage_state(gaps: usize, has_data: bool) -> (r: &'static str)
    ensures
        r@ == usage_name(gaps as int, has_data),
{
    if gaps > 0 {
        "incomplete"
    } else if has_data {
        "complete"
    } else {
        "no_data"
    }
}

/// The time before which records have outlived their retention.
pub fn expiry_cutoff(now_ms: i64, retention_ms: i64) -> (r: i64)
    requires
        retention_ms >= 0,
    ensures
        forall|created_at_ms: i64|
            created_at_ms < r <==> #[trigger] outlived_record(
                created_at_ms as int,
                now_ms as int,
                retention_ms as int,
            ),
{
    let cutoff: i128 = now_ms as i128 - retention_ms as i128;
    if cutoff < -0x8000_0000_0000_0000 {
        -0x8000_0000_0000_0000
    } else {
        cutoff as i64
    }
}

/// Whether a record has outlived its retention.
pub open spec fn outlived_record(created_at_ms: int, now_ms: int, retention_ms: int) -> bool {
    created_at_ms < now_ms - retention_ms
}

/// The usage of one model through one provider.
#[derive(Debug)]
pub struct UsageRow {
    pub published_model_name: String,
    pub provider_id: String,
    pub provider_name: String,
    pub usage: Usage,
}

/// Totals of tokens.
#[derive(Debug, Clone, Copy, PartialEq, Eq, Structural)]
pub struct TokenTotals {
    pub input_tokens: i128,
    pub cached_input_tokens: i128,
    pub output_tokens: i128,
}

/// The sum of the input tokens, cached input tokens and output tokens of the
/// rows of a model among the first `n`; of all rows for no model.
pub open spec fn token_sum(rows: Seq<UsageRow>, model: Option<Seq<char>>, n: int) -> (int, int, int)
    decreases n,
{
    if n <= 0 {
        (0, 0, 0)
    } else {
        let (i, c, o) = token_sum(rows, model, n - 1);
        let row = rows[n - 1];
        if model is None || model == Some(row.published_model_name@) {
            (
                i + row.usage.input_tokens,
                c + row.usage.cached_input_tokens,
                o + row.usage.output_tokens,
            )
        } else {
            (i, c, o)
        }
    }
}

/// The places of the rows of a model among the first `n`.
pub open spec fn rows_of(rows: Seq<UsageRow>, model: Seq<char>, n: int) -> Seq<usize>
    decreases n,
{
    if n <= 0 {
        Seq::empty()
    } else {
        let before = rows_of(rows, model, n - 1);
        if rows[n - 1].published_model_name@ == model {
            before.push((n - 1) as usize)
        } else {
            before
        }
    }
}

/// The share of one model: its totals, and the places of its rows.
#[derive(Debug)]
pub struct ModelShare {
    pub published_model_name: String,
    pub tokens: TokenTotals,
    pub rows: Vec<usize>,
}

/// Totals as numbers.
pub open spec fn totals_are(tokens: TokenTotals, sum: (int, int, int)) -> bool {
    tokens.input_tokens == sum.0 && tokens.cached_input_tokens == sum.1 && tokens.output_tokens
        == sum.2
}

/// Whether a model has a share.
pub open spec fn has_share(models: Seq<ModelShare>, name: Seq<char>) -> bool {
    exists|i: int| 0 <= i < models.len() && (#[trigger] models[i]).published_model_name@ == name
}

/// Whether shares divide the first `n` rows by model: no model has two shares,
/// each has the totals and the places of the model's rows, and every row has
/// its share. The shares stand in the order in which their models first came.
pub open spec fn divided(models: Seq<ModelShare>, rows: Seq<UsageRow>, n: int) -> bool {
    &&& forall|i: int, j: int|
        0 <= i < j < models.len() ==> (#[trigger] models[i]).published_model_name@ != (
        #[trigger] models[j]).published_model_name@ && models[i].rows@[0] < models[j].rows@[0]
    &&& forall|i: int|
        0 <= i < models.len() ==> {
            let share = #[trigger] models[i];
            &&& share.rows@ == rows_of(rows, share.published_model_name@, n)
            &&& share.rows@.len() > 0
            &&& totals_are(share.tokens, token_sum(rows, Some(share.published_model_name@), n))
        }
    &&& forall|k: int|
        0 <= k < n ==> has_share(models, (#[trigger] rows[k]).published_model_name@)
}

/// Totals over rows of usage, and the share of each model.
#[derive(Debug)]
pub struct UsageShares {
    pub tokens: TokenTotals,
    pub models: Vec<ModelShare>,
}

/// A sum over rows is bounded by their number.
proof fn lemma_sum_bound(rows: Seq<UsageRow>, model: Option<Seq<char>>, n: int)
    requires
        0 <= n <= rows.len(),
        n < usize::MAX,
    ensures
        ({
            let (i, c, o) = token_sum(rows, model, n);
            let bound = n * 0x8000_0000_0000_0000;
            &&& -bound <= i <= bound
            &&& -bound <= c <= bound
            &&& -bound <= o <= bound
            &&& bound <= 0x7fff_ffff_ffff_ffff_0000_0000_0000_0000
        }),
    decreases n,
{
    if n > 0 {
        lemma_sum_bound(rows, model, n - 1);
    }
}

/// A model without rows has none, and no tokens.
proof fn lemma_no_rows(rows: Seq<UsageRow>, model: Seq<char>, n: int)
    requires
        0 <= n <= rows.len(),
        forall|k: int| 0 <= k < n ==> (#[trigger] rows[k]).published_model_name@ != model,
    ensures
        rows_of(rows, model, n) == Seq::<usize>::empty(),
        token_sum(rows, Some(model), n) == (0int, 0int, 0int),
    decreases n,
{
    if n > 0 {
        assert(rows[n - 1].published_model_name@ != model);
        lemma_no_rows(rows, model, n - 1);
    }
}

/// The places of rows come before the end.
proof fn lemma_rows_below(rows: Seq<UsageRow>, model: Seq<char>, n: int)
    requires
        0 <= n <= rows.len(),
        n <= usize::MAX,
    ensures
        forall|k: int| 0 <= k < rows_of(rows, model, n).len() ==> (#[trigger] rows_of(
            rows,
            model,
            n,
        )[k]) < n,
    decreases n,
{
    if n > 0 {
        lemma_rows_below(rows, model, n - 1);
        let before = rows_of(rows, model, n - 1);
        let now = rows_of(rows, model, n);
        assert forall|k: int| 0 <= k < now.len() implies (#[trigger] now[k]) < n by {
            if k < before.len() {
                assert(before[k] < n - 1);
            }
        }
    }
}

/// Tokens added to totals.
fn add_tokens(tokens: &TokenTotals, usage: &Usage) -> (r: TokenTotals)
    requires
        -0x7fff_ffff_ffff_ffff_0000_0000_0000_0000 <= tokens.input_tokens
            <= 0x7fff_ffff_ffff_ffff_0000_0000_0000_0000,
        -0x7fff_ffff_ffff_ffff_0000_0000_0000_0000 <= tokens.cached_input_tokens
            <= 0x7fff_ffff_ffff_ffff_0000_0000_0000_0000,
        -0x7fff_ffff_ffff_ffff_0000_0000_0000_0000 <= tokens.output_tokens
            <= 0x7fff_ffff_ffff_ffff_0000_0000_0000_0000,
    ensures
        r.input_tokens == tokens.input_tokens + usage.input_tokens,
        r.cached_input_tokens == tokens.cached_input_tokens + usage.cached_input_tokens,
        r.output_tokens == tokens.output_tokens + usage.output_tokens,
{
    TokenTotals {
        input_tokens: tokens.input_tokens + usage.input_tokens as i128,
        cached_input_tokens: tokens.cached_input_tokens + usage.cached_input_tokens as i128,
        output_tokens: tokens.output_tokens + usage.output_tokens as i128,
    }
}

/// Totals over rows of usage, and the share of each model.
pub fn usage_totals(rows: &Vec<UsageRow>) -> (r: UsageShares)
    ensures
        totals_are(r.tokens, token_sum(rows@, None, rows@.len() as int)),
        divided(r.models@, rows@, rows@.len() as int),
{
    let total: usize = rows.len();
    let mut tokens = TokenTotals { input_tokens: 0, cached_input_tokens: 0, output_tokens: 0 };
    let mut models: Vec<ModelShare> = Vec::new();
    for n in 0..total
        invariant
            total == rows@.len(),
            totals_are(tokens, token_sum(rows@, None, n as int)),
            divided(models@, rows@, n as int),
    {
        let row = &rows[n];
        let ghost before = models@;
        let ghost name = row.published_model_name@;
        proof {
            lemma_sum_bound(rows@, None, n as int);
            lemma_sum_bound(rows@, Some(name), n as int);
        }
        tokens = add_tokens(&tokens, &row.usage);
        let mut m: usize = 0;
        while m < models.len() && !same_text(
            models[m].published_model_name.as_str(),
            row.published_model_name.as_str(),
        )
            invariant
                m <= models@.len(),
                models@ == before,
                name == row.published_model_name@,
                forall|k: int|
                    0 <= k < m ==> (#[trigger] models@[k]).published_model_name@ != name,
            decreases models@.len() - m,
        {
            m = m + 1;
        }
        if m < models.len() {
            proof {
                assert(totals_are(
                    before[m as int].tokens,
                    token_sum(rows@, Some(before[m as int].published_model_name@), n as int),
                ));
            }
            let sum = add_tokens(&models[m].tokens, &row.usage);
            models[m].tokens = sum;
            models[m].rows.push(n);
            proof {
                assert(models@ =~= before.update(m as int, models@[m as int]));
            }
        } else {
            let mut own: Vec<usize> = Vec::new();
            own.push(n);
            let zero = TokenTotals { input_tokens: 0, cached_input_tokens: 0, output_tokens: 0 };
            models.push(
                ModelShare {
                    published_model_name: row.published_model_name.clone(),
                    tokens: add_tokens(&zero, &row.usage),
                    rows: own,
                },
            );
            proof {
                assert(models@ =~= before.push(models@[m as int]));
                assert(models@[m as int].rows@ =~= seq![n as usize]);
            }
        }
        proof {
            lemma_one_more_row(before, models@, rows@, n as int, m as int);
        }
    }
    UsageShares { tokens, models }
}

/// One row more is put into its model's share.
proof fn lemma_one_more_row(
    before: Seq<ModelShare>,
    after: Seq<ModelShare>,
    rows: Seq<UsageRow>,
    n: int,
    m: int,
)
    requires
        0 <= n < rows.len() <= usize::MAX,
        divided(before, rows, n),
        0 <= m <= before.len(),
        forall|k: int|
            0 <= k < m ==> (#[trigger] before[k]).published_model_name@
                != rows[n].published_model_name@,
        m < before.len() ==> {
            &&& before[m].published_model_name@ == rows[n].published_model_name@
            &&& after == before.update(m, after[m])
            &&& after[m].published_model_name == before[m].published_model_name
            &&& after[m].rows@ == before[m].rows@.push(n as usize)
            &&& after[m].tokens.input_tokens == before[m].tokens.input_tokens
                + rows[n].usage.input_tokens
            &&& after[m].tokens.cached_input_tokens == before[m].tokens.cached_input_tokens
                + rows[n].usage.cached_input_tokens
            &&& after[m].tokens.output_tokens == before[m].tokens.output_tokens
                + rows[n].usage.output_tokens
        },
        m == before.len() ==> {
            &&& after == before.push(after[m])
            &&& after[m].published_model_name@ == rows[n].published_model_name@
            &&& after[m].rows@ == seq![n as usize]
            &&& after[m].tokens.input_tokens == rows[n].usage.input_tokens
            &&& after[m].tokens.cached_input_tokens == rows[n].usage.cached_input_tokens
            &&& after[m].tokens.output_tokens == rows[n].usage.output_tokens
        },
    ensures
        divided(after, rows, n + 1),
{
    let name = rows[n].published_model_name@;
    if m == before.len() {
        assert forall|k: int| 0 <= k < n implies (#[trigger] rows[k]).published_model_name@
            != name by {
            assert(has_share(before, rows[k].published_model_name@));
            let i = choose|i: int|
                0 <= i < before.len() && (#[trigger] before[i]).published_model_name@
                    == rows[k].published_model_name@;
            assert(before[i].published_model_name@ != name);
        }
        lemma_no_rows(rows, name, n);
    }
    assert forall|i: int| 0 <= i < after.len() implies {
        let share = #[trigger] after[i];
        &&& share.rows@ == rows_of(rows, share.published_model_name@, n + 1)
        &&& share.rows@.len() > 0
        &&& totals_are(share.tokens, token_sum(rows, Some(share.published_model_name@), n + 1))
    } by {
        if i < before.len() {
            let was = before[i];
            assert(was.rows@ == rows_of(rows, was.published_model_name@, n));
            if i != m {
                assert(after[i] == was);
                assert(was.published_model_name@ != name) by {
                    if i > m {
                        assert(before[m].published_model_name@ != before[i].published_model_name@);
                    }
                }
            }
        } else {
            assert(Seq::<usize>::empty().push(n as usize) =~= seq![n as usize]);
        }
    }
    assert forall|i: int| 0 <= i < before.len() implies (#[trigger] after[i]).rows@[0]
        == before[i].rows@[0] && after[i].published_model_name@ == before[i].published_model_name@
        && before[i].rows@[0] < n by {
        assert(before[i].rows@ == rows_of(rows, before[i].published_model_name@, n));
        lemma_rows_below(rows, before[i].published_model_name@, n);
        if i != m {
            assert(after[i] == before[i]);
        }
    }
    assert forall|i: int, j: int| 0 <= i < j < after.len() implies (
    #[trigger] after[i]).published_model_name@ != (#[trigger] after[j]).published_model_name@
        && after[i].rows@[0] < after[j].rows@[0] by {
        assert(after[i].published_model_name@ == before[i].published_model_name@);
        if j < before.len() {
            assert(before[i].published_model_name@ != before[j].published_model_name@);
            assert(after[j].published_model_name@ == before[j].published_model_name@);
        } else {
            assert(before[i].published_model_name@ != name);
        }
    }
    assert forall|k: int| 0 <= k < n + 1 implies has_share(
        after,
        (#[trigger] rows[k]).published_model_name@,
    ) by {
        if k < n {
            assert(has_share(before, rows[k].published_model_name@));
            let i = choose|i: int|
                0 <= i < before.len() && (#[trigger] before[i]).published_model_name@
                    == rows[k].published_model_name@;
            assert(after[i].published_model_name@ == rows[k].published_model_name@);
        } else {
            assert(after[m].published_model_name@ == rows[k].published_model_name@);
        }
    }
}

/// The cost of a successful call is made of its tokens, of the prices of the
/// model that it asked for, and of the multiplier of the route of its first
/// successful attempt.
pub proof fn law_costs_are_made_of_the_prices_in_force(
    store: Store,
    record: NewCallRecord,
    usage: Usage,
    a: int,
    r: int,
    m: int,
)
    requires
        record.succeeded,
        record.usage == Some(usage),
        0 <= usage.cached_input_tokens <= usage.input_tokens,
        0 <= a < record.attempts@.len(),
        record.attempts@[a].outcome@ == "success"@,
        forall|k: int| 0 <= k < a ==> (#[trigger] record.attempts@[k]).outcome@ != "success"@,
        0 <= r < store.routes@.len(),
        store.routes@[r].id@ == record.attempts@[a].route_id@,
        forall|k: int| 0 <= k < r ==> (#[trigger] store.routes@[k]).id@ != store.routes@[r].id@,
        0 <= m < store.models@.len(),
        store.models@[m].name@ == record.published_model_name@,
        forall|k: int|
            0 <= k < m ==> (#[trigger] store.models@[k]).name@ != store.models@[m].name@,
    ensures
        cost_parts(store, record) matches Some(parts) && {
            &&& parts.uncached_tokens + parts.cached_tokens == usage.input_tokens
            &&& parts.cached_tokens == usage.cached_input_tokens
            &&& parts.output_tokens == usage.output_tokens
            &&& parts.input_price_micros == store.models@[m].input_price_micros
            &&& parts.cached_input_price_micros == store.models@[m].cached_input_price_micros
            &&& parts.output_price_micros == store.models@[m].output_price_micros
            &&& parts.cost_multiplier_micros == store.routes@[r].cost_multiplier_micros
        },
{
    lemma_found(record.attempts@, attempt_succeeded(), a);
    lemma_found(store.routes@, route_with(record.attempts@[a].route_id@), r);
    lemma_found(store.models@, model_named(record.published_model_name@), m);
}

/// A call that failed, one without usage and one without a successful attempt
/// have no known cost; where more tokens are cached than were sent, none counts
/// as uncached.
pub proof fn law_costs_that_are_unknown(store: Store, record: NewCallRecord)
    ensures
        !record.succeeded ==> cost_parts(store, record) is None,
        record.usage is None ==> cost_parts(store, record) is None,
        (forall|k: int|
            0 <= k < record.attempts@.len() ==> (#[trigger] record.attempts@[k]).outcome@
                != "success"@) ==> cost_parts(store, record) is None,
        (forall|k: int|
            0 <= k < store.models@.len() ==> (#[trigger] store.models@[k]).name@
                != record.published_model_name@) ==> cost_parts(store, record) is None,
        cost_parts(store, record) matches Some(parts) ==> (record.usage matches Some(usage)
            && (usage.input_tokens < usage.cached_input_tokens ==> parts.uncached_tokens == 0)),
{
    lemma_find(record.attempts@, attempt_succeeded());
    lemma_find(store.models@, model_named(record.published_model_name@));
    if let Some(a) = find(record.attempts@, attempt_succeeded()) {
        assert(record.attempts@[a].outcome@ == "success"@);
    }
    if let Some(m) = find(store.models@, model_named(record.published_model_name@)) {
        assert(store.models@[m].name@ == record.published_model_name@);
    }
}

/// A call whose cost is known counts into the totals of the day it was made on,
/// with all its tokens, under its model and the provider of its first
/// successful attempt; one whose cost is not known counts into none.
pub proof fn law_calls_count_into_their_day(
    r: Option<DailyEntry>,
    record: NewCallRecord,
    usage: Usage,
    a: int,
    cost_known: bool,
)
    requires
        daily_share(r, record, cost_known),
        record.usage == Some(usage),
        0 <= a < record.attempts@.len(),
        record.attempts@[a].outcome@ == "success"@,
        forall|k: int| 0 <= k < a ==> (#[trigger] record.attempts@[k]).outcome@ != "success"@,
    ensures
        r is Some <==> cost_known,
        r matches Some(entry) ==> {
            &&& is_date_key(entry.day@, day_of_instant(record.created_at_ms as int))
            &&& entry.published_model_name@ == record.published_model_name@
            &&& entry.provider_id@ == record.attempts@[a].provider_id@
            &&& entry.provider_name@ == record.attempts@[a].provider_name@
            &&& entry.usage.input_tokens == usage.input_tokens
            &&& entry.usage.cached_input_tokens == usage.cached_input_tokens
            &&& entry.usage.output_tokens == usage.output_tokens
        },
{
    lemma_found(record.attempts@, attempt_succeeded(), a);
}

/// A call without usage, or without a successful attempt, counts into no day.
pub proof fn law_calls_without_usage_count_into_no_day(
    r: Option<DailyEntry>,
    record: NewCallRecord,
    cost_known: bool,
)
    requires
        daily_share(r, record, cost_known),
    ensures
        record.usage is None ==> r is None,
        (forall|k: int|
            0 <= k < record.attempts@.len() ==> (#[trigger] record.attempts@[k]).outcome@
                != "success"@) ==> r is None,
{
    lemma_find(record.attempts@, attempt_succeeded());
    if let Some(a) = find(record.attempts@, attempt_succeeded()) {
        assert(record.attempts@[a].outcome@ == "success"@);
    }
}

/// The windows look back one hour, 5 times that, 24 times that, and 7 and 14
/// times the last; all time, like any window that is not known, has no end to
/// its look-back.
pub proof fn law_windows_look_back(window: Seq<char>)
    ensures
        window_span("1h"@) matches Some(hour) && hour == 60 * 60 * 1000,
        window_span("5h"@)->0 == 5 * window_span("1h"@)->0,
        window_span("24h"@)->0 == 24 * window_span("1h"@)->0,
        window_span("7d"@)->0 == 7 * window_span("24h"@)->0,
        window_span("14d"@)->0 == 14 * window_span("24h"@)->0,
        window_span("all"@) is None,
        window_span(window) is Some ==> window != "all"@ && window_asked_for(Some(window)) == window,
        window_span(window) is Some <==> window == "1h"@ || window == "5h"@ || window == "24h"@
            || window == "7d"@ || window == "14d"@,
{
    lemma_windows();
}

/// The names of the windows differ.
proof fn lemma_windows()
    ensures
        "1h"@ != "5h"@,
        "1h"@ != "24h"@,
        "1h"@ != "7d"@,
        "1h"@ != "14d"@,
        "1h"@ != "all"@,
        "5h"@ != "24h"@,
        "5h"@ != "7d"@,
        "5h"@ != "14d"@,
        "5h"@ != "all"@,
        "24h"@ != "7d"@,
        "24h"@ != "14d"@,
        "24h"@ != "all"@,
        "7d"@ != "14d"@,
        "7d"@ != "all"@,
        "14d"@ != "all"@,
{
    reveal_strlit("1h");
    reveal_strlit("5h");
    reveal_strlit("24h");
    reveal_strlit("7d");
    reveal_strlit("14d");
    reveal_strlit("all");
    assert("1h"@[0] == '1' && "5h"@[0] == '5' && "7d"@[0] == '7');
    assert("1h"@.len() == 2 && "5h"@.len() == 2 && "7d"@.len() == 2);
    assert("24h"@[0] == '2' && "14d"@[0] == '1' && "all"@[0] == 'a');
    assert("24h"@.len() == 3 && "14d"@.len() == 3 && "all"@.len() == 3);
}

/// A window that has a name is the one that is shown; anything else, and
/// nothing, shows the last 24 hours.
pub proof fn law_windows_asked_for_are_shown(window: Seq<char>)
    ensures
        window_asked_for(None) == "24h"@,
        window == "1h"@ || window == "5h"@ || window == "24h"@ || window == "7d"@ || window
            == "14d"@ || window == "all"@ ==> window_asked_for(Some(window)) == window,
        window != "1h"@ && window != "5h"@ && window != "7d"@ && window != "14d"@ && window
            != "all"@ ==> window_asked_for(Some(window)) == "24h"@,
        window_asked_for(Some(window_asked_for(Some(window)))) == window_asked_for(Some(window)),
{
}

/// A lost record makes the open gap of its category one record wider and leaves
/// where the gap begins; gaps of other categories and closed gaps stay as they
/// are; and afterwards a gap of the category is open.
pub proof fn law_lost_records_widen_a_gap(
    before: Seq<UsageGap>,
    after: Seq<UsageGap>,
    category: Seq<char>,
    now_ms: i64,
    i: int,
)
    requires
        with_lost_record(before, after, category, now_ms),
        0 <= i < before.len(),
        before[i].lost_records < i64::MAX,
    ensures
        before[i].category@ == category && before[i].ended_at_ms is None ==> after.len()
            == before.len() && after[i].lost_records == before[i].lost_records + 1
            && after[i].started_at_ms == before[i].started_at_ms && after[i].ended_at_ms is None
            && after[i].kind == before[i].kind && after[i].category == before[i].category,
        before[i].category@ != category || before[i].ended_at_ms is Some ==> after[i] == before[i],
        exists|k: int|
            0 <= k < after.len() && (#[trigger] after[k]).category@ == category
                && after[k].ended_at_ms is None,
{
    if has_open_gap(before, category) {
        let k = choose|k: int| 0 <= k < before.len() && open_gap(#[trigger] before[k], category);
        assert(after[k] == widened(before[k], category));
        assert(after[i] == widened(before[i], category));
    } else {
        assert(after[before.len() as int] == after.last());
        assert(!open_gap(before[i], category));
        assert(after[i] == before[i]);
    }
}

/// The first lost record of a category opens a gap of one record, from now on.
pub proof fn law_the_first_lost_record_opens_a_gap(
    before: Seq<UsageGap>,
    after: Seq<UsageGap>,
    category: Seq<char>,
    now_ms: i64,
)
    requires
        with_lost_record(before, after, category, now_ms),
        forall|k: int|
            0 <= k < before.len() ==> (#[trigger] before[k]).category@ != category
                || before[k].ended_at_ms is Some,
    ensures
        after.len() == before.len() + 1,
        after.last().category@ == category,
        after.last().kind@ == "persistence"@,
        after.last().started_at_ms == now_ms,
        after.last().ended_at_ms is None,
        after.last().lost_records == 1,
        forall|k: int| 0 <= k < before.len() ==> #[trigger] after[k] == before[k],
{
}

/// A kept record ends the open gaps of its category now, and no other gap; no
/// gap goes away, and none forgets what it lost.
pub proof fn law_kept_records_end_the_gaps(
    gaps: Seq<UsageGap>,
    category: Seq<char>,
    at_ms: i64,
    i: int,
)
    requires
        0 <= i < gaps.len(),
    ensures
        with_kept_record(gaps, category, at_ms).len() == gaps.len(),
        ({
            let after = with_kept_record(gaps, category, at_ms)[i];
            &&& after.lost_records == gaps[i].lost_records
            &&& after.started_at_ms == gaps[i].started_at_ms
            &&& after.category == gaps[i].category
            &&& after.kind == gaps[i].kind
            &&& gaps[i].category@ == category && gaps[i].ended_at_ms is None ==> after.ended_at_ms
                == Some(at_ms)
            &&& gaps[i].category@ != category || gaps[i].ended_at_ms is Some ==> after == gaps[i]
        }),
        !has_open_gap(with_kept_record(gaps, category, at_ms), category),
{
}

/// A gap is in a window where some moment is in both: a gap that has not ended
/// reaches to now, and a window reaches back from now.
pub proof fn law_gaps_touch_their_windows(gap: UsageGap, length: i64, now_ms: int, moment: int)
    requires
        length > 0,
        gap.ended_at_ms matches Some(end) ==> gap.started_at_ms <= end,
    ensures
        gap_in_window(gap, None, now_ms),
        gap.started_at_ms <= moment && (gap.ended_at_ms matches Some(end) ==> moment <= end)
            && now_ms - length <= moment < now_ms ==> gap_in_window(gap, Some(length), now_ms),
        gap_in_window(gap, Some(length), now_ms) ==> {
            let first = if gap.started_at_ms > now_ms - length {
                gap.started_at_ms as int
            } else {
                now_ms - length
            };
            &&& first < now_ms
            &&& gap.ended_at_ms matches Some(end) ==> first <= end
        },
{
}

/// A call is in a window that reaches back to it or further.
pub proof fn law_calls_in_their_windows(created_at_ms: int, length: i64, now_ms: int)
    ensures
        call_in_window(created_at_ms, None, now_ms),
        call_in_window(created_at_ms, Some(length), now_ms) <==> now_ms - created_at_ms <= length,
{
}

proof fn lemma_gaps_upto(kept: Seq<UsageGap>, span: Option<i64>, now_ms: int, n: int, gap: UsageGap)
    requires
        0 <= n <= kept.len(),
    ensures
        gaps_upto(kept, span, now_ms, n).contains(gap) <==> exists|i: int|
            0 <= i < n && gap_in_window(#[trigger] kept[i], span, now_ms) && kept[i] == gap,
    decreases n,
{
    if n > 0 {
        lemma_gaps_upto(kept, span, now_ms, n - 1, gap);
        let before = gaps_upto(kept, span, now_ms, n - 1);
        let now = gaps_upto(kept, span, now_ms, n);
        if before.contains(gap) {
            let k = choose|k: int| 0 <= k < before.len() && before[k] == gap;
            assert(now[k] == gap);
        }
        if now.contains(gap) {
            let k = choose|k: int| 0 <= k < now.len() && now[k] == gap;
            if k < before.len() {
                assert(before[k] == gap);
            } else {
                assert(kept[n - 1] == gap);
            }
        }
        if gap_in_window(kept[n - 1], span, now_ms) {
            assert(now[before.len() as int] == kept[n - 1]);
        }
    }
}

proof fn lemma_calls_upto(calls: Seq<i64>, span: Option<i64>, now_ms: int, n: int, at_ms: i64)
    requires
        0 <= n <= calls.len(),
    ensures
        calls_upto(calls, span, now_ms, n).contains(at_ms) <==> exists|i: int|
            0 <= i < n && call_in_window(#[trigger] calls[i] as int, span, now_ms) && calls[i]
                == at_ms,
    decreases n,
{
    if n > 0 {
        lemma_calls_upto(calls, span, now_ms, n - 1, at_ms);
        let before = calls_upto(calls, span, now_ms, n - 1);
        let now = calls_upto(calls, span, now_ms, n);
        if before.contains(at_ms) {
            let k = choose|k: int| 0 <= k < before.len() && before[k] == at_ms;
            assert(now[k] == at_ms);
        }
        if now.contains(at_ms) {
            let k = choose|k: int| 0 <= k < now.len() && now[k] == at_ms;
            if k < before.len() {
                assert(before[k] == at_ms);
            } else {
                assert(calls[n - 1] == at_ms);
            }
        }
        if call_in_window(calls[n - 1] as int, span, now_ms) {
            assert(now[before.len() as int] == calls[n - 1]);
        }
    }
}

/// Every gap on record that a window touches is shown.
pub proof fn law_kept_gaps_are_shown(
    found: Seq<UsageGap>,
    kept: Seq<UsageGap>,
    unreported: Seq<i64>,
    span: Option<i64>,
    now_ms: int,
    i: int,
)
    requires
        window_gaps(found, kept, unreported, span, now_ms),
        0 <= i < kept.len(),
        span matches Some(length) ==> kept[i].started_at_ms < now_ms && (
        kept[i].ended_at_ms matches Some(end) ==> now_ms - length <= end),
    ensures
        ranked(found).contains(kept[i]),
{
    lemma_ranked(found);
    lemma_gaps_upto(kept, span, now_ms, kept.len() as int, kept[i]);
    let gaps = gaps_upto(kept, span, now_ms, kept.len() as int);
    assert(gap_in_window(kept[i], span, now_ms));
    let k = choose|k: int| 0 <= k < gaps.len() && gaps[k] == kept[i];
    assert(found.take(gaps.len() as int)[k] == kept[i]);
    assert(found[k] == kept[i]);
}

/// Every call without usage that a window reaches is shown as a gap of one
/// record at the time of the call.
pub proof fn law_calls_without_usage_are_shown(
    found: Seq<UsageGap>,
    kept: Seq<UsageGap>,
    unreported: Seq<i64>,
    span: Option<i64>,
    now_ms: int,
    i: int,
)
    requires
        window_gaps(found, kept, unreported, span, now_ms),
        0 <= i < unreported.len(),
        span matches Some(length) ==> now_ms - length <= unreported[i],
    ensures
        exists|k: int|
            0 <= k < ranked(found).len() && {
                let gap = #[trigger] ranked(found)[k];
                &&& gap.kind@ == "missing_upstream_usage"@
                &&& gap.category@ == "upstream_usage"@
                &&& gap.started_at_ms == unreported[i]
                &&& gap.ended_at_ms == Some(unreported[i])
                &&& gap.lost_records == 1
            },
{
    lemma_ranked(found);
    lemma_calls_upto(unreported, span, now_ms, unreported.len() as int, unreported[i]);
    let gaps = gaps_upto(kept, span, now_ms, kept.len() as int);
    let calls = calls_upto(unreported, span, now_ms, unreported.len() as int);
    assert(call_in_window(unreported[i] as int, span, now_ms));
    let c = choose|c: int| 0 <= c < calls.len() && calls[c] == unreported[i];
    let gap = found[gaps.len() + c];
    assert(missing_usage_gap(gap, calls[c]));
    assert(found.contains(gap));
    assert(ranked(found).contains(gap));
    let k = choose|k: int| 0 <= k < ranked(found).len() && ranked(found)[k] == gap;
    assert(ranked(found)[k].started_at_ms == unreported[i]);
}

/// What is shown stands by its beginning, and each gap shown is on record or is
/// that of a call without usage, in the window.
pub proof fn law_shown_gaps_are_in_the_window(
    found: Seq<UsageGap>,
    kept: Seq<UsageGap>,
    unreported: Seq<i64>,
    span: Option<i64>,
    now_ms: int,
    i: int,
)
    requires
        window_gaps(found, kept, unreported, span, now_ms),
        0 <= i < ranked(found).len(),
    ensures
        forall|k: int|
            i <= k < ranked(found).len() ==> ranked(found)[i].started_at_ms <= (
            #[trigger] ranked(found)[k]).started_at_ms,
        kept.contains(ranked(found)[i]) || unreported.contains(ranked(found)[i].started_at_ms),
        kept.contains(ranked(found)[i]) || ranked(found)[i].kind@ == "missing_upstream_usage"@,
        span matches Some(length) ==> (ranked(found)[i].ended_at_ms matches Some(end) ==> now_ms
            - length <= end),
{
    lemma_ranked(found);
    let shown = ranked(found);
    assert(in_order(shown));
    assert forall|k: int| i <= k < shown.len() implies shown[i].started_at_ms <= (
    #[trigger] shown[k]).started_at_ms by {
        assert(shown[i].rank_le(shown[k]));
    }
    let gap = shown[i];
    assert(shown.contains(gap));
    let k = choose|k: int| 0 <= k < found.len() && found[k] == gap;
    let gaps = gaps_upto(kept, span, now_ms, kept.len() as int);
    let calls = calls_upto(unreported, span, now_ms, unreported.len() as int);
    if k < gaps.len() {
        assert(found.take(gaps.len() as int)[k] == gap);
        assert(gaps.contains(gap));
        lemma_gaps_upto(kept, span, now_ms, kept.len() as int, gap);
        let n = choose|n: int|
            0 <= n < kept.len() && gap_in_window(#[trigger] kept[n], span, now_ms) && kept[n]
                == gap;
        assert(kept[n] == gap);
    } else {
        let c = k - gaps.len();
        assert(found[gaps.len() + c] == gap);
        assert(missing_usage_gap(gap, calls[c]));
        assert(calls.contains(calls[c]));
        lemma_calls_upto(unreported, span, now_ms, unreported.len() as int, calls[c]);
        let n = choose|n: int|
            0 <= n < unreported.len() && call_in_window(
                #[trigger] unreported[n] as int,
                span,
                now_ms,
            ) && unreported[n] == calls[c];
        assert(unreported[n] == gap.started_at_ms);
    }
}

/// The gaps that are reported as losing records are those of records that could
/// not be kept and that have not ended, in their order.
pub proof fn law_losing_gaps_are_reported(gaps: Seq<UsageGap>, n: int)
    requires
        0 <= n <= gaps.len(),
        gaps.len() <= usize::MAX,
    ensures
        forall|i: int|
            0 <= i < n && (#[trigger] gaps[i]).kind@ == "persistence"@ && gaps[i].ended_at_ms is None
                ==> losing_upto(gaps, n).contains(i as usize),
        forall|k: int|
            0 <= k < losing_upto(gaps, n).len() ==> {
                let i = #[trigger] losing_upto(gaps, n)[k];
                i < n && gaps[i as int].kind@ == "persistence"@ && gaps[i as int].ended_at_ms is None
            },
        forall|j: int, k: int|
            0 <= j < k < losing_upto(gaps, n).len() ==> #[trigger] losing_upto(gaps, n)[j]
                < #[trigger] losing_upto(gaps, n)[k],
    decreases n,
{
    if n > 0 {
        law_losing_gaps_are_reported(gaps, n - 1);
        let before = losing_upto(gaps, n - 1);
        let now = losing_upto(gaps, n);
        assert forall|i: int|
            0 <= i < n && (#[trigger] gaps[i]).kind@ == "persistence"@
                && gaps[i].ended_at_ms is None implies now.contains(i as usize) by {
            if i < n - 1 {
                assert(before.contains(i as usize));
                let k = choose|k: int| 0 <= k < before.len() && before[k] == i as usize;
                assert(now[k] == i as usize);
            } else {
                assert(now[before.len() as int] == i as usize);
            }
        }
        assert forall|k: int| 0 <= k < now.len() implies ({
            let i = #[trigger] now[k];
            i < n && gaps[i as int].kind@ == "persistence"@ && gaps[i as int].ended_at_ms is None
        }) by {
            if k < before.len() {
                assert(now[k] == before[k]);
            }
        }
        assert forall|j: int, k: int| 0 <= j < k < now.len() implies #[trigger] now[j]
            < #[trigger] now[k] by {
            assert(now[j] == before[j]);
            if k < before.len() {
                assert(now[k] == before[k]);
            }
        }
    }
}

/// Usage with a gap is incomplete; without one it is complete where there is
/// any.
pub proof fn law_usage_is_named_by_its_gaps(gaps: int, has_data: bool)
    ensures
        gaps > 0 ==> usage_name(gaps, has_data) == "incomplete"@,
        gaps == 0 && has_data ==> usage_name(gaps, has_data) == "complete"@,
        gaps == 0 && !has_data ==> usage_name(gaps, has_data) == "no_data"@,
{
}

/// A record outlives its retention once it is older than that, not before.
pub proof fn law_records_are_kept_for_their_retention(age: int, now_ms: int, retention_ms: int)
    ensures
        outlived_record(now_ms - age, now_ms, retention_ms) <==> age > retention_ms,
{
}

proof fn lemma_sum_of_first(a: Seq<UsageRow>, row: UsageRow, model: Option<Seq<char>>, n: int)
    requires
        0 <= n <= a.len(),
    ensures
        token_sum(a.push(row), model, n) == token_sum(a, model, n),
        model matches Some(name) ==> rows_of(a.push(row), name, n) == rows_of(a, name, n),
    decreases n,
{
    if n > 0 {
        lemma_sum_of_first(a, row, model, n - 1);
        assert(a.push(row)[n - 1] == a[n - 1]);
    }
}

/// One row more adds its input, cached and output tokens to the totals of all
/// models and of its own, and nothing to any other model's; its place is listed
/// under its own model.
pub proof fn law_each_row_counts_once(rows: Seq<UsageRow>, row: UsageRow, name: Seq<char>)
    ensures
        ({
            let n = rows.len() as int;
            let before = token_sum(rows, None, n);
            let after = token_sum(rows.push(row), None, n + 1);
            &&& after.0 == before.0 + row.usage.input_tokens
            &&& after.1 == before.1 + row.usage.cached_input_tokens
            &&& after.2 == before.2 + row.usage.output_tokens
        }),
        ({
            let n = rows.len() as int;
            let before = token_sum(rows, Some(name), n);
            let after = token_sum(rows.push(row), Some(name), n + 1);
            if row.published_model_name@ == name {
                &&& after.0 == before.0 + row.usage.input_tokens
                &&& after.1 == before.1 + row.usage.cached_input_tokens
                &&& after.2 == before.2 + row.usage.output_tokens
                &&& rows_of(rows.push(row), name, n + 1) == rows_of(rows, name, n).push(n as usize)
            } else {
                &&& after == before
                &&& rows_of(rows.push(row), name, n + 1) == rows_of(rows, name, n)
            }
        }),
        token_sum(Seq::<UsageRow>::empty(), None, 0) == (0int, 0int, 0int),
        token_sum(Seq::<UsageRow>::empty(), Some(name), 0) == (0int, 0int, 0int),
{
    lemma_sum_of_first(rows, row, None, rows.len() as int);
    lemma_sum_of_first(rows, row, Some(name), rows.len() as int);
    assert(rows.push(row)[rows.len() as int] == row);
}

/// Every model with rows has one share, with its totals and the places of its
/// rows, and no other model has one.
pub proof fn law_models_have_one_share(models: Seq<ModelShare>, rows: Seq<UsageRow>, k: int)
    requires
        divided(models, rows, rows.len() as int),
        rows.len() <= usize::MAX,
        0 <= k < rows.len(),
    ensures
        exists|i: int|
            0 <= i < models.len() && (#[trigger] models[i]).published_model_name@
                == rows[k].published_model_name@,
        forall|i: int, j: int|
            0 <= i < models.len() && 0 <= j < models.len() && (
            #[trigger] models[i]).published_model_name@ == (
            #[trigger] models[j]).published_model_name@ ==> i == j,
        forall|i: int|
            0 <= i < models.len() ==> {
                let share = #[trigger] models[i];
                let sum = token_sum(rows, Some(share.published_model_name@), rows.len() as int);
                &&& share.tokens.input_tokens == sum.0
                &&& share.tokens.cached_input_tokens == sum.1
                &&& share.tokens.output_tokens == sum.2
            },
{
    assert(has_share(models, rows[k].published_model_name@));
}

} // verus!
