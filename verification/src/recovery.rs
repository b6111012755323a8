//! The health of a model route: quarantine after repeated failures, and
//! recovery probes at doubling intervals.

use crate::text::same_text;
use vstd::arithmetic::power2::*;
use vstd::prelude::*;
use vstd::string::*;

verus! {

/// The health of a model route.
#[derive(Debug, Clone, Copy, PartialEq, Eq, Structural)]
pub enum RouteHealth {
    /// A probe is pending; not a candidate.
    Checking,
    /// The last probe succeeded; a candidate.
    Available,
    /// Quarantined, or a probe failed; not a candidate until a recovery probe
    /// succeeds.
    Unavailable,
}

/// The persisted name of a health.
pub open spec fn health_name(health: RouteHealth) -> Seq<char> {
    match health {
        RouteHealth::Checking => "checking"@,
        RouteHealth::Available => "available"@,
        RouteHealth::Unavailable => "unavailable"@,
    }
}

/// The health that a persisted name stands for; any other name is `Checking`.
pub open spec fn health_of_name(name: Seq<char>) -> RouteHealth {
    if name == "available"@ {
        RouteHealth::Available
    } else if name == "unavailable"@ {
        RouteHealth::Unavailable
    } else {
        RouteHealth::Checking
    }
}

impl RouteHealth {
    /// The persisted name.
    pub fn as_str(self) -> (r: &'static str)
        ensures
            r@ == health_name(self),
    {
        match self {
            RouteHealth::Checking => "checking",
            RouteHealth::Available => "available",
            RouteHealth::Unavailable => "unavailable",
        }
    }

    /// The health that a persisted name stands for.
    pub fn from_persisted(value: &str) -> (r: Self)
        ensures
            r == health_of_name(value@),
    {
        if same_text(value, "available") {
            RouteHealth::Available
        } else if same_text(value, "unavailable") {
            RouteHealth::Unavailable
        } else {
            RouteHealth::Checking
        }
    }
}

/// A health read back is the health that was written.
pub proof fn law_health_round_trip(health: RouteHealth)
    ensures
        health_of_name(health_name(health)) == health,
{
    reveal_strlit("checking");
    reveal_strlit("available");
    reveal_strlit("unavailable");
    assert("checking"@.len() == 8 && "available"@.len() == 9 && "unavailable"@.len() == 11);
}

pub const DEFAULT_RECOVERY_BASE_INTERVAL_MS: i64 = 30_000;

pub const DEFAULT_RECOVERY_DOUBLING_LIMIT: i64 = 5;

pub const MIN_RECOVERY_BASE_INTERVAL_MS: i64 = 100;

pub const MAX_RECOVERY_BASE_INTERVAL_MS: i64 = 86_400_000;

pub const MAX_RECOVERY_DOUBLING_LIMIT: i64 = 20;

pub const MIN_TIMEOUT_MS: i64 = 1_000;

pub const MAX_TIMEOUT_MS: i64 = 3_600_000;

pub const DEFAULT_FIRST_EVENT_TIMEOUT_MS: i64 = 120_000;

pub const DEFAULT_STREAM_IDLE_TIMEOUT_MS: i64 = 30_000;

pub const DEFAULT_NONSTREAM_TIMEOUT_MS: i64 = 120_000;

pub const DEFAULT_FRESHNESS_INTERVAL_MS: i64 = 600_000;

pub const MAX_FRESHNESS_INTERVAL_MS: i64 = 86_400_000;

pub const DEFAULT_QUARANTINE_THRESHOLD: i64 = 2;

pub const MAX_QUARANTINE_THRESHOLD: i64 = 5;

pub const DEFAULT_UPSTREAM_SYNC_INTERVAL_MS: i64 = 86_400_000;

pub const MAX_UPSTREAM_SYNC_INTERVAL_MS: i64 = 604_800_000;

/// Overrides the stored quarantine threshold.
pub const TEST_QUARANTINE_THRESHOLD_VARIABLE: &'static str =
    "LOCAL_API_RELAY_TEST_QUARANTINE_THRESHOLD";

/// The settings of quarantine, recovery and deadlines; times in milliseconds.
#[derive(Debug, Clone, Copy, PartialEq, Eq, Structural)]
pub struct RecoverySettings {
    pub base_interval_ms: i64,
    pub doubling_limit: i64,
    /// Deadline for the first event of a stream, and for the head of any other
    /// answer.
    pub first_event_timeout_ms: i64,
    /// Deadline between two chunks of a stream.
    pub stream_idle_timeout_ms: i64,
    /// Deadline for the whole body of an answer that is no stream.
    pub nonstream_timeout_ms: i64,
    /// Period of the sweep over available routes; 0 disables it.
    pub freshness_interval_ms: i64,
    /// Consecutive failures before a route is quarantined.
    pub quarantine_threshold: i64,
    /// Period of the fetch of upstream catalogs; 0 disables it.
    pub upstream_sync_interval_ms: i64,
}

/// The settings of a new installation.
pub open spec fn default_settings() -> RecoverySettings {
    RecoverySettings {
        base_interval_ms: 30_000,
        doubling_limit: 5,
        first_event_timeout_ms: 120_000,
        stream_idle_timeout_ms: 30_000,
        nonstream_timeout_ms: 120_000,
        freshness_interval_ms: 600_000,
        quarantine_threshold: 2,
        upstream_sync_interval_ms: 86_400_000,
    }
}

impl Default for RecoverySettings {
    fn default() -> (r: Self)
        ensures
            r == default_settings(),
            settings_ok(r),
    {
        RecoverySettings {
            base_interval_ms: DEFAULT_RECOVERY_BASE_INTERVAL_MS,
            doubling_limit: DEFAULT_RECOVERY_DOUBLING_LIMIT,
            first_event_timeout_ms: DEFAULT_FIRST_EVENT_TIMEOUT_MS,
            stream_idle_timeout_ms: DEFAULT_STREAM_IDLE_TIMEOUT_MS,
            nonstream_timeout_ms: DEFAULT_NONSTREAM_TIMEOUT_MS,
            freshness_interval_ms: DEFAULT_FRESHNESS_INTERVAL_MS,
            quarantine_threshold: DEFAULT_QUARANTINE_THRESHOLD,
            upstream_sync_interval_ms: DEFAULT_UPSTREAM_SYNC_INTERVAL_MS,
        }
    }
}

/// Whether every setting lies within its bounds.
pub open spec fn settings_ok(settings: RecoverySettings) -> bool {
    settings_refusal(settings) is None
}

/// How often the base interval is doubled after `failed` failed probes: once
/// per failure, up to the limit.
pub open spec fn doublings(settings: RecoverySettings, failed: int) -> int {
    let k = if failed < 0 {
        0
    } else {
        failed
    };
    if k <= settings.doubling_limit {
        k
    } else {
        settings.doubling_limit as int
    }
}

/// Two to the power of a 32-bit exponent, held within 64 bits.
pub open spec fn factor(doublings: int) -> int {
    let exponent = doublings % 0x1_0000_0000;
    if exponent < 63 {
        pow2(exponent as nat) as int
    } else {
        i64::MAX as int
    }
}

/// The interval before the next probe after `failed` failed probes.
pub open spec fn interval(settings: RecoverySettings, failed: int) -> int {
    settings.base_interval_ms * factor(doublings(settings, failed))
}

/// Two to the power `e`.
fn power_of_two(e: u32) -> (r: i64)
    requires
        e < 63,
    ensures
        r == pow2(e as nat),
{
    let mut r: i64 = 1;
    proof {
        lemma2_to64();
    }
    for i in 0..e
        invariant
            e < 63,
            r == pow2(i as nat),
    {
        proof {
            lemma_pow2_unfold((i + 1) as nat);
            lemma2_to64_rest();
            if i + 1 < 62 {
                lemma_pow2_strictly_increases((i + 1) as nat, 62);
            }
        }
        r = r * 2;
    }
    r
}

impl RecoverySettings {
    /// The interval before the next probe after `failed_probe_count` failed
    /// probes: the base interval, doubled once per failure up to the limit.
    pub fn interval_for(&self, failed_probe_count: i64) -> (r: i64)
        requires
            i64::MIN <= interval(*self, failed_probe_count as int) <= i64::MAX,
        ensures
            r == interval(*self, failed_probe_count as int),
    {
        let k: i64 = if failed_probe_count < 0 {
            0
        } else {
            failed_probe_count
        };
        let bounded: i64 = if k <= self.doubling_limit {
            k
        } else {
            self.doubling_limit
        };
        let exponent: i64 = if bounded >= 0 {
            bounded % 0x1_0000_0000
        } else {
            let up: i64 = -(bounded + 1);
            0xffff_ffff - up % 0x1_0000_0000
        };
        let by: i64 = if exponent < 63 {
            power_of_two(exponent as u32)
        } else {
            0x7fff_ffff_ffff_ffff
        };
        self.base_interval_ms * by
    }
}

/// The most that the interval can be.
pub open spec fn longest_interval() -> int {
    90_596_966_400_000
}

/// With settings in bounds the interval is the base interval at first, never
/// shrinks from one failed probe to the next, at most doubles, and stays the
/// same once the limit is reached.
pub proof fn law_intervals_double_up_to_the_limit(settings: RecoverySettings, failed: int)
    requires
        settings_ok(settings),
        failed >= 0,
    ensures
        interval(settings, 0) == settings.base_interval_ms,
        settings.base_interval_ms <= interval(settings, failed) <= longest_interval(),
        failed < settings.doubling_limit ==> interval(settings, failed + 1) == 2 * interval(
            settings,
            failed,
        ),
        failed >= settings.doubling_limit ==> interval(settings, failed) == interval(
            settings,
            settings.doubling_limit as int,
        ),
{
    let b = settings.base_interval_ms as int;
    let e = doublings(settings, failed);
    lemma2_to64();
    lemma_pow2_pos(e as nat);
    if e < 20 {
        lemma_pow2_strictly_increases(e as nat, 20);
    }
    assert(b * 1 <= b * pow2(e as nat) <= 86_400_000 * pow2(20)) by (nonlinear_arith)
        requires
            0 < b <= 86_400_000,
            1 <= pow2(e as nat) <= pow2(20),
    ;
    if failed < settings.doubling_limit {
        lemma_pow2_unfold((failed + 1) as nat);
        assert(b * (2 * pow2(failed as nat)) == 2 * (b * pow2(failed as nat))) by (nonlinear_arith);
    }
    assert(b * pow2(0) == b) by (nonlinear_arith)
        requires
            pow2(0) == 1,
    ;
}

/// Why settings are refused: the first setting that lies outside its bounds.
pub open spec fn settings_refusal(settings: RecoverySettings) -> Option<Seq<char>> {
    if !(100 <= settings.base_interval_ms <= 86_400_000) {
        Some("base recovery interval must be between 100 and 86400000 milliseconds"@)
    } else if !(0 <= settings.doubling_limit <= 20) {
        Some("doubling limit must be between 0 and 20"@)
    } else if !(0 <= settings.freshness_interval_ms <= 86_400_000) {
        Some("freshness interval must be between 0 and 86400000 milliseconds"@)
    } else if !(1 <= settings.quarantine_threshold <= 5) {
        Some("quarantine threshold must be between 1 and 5"@)
    } else if !(0 <= settings.upstream_sync_interval_ms <= 604_800_000) {
        Some("upstream sync interval must be between 0 and 604800000 milliseconds"@)
    } else if !(1_000 <= settings.first_event_timeout_ms <= 3_600_000) {
        Some("first-event timeout must be between 1000 and 3600000 milliseconds"@)
    } else if !(1_000 <= settings.stream_idle_timeout_ms <= 3_600_000) {
        Some("stream idle timeout must be between 1000 and 3600000 milliseconds"@)
    } else if !(1_000 <= settings.nonstream_timeout_ms <= 3_600_000) {
        Some("non-streaming timeout must be between 1000 and 3600000 milliseconds"@)
    } else {
        None
    }
}

/// Refuses settings outside their bounds.
pub fn check_settings(settings: &RecoverySettings) -> (r: Result<(), &'static str>)
    ensures
        r is Ok <==> settings_ok(*settings),
        r matches Err(message) ==> settings_refusal(*settings) == Some(message@),
{
    if settings.base_interval_ms < MIN_RECOVERY_BASE_INTERVAL_MS || settings.base_interval_ms
        > MAX_RECOVERY_BASE_INTERVAL_MS {
        return Err("base recovery interval must be between 100 and 86400000 milliseconds");
    }
    if settings.doubling_limit < 0 || settings.doubling_limit > MAX_RECOVERY_DOUBLING_LIMIT {
        return Err("doubling limit must be between 0 and 20");
    }
    if settings.freshness_interval_ms < 0 || settings.freshness_interval_ms
        > MAX_FRESHNESS_INTERVAL_MS {
        return Err("freshness interval must be between 0 and 86400000 milliseconds");
    }
    if settings.quarantine_threshold < 1 || settings.quarantine_threshold
        > MAX_QUARANTINE_THRESHOLD {
        return Err("quarantine threshold must be between 1 and 5");
    }
    if settings.upstream_sync_interval_ms < 0 || settings.upstream_sync_interval_ms
        > MAX_UPSTREAM_SYNC_INTERVAL_MS {
        return Err("upstream sync interval must be between 0 and 604800000 milliseconds");
    }
    if settings.first_event_timeout_ms < MIN_TIMEOUT_MS || settings.first_event_timeout_ms
        > MAX_TIMEOUT_MS {
        return Err("first-event timeout must be between 1000 and 3600000 milliseconds");
    }
    if settings.stream_idle_timeout_ms < MIN_TIMEOUT_MS || settings.stream_idle_timeout_ms
        > MAX_TIMEOUT_MS {
        return Err("stream idle timeout must be between 1000 and 3600000 milliseconds");
    }
    if settings.nonstream_timeout_ms < MIN_TIMEOUT_MS || settings.nonstream_timeout_ms
        > MAX_TIMEOUT_MS {
        return Err("non-streaming timeout must be between 1000 and 3600000 milliseconds");
    }
    Ok(())
}

/// New settings as an administrator sends them; what is left out stays as it
/// is.
#[derive(Debug, Clone, Copy)]
pub struct SettingsRequest {
    pub base_interval_ms: i64,
    pub doubling_limit: i64,
    pub first_event_timeout_ms: Option<i64>,
    pub stream_idle_timeout_ms: Option<i64>,
    pub nonstream_timeout_ms: Option<i64>,
    pub freshness_interval_ms: Option<i64>,
    pub quarantine_threshold: Option<i64>,
    pub upstream_sync_interval_ms: Option<i64>,
}

/// `asked`, or `current` where nothing is asked.
pub open spec fn or_current(asked: Option<i64>, current: i64) -> i64 {
    match asked {
        Some(value) => value,
        None => current,
    }
}

/// The settings that a request asks for.
pub open spec fn requested_settings(
    current: RecoverySettings,
    request: SettingsRequest,
) -> RecoverySettings {
    RecoverySettings {
        base_interval_ms: request.base_interval_ms,
        doubling_limit: request.doubling_limit,
        first_event_timeout_ms: or_current(
            request.first_event_timeout_ms,
            current.first_event_timeout_ms,
        ),
        stream_idle_timeout_ms: or_current(
            request.stream_idle_timeout_ms,
            current.stream_idle_timeout_ms,
        ),
        nonstream_timeout_ms: or_current(
            request.nonstream_timeout_ms,
            current.nonstream_timeout_ms,
        ),
        freshness_interval_ms: or_current(
            request.freshness_interval_ms,
            current.freshness_interval_ms,
        ),
        quarantine_threshold: or_current(
            request.quarantine_threshold,
            current.quarantine_threshold,
        ),
        upstream_sync_interval_ms: or_current(
            request.upstream_sync_interval_ms,
            current.upstream_sync_interval_ms,
        ),
    }
}

/// The settings that a request asks for, where they lie within their bounds.
pub fn merge_settings(current: &RecoverySettings, request: &SettingsRequest) -> (r: Result<
    RecoverySettings,
    &'static str,
>)
    ensures
        ({
            let asked = requested_settings(*current, *request);
            match r {
                Ok(settings) => settings == asked && settings_ok(asked),
                Err(message) => settings_refusal(asked) == Some(message@),
            }
        }),
{
    let settings = RecoverySettings {
        base_interval_ms: request.base_interval_ms,
        doubling_limit: request.doubling_limit,
        first_event_timeout_ms: request.first_event_timeout_ms.unwrap_or(
            current.first_event_timeout_ms,
        ),
        stream_idle_timeout_ms: request.stream_idle_timeout_ms.unwrap_or(
            current.stream_idle_timeout_ms,
        ),
        nonstream_timeout_ms: request.nonstream_timeout_ms.unwrap_or(current.nonstream_timeout_ms),
        freshness_interval_ms: request.freshness_interval_ms.unwrap_or(
            current.freshness_interval_ms,
        ),
        quarantine_threshold: request.quarantine_threshold.unwrap_or(current.quarantine_threshold),
        upstream_sync_interval_ms: request.upstream_sync_interval_ms.unwrap_or(
            current.upstream_sync_interval_ms,
        ),
    };
    match check_settings(&settings) {
        Ok(()) => Ok(settings),
        Err(message) => Err(message),
    }
}

/// The settings in force: of the stored ones those that the schema has, else
/// the defaults; and a threshold that overrides the stored one where it is
/// within bounds.
pub open spec fn settings_in_force(
    schema: int,
    stored: RecoverySettings,
    threshold: Option<i64>,
) -> RecoverySettings {
    let defaults = default_settings();
    let (deadlines, fresh) = (schema >= 12, schema >= 13);
    RecoverySettings {
        base_interval_ms: stored.base_interval_ms,
        doubling_limit: stored.doubling_limit,
        first_event_timeout_ms: if deadlines {
            stored.first_event_timeout_ms
        } else {
            defaults.first_event_timeout_ms
        },
        stream_idle_timeout_ms: if deadlines {
            stored.stream_idle_timeout_ms
        } else {
            defaults.stream_idle_timeout_ms
        },
        nonstream_timeout_ms: if deadlines {
            stored.nonstream_timeout_ms
        } else {
            defaults.nonstream_timeout_ms
        },
        freshness_interval_ms: if fresh {
            stored.freshness_interval_ms
        } else {
            defaults.freshness_interval_ms
        },
        quarantine_threshold: match threshold {
            Some(value) if 1 <= value <= 5 => value,
            _ => if schema >= 14 {
                stored.quarantine_threshold
            } else {
                defaults.quarantine_threshold
            },
        },
        upstream_sync_interval_ms: if schema >= 15 {
            stored.upstream_sync_interval_ms
        } else {
            defaults.upstream_sync_interval_ms
        },
    }
}

/// The settings in force.
pub fn recovery_settings(schema: i64, stored: &RecoverySettings, threshold: Option<i64>) -> (r:
    RecoverySettings)
    ensures
        r == settings_in_force(schema as int, *stored, threshold),
        settings_ok(*stored) ==> settings_ok(r),
{
    let mut settings = RecoverySettings::default();
    settings.base_interval_ms = stored.base_interval_ms;
    settings.doubling_limit = stored.doubling_limit;
    if schema >= 12 {
        settings.first_event_timeout_ms = stored.first_event_timeout_ms;
        settings.stream_idle_timeout_ms = stored.stream_idle_timeout_ms;
        settings.nonstream_timeout_ms = stored.nonstream_timeout_ms;
    }
    if schema >= 13 {
        settings.freshness_interval_ms = stored.freshness_interval_ms;
    }
    if schema >= 14 {
        settings.quarantine_threshold = stored.quarantine_threshold;
    }
    if schema >= 15 {
        settings.upstream_sync_interval_ms = stored.upstream_sync_interval_ms;
    }
    match threshold {
        Some(value) => if 1 <= value && value <= MAX_QUARANTINE_THRESHOLD {
            settings.quarantine_threshold = value;
        },
        None => {},
    }
    settings
}

/// A deadline in milliseconds; at least one.
pub open spec fn deadline(setting: i64) -> u64 {
    if setting < 1 {
        1
    } else {
        setting as u64
    }
}

impl RecoverySettings {
    /// The deadline for the first event of a stream, and for the head of any
    /// other answer.
    pub fn head_deadline_ms(&self) -> (r: u64)
        ensures
            r == deadline(self.first_event_timeout_ms),
    {
        if self.first_event_timeout_ms < 1 {
            1
        } else {
            self.first_event_timeout_ms as u64
        }
    }

    /// The deadline for the whole body of an answer that is no stream.
    pub fn body_deadline_ms(&self) -> (r: u64)
        ensures
            r == deadline(self.nonstream_timeout_ms),
    {
        if self.nonstream_timeout_ms < 1 {
            1
        } else {
            self.nonstream_timeout_ms as u64
        }
    }

    /// The deadline between two chunks of a stream.
    pub fn idle_deadline_ms(&self) -> (r: u64)
        ensures
            r == deadline(self.stream_idle_timeout_ms),
    {
        if self.stream_idle_timeout_ms < 1 {
            1
        } else {
            self.stream_idle_timeout_ms as u64
        }
    }
}

/// What is recorded of a route's health.
pub struct HealthData {
    pub state: RouteHealth,
    pub checked_at: Option<i64>,
    pub failure_category: Option<Seq<char>>,
    pub failed_probe_count: i64,
    pub next_probe_at_ms: Option<i64>,
    pub last_http_status: Option<i64>,
    pub quarantine_epoch: i64,
    pub consecutive_failures: i64,
}

/// What is recorded of a route's health.
#[derive(Debug, Clone, PartialEq, Eq)]
pub struct HealthRow {
    pub state: RouteHealth,
    pub checked_at: Option<i64>,
    pub failure_category: Option<String>,
    pub failed_probe_count: i64,
    pub next_probe_at_ms: Option<i64>,
    /// The HTTP status of the last probe or failure, where there was one.
    pub last_http_status: Option<i64>,
    /// Counts the quarantines of the route.
    pub quarantine_epoch: i64,
    /// Failures of calls since the last success.
    pub consecutive_failures: i64,
}

impl View for HealthRow {
    type V = HealthData;

    open spec fn view(&self) -> HealthData {
        HealthData {
            state: self.state,
            checked_at: self.checked_at,
            failure_category: match self.failure_category {
                Some(text) => Some(text@),
                None => None,
            },
            failed_probe_count: self.failed_probe_count,
            next_probe_at_ms: self.next_probe_at_ms,
            last_http_status: self.last_http_status,
            quarantine_epoch: self.quarantine_epoch,
            consecutive_failures: self.consecutive_failures,
        }
    }
}

/// The clocks at the time of an operation: milliseconds for the schedule of
/// probes, seconds for the record.
#[derive(Debug, Clone, Copy)]
pub struct Clocks {
    pub schedule_ms: i64,
    pub epoch_s: i64,
}

/// Whether an interval can be added to the schedule's clock.
pub open spec fn clock_fits(clocks: Clocks) -> bool {
    clocks.schedule_ms + longest_interval() <= i64::MAX
}

impl Clocks {
    /// Whether an interval can be added to the schedule's clock.
    pub fn fits(&self) -> (r: bool)
        ensures
            r == clock_fits(*self),
    {
        self.schedule_ms <= i64::MAX - 90_596_966_400_000
    }
}

/// The health of a new route.
pub open spec fn unchecked() -> HealthData {
    HealthData {
        state: RouteHealth::Checking,
        checked_at: None,
        failure_category: None,
        failed_probe_count: 0,
        next_probe_at_ms: None,
        last_http_status: None,
        quarantine_epoch: 0,
        consecutive_failures: 0,
    }
}

/// Whether a schema counts the quarantines and failures of a route.
pub open spec fn counts_failures(schema: int) -> bool {
    schema >= 14
}

/// Back to being checked: what was found is forgotten.
pub open spec fn rechecking(schema: int, row: HealthData) -> HealthData {
    HealthData {
        state: RouteHealth::Checking,
        checked_at: None,
        failure_category: None,
        failed_probe_count: 0,
        next_probe_at_ms: None,
        consecutive_failures: if counts_failures(schema) {
            0
        } else {
            row.consecutive_failures
        },
        ..row
    }
}

/// The schedule after a failed probe: the next probe comes after the interval
/// for one failure more, or for none where the route was not yet unavailable.
pub open spec fn failures_after(row: HealthData) -> int {
    if row.state == RouteHealth::Unavailable {
        row.failed_probe_count + 1
    } else {
        0
    }
}

/// A probe's result, applied.
pub open spec fn probed(
    schema: int,
    row: HealthData,
    settings: RecoverySettings,
    clocks: Clocks,
    available: bool,
    http_status: Option<i64>,
) -> HealthData {
    let v14 = counts_failures(schema);
    HealthData {
        state: if available {
            RouteHealth::Available
        } else {
            RouteHealth::Unavailable
        },
        checked_at: Some(clocks.epoch_s),
        failure_category: if available {
            None
        } else {
            Some("native_check_failed"@)
        },
        failed_probe_count: if available {
            0
        } else {
            failures_after(row) as i64
        },
        next_probe_at_ms: if available {
            None
        } else {
            Some((clocks.schedule_ms + interval(settings, failures_after(row))) as i64)
        },
        last_http_status: if v14 {
            http_status
        } else {
            row.last_http_status
        },
        consecutive_failures: if v14 {
            0
        } else {
            row.consecutive_failures
        },
        ..row
    }
}

/// Whether a probe's result still counts: the route was not quarantined since
/// the probe was set up.
pub open spec fn probe_counts(schema: int, row: HealthData, quarantine_epoch: i64) -> bool {
    counts_failures(schema) ==> row.quarantine_epoch == quarantine_epoch
}

/// The health after a probe's result came in.
pub open spec fn after_probe(
    schema: int,
    row: HealthData,
    settings: RecoverySettings,
    clocks: Clocks,
    quarantine_epoch: i64,
    available: bool,
    http_status: Option<i64>,
) -> HealthData {
    if probe_counts(schema, row, quarantine_epoch) {
        probed(schema, row, settings, clocks, available, http_status)
    } else {
        row
    }
}

/// Whether one failure more quarantines a route.
pub open spec fn quarantines(schema: int, row: HealthData, settings: RecoverySettings) -> bool {
    row.state == RouteHealth::Available && (counts_failures(schema) ==> row.consecutive_failures
        + 1 >= settings.quarantine_threshold)
}

/// The health after a failure that speaks against the route. Below the
/// threshold only the failure is counted.
pub open spec fn after_failure(
    schema: int,
    row: HealthData,
    settings: RecoverySettings,
    clocks: Clocks,
    category: Seq<char>,
    http_status: Option<i64>,
) -> HealthData {
    let v14 = counts_failures(schema);
    if quarantines(schema, row, settings) {
        HealthData {
            state: RouteHealth::Unavailable,
            checked_at: Some(clocks.epoch_s),
            failure_category: Some(category),
            failed_probe_count: 0,
            next_probe_at_ms: Some((clocks.schedule_ms + interval(settings, 0)) as i64),
            last_http_status: if v14 {
                http_status
            } else {
                row.last_http_status
            },
            quarantine_epoch: if v14 {
                (row.quarantine_epoch + 1) as i64
            } else {
                row.quarantine_epoch
            },
            consecutive_failures: if v14 {
                0
            } else {
                row.consecutive_failures
            },
        }
    } else if v14 {
        HealthData {
            last_http_status: http_status,
            consecutive_failures: (row.consecutive_failures + 1) as i64,
            ..row
        }
    } else {
        row
    }
}

/// The health after a call succeeded.
pub open spec fn after_success(schema: int, row: HealthData) -> HealthData {
    HealthData {
        consecutive_failures: if counts_failures(schema) {
            0
        } else {
            row.consecutive_failures
        },
        ..row
    }
}

/// The health under new settings: an unavailable route is scheduled anew.
pub open spec fn rescheduled(
    row: HealthData,
    settings: RecoverySettings,
    clocks: Clocks,
) -> HealthData {
    if row.state == RouteHealth::Unavailable {
        HealthData {
            next_probe_at_ms: Some(
                (clocks.schedule_ms + interval(settings, row.failed_probe_count as int)) as i64,
            ),
            ..row
        }
    } else {
        row
    }
}

/// Whether a route is due for a recovery probe.
pub open spec fn probe_due(row: HealthData, now_ms: int) -> bool {
    row.state == RouteHealth::Unavailable && (row.next_probe_at_ms matches Some(next) && next
        <= now_ms)
}

/// Whether the counters of a route have room for one more.
pub open spec fn counters_ok(row: HealthData) -> bool {
    &&& 0 <= row.failed_probe_count < i64::MAX
    &&& 0 <= row.quarantine_epoch < i64::MAX
    &&& 0 <= row.consecutive_failures < i64::MAX
}

impl HealthRow {
    /// Whether every counter has room for one more.
    pub fn counters_fit(&self) -> (r: bool)
        ensures
            r == counters_ok(self@),
    {
        0 <= self.failed_probe_count && self.failed_probe_count < i64::MAX && 0
            <= self.quarantine_epoch && self.quarantine_epoch < i64::MAX && 0
            <= self.consecutive_failures && self.consecutive_failures < i64::MAX
    }

    /// The health of a new route.
    pub fn unchecked() -> (r: Self)
        ensures
            r@ == unchecked(),
    {
        HealthRow {
            state: RouteHealth::Checking,
            checked_at: None,
            failure_category: None,
            failed_probe_count: 0,
            next_probe_at_ms: None,
            last_http_status: None,
            quarantine_epoch: 0,
            consecutive_failures: 0,
        }
    }

    /// Back to being checked.
    pub fn recheck(&mut self, schema: i64)
        ensures
            final(self)@ == rechecking(schema as int, old(self)@),
    {
        self.state = RouteHealth::Checking;
        self.checked_at = None;
        self.failure_category = None;
        self.failed_probe_count = 0;
        self.next_probe_at_ms = None;
        if schema >= 14 {
            self.consecutive_failures = 0;
        }
    }

    /// Takes in the result of a probe that was set up in `quarantine_epoch`;
    /// the answer says whether it counted.
    pub fn record_probe_result(
        &mut self,
        schema: i64,
        settings: &RecoverySettings,
        clocks: &Clocks,
        quarantine_epoch: i64,
        available: bool,
        http_status: Option<i64>,
    ) -> (r: bool)
        requires
            settings_ok(*settings),
            clock_fits(*clocks),
            counters_ok(old(self)@),
        ensures
            r == probe_counts(schema as int, old(self)@, quarantine_epoch),
            final(self)@ == after_probe(
                schema as int,
                old(self)@,
                *settings,
                *clocks,
                quarantine_epoch,
                available,
                http_status,
            ),
    {
        if schema >= 14 && self.quarantine_epoch != quarantine_epoch {
            return false;
        }
        if available {
            self.state = RouteHealth::Available;
            self.failure_category = None;
            self.failed_probe_count = 0;
            self.next_probe_at_ms = None;
        } else {
            let failed: i64 = if self.state == RouteHealth::Unavailable {
                self.failed_probe_count + 1
            } else {
                0
            };
            proof {
                law_intervals_double_up_to_the_limit(*settings, failed as int);
            }
            self.state = RouteHealth::Unavailable;
            self.failure_category = Some("native_check_failed".to_owned());
            self.failed_probe_count = failed;
            self.next_probe_at_ms = Some(clocks.schedule_ms + settings.interval_for(failed));
        }
        self.checked_at = Some(clocks.epoch_s);
        if schema >= 14 {
            self.last_http_status = http_status;
            self.consecutive_failures = 0;
        }
        true
    }

    /// Takes in a failure that speaks against the route; the answer says
    /// whether it quarantined the route.
    pub fn record_failure(
        &mut self,
        schema: i64,
        settings: &RecoverySettings,
        clocks: &Clocks,
        failure_category: &str,
        http_status: Option<i64>,
    ) -> (r: bool)
        requires
            settings_ok(*settings),
            clock_fits(*clocks),
            counters_ok(old(self)@),
        ensures
            r == quarantines(schema as int, old(self)@, *settings),
            final(self)@ == after_failure(
                schema as int,
                old(self)@,
                *settings,
                *clocks,
                failure_category@,
                http_status,
            ),
    {
        if schema >= 14 {
            self.consecutive_failures = self.consecutive_failures + 1;
            self.last_http_status = http_status;
            if self.consecutive_failures < settings.quarantine_threshold {
                return false;
            }
        }
        if self.state != RouteHealth::Available {
            return false;
        }
        proof {
            law_intervals_double_up_to_the_limit(*settings, 0);
        }
        self.state = RouteHealth::Unavailable;
        self.checked_at = Some(clocks.epoch_s);
        self.failure_category = Some(failure_category.to_owned());
        self.failed_probe_count = 0;
        self.next_probe_at_ms = Some(clocks.schedule_ms + settings.interval_for(0));
        if schema >= 14 {
            self.consecutive_failures = 0;
            self.quarantine_epoch = self.quarantine_epoch + 1;
        }
        true
    }

    /// Takes in a call that succeeded.
    pub fn record_success(&mut self, schema: i64)
        ensures
            final(self)@ == after_success(schema as int, old(self)@),
    {
        if schema >= 14 {
            self.consecutive_failures = 0;
        }
    }

    /// Schedules the next probe anew, where one is scheduled.
    pub fn reschedule(&mut self, settings: &RecoverySettings, clocks: &Clocks)
        requires
            settings_ok(*settings),
            clock_fits(*clocks),
            counters_ok(old(self)@),
        ensures
            final(self)@ == rescheduled(old(self)@, *settings, *clocks),
    {
        if self.state == RouteHealth::Unavailable {
            proof {
                law_intervals_double_up_to_the_limit(*settings, self.failed_probe_count as int);
            }
            self.next_probe_at_ms = Some(
                clocks.schedule_ms + settings.interval_for(self.failed_probe_count),
            );
        }
    }

    /// Whether the route is due for a recovery probe.
    pub fn is_due(&self, now_ms: i64) -> (r: bool)
        ensures
            r == probe_due(self@, now_ms as int),
    {
        self.state == RouteHealth::Unavailable && match self.next_probe_at_ms {
            Some(next) => next <= now_ms,
            None => false,
        }
    }
}

/// A recovery probe that is scheduled waits for its interval: it is due neither
/// at the time it was scheduled nor before. A clock that stands at the earliest
/// time therefore has nothing due.
pub proof fn law_scheduled_probes_wait(
    schema: int,
    row: HealthData,
    settings: RecoverySettings,
    clocks: Clocks,
    category: Seq<char>,
    available: bool,
    http_status: Option<i64>,
    now_ms: int,
)
    requires
        settings_ok(settings),
        clock_fits(clocks),
        counters_ok(row),
        now_ms <= clocks.schedule_ms,
    ensures
        !probe_due(probed(schema, row, settings, clocks, available, http_status), now_ms),
        !probe_due(rescheduled(row, settings, clocks), now_ms),
        quarantines(schema, row, settings) ==> !probe_due(
            after_failure(schema, row, settings, clocks, category, http_status),
            now_ms,
        ),
{
    law_intervals_double_up_to_the_limit(settings, 0);
    law_intervals_double_up_to_the_limit(settings, failures_after(row));
    law_intervals_double_up_to_the_limit(settings, row.failed_probe_count as int);
}

/// A probe that was set up before a quarantine never lifts it.
pub proof fn law_stale_probes_lift_no_quarantine(
    schema: int,
    row: HealthData,
    settings: RecoverySettings,
    clocks: Clocks,
    category: Seq<char>,
    status: Option<i64>,
    later: Clocks,
    available: bool,
    probe_status: Option<i64>,
)
    requires
        counts_failures(schema),
        counters_ok(row),
        quarantines(schema, row, settings),
    ensures
        ({
            let quarantined = after_failure(schema, row, settings, clocks, category, status);
            &&& quarantined.state == RouteHealth::Unavailable
            &&& after_probe(
                schema,
                quarantined,
                settings,
                later,
                row.quarantine_epoch,
                available,
                probe_status,
            ) == quarantined
        }),
{
}

/// Neither a call that succeeds nor one that fails makes a route available:
/// only a probe does.
pub proof fn law_only_probes_make_available(
    schema: int,
    row: HealthData,
    settings: RecoverySettings,
    clocks: Clocks,
    category: Seq<char>,
    status: Option<i64>,
)
    requires
        row.state != RouteHealth::Available,
    ensures
        after_failure(schema, row, settings, clocks, category, status).state == row.state,
        after_success(schema, row).state == row.state,
        rechecking(schema, row).state == RouteHealth::Checking,
        rescheduled(row, settings, clocks).state == row.state,
{
}

/// The health after a number of failures in a row.
pub open spec fn after_failures(
    schema: int,
    row: HealthData,
    settings: RecoverySettings,
    clocks: Clocks,
    category: Seq<char>,
    status: Option<i64>,
    times: nat,
) -> HealthData
    decreases times,
{
    if times == 0 {
        row
    } else {
        after_failure(
            schema,
            after_failures(schema, row, settings, clocks, category, status, (times - 1) as nat),
            settings,
            clocks,
            category,
            status,
        )
    }
}

/// An available route without failures stays available through fewer failures
/// in a row than the threshold, and the one that reaches it quarantines the
/// route.
pub proof fn law_quarantine_at_the_threshold(
    schema: int,
    row: HealthData,
    settings: RecoverySettings,
    clocks: Clocks,
    category: Seq<char>,
    status: Option<i64>,
    times: nat,
)
    requires
        counts_failures(schema),
        settings_ok(settings),
        row.state == RouteHealth::Available,
        row.consecutive_failures == 0,
        times <= settings.quarantine_threshold,
    ensures
        ({
            let after = after_failures(schema, row, settings, clocks, category, status, times);
            if times < settings.quarantine_threshold {
                after.state == RouteHealth::Available && after.consecutive_failures == times
                    && after.quarantine_epoch == row.quarantine_epoch
            } else {
                after.state == RouteHealth::Unavailable && after.failed_probe_count == 0
                    && after.next_probe_at_ms == Some(
                    (clocks.schedule_ms + settings.base_interval_ms) as i64,
                )
            }
        }),
    decreases times,
{
    law_intervals_double_up_to_the_limit(settings, 0);
    if times > 0 {
        law_quarantine_at_the_threshold(
            schema,
            row,
            settings,
            clocks,
            category,
            status,
            (times - 1) as nat,
        );
    }
}

/// A success between failures starts the count anew.
pub proof fn law_success_clears_the_count(
    schema: int,
    row: HealthData,
    settings: RecoverySettings,
)
    requires
        counts_failures(schema),
        settings_ok(settings),
        settings.quarantine_threshold >= 2,
    ensures
        !quarantines(schema, after_success(schema, row), settings),
{
}

/// A probe that succeeds makes a route available and ends its recovery: nothing
/// is scheduled, no failure is counted and no reason is left. Its quarantines
/// stay counted.
pub proof fn law_a_successful_probe_makes_available(
    schema: int,
    row: HealthData,
    settings: RecoverySettings,
    clocks: Clocks,
    http_status: Option<i64>,
)
    ensures
        ({
            let after = after_probe(
                schema,
                row,
                settings,
                clocks,
                row.quarantine_epoch,
                true,
                http_status,
            );
            &&& after.state == RouteHealth::Available
            &&& after.next_probe_at_ms is None
            &&& after.failed_probe_count == 0
            &&& after.failure_category is None
            &&& after.checked_at == Some(clocks.epoch_s)
            &&& after.quarantine_epoch == row.quarantine_epoch
            &&& schema >= 14 ==> after.consecutive_failures == 0 && after.last_http_status
                == http_status
        }),
{
}

/// A probe that fails makes a route unavailable and schedules the next: after
/// the base interval the first time, and after the interval for one failure more
/// each time it fails again.
pub proof fn law_a_failed_probe_schedules_the_next(
    schema: int,
    row: HealthData,
    settings: RecoverySettings,
    clocks: Clocks,
    http_status: Option<i64>,
)
    requires
        settings_ok(settings),
        clock_fits(clocks),
        counters_ok(row),
    ensures
        ({
            let after = after_probe(
                schema,
                row,
                settings,
                clocks,
                row.quarantine_epoch,
                false,
                http_status,
            );
            &&& after.state == RouteHealth::Unavailable
            &&& after.failure_category == Some("native_check_failed"@)
            &&& after.checked_at == Some(clocks.epoch_s)
            &&& after.quarantine_epoch == row.quarantine_epoch
            &&& row.state != RouteHealth::Unavailable ==> after.failed_probe_count == 0
                && after.next_probe_at_ms == Some(
                (clocks.schedule_ms + settings.base_interval_ms) as i64,
            )
            &&& row.state == RouteHealth::Unavailable ==> after.failed_probe_count
                == row.failed_probe_count + 1 && after.next_probe_at_ms == Some(
                (clocks.schedule_ms + interval(settings, row.failed_probe_count + 1)) as i64,
            )
            &&& schema >= 14 ==> after.consecutive_failures == 0 && after.last_http_status
                == http_status
        }),
{
    law_intervals_double_up_to_the_limit(settings, 0);
    law_intervals_double_up_to_the_limit(settings, row.failed_probe_count + 1);
}

/// A probe counts only for the quarantine it was set up in; a database that does
/// not count quarantines takes every probe.
pub proof fn law_probes_count_for_their_quarantine(
    schema: int,
    row: HealthData,
    settings: RecoverySettings,
    clocks: Clocks,
    epoch: i64,
    available: bool,
    http_status: Option<i64>,
)
    ensures
        schema >= 14 && epoch != row.quarantine_epoch ==> after_probe(
            schema,
            row,
            settings,
            clocks,
            epoch,
            available,
            http_status,
        ) == row,
        schema < 14 || epoch == row.quarantine_epoch ==> after_probe(
            schema,
            row,
            settings,
            clocks,
            epoch,
            available,
            http_status,
        ).state == if available {
            RouteHealth::Available
        } else {
            RouteHealth::Unavailable
        },
{
}

/// A failure of a call counts against an available route; the one that reaches
/// the threshold quarantines it, with its reason, and begins its recovery. Below
/// the threshold the route stays available. A route that is not available is
/// left in its state.
pub proof fn law_failures_count_against_a_route(
    schema: int,
    row: HealthData,
    settings: RecoverySettings,
    clocks: Clocks,
    category: Seq<char>,
    status: Option<i64>,
)
    requires
        settings_ok(settings),
        clock_fits(clocks),
        counters_ok(row),
    ensures
        ({
            let after = after_failure(schema, row, settings, clocks, category, status);
            let reached = schema < 14 || row.consecutive_failures + 1
                >= settings.quarantine_threshold;
            &&& row.state == RouteHealth::Available && reached ==> {
                &&& after.state == RouteHealth::Unavailable
                &&& after.failure_category == Some(category)
                &&& after.checked_at == Some(clocks.epoch_s)
                &&& after.failed_probe_count == 0
                &&& after.next_probe_at_ms == Some(
                    (clocks.schedule_ms + settings.base_interval_ms) as i64,
                )
                &&& schema >= 14 ==> after.quarantine_epoch == row.quarantine_epoch + 1
                    && after.consecutive_failures == 0 && after.last_http_status == status
            }
            &&& row.state == RouteHealth::Available && !reached ==> after.state
                == RouteHealth::Available && after.consecutive_failures == row.consecutive_failures
                + 1 && after.quarantine_epoch == row.quarantine_epoch && after.next_probe_at_ms
                == row.next_probe_at_ms && after.failure_category == row.failure_category
            &&& row.state != RouteHealth::Available ==> after.state == row.state
                && after.next_probe_at_ms == row.next_probe_at_ms && after.quarantine_epoch
                == row.quarantine_epoch
        }),
{
    law_intervals_double_up_to_the_limit(settings, 0);
}

/// A route that is checked anew forgets what was found of it, but not how often
/// it was quarantined; a new route begins that way.
pub proof fn law_checking_anew_forgets(schema: int, row: HealthData)
    ensures
        ({
            let after = rechecking(schema, row);
            &&& after.state == RouteHealth::Checking
            &&& after.checked_at is None && after.failure_category is None
                && after.next_probe_at_ms is None && after.failed_probe_count == 0
            &&& after.quarantine_epoch == row.quarantine_epoch
            &&& schema >= 14 ==> after.consecutive_failures == 0
        }),
        unchecked().state == RouteHealth::Checking,
        unchecked().next_probe_at_ms is None && unchecked().failure_category is None
            && unchecked().checked_at is None,
        unchecked().quarantine_epoch == 0 && unchecked().consecutive_failures == 0
            && unchecked().failed_probe_count == 0,
{
}

/// A call that succeeds clears the count of failures and changes nothing else.
pub proof fn law_a_success_clears_only_the_count(schema: int, row: HealthData)
    ensures
        schema >= 14 ==> after_success(schema, row) == (HealthData {
            consecutive_failures: 0,
            ..row
        }),
        schema < 14 ==> after_success(schema, row) == row,
{
}

/// A recovery probe is due for an unavailable route once its time has come, and
/// for no other route.
pub proof fn law_recovery_probes_fall_due(row: HealthData, at: i64, now_ms: int)
    ensures
        row.state == RouteHealth::Unavailable && row.next_probe_at_ms == Some(at) ==> (probe_due(
            row,
            now_ms,
        ) <==> at <= now_ms),
        row.state != RouteHealth::Unavailable ==> !probe_due(row, now_ms),
        row.next_probe_at_ms is None ==> !probe_due(row, now_ms),
{
}

/// New settings move the next probe of an unavailable route to the new interval
/// from now, and leave every other route alone.
pub proof fn law_new_settings_reschedule(row: HealthData, settings: RecoverySettings, clocks: Clocks)
    requires
        settings_ok(settings),
        clock_fits(clocks),
        counters_ok(row),
    ensures
        row.state != RouteHealth::Unavailable ==> rescheduled(row, settings, clocks) == row,
        row.state == RouteHealth::Unavailable ==> rescheduled(row, settings, clocks)
            == (HealthData {
            next_probe_at_ms: Some(
                (clocks.schedule_ms + interval(settings, row.failed_probe_count as int)) as i64,
            ),
            ..row
        }),
        row.state == RouteHealth::Unavailable && row.failed_probe_count == 0 ==> rescheduled(
            row,
            settings,
            clocks,
        ).next_probe_at_ms == Some((clocks.schedule_ms + settings.base_interval_ms) as i64),
{
    law_intervals_double_up_to_the_limit(settings, 0);
}

/// The intervals are the base interval times a power of two, up to that of the
/// limit.
pub proof fn law_intervals(settings: RecoverySettings, failed: int)
    requires
        settings_ok(settings),
        0 <= failed,
    ensures
        failed <= settings.doubling_limit ==> interval(settings, failed)
            == settings.base_interval_ms * pow2(failed as nat),
        failed > settings.doubling_limit ==> interval(settings, failed)
            == settings.base_interval_ms * pow2(settings.doubling_limit as nat),
{
}

/// Settings are taken when every one of them lies within its bounds, and refused
/// when any does not.
pub proof fn law_settings_have_bounds(settings: RecoverySettings)
    ensures
        settings_ok(settings) <==> {
            &&& 100 <= settings.base_interval_ms <= 24 * 60 * 60 * 1000
            &&& 0 <= settings.doubling_limit <= 20
            &&& 1000 <= settings.first_event_timeout_ms <= 60 * 60 * 1000
            &&& 1000 <= settings.stream_idle_timeout_ms <= 60 * 60 * 1000
            &&& 1000 <= settings.nonstream_timeout_ms <= 60 * 60 * 1000
            &&& 0 <= settings.freshness_interval_ms <= 24 * 60 * 60 * 1000
            &&& 1 <= settings.quarantine_threshold <= 5
            &&& 0 <= settings.upstream_sync_interval_ms <= 7 * 24 * 60 * 60 * 1000
        },
        settings_ok(default_settings()),
        default_settings().base_interval_ms == 30 * 1000 && default_settings().doubling_limit == 5
            && default_settings().quarantine_threshold == 2,
        default_settings().freshness_interval_ms == 10 * 60 * 1000
            && default_settings().upstream_sync_interval_ms == 24 * 60 * 60 * 1000,
        default_settings().first_event_timeout_ms == 2 * 60 * 1000
            && default_settings().stream_idle_timeout_ms == 30 * 1000
            && default_settings().nonstream_timeout_ms == 2 * 60 * 1000,
{
}

/// A setting that a request leaves out stays as it is; one that it names becomes
/// what it names.
pub proof fn law_settings_left_out_stay(current: RecoverySettings, request: SettingsRequest)
    ensures
        ({
            let asked = requested_settings(current, request);
            &&& asked.base_interval_ms == request.base_interval_ms
            &&& asked.doubling_limit == request.doubling_limit
            &&& request.first_event_timeout_ms is None ==> asked.first_event_timeout_ms
                == current.first_event_timeout_ms
            &&& request.first_event_timeout_ms matches Some(ms) ==> asked.first_event_timeout_ms
                == ms
            &&& request.stream_idle_timeout_ms is None ==> asked.stream_idle_timeout_ms
                == current.stream_idle_timeout_ms
            &&& request.stream_idle_timeout_ms matches Some(ms) ==> asked.stream_idle_timeout_ms
                == ms
            &&& request.nonstream_timeout_ms is None ==> asked.nonstream_timeout_ms
                == current.nonstream_timeout_ms
            &&& request.nonstream_timeout_ms matches Some(ms) ==> asked.nonstream_timeout_ms == ms
            &&& request.freshness_interval_ms is None ==> asked.freshness_interval_ms
                == current.freshness_interval_ms
            &&& request.freshness_interval_ms matches Some(ms) ==> asked.freshness_interval_ms == ms
            &&& request.quarantine_threshold is None ==> asked.quarantine_threshold
                == current.quarantine_threshold
            &&& request.quarantine_threshold matches Some(n) ==> asked.quarantine_threshold == n
            &&& request.upstream_sync_interval_ms is None ==> asked.upstream_sync_interval_ms
                == current.upstream_sync_interval_ms
            &&& request.upstream_sync_interval_ms matches Some(ms)
                ==> asked.upstream_sync_interval_ms == ms
        }),
{
}

/// With a current schema the stored settings are in force, but for a threshold
/// within bounds that overrides the stored one.
pub proof fn law_stored_settings_are_in_force(
    schema: int,
    stored: RecoverySettings,
    threshold: Option<i64>,
)
    requires
        schema >= 15,
    ensures
        threshold is None ==> settings_in_force(schema, stored, threshold) == stored,
        threshold matches Some(n) ==> settings_in_force(schema, stored, threshold)
            == (RecoverySettings {
            quarantine_threshold: if 1 <= n <= 5 {
                n
            } else {
                stored.quarantine_threshold
            },
            ..stored
        }),
{
}

/// A deadline is what is set.
pub proof fn law_deadlines_are_what_is_set(setting: i64)
    ensures
        setting >= 1 ==> deadline(setting) == setting,
        setting < 1 ==> deadline(setting) == 1,
{
}

/// Health is persisted under the names that the schema allows.
pub proof fn law_health_names(name: Seq<char>)
    ensures
        health_name(RouteHealth::Checking) == "checking"@,
        health_name(RouteHealth::Available) == "available"@,
        health_name(RouteHealth::Unavailable) == "unavailable"@,
        name != "available"@ && name != "unavailable"@ ==> health_of_name(name)
            == RouteHealth::Checking,
{
}

} // verus!
