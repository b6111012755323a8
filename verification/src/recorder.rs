//! The record of one client call: its attempts, its outcome and its times.

use crate::find::{find, lemma_found};
use crate::protocol::{protocol_name, StreamProtocol, Usage};
use crate::store::ModelRouteCandidate;
use vstd::prelude::*;
use vstd::string::*;

verus! {

/// How an attempt ended.
#[derive(Debug, Clone, Copy, PartialEq, Eq, Structural)]
pub enum ModelRouteAttemptOutcome {
    /// It failed, and another candidate follows.
    Fallback,
    /// It failed, and the call with it.
    Failed,
    Success,
    /// The stream broke off after it had begun.
    StreamTerminated,
    /// The client went away.
    ClientCancelled,
}

/// The recorded name of an outcome.
pub open spec fn outcome_name(outcome: ModelRouteAttemptOutcome) -> Seq<char> {
    match outcome {
        ModelRouteAttemptOutcome::Fallback => "fallback"@,
        ModelRouteAttemptOutcome::Failed => "failed"@,
        ModelRouteAttemptOutcome::Success => "success"@,
        ModelRouteAttemptOutcome::StreamTerminated => "stream_terminated"@,
        ModelRouteAttemptOutcome::ClientCancelled => "client_cancelled"@,
    }
}

impl ModelRouteAttemptOutcome {
    /// The recorded name.
    pub fn as_str(self) -> (r: &'static str)
        ensures
            r@ == outcome_name(self),
    {
        match self {
            ModelRouteAttemptOutcome::Fallback => "fallback",
            ModelRouteAttemptOutcome::Failed => "failed",
            ModelRouteAttemptOutcome::Success => "success",
            ModelRouteAttemptOutcome::StreamTerminated => "stream_terminated",
            ModelRouteAttemptOutcome::ClientCancelled => "client_cancelled",
        }
    }
}

/// Whether anything has reached the client.
#[derive(Debug, Clone, Copy, PartialEq, Eq, Structural)]
pub enum CommitPhase {
    PreCommit,
    Committed,
}

/// The recorded name of a phase.
pub open spec fn phase_name(phase: CommitPhase) -> Seq<char> {
    match phase {
        CommitPhase::PreCommit => "pre_commit"@,
        CommitPhase::Committed => "committed"@,
    }
}

impl CommitPhase {
    /// The recorded name.
    pub fn as_str(self) -> (r: &'static str)
        ensures
            r@ == phase_name(self),
    {
        match self {
            CommitPhase::PreCommit => "pre_commit",
            CommitPhase::Committed => "committed",
        }
    }
}

/// What is known of an attempt. Times are readings of a steady clock, in
/// nanoseconds.
pub struct AttemptData {
    pub sequence: i64,
    pub route_id: Seq<char>,
    pub provider_id: Seq<char>,
    pub provider_name: Seq<char>,
    pub started_at: u64,
    pub ended_at: Option<u64>,
    pub http_status: Option<i64>,
    pub failure_category: Option<Seq<char>>,
    pub phase: CommitPhase,
    pub outcome: Option<ModelRouteAttemptOutcome>,
}

/// One attempt of a call, through one route.
#[derive(Debug)]
pub struct ModelRouteAttemptDraft {
    pub sequence: i64,
    pub route_id: String,
    pub provider_id: String,
    pub provider_name: String,
    pub started_at: u64,
    pub ended_at: Option<u64>,
    pub http_status: Option<i64>,
    pub failure_category: Option<String>,
    pub phase: CommitPhase,
    pub outcome: Option<ModelRouteAttemptOutcome>,
}

/// The characters of an optional text.
pub open spec fn chars_or_none(text: Option<String>) -> Option<Seq<char>> {
    match text {
        Some(t) => Some(t@),
        None => None,
    }
}

impl View for ModelRouteAttemptDraft {
    type V = AttemptData;

    open spec fn view(&self) -> AttemptData {
        AttemptData {
            sequence: self.sequence,
            route_id: self.route_id@,
            provider_id: self.provider_id@,
            provider_name: self.provider_name@,
            started_at: self.started_at,
            ended_at: self.ended_at,
            http_status: self.http_status,
            failure_category: chars_or_none(self.failure_category),
            phase: self.phase,
            outcome: self.outcome,
        }
    }
}

/// What is known of a call.
pub struct CallData {
    pub created_at_ms: i64,
    pub started_at: u64,
    pub published_model_name: Seq<char>,
    pub protocol: StreamProtocol,
    pub streamed: bool,
    pub attempts: Seq<AttemptData>,
    pub first_chunk_at: Option<u64>,
    pub usage: Option<Usage>,
    pub finalized: bool,
}

/// Builds the record of one call while its candidates are tried.
#[derive(Debug)]
pub struct CallRecorder {
    pub created_at_ms: i64,
    pub started_at: u64,
    pub published_model_name: String,
    pub protocol: StreamProtocol,
    pub streamed: bool,
    pub attempts: Vec<ModelRouteAttemptDraft>,
    pub first_chunk_at: Option<u64>,
    pub usage: Option<Usage>,
    pub finalized: bool,
    /// Ties the events of the call together.
    pub correlation_id: String,
}

/// The plain data of attempts.
pub open spec fn attempts_data(attempts: Seq<ModelRouteAttemptDraft>) -> Seq<AttemptData> {
    attempts.map_values(|attempt: ModelRouteAttemptDraft| attempt@)
}

impl View for CallRecorder {
    type V = CallData;

    open spec fn view(&self) -> CallData {
        CallData {
            created_at_ms: self.created_at_ms,
            started_at: self.started_at,
            published_model_name: self.published_model_name@,
            protocol: self.protocol,
            streamed: self.streamed,
            attempts: attempts_data(self.attempts@),
            first_chunk_at: self.first_chunk_at,
            usage: self.usage,
            finalized: self.finalized,
        }
    }
}

/// A call of which nothing has been tried.
pub open spec fn new_call(
    created_at_ms: i64,
    now: u64,
    published_model_name: Seq<char>,
    protocol: StreamProtocol,
    streamed: bool,
) -> CallData {
    CallData {
        created_at_ms,
        started_at: now,
        published_model_name,
        protocol,
        streamed,
        attempts: Seq::empty(),
        first_chunk_at: None,
        usage: None,
        finalized: false,
    }
}

/// A new attempt through a candidate.
pub open spec fn new_attempt(sequence: int, candidate: ModelRouteCandidate, now: u64) -> AttemptData {
    AttemptData {
        sequence: sequence as i64,
        route_id: candidate.route_id@,
        provider_id: candidate.provider_id@,
        provider_name: candidate.provider_name@,
        started_at: now,
        ended_at: None,
        http_status: None,
        failure_category: None,
        phase: CommitPhase::PreCommit,
        outcome: None,
    }
}

/// A call with the last attempt replaced by `change` of it; a call without
/// attempts as it is.
pub open spec fn with_last(call: CallData, change: spec_fn(AttemptData) -> AttemptData) -> CallData {
    if call.attempts.len() == 0 {
        call
    } else {
        CallData {
            attempts: call.attempts.update(
                call.attempts.len() - 1,
                change(call.attempts.last()),
            ),
            ..call
        }
    }
}

/// An attempt that ended.
pub open spec fn ended(
    http_status: Option<i64>,
    failure_category: Option<Seq<char>>,
    phase: CommitPhase,
    outcome: ModelRouteAttemptOutcome,
    now: u64,
) -> spec_fn(AttemptData) -> AttemptData {
    |attempt: AttemptData|
        AttemptData {
            http_status,
            failure_category,
            phase,
            outcome: Some(outcome),
            ended_at: Some(now),
            ..attempt
        }
}

/// An attempt of which something has reached the client.
pub open spec fn committed(http_status: i64) -> spec_fn(AttemptData) -> AttemptData {
    |attempt: AttemptData|
        AttemptData { http_status: Some(http_status), phase: CommitPhase::Committed, ..attempt }
}

/// A committed attempt whose outcome was open, resolved.
pub open spec fn resolved(
    outcome: ModelRouteAttemptOutcome,
    failure_category: Option<Seq<char>>,
    now: u64,
) -> spec_fn(AttemptData) -> AttemptData {
    |attempt: AttemptData|
        if attempt.phase == CommitPhase::Committed && attempt.outcome is None {
            AttemptData {
                outcome: Some(outcome),
                failure_category,
                ended_at: Some(now),
                ..attempt
            }
        } else {
            attempt
        }
}

/// The milliseconds from one reading of the clock to another; none backwards.
pub open spec fn millis_between(from: u64, to: u64) -> int {
    if to >= from {
        (to - from) / 1_000_000
    } else {
        0
    }
}

/// The milliseconds from one reading of the clock to another.
pub fn elapsed_ms(from: u64, to: u64) -> (r: i64)
    ensures
        r == millis_between(from, to),
        0 <= r <= 18_446_744_073_709,
{
    if to >= from {
        ((to - from) / 1_000_000) as i64
    } else {
        0
    }
}

/// One attempt as it is recorded.
#[derive(Debug, Clone)]
pub struct ModelRouteAttempt {
    pub sequence: i64,
    pub route_id: String,
    pub provider_id: String,
    pub provider_name: String,
    pub started_at_ms: i64,
    pub duration_ms: i64,
    pub http_status: Option<i64>,
    pub failure_category: Option<String>,
    pub commit_phase: String,
    pub outcome: String,
}

/// One call as it is recorded.
#[derive(Debug, Clone)]
pub struct NewCallRecord {
    pub created_at_ms: i64,
    pub published_model_name: String,
    pub protocol: String,
    pub streamed: bool,
    pub succeeded: bool,
    pub success_provider_id: Option<String>,
    pub success_provider_name: Option<String>,
    pub usage: Option<Usage>,
    pub completion_ms: Option<i64>,
    pub first_token_ms: Option<i64>,
    pub attempts: Vec<ModelRouteAttempt>,
}

/// Whether `recorded` is the record of an attempt of a call at a time. An
/// attempt whose outcome is open is recorded as a success.
pub open spec fn records_attempt(
    call: CallData,
    attempt: AttemptData,
    now: u64,
    recorded: ModelRouteAttempt,
) -> bool {
    &&& recorded.sequence == attempt.sequence
    &&& recorded.route_id@ == attempt.route_id
    &&& recorded.provider_id@ == attempt.provider_id
    &&& recorded.provider_name@ == attempt.provider_name
    &&& recorded.started_at_ms == call.created_at_ms + millis_between(
        call.started_at,
        attempt.started_at,
    )
    &&& recorded.duration_ms == millis_between(
        attempt.started_at,
        match attempt.ended_at {
            Some(at) => at,
            None => now,
        },
    )
    &&& recorded.http_status == attempt.http_status
    &&& chars_or_none(recorded.failure_category) == attempt.failure_category
    &&& recorded.commit_phase@ == phase_name(attempt.phase)
    &&& recorded.outcome@ == match attempt.outcome {
        Some(outcome) => outcome_name(outcome),
        None => "success"@,
    }
}

/// Whether an attempt succeeded.
pub open spec fn is_success() -> spec_fn(AttemptData) -> bool {
    |attempt: AttemptData| attempt.outcome == Some(ModelRouteAttemptOutcome::Success)
}

/// Whether `record` is the record of a call that ends at a time. Only a call
/// that succeeded has usage and times.
pub open spec fn records_call(call: CallData, succeeded: bool, now: u64, record: NewCallRecord) -> bool {
    let success = find(call.attempts, is_success());
    &&& record.created_at_ms == call.created_at_ms
    &&& record.published_model_name@ == call.published_model_name
    &&& record.protocol@ == protocol_name(call.protocol)
    &&& record.streamed == call.streamed
    &&& record.succeeded == succeeded
    &&& chars_or_none(record.success_provider_id) == match success {
        Some(i) => Some(call.attempts[i].provider_id),
        None => None,
    }
    &&& chars_or_none(record.success_provider_name) == match success {
        Some(i) => Some(call.attempts[i].provider_name),
        None => None,
    }
    &&& record.usage == if succeeded {
        call.usage
    } else {
        None
    }
    &&& record.completion_ms == if succeeded {
        Some(millis_between(call.started_at, now) as i64)
    } else {
        None
    }
    &&& record.first_token_ms == match (call.streamed && succeeded, call.first_chunk_at) {
        (true, Some(at)) => Some(millis_between(call.started_at, at) as i64),
        _ => None,
    }
    &&& record.attempts@.len() == call.attempts.len()
    &&& forall|i: int|
        0 <= i < call.attempts.len() ==> records_attempt(
            call,
            call.attempts[i],
            now,
            #[trigger] record.attempts@[i],
        )
}

/// Whether the times of a call can be written down.
pub open spec fn call_fits(call: CallData) -> bool {
    call.created_at_ms + 18_446_744_073_709 <= i64::MAX
}

/// What is reported of a call that was not plain success.
#[derive(Debug)]
pub struct CallEvent {
    pub code: &'static str,
    pub severity: &'static str,
    pub attempts: usize,
    pub fallback: bool,
    pub failure_category: Option<String>,
}

/// Whether any attempt ended with an outcome.
pub open spec fn any_ended(attempts: Seq<AttemptData>, outcome: ModelRouteAttemptOutcome) -> bool {
    exists|i: int| 0 <= i < attempts.len() && (#[trigger] attempts[i]).outcome == Some(outcome)
}

/// Whether every attempt succeeded.
pub open spec fn all_succeeded(attempts: Seq<AttemptData>) -> bool {
    forall|i: int|
        0 <= i < attempts.len() ==> (#[trigger] attempts[i]).outcome == Some(
            ModelRouteAttemptOutcome::Success,
        )
}

/// The category of the last attempt that has one.
pub open spec fn last_category(attempts: Seq<AttemptData>) -> Option<Seq<char>>
    decreases attempts.len(),
{
    if attempts.len() == 0 {
        None
    } else if attempts.last().failure_category is Some {
        attempts.last().failure_category
    } else {
        last_category(attempts.drop_last())
    }
}

/// The code and severity under which a call is reported.
pub open spec fn event_kind(attempts: Seq<AttemptData>) -> (Seq<char>, Seq<char>) {
    if any_ended(attempts, ModelRouteAttemptOutcome::Fallback) {
        ("call.fallback"@, "warning"@)
    } else if attempts.last().outcome == Some(ModelRouteAttemptOutcome::StreamTerminated) {
        ("call.stream_terminated"@, "error"@)
    } else if attempts.last().outcome == Some(ModelRouteAttemptOutcome::ClientCancelled) {
        ("call.cancelled"@, "info"@)
    } else {
        ("call.failed"@, "error"@)
    }
}

/// A call of which a chunk has reached the client; the first counts.
pub open spec fn with_first_chunk(call: CallData, now: u64) -> CallData {
    CallData {
        first_chunk_at: match call.first_chunk_at {
            Some(at) => Some(at),
            None => Some(now),
        },
        ..call
    }
}

/// A call with the usage that was reported last.
pub open spec fn with_usage(call: CallData, usage: Option<Usage>) -> CallData {
    CallData {
        usage: match usage {
            Some(reported) => Some(reported),
            None => call.usage,
        },
        ..call
    }
}

/// A call that is over; one that succeeded has handed its usage over.
pub open spec fn call_over(call: CallData, succeeded: bool) -> CallData {
    CallData {
        finalized: true,
        usage: if succeeded {
            None
        } else {
            call.usage
        },
        ..call
    }
}

impl CallRecorder {
    /// The record of a call that begins.
    pub fn new(
        published_model_name: &str,
        protocol: StreamProtocol,
        streamed: bool,
        created_at_ms: i64,
        now: u64,
        correlation_id: String,
    ) -> (r: Self)
        ensures
            r@ == new_call(created_at_ms, now, published_model_name@, protocol, streamed),
            r.correlation_id == correlation_id,
    {
        let r = CallRecorder {
            created_at_ms,
            started_at: now,
            published_model_name: published_model_name.to_owned(),
            protocol,
            streamed,
            attempts: Vec::new(),
            first_chunk_at: None,
            usage: None,
            finalized: false,
            correlation_id,
        };
        proof {
            assert(r@.attempts =~= Seq::empty());
        }
        r
    }

    /// Begins an attempt through a candidate.
    pub fn begin_model_route_attempt(&mut self, candidate: &ModelRouteCandidate, now: u64)
        requires
            old(self)@.attempts.len() < i64::MAX,
        ensures
            final(self)@ == (CallData {
                attempts: old(self)@.attempts.push(
                    new_attempt(old(self)@.attempts.len() as int, *candidate, now),
                ),
                ..old(self)@
            }),
            final(self).correlation_id == old(self).correlation_id,
    {
        let ghost before = self@;
        let sequence: i64 = self.attempts.len() as i64;
        self.attempts.push(
            ModelRouteAttemptDraft {
                sequence,
                route_id: candidate.route_id.clone(),
                provider_id: candidate.provider_id.clone(),
                provider_name: candidate.provider_name.clone(),
                started_at: now,
                ended_at: None,
                http_status: None,
                failure_category: None,
                phase: CommitPhase::PreCommit,
                outcome: None,
            },
        );
        proof {
            assert(self@.attempts =~= before.attempts.push(
                new_attempt(before.attempts.len() as int, *candidate, now),
            ));
        }
    }

    /// Ends the attempt under way.
    pub fn finish_model_route_attempt(
        &mut self,
        http_status: Option<i64>,
        failure_category: Option<String>,
        phase: CommitPhase,
        outcome: ModelRouteAttemptOutcome,
        now: u64,
    )
        ensures
            final(self)@ == with_last(
                old(self)@,
                ended(http_status, chars_or_none(failure_category), phase, outcome, now),
            ),
            final(self).correlation_id == old(self).correlation_id,
    {
        let ghost before = self@;
        let ghost category = chars_or_none(failure_category);
        let count: usize = self.attempts.len();
        if count > 0 {
            let last: usize = count - 1;
            self.attempts[last].http_status = http_status;
            self.attempts[last].failure_category = failure_category;
            self.attempts[last].phase = phase;
            self.attempts[last].outcome = Some(outcome);
            self.attempts[last].ended_at = Some(now);
            proof {
                assert(self@.attempts =~= with_last(
                    before,
                    ended(http_status, category, phase, outcome, now),
                ).attempts);
            }
        }
    }

    /// Notes that something of the attempt under way has reached the client.
    pub fn mark_committed(&mut self, http_status: i64)
        ensures
            final(self)@ == with_last(old(self)@, committed(http_status)),
            final(self).correlation_id == old(self).correlation_id,
    {
        let ghost before = self@;
        let count: usize = self.attempts.len();
        if count > 0 {
            let last: usize = count - 1;
            self.attempts[last].http_status = Some(http_status);
            self.attempts[last].phase = CommitPhase::Committed;
            proof {
                assert(self@.attempts =~= with_last(before, committed(http_status)).attempts);
            }
        }
    }

    /// The route of the attempt under way.
    pub fn committed_route_id(&self) -> (r: Option<&String>)
        ensures
            self@.attempts.len() == 0 <==> r is None,
            r matches Some(id) ==> id@ == self@.attempts.last().route_id,
    {
        let count: usize = self.attempts.len();
        if count > 0 {
            Some(&self.attempts[count - 1].route_id)
        } else {
            None
        }
    }

    /// Resolves the committed attempt at the end of its stream.
    pub fn resolve_committed_model_route_attempt(
        &mut self,
        outcome: ModelRouteAttemptOutcome,
        failure_category: Option<String>,
        now: u64,
    )
        ensures
            final(self)@ == with_last(
                old(self)@,
                resolved(outcome, chars_or_none(failure_category), now),
            ),
            final(self).correlation_id == old(self).correlation_id,
    {
        let ghost before = self@;
        let ghost category = chars_or_none(failure_category);
        let count: usize = self.attempts.len();
        if count > 0 {
            let last: usize = count - 1;
            if self.attempts[last].phase == CommitPhase::Committed
                && self.attempts[last].outcome.is_none() {
                self.attempts[last].outcome = Some(outcome);
                self.attempts[last].failure_category = failure_category;
                self.attempts[last].ended_at = Some(now);
            }
            proof {
                assert(self@.attempts =~= with_last(
                    before,
                    resolved(outcome, category, now),
                ).attempts);
            }
        }
    }

    /// Notes when the first bytes went to the client.
    pub fn note_first_chunk(&mut self, now: u64)
        ensures
            final(self)@ == with_first_chunk(old(self)@, now),
            final(self).correlation_id == old(self).correlation_id,
    {
        if self.first_chunk_at.is_none() {
            self.first_chunk_at = Some(now);
        }
    }

    /// Notes usage that was reported.
    pub fn note_usage(&mut self, usage: Option<Usage>)
        ensures
            final(self)@ == with_usage(old(self)@, usage),
            final(self).correlation_id == old(self).correlation_id,
    {
        if usage.is_some() {
            self.usage = usage;
        }
    }

    /// Ends the call and gives its record.
    pub fn finalize(&mut self, succeeded: bool, now: u64) -> (r: NewCallRecord)
        requires
            call_fits(old(self)@),
        ensures
            records_call(old(self)@, succeeded, now, r),
            final(self)@ == call_over(old(self)@, succeeded),
            final(self).correlation_id == old(self).correlation_id,
    {
        let ghost call = self@;
        self.finalized = true;
        let completion_ms: Option<i64> = if succeeded {
            Some(elapsed_ms(self.started_at, now))
        } else {
            None
        };
        let first_token_ms: Option<i64> = if self.streamed && succeeded {
            match self.first_chunk_at {
                Some(at) => Some(elapsed_ms(self.started_at, at)),
                None => None,
            }
        } else {
            None
        };
        let success = self.success_place();
        let (success_provider_id, success_provider_name) = match success {
            Some(i) => (
                Some(self.attempts[i].provider_id.clone()),
                Some(self.attempts[i].provider_name.clone()),
            ),
            None => (None, None),
        };
        let usage = if succeeded {
            let usage = self.usage;
            self.usage = None;
            usage
        } else {
            None
        };
        let mut attempts: Vec<ModelRouteAttempt> = Vec::new();
        for i in 0..self.attempts.len()
            invariant
                call_fits(call),
                self.created_at_ms == call.created_at_ms,
                self.started_at == call.started_at,
                attempts_data(self.attempts@) == call.attempts,
                attempts@.len() == i,
                forall|k: int|
                    0 <= k < i ==> records_attempt(
                        call,
                        call.attempts[k],
                        now,
                        #[trigger] attempts@[k],
                    ),
        {
            let attempt = &self.attempts[i];
            proof {
                assert(call.attempts[i as int] == attempt@);
            }
            let outcome = match attempt.outcome {
                Some(outcome) => outcome.as_str(),
                None => "success",
            };
            attempts.push(
                ModelRouteAttempt {
                    sequence: attempt.sequence,
                    route_id: attempt.route_id.clone(),
                    provider_id: attempt.provider_id.clone(),
                    provider_name: attempt.provider_name.clone(),
                    started_at_ms: self.created_at_ms + elapsed_ms(
                        self.started_at,
                        attempt.started_at,
                    ),
                    duration_ms: elapsed_ms(
                        attempt.started_at,
                        match attempt.ended_at {
                            Some(at) => at,
                            None => now,
                        },
                    ),
                    http_status: attempt.http_status,
                    failure_category: attempt.failure_category.clone(),
                    commit_phase: attempt.phase.as_str().to_owned(),
                    outcome: outcome.to_owned(),
                },
            );
        }
        NewCallRecord {
            created_at_ms: self.created_at_ms,
            published_model_name: self.published_model_name.clone(),
            protocol: self.protocol.as_str().to_owned(),
            streamed: self.streamed,
            succeeded,
            success_provider_id,
            success_provider_name,
            usage,
            completion_ms,
            first_token_ms,
            attempts,
        }
    }

    /// Where the first attempt that succeeded stands.
    fn success_place(&self) -> (r: Option<usize>)
        ensures
            r is Some <==> find(self@.attempts, is_success()) is Some,
            r matches Some(i) ==> find(self@.attempts, is_success()) == Some(i as int) && i
                < self.attempts@.len(),
    {
        let ghost wanted = is_success();
        let mut i: usize = 0;
        while i < self.attempts.len()
            invariant
                i <= self.attempts@.len(),
                wanted == is_success(),
                forall|k: int| 0 <= k < i ==> !wanted(#[trigger] self@.attempts[k]),
            decreases self.attempts@.len() - i,
        {
            if matches!(self.attempts[i].outcome, Some(ModelRouteAttemptOutcome::Success)) {
                proof {
                    assert(wanted(self@.attempts[i as int]));
                    lemma_found(self@.attempts, wanted, i as int);
                }
                return Some(i);
            }
            i = i + 1;
        }
        proof {
            lemma_found(self@.attempts, wanted, i as int);
        }
        None
    }

    /// What is reported of the call: nothing where nothing was tried or every
    /// attempt succeeded.
    pub fn call_event(&self) -> (r: Option<CallEvent>)
        ensures
            r is None <==> all_succeeded(self@.attempts),
            r matches Some(event) ==> {
                &&& (event.code@, event.severity@) == event_kind(self@.attempts)
                &&& event.attempts == self@.attempts.len()
                &&& event.fallback == any_ended(
                    self@.attempts,
                    ModelRouteAttemptOutcome::Fallback,
                )
                &&& chars_or_none(event.failure_category) == last_category(self@.attempts)
            },
    {
        let count: usize = self.attempts.len();
        let mut all = true;
        let mut fallback = false;
        let mut category: Option<String> = None;
        for i in 0..count
            invariant
                count == self.attempts@.len(),
                all == all_succeeded(self@.attempts.take(i as int)),
                fallback == any_ended(
                    self@.attempts.take(i as int),
                    ModelRouteAttemptOutcome::Fallback,
                ),
                chars_or_none(category) == last_category(self@.attempts.take(i as int)),
        {
            proof {
                lemma_one_more_attempt(self@.attempts, i as int);
            }
            let attempt = &self.attempts[i];
            if !matches!(attempt.outcome, Some(ModelRouteAttemptOutcome::Success)) {
                all = false;
            }
            if matches!(attempt.outcome, Some(ModelRouteAttemptOutcome::Fallback)) {
                fallback = true;
            }
            if attempt.failure_category.is_some() {
                category = attempt.failure_category.clone();
            }
        }
        proof {
            assert(self@.attempts.take(count as int) =~= self@.attempts);
        }
        if all {
            return None;
        }
        let (code, severity) = if fallback {
            ("call.fallback", "warning")
        } else {
            match self.attempts[count - 1].outcome {
                Some(ModelRouteAttemptOutcome::StreamTerminated) => (
                    "call.stream_terminated",
                    "error",
                ),
                Some(ModelRouteAttemptOutcome::ClientCancelled) => ("call.cancelled", "info"),
                _ => ("call.failed", "error"),
            }
        };
        Some(CallEvent { code, severity, attempts: count, fallback, failure_category: category })
    }

    /// Ends a call that the client walked away from, unless it has ended: a
    /// committed attempt is cancelled, and no route is blamed.
    pub fn abandon(&mut self, now: u64) -> (r: Option<NewCallRecord>)
        requires
            call_fits(old(self)@),
        ensures
            final(self).correlation_id == old(self).correlation_id,
            r is None <==> old(self)@.finalized,
            r is None ==> *final(self) == *old(self),
            r matches Some(record) ==> {
                let cancelled = with_last(
                    old(self)@,
                    resolved(ModelRouteAttemptOutcome::ClientCancelled, None, now),
                );
                &&& records_call(cancelled, false, now, record)
                &&& final(self)@ == (CallData { finalized: true, ..cancelled })
            },
    {
        if self.finalized {
            return None;
        }
        self.resolve_committed_model_route_attempt(
            ModelRouteAttemptOutcome::ClientCancelled,
            None,
            now,
        );
        Some(self.finalize(false, now))
    }
}

/// What one attempt more changes in what is reported.
proof fn lemma_one_more_attempt(attempts: Seq<AttemptData>, i: int)
    requires
        0 <= i < attempts.len(),
    ensures
        ({
            let (was, is, last) = (attempts.take(i), attempts.take(i + 1), attempts[i]);
            &&& all_succeeded(is) == (all_succeeded(was) && last.outcome == Some(
                ModelRouteAttemptOutcome::Success,
            ))
            &&& any_ended(is, ModelRouteAttemptOutcome::Fallback) == (any_ended(
                was,
                ModelRouteAttemptOutcome::Fallback,
            ) || last.outcome == Some(ModelRouteAttemptOutcome::Fallback))
            &&& last_category(is) == if last.failure_category is Some {
                last.failure_category
            } else {
                last_category(was)
            }
        }),
{
    let (was, is, last) = (attempts.take(i), attempts.take(i + 1), attempts[i]);
    assert(is.drop_last() =~= was);
    assert(is.last() == last);
    assert(is[i] == last);
    assert forall|k: int| 0 <= k < i implies was[k] == is[k] by {}
    if any_ended(was, ModelRouteAttemptOutcome::Fallback) {
        let k = choose|k: int|
            0 <= k < was.len() && (#[trigger] was[k]).outcome == Some(
                ModelRouteAttemptOutcome::Fallback,
            );
        assert(is[k].outcome == Some(ModelRouteAttemptOutcome::Fallback));
    }
    if any_ended(is, ModelRouteAttemptOutcome::Fallback) {
        let k = choose|k: int|
            0 <= k < is.len() && (#[trigger] is[k]).outcome == Some(
                ModelRouteAttemptOutcome::Fallback,
            );
        if k < i {
            assert(was[k].outcome == Some(ModelRouteAttemptOutcome::Fallback));
        }
    }
    if all_succeeded(is) {
        assert forall|k: int| 0 <= k < was.len() implies (#[trigger] was[k]).outcome == Some(
            ModelRouteAttemptOutcome::Success,
        ) by {
            assert(is[k].outcome == Some(ModelRouteAttemptOutcome::Success));
        }
    }
    if all_succeeded(was) && last.outcome == Some(ModelRouteAttemptOutcome::Success) {
        assert forall|k: int| 0 <= k < is.len() implies (#[trigger] is[k]).outcome == Some(
            ModelRouteAttemptOutcome::Success,
        ) by {
            if k < i {
                assert(was[k].outcome == Some(ModelRouteAttemptOutcome::Success));
            }
        }
    }
}

/// The record of a call that failed holds no usage and no times.
pub proof fn law_failed_calls_record_no_usage(call: CallData, now: u64, record: NewCallRecord)
    requires
        records_call(call, false, now, record),
    ensures
        record.usage is None,
        record.completion_ms is None,
        record.first_token_ms is None,
{
}

/// A call is recorded as what it was: when it came, for which published model,
/// by which protocol, streamed or not, and whether it succeeded.
pub proof fn law_calls_are_recorded_as_they_were(
    call: CallData,
    succeeded: bool,
    now: u64,
    record: NewCallRecord,
)
    requires
        records_call(call, succeeded, now, record),
    ensures
        record.created_at_ms == call.created_at_ms,
        record.published_model_name@ == call.published_model_name,
        call.protocol == StreamProtocol::ChatCompletions ==> record.protocol@
            == "chat_completions"@,
        call.protocol == StreamProtocol::Responses ==> record.protocol@ == "responses"@,
        record.streamed == call.streamed,
        record.succeeded == succeeded,
        record.attempts@.len() == call.attempts.len(),
{
}

/// Every attempt is recorded in its place, with the route and the provider it
/// went through, what the upstream answered, why it failed and how it ended.
pub proof fn law_attempts_are_recorded_as_they_were(
    call: CallData,
    succeeded: bool,
    now: u64,
    record: NewCallRecord,
    i: int,
)
    requires
        records_call(call, succeeded, now, record),
        0 <= i < call.attempts.len(),
    ensures
        ({
            let (attempt, recorded) = (call.attempts[i], record.attempts@[i]);
            &&& recorded.sequence == attempt.sequence
            &&& recorded.route_id@ == attempt.route_id
            &&& recorded.provider_id@ == attempt.provider_id
            &&& recorded.provider_name@ == attempt.provider_name
            &&& recorded.http_status == attempt.http_status
            &&& recorded.failure_category is None <==> attempt.failure_category is None
            &&& recorded.failure_category matches Some(category) ==> attempt.failure_category
                == Some(category@)
            &&& attempt.phase == CommitPhase::PreCommit ==> recorded.commit_phase@ == "pre_commit"@
            &&& attempt.phase == CommitPhase::Committed ==> recorded.commit_phase@ == "committed"@
            &&& attempt.outcome == Some(ModelRouteAttemptOutcome::Fallback) ==> recorded.outcome@
                == "fallback"@
            &&& attempt.outcome == Some(ModelRouteAttemptOutcome::Failed) ==> recorded.outcome@
                == "failed"@
            &&& attempt.outcome == Some(ModelRouteAttemptOutcome::Success) ==> recorded.outcome@
                == "success"@
            &&& attempt.outcome == Some(ModelRouteAttemptOutcome::StreamTerminated)
                ==> recorded.outcome@ == "stream_terminated"@
            &&& attempt.outcome == Some(ModelRouteAttemptOutcome::ClientCancelled)
                ==> recorded.outcome@ == "client_cancelled"@
            &&& attempt.ended_at matches Some(end) ==> end >= attempt.started_at
                ==> recorded.duration_ms * 1_000_000 <= end - attempt.started_at < (
            recorded.duration_ms + 1) * 1_000_000
            &&& attempt.started_at >= call.started_at ==> (recorded.started_at_ms
                - call.created_at_ms) * 1_000_000 <= attempt.started_at - call.started_at < (
            recorded.started_at_ms - call.created_at_ms + 1) * 1_000_000
        }),
{
    assert(records_attempt(call, call.attempts[i], now, record.attempts@[i]));
}

/// A call that succeeded is recorded with the provider of the attempt that did,
/// the usage it reported and the time it took; a stream also with the time to
/// its first bytes.
pub proof fn law_successful_calls_are_recorded(
    call: CallData,
    now: u64,
    record: NewCallRecord,
    i: int,
)
    requires
        records_call(call, true, now, record),
        call.started_at <= now,
        call_fits(call),
    ensures
        record.usage == call.usage,
        record.completion_ms matches Some(ms) && ms * 1_000_000 <= now - call.started_at < (ms + 1)
            * 1_000_000,
        !call.streamed ==> record.first_token_ms is None,
        call.streamed ==> (record.first_token_ms is Some <==> call.first_chunk_at is Some),
        call.streamed && call.first_chunk_at is Some && call.first_chunk_at->0 >= call.started_at
            ==> record.first_token_ms->0 * 1_000_000 <= call.first_chunk_at->0 - call.started_at < (
        record.first_token_ms->0 + 1) * 1_000_000,
        0 <= i < call.attempts.len() && call.attempts[i].outcome == Some(
            ModelRouteAttemptOutcome::Success,
        ) && (forall|k: int|
            0 <= k < i ==> (#[trigger] call.attempts[k]).outcome != Some(
                ModelRouteAttemptOutcome::Success,
            )) ==> (record.success_provider_id matches Some(id) && id@
            == call.attempts[i].provider_id) && (record.success_provider_name matches Some(name)
            && name@ == call.attempts[i].provider_name),
        (forall|k: int|
            0 <= k < call.attempts.len() ==> (#[trigger] call.attempts[k]).outcome != Some(
                ModelRouteAttemptOutcome::Success,
            )) ==> record.success_provider_id is None && record.success_provider_name is None,
{
    let wanted = is_success();
    if 0 <= i < call.attempts.len() && call.attempts[i].outcome == Some(
        ModelRouteAttemptOutcome::Success,
    ) && (forall|k: int|
        0 <= k < i ==> (#[trigger] call.attempts[k]).outcome != Some(
            ModelRouteAttemptOutcome::Success,
        )) {
        lemma_found(call.attempts, wanted, i);
    }
    if forall|k: int|
        0 <= k < call.attempts.len() ==> (#[trigger] call.attempts[k]).outcome != Some(
            ModelRouteAttemptOutcome::Success,
        ) {
        lemma_found(call.attempts, wanted, call.attempts.len() as int);
    }
}

/// An attempt begins with the candidate it goes through and nothing known of
/// its end; a call begins without attempts.
pub proof fn law_attempts_begin_open(
    sequence: i64,
    candidate: ModelRouteCandidate,
    now: u64,
    created_at_ms: i64,
    name: Seq<char>,
    protocol: StreamProtocol,
    streamed: bool,
)
    ensures
        ({
            let attempt = new_attempt(sequence as int, candidate, now);
            &&& attempt.sequence == sequence
            &&& attempt.route_id == candidate.route_id@
            &&& attempt.provider_id == candidate.provider_id@
            &&& attempt.provider_name == candidate.provider_name@
            &&& attempt.started_at == now
            &&& attempt.ended_at is None && attempt.http_status is None
                && attempt.failure_category is None && attempt.outcome is None
            &&& attempt.phase == CommitPhase::PreCommit
        }),
        ({
            let call = new_call(created_at_ms, now, name, protocol, streamed);
            &&& call.created_at_ms == created_at_ms
            &&& call.started_at == now
            &&& call.published_model_name == name
            &&& call.protocol == protocol
            &&& call.streamed == streamed
            &&& call.attempts.len() == 0
            &&& call.usage is None && call.first_chunk_at is None && !call.finalized
        }),
{
}

/// What happens to the attempt under way leaves the earlier ones, and the call
/// itself, as they are.
pub proof fn law_only_the_last_attempt_changes(
    call: CallData,
    change: spec_fn(AttemptData) -> AttemptData,
    i: int,
)
    requires
        call.attempts.len() > 0,
    ensures
        ({
            let after = with_last(call, change);
            &&& after.attempts.len() == call.attempts.len()
            &&& after.attempts[call.attempts.len() - 1] == change(call.attempts.last())
            &&& 0 <= i < call.attempts.len() - 1 ==> after.attempts[i] == call.attempts[i]
            &&& after == (CallData { attempts: after.attempts, ..call })
        }),
{
}

/// An attempt that ends keeps where it went and when it began. One that was
/// committed to stays so; only an attempt that was committed to and is still
/// open is resolved at the end of its stream.
pub proof fn law_attempts_end_once(
    attempt: AttemptData,
    status: i64,
    category: Option<Seq<char>>,
    outcome: ModelRouteAttemptOutcome,
    now: u64,
)
    ensures
        ({
            let over = ended(Some(status), category, CommitPhase::PreCommit, outcome, now)(attempt);
            &&& over.outcome == Some(outcome) && over.failure_category == category
                && over.http_status == Some(status) && over.ended_at == Some(now)
            &&& over.route_id == attempt.route_id && over.provider_id == attempt.provider_id
                && over.provider_name == attempt.provider_name && over.sequence == attempt.sequence
                && over.started_at == attempt.started_at
        }),
        ({
            let begun = committed(status)(attempt);
            &&& begun.phase == CommitPhase::Committed && begun.http_status == Some(status)
            &&& begun.outcome == attempt.outcome && begun.route_id == attempt.route_id
                && begun.ended_at == attempt.ended_at
        }),
        ({
            let closed = resolved(outcome, category, now)(attempt);
            &&& attempt.phase == CommitPhase::PreCommit || attempt.outcome is Some ==> closed
                == attempt
            &&& attempt.phase == CommitPhase::Committed && attempt.outcome is None
                ==> closed.outcome == Some(outcome) && closed.failure_category == category
                && closed.ended_at == Some(now) && closed.http_status == attempt.http_status
                && closed.route_id == attempt.route_id && closed.phase == CommitPhase::Committed
        }),
{
}

/// A call is reported as a fallback where an attempt led on to another; else by
/// how its last attempt ended. A call whose attempts all succeeded is not
/// reported.
pub proof fn law_calls_are_reported_by_their_end(
    attempts: Seq<AttemptData>,
    last: AttemptData,
    i: int,
)
    requires
        attempts.len() > 0,
        attempts.last() == last,
    ensures
        0 <= i < attempts.len() && attempts[i].outcome == Some(ModelRouteAttemptOutcome::Fallback)
            ==> event_kind(attempts).0 == "call.fallback"@ && event_kind(attempts).1 == "warning"@,
        (forall|k: int|
            0 <= k < attempts.len() ==> (#[trigger] attempts[k]).outcome != Some(
                ModelRouteAttemptOutcome::Fallback,
            )) ==> event_kind(attempts) == (match last.outcome {
            Some(ModelRouteAttemptOutcome::StreamTerminated) => (
                "call.stream_terminated"@,
                "error"@,
            ),
            Some(ModelRouteAttemptOutcome::ClientCancelled) => ("call.cancelled"@, "info"@),
            _ => ("call.failed"@, "error"@),
        }),
        last.outcome != Some(ModelRouteAttemptOutcome::Success) ==> !all_succeeded(attempts),
{
    assert(attempts[attempts.len() - 1] == last);
    if last.outcome != Some(ModelRouteAttemptOutcome::Success) && all_succeeded(attempts) {
        assert(attempts[attempts.len() - 1].outcome == Some(ModelRouteAttemptOutcome::Success));
    }
}

/// The reason that a call is reported with is that of the last attempt that has
/// one.
pub proof fn law_the_last_reason_is_reported(attempts: Seq<AttemptData>, next: AttemptData)
    ensures
        next.failure_category is Some ==> last_category(attempts.push(next))
            == next.failure_category,
        next.failure_category is None ==> last_category(attempts.push(next)) == last_category(
            attempts,
        ),
        last_category(Seq::<AttemptData>::empty()) is None,
{
    assert(attempts.push(next).drop_last() =~= attempts);
}

/// Whole milliseconds pass between two readings of the clock; a clock that went
/// back counts none.
pub proof fn law_milliseconds_pass(from: u64, to: u64)
    ensures
        to >= from ==> millis_between(from, to) * 1_000_000 <= to - from < (millis_between(from, to)
            + 1) * 1_000_000,
        to < from ==> millis_between(from, to) == 0,
{
}

/// An attempt is seen by what was noted of it, and a call by what was noted of
/// it and of its attempts.
pub proof fn law_calls_are_seen_by_their_parts(
    call: CallRecorder,
    attempt: ModelRouteAttemptDraft,
    i: int,
)
    requires
        0 <= i < call.attempts@.len(),
    ensures
        attempt@.sequence == attempt.sequence,
        attempt@.route_id == attempt.route_id@,
        attempt@.provider_id == attempt.provider_id@,
        attempt@.provider_name == attempt.provider_name@,
        attempt@.started_at == attempt.started_at,
        attempt@.ended_at == attempt.ended_at,
        attempt@.http_status == attempt.http_status,
        attempt.failure_category matches Some(category) ==> attempt@.failure_category == Some(
            category@,
        ),
        attempt.failure_category is None ==> attempt@.failure_category is None,
        attempt@.phase == attempt.phase,
        attempt@.outcome == attempt.outcome,
        call@.created_at_ms == call.created_at_ms,
        call@.started_at == call.started_at,
        call@.published_model_name == call.published_model_name@,
        call@.protocol == call.protocol,
        call@.streamed == call.streamed,
        call@.attempts.len() == call.attempts@.len() && call@.attempts[i] == call.attempts@[i]@,
        call@.first_chunk_at == call.first_chunk_at,
        call@.usage == call.usage,
        call@.finalized == call.finalized,
{
}

/// The first chunk of a stream is the one whose time counts; the usage that was
/// reported last is the one that counts; and a call that is over stays so and
/// keeps its attempts.
pub proof fn law_chunks_and_usage_are_noted(
    call: CallData,
    usage: Usage,
    now: u64,
    later: u64,
    succeeded: bool,
)
    ensures
        call.first_chunk_at is None ==> with_first_chunk(call, now).first_chunk_at == Some(now),
        with_first_chunk(with_first_chunk(call, now), later) == with_first_chunk(call, now),
        with_first_chunk(call, now).usage == call.usage && with_first_chunk(call, now).attempts
            == call.attempts,
        with_usage(call, Some(usage)).usage == Some(usage),
        with_usage(call, None) == call,
        with_usage(call, Some(usage)).attempts == call.attempts && with_usage(
            call,
            Some(usage),
        ).first_chunk_at == call.first_chunk_at,
        call_over(call, succeeded).finalized,
        call_over(call, succeeded).attempts == call.attempts,
        succeeded ==> call_over(call, succeeded).usage is None,
        !succeeded ==> call_over(call, succeeded).usage == call.usage,
{
}

} // verus!
