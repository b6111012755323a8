//! One relayed call: candidates are tried in order until one answers, and
//! never again once anything has reached the client.

use crate::errors::{
    attributable_http_category, attributable_status, bad_gateway, error_category, error_data,
    health_neutral_http_category, http_category, is_attributable_upstream_status, lemma_categories,
    relay_candidates_exhausted_error, relay_error_category, relayed_status, success_status,
    upstream_status_error, ErrorData, RelayError,
};
use crate::json::{
    json_wf, law_member_set_then_read, lemma_set_keeps_form, parse_json, parsed_json, with_member,
    Json, JsonData,
};
use crate::protocol::{
    complete_answer, endpoint_data, extract_usage, invalid_answer,
    invalid_upstream_response_error, is_semantic_failure, law_failed_responses, reported_usage,
    semantic_failure,
    semantic_failure_error, upstream_endpoint, validate_complete_response, StreamProtocol, Usage,
};
use crate::recorder::{
    call_fits, committed, ended, new_attempt, new_call, records_call, resolved, with_last,
    CallData, CallRecorder, CommitPhase, ModelRouteAttemptOutcome, NewCallRecord,
};
use crate::store::ModelRouteCandidate;
use crate::stream::payload_data;
use crate::text::same_text;
use vstd::prelude::*;
use vstd::string::*;

verus! {

/// A failure that is held against a route.
pub struct BlameData {
    pub route_id: Seq<char>,
    pub category: Seq<char>,
    pub http_status: Option<i64>,
}

/// A failure that is to be held against a route.
#[derive(Debug)]
pub struct Blame {
    pub route_id: String,
    pub category: &'static str,
    pub http_status: Option<i64>,
}

impl View for Blame {
    type V = BlameData;

    open spec fn view(&self) -> BlameData {
        BlameData {
            route_id: self.route_id@,
            category: self.category@,
            http_status: self.http_status,
        }
    }
}

/// Why an attempt failed before anything reached the client.
pub struct FailureData {
    pub error: ErrorData,
    pub category: Seq<char>,
    pub http_status: Option<i64>,
}

/// Why an attempt failed before anything reached the client.
#[derive(Debug)]
pub struct PreCommitFailure {
    pub error: RelayError,
    pub category: &'static str,
    pub http_status: Option<i64>,
}

impl View for PreCommitFailure {
    type V = FailureData;

    open spec fn view(&self) -> FailureData {
        FailureData {
            error: self.error@,
            category: self.category@,
            http_status: self.http_status,
        }
    }
}

/// The failure that an error stands for, at an HTTP status where there was one.
pub fn failure_of(error: RelayError, http_status: Option<i64>) -> (r: PreCommitFailure)
    ensures
        r@ == (FailureData {
            error: error@,
            category: error_category(error@.code),
            http_status,
        }),
{
    let category = relay_error_category(&error);
    PreCommitFailure { error, category, http_status }
}

/// What an answer that is no stream comes to, given what its body says as
/// JSON: it is passed on, or it is why the attempt failed.
pub open spec fn answer_failure(
    protocol: StreamProtocol,
    status: u16,
    body: Option<JsonData>,
) -> Option<FailureData> {
    let invalid = FailureData {
        error: invalid_answer(protocol),
        category: "invalid_upstream_response"@,
        http_status: Some(status as i64),
    };
    match body {
        None => Some(invalid),
        Some(value) => if !complete_answer(protocol, value) {
            Some(invalid)
        } else if protocol == StreamProtocol::Responses && semantic_failure(value) {
            Some(
                FailureData {
                    error: bad_gateway(
                        "upstream returned a failed Responses response"@,
                        Some("upstream_semantic_failure"@),
                    ),
                    category: "upstream_semantic_failure"@,
                    http_status: Some(status as i64),
                },
            )
        } else {
            None
        },
    }
}

/// Judges an answer that is no stream by what its body says as JSON.
pub fn judge_answer(protocol: StreamProtocol, status: u16, body: Option<Json>) -> (r: Result<
    Json,
    PreCommitFailure,
>)
    ensures
        match answer_failure(protocol, status, payload_data(body)) {
            None => r is Ok && body == Some(r->Ok_0),
            Some(failure) => r is Err && r->Err_0@ == failure,
        },
{
    let http_status: Option<i64> = Some(status as i64);
    match body {
        None => Err(
            PreCommitFailure {
                error: invalid_upstream_response_error(protocol),
                category: "invalid_upstream_response",
                http_status,
            },
        ),
        Some(value) => if !validate_complete_response(protocol, &value) {
            Err(
                PreCommitFailure {
                    error: invalid_upstream_response_error(protocol),
                    category: "invalid_upstream_response",
                    http_status,
                },
            )
        } else if is_semantic_failure(protocol, &value) {
            Err(
                PreCommitFailure {
                    error: semantic_failure_error(),
                    category: "upstream_semantic_failure",
                    http_status,
                },
            )
        } else {
            Ok(value)
        },
    }
}

/// Judges the body of an answer that is no stream.
pub fn judge_body(protocol: StreamProtocol, status: u16, body: &[u8]) -> (r: Result<
    Json,
    PreCommitFailure,
>)
    ensures
        match answer_failure(protocol, status, parsed_json(body@)) {
            None => r is Ok && parsed_json(body@) == Some(r->Ok_0@) && json_wf(r->Ok_0@),
            Some(failure) => r is Err && r->Err_0@ == failure,
        },
{
    judge_answer(protocol, status, parse_json(body))
}

/// The failure of an attempt whose stream is not one.
pub fn not_a_stream(status: u16) -> (r: PreCommitFailure)
    ensures
        r@ == (FailureData {
            error: bad_gateway(
                "upstream did not return an SSE stream"@,
                Some("invalid_upstream_response"@),
            ),
            category: "invalid_upstream_response"@,
            http_status: Some(status as i64),
        }),
{
    PreCommitFailure {
        error: RelayError::new(
            502,
            "upstream did not return an SSE stream",
            "api_error",
            None,
            Some("invalid_upstream_response"),
        ),
        category: "invalid_upstream_response",
        http_status: Some(status as i64),
    }
}

/// Where a call stands.
#[derive(Debug, Clone, Copy, PartialEq, Eq, Structural)]
pub enum CallStage {
    /// Between attempts.
    Ready,
    /// An attempt is under way, and nothing has reached the client.
    Trying,
    /// A stream of the last attempt goes to the client.
    Streaming,
    /// The client has its answer.
    Over,
}

/// One relayed call.
#[derive(Debug)]
pub struct RelayCall {
    pub candidates: Vec<ModelRouteCandidate>,
    pub request: Json,
    pub recorder: CallRecorder,
    pub stage: CallStage,
    pub final_error: Option<RelayError>,
}

/// The outcome of an attempt that fails as the `i`th of `n`.
pub open spec fn failing_outcome(i: int, n: int) -> ModelRouteAttemptOutcome {
    if i + 1 == n {
        ModelRouteAttemptOutcome::Failed
    } else {
        ModelRouteAttemptOutcome::Fallback
    }
}

/// The error that a call is answered with when its candidates are exhausted.
pub open spec fn exhausted_error(final_error: Option<RelayError>) -> ErrorData {
    match final_error {
        Some(error) => error@,
        None => bad_gateway(
            "all eligible upstream attempts failed"@,
            Some("all_upstream_attempts_failed"@),
        ),
    }
}

/// An optional error's data.
pub open spec fn optional_error(error: Option<RelayError>) -> Option<ErrorData> {
    match error {
        Some(e) => Some(e@),
        None => None,
    }
}

/// What an answer's head comes to.
pub enum HeadData {
    /// It reports success; its body decides.
    Proceed(u16),
    /// The attempt failed; the failure is held against the route.
    Failed(BlameData),
    /// The request itself is at fault; the client gets the error.
    Refused(ErrorData),
}

/// What an answer's head comes to.
#[derive(Debug)]
pub enum HeadStep {
    Proceed(u16),
    Failed(Blame),
    Refused(RelayError, NewCallRecord),
}

impl View for HeadStep {
    type V = HeadData;

    open spec fn view(&self) -> HeadData {
        match *self {
            HeadStep::Proceed(status) => HeadData::Proceed(status),
            HeadStep::Failed(blame) => HeadData::Failed(blame@),
            HeadStep::Refused(error, _) => HeadData::Refused(error@),
        }
    }
}

/// What the head of an answer comes to for the route that gave it.
pub open spec fn head_of(upstream_status: u16, route_id: Seq<char>) -> HeadData {
    let status = relayed_status(upstream_status);
    if success_status(status) {
        HeadData::Proceed(status)
    } else if attributable_status(status) {
        HeadData::Failed(
            BlameData {
                route_id,
                category: http_category(status),
                http_status: Some(status as i64),
            },
        )
    } else {
        HeadData::Refused(
            error_data(status, "upstream request failed"@, "api_error"@, None, None),
        )
    }
}

/// A request as a candidate is asked it: under the candidate's model.
pub open spec fn sent_request(request: JsonData, candidate: ModelRouteCandidate) -> JsonData {
    match request {
        JsonData::Object(members) => JsonData::Object(
            with_member(members, "model"@, JsonData::Text(candidate.upstream_model_name@)),
        ),
        other => other,
    }
}

/// An answer as the client gets it: under the published model's name.
pub open spec fn given_answer(answer: JsonData, name: Seq<char>) -> JsonData {
    match answer {
        JsonData::Object(members) => JsonData::Object(
            with_member(members, "model"@, JsonData::Text(name)),
        ),
        other => other,
    }
}

/// What is held against a route whose stream broke off with an error.
pub open spec fn broken_stream_blame(
    code: Option<Seq<char>>,
    route_id: Seq<char>,
    http_status: i64,
) -> Option<BlameData> {
    if error_category(code) == "upstream_timeout"@ {
        None
    } else {
        Some(
            BlameData { route_id, category: error_category(code), http_status: Some(http_status) },
        )
    }
}

/// What is held against a route whose stream came to its end.
pub open spec fn ended_stream_blame(
    semantic_failure: bool,
    route_id: Seq<char>,
    http_status: i64,
) -> Option<BlameData> {
    if semantic_failure {
        Some(
            BlameData {
                route_id,
                category: "upstream_semantic_failure"@,
                http_status: Some(http_status),
            },
        )
    } else {
        None
    }
}

/// What is held against a route, where anything is.
pub open spec fn optional_blame(blame: Option<Blame>) -> Option<BlameData> {
    match blame {
        Some(b) => Some(b@),
        None => None,
    }
}

/// What an upstream is to be asked.
#[derive(Debug)]
pub struct UpstreamCall {
    pub endpoint: String,
    pub api_key: String,
}

/// What comes of trying the next candidate.
pub open spec fn attempt_begun(
    before: RelayCall,
    after: RelayCall,
    r: Option<UpstreamCall>,
    now: u64,
) -> bool {
    r matches Some(call) ==> {
        let candidate = before.candidates@[before.tried()];
        &&& after.stage == CallStage::Trying
        &&& call.endpoint@ == endpoint_data(
            before.recorder@.protocol,
            candidate.base_url@,
        )
        &&& call.api_key == candidate.api_key
        &&& after.request@ == sent_request(before.request@, candidate)
        &&& after.recorder@ == (CallData {
            attempts: before.recorder@.attempts.push(
                new_attempt(before.tried(), candidate, now),
            ),
            ..before.recorder@
        })
    }
}

/// What comes of the head of an answer.
pub open spec fn head_taken(
    before: RelayCall,
    after: RelayCall,
    r: HeadStep,
    upstream_status: u16,
    now: u64,
) -> bool {
    let status = relayed_status(upstream_status);
    let error = error_data(
        status,
        "upstream request failed"@,
        "api_error"@,
        None,
        None,
    );
    let route_id = before.candidates@[before.tried() - 1].route_id@;
    let head = head_of(upstream_status, route_id);
    &&& r@ == head
    &&& if head is Proceed {
        after == before
    } else if head is Failed {
        &&& after.stage == CallStage::Ready
        &&& optional_error(after.final_error) == Some(error)
        &&& after.recorder@ == with_last(
            before.recorder@,
            ended(
                Some(status as i64),
                Some(http_category(status)),
                CommitPhase::PreCommit,
                failing_outcome(
                    before.tried() - 1,
                    before.candidates@.len() as int,
                ),
                now,
            ),
        )
    } else {
        let over = with_last(
            before.recorder@,
            ended(
                Some(status as i64),
                Some("upstream_http_4xx"@),
                CommitPhase::PreCommit,
                ModelRouteAttemptOutcome::Failed,
                now,
            ),
        );
        &&& after.stage == CallStage::Over
        &&& records_call(over, false, now, r->Refused_1)
        &&& after.recorder@ == (CallData { finalized: true, ..over })
    }
}

/// What comes of an answer that is given to the client.
pub open spec fn answer_committed(
    before: RelayCall,
    after: RelayCall,
    r: (Json, NewCallRecord),
    status: u16,
    answer: Json,
    now: u64,
) -> bool {
    let named = given_answer(answer@, before.recorder@.published_model_name);
    let done = with_last(
        before.recorder@,
        ended(
            Some(status as i64),
            None,
            CommitPhase::Committed,
            ModelRouteAttemptOutcome::Success,
            now,
        ),
    );
    let usage = match reported_usage(before.recorder@.protocol, named) {
        Some(reported) => Some(reported),
        None => before.recorder@.usage,
    };
    &&& r.0@ == named
    &&& json_wf(answer@) ==> json_wf(named)
    &&& records_call(CallData { usage, ..done }, true, now, r.1)
    &&& after.recorder@ == (CallData { usage: None, finalized: true, ..done })
}

/// What comes of a stream that ended.
pub open spec fn stream_end_taken(
    before: RelayCall,
    after: RelayCall,
    r: (NewCallRecord, Option<Blame>),
    usage: Option<Usage>,
    semantic_failure: bool,
    http_status: i64,
    now: u64,
) -> bool {
    let noted = CallData {
        usage: match usage {
            Some(reported) => Some(reported),
            None => before.recorder@.usage,
        },
        ..before.recorder@
    };
    &&& optional_blame(r.1) == ended_stream_blame(
        semantic_failure,
        before.candidates@[before.tried() - 1].route_id@,
        http_status,
    )
    &&& if semantic_failure {
        let over = with_last(
            noted,
            resolved(
                ModelRouteAttemptOutcome::StreamTerminated,
                Some("upstream_semantic_failure"@),
                now,
            ),
        );
        &&& records_call(over, false, now, r.0)
        &&& after.recorder@ == (CallData { finalized: true, ..over })
    } else {
        let over = with_last(
            noted,
            resolved(ModelRouteAttemptOutcome::Success, None, now),
        );
        &&& records_call(over, true, now, r.0)
        &&& after.recorder@ == (CallData {
            finalized: true,
            usage: None,
            ..over
        })
    }
}

/// What comes of a stream that broke off.
pub open spec fn stream_failure_taken(
    before: RelayCall,
    after: RelayCall,
    r: (NewCallRecord, Option<Blame>),
    error: RelayError,
    http_status: i64,
    now: u64,
) -> bool {
    let category = error_category(error@.code);
    let over = with_last(
        before.recorder@,
        resolved(ModelRouteAttemptOutcome::StreamTerminated, Some(category), now),
    );
    &&& records_call(over, false, now, r.0)
    &&& optional_blame(r.1) == broken_stream_blame(
        error@.code,
        before.candidates@[before.tried() - 1].route_id@,
        http_status,
    )
    &&& after.recorder@ == (CallData { finalized: true, ..over })
}

/// What comes of a client that went away.
pub open spec fn call_abandoned(
    before: RelayCall,
    after: RelayCall,
    r: Option<NewCallRecord>,
    now: u64,
) -> bool {
    r matches Some(record) ==> {
        let cancelled = with_last(
            before.recorder@,
            resolved(ModelRouteAttemptOutcome::ClientCancelled, None, now),
        );
        &&& records_call(cancelled, false, now, record)
        &&& after.recorder@ == (CallData { finalized: true, ..cancelled })
    }
}

/// What comes of a chunk that was passed on.
pub open spec fn chunk_noted(
    before: RelayCall,
    after: RelayCall,
    usage: Option<Usage>,
    now: u64,
) -> bool {
    after.recorder@ == (CallData {
        first_chunk_at: match before.recorder@.first_chunk_at {
            Some(at) => Some(at),
            None => Some(now),
        },
        usage: match usage {
            Some(reported) => Some(reported),
            None => before.recorder@.usage,
        },
        ..before.recorder@
    })
}

/// What comes of an attempt that failed before anything reached the client.
pub open spec fn attempt_failed(
    before: RelayCall,
    after: RelayCall,
    r: Blame,
    failure: PreCommitFailure,
    now: u64,
) -> bool {
    &&& after.recorder@ == with_last(
        before.recorder@,
        ended(
            failure@.http_status,
            Some(failure@.category),
            CommitPhase::PreCommit,
            failing_outcome(before.tried() - 1, before.candidates@.len() as int),
            now,
        ),
    )
    &&& optional_error(after.final_error) == Some(failure@.error)
    &&& r@ == (BlameData {
        route_id: before.candidates@[before.tried() - 1].route_id@,
        category: failure@.category,
        http_status: failure@.http_status,
    })
}

impl RelayCall {
    /// How many candidates have been tried.
    pub open spec fn tried(self) -> int {
        self.recorder@.attempts.len() as int
    }

    /// What holds of a call at any time: the attempts are those through the
    /// first candidates, in order, each tried once; all but the last failed
    /// before anything reached the client.
    pub open spec fn wf(self) -> bool {
        let attempts = self.recorder@.attempts;
        &&& attempts.len() <= self.candidates@.len() <= i64::MAX
        &&& call_fits(self.recorder@)
        &&& self.stage == CallStage::Trying || self.stage == CallStage::Streaming
            ==> attempts.len() > 0
        &&& self.recorder@.finalized == (self.stage == CallStage::Over)
        &&& forall|i: int|
            0 <= i < attempts.len() ==> (#[trigger] attempts[i]).sequence == i
                && attempts[i].route_id == self.candidates@[i].route_id@
                && attempts[i].provider_id == self.candidates@[i].provider_id@
        &&& forall|i: int|
            0 <= i < attempts.len() - 1 ==> (#[trigger] attempts[i]).phase
                == CommitPhase::PreCommit && attempts[i].outcome == Some(
                ModelRouteAttemptOutcome::Fallback,
            )
        &&& self.stage == CallStage::Ready && attempts.len() > 0 ==> attempts.last().phase
            == CommitPhase::PreCommit && attempts.last().outcome == Some(
            failing_outcome(attempts.len() - 1, self.candidates@.len() as int),
        )
        &&& self.stage == CallStage::Ready ==> (self.final_error is Some <==> attempts.len() > 0)
        &&& self.stage == CallStage::Trying ==> attempts.last().phase == CommitPhase::PreCommit
            && attempts.last().outcome is None
        &&& self.stage == CallStage::Streaming ==> attempts.last().phase == CommitPhase::Committed
            && attempts.last().outcome is None
    }

    /// A call of which nothing has been tried.
    pub fn new(
        candidates: Vec<ModelRouteCandidate>,
        protocol: StreamProtocol,
        published_model_name: &str,
        request: Json,
        stream: bool,
        created_at_ms: i64,
        now: u64,
        correlation_id: String,
    ) -> (r: Self)
        requires
            candidates@.len() <= i64::MAX,
            created_at_ms + 18_446_744_073_709 <= i64::MAX,
        ensures
            r.wf(),
            r.candidates == candidates,
            r.request == request,
            r.recorder.correlation_id == correlation_id,
            r.recorder@ == new_call(created_at_ms, now, published_model_name@, protocol, stream),
            r.stage == CallStage::Ready,
            r.final_error is None,
    {
        RelayCall {
            candidates,
            request,
            recorder: CallRecorder::new(
                published_model_name,
                protocol,
                stream,
                created_at_ms,
                now,
                correlation_id,
            ),
            stage: CallStage::Ready,
            final_error: None,
        }
    }

    /// Begins the attempt through the next candidate, where there is one: the
    /// request names the candidate's model.
    pub fn begin(&mut self, now: u64) -> (r: Option<UpstreamCall>)
        requires
            old(self).wf(),
            old(self).stage == CallStage::Ready,
        ensures
            final(self).wf(),
            final(self).candidates == old(self).candidates,
            final(self).recorder.correlation_id == old(self).recorder.correlation_id,
            final(self).final_error == old(self).final_error,
            json_wf(old(self).request@) ==> json_wf(final(self).request@),
            r is None <==> old(self).tried() == old(self).candidates@.len(),
            r is None ==> *final(self) == *old(self),
            attempt_begun(
                *old(self),
                *final(self),
                r,
                now,
            ),
    {
        let i: usize = self.recorder.attempts.len();
        if i == self.candidates.len() {
            return None;
        }
        let ghost before = self.request@;
        let candidate = &self.candidates[i];
        let ghost tried_now = *candidate;
        self.recorder.begin_model_route_attempt(candidate, now);
        let name = candidate.upstream_model_name.clone();
        let endpoint = upstream_endpoint(self.recorder.protocol, candidate.base_url.as_str());
        let api_key = candidate.api_key.clone();
        proof {
            if before is Object && json_wf(before) {
                lemma_set_keeps_form(before->Object_0, "model"@, JsonData::Text(name@));
            }
        }
        self.request.set("model", Json::Text(name));
        self.stage = CallStage::Trying;
        Some(UpstreamCall { endpoint, api_key })
    }

    /// Ends the attempt under way as failed, with the error that the client
    /// gets if no other candidate answers; the failure is held against the
    /// route.
    pub fn fall_through(&mut self, failure: PreCommitFailure, now: u64) -> (r: Blame)
        requires
            old(self).wf(),
            old(self).stage == CallStage::Trying,
        ensures
            final(self).wf(),
            final(self).candidates == old(self).candidates,
            final(self).recorder.correlation_id == old(self).recorder.correlation_id,
            final(self).request == old(self).request,
            final(self).stage == CallStage::Ready,
            attempt_failed(
                *old(self),
                *final(self),
                r,
                failure,
                now,
            ),
    {
        let tried: usize = self.recorder.attempts.len();
        let outcome = if tried == self.candidates.len() {
            ModelRouteAttemptOutcome::Failed
        } else {
            ModelRouteAttemptOutcome::Fallback
        };
        let PreCommitFailure { error, category, http_status } = failure;
        self.recorder.finish_model_route_attempt(
            http_status,
            Some(category.to_owned()),
            CommitPhase::PreCommit,
            outcome,
            now,
        );
        self.final_error = Some(error);
        self.stage = CallStage::Ready;
        Blame { route_id: self.candidates[tried - 1].route_id.clone(), category, http_status }
    }

    /// Takes in the status of an answer. One that is no success and speaks
    /// against the route ends the attempt; one that speaks against the request
    /// ends the call.
    pub fn answered(&mut self, upstream_status: u16, now: u64) -> (r: HeadStep)
        requires
            old(self).wf(),
            old(self).stage == CallStage::Trying,
        ensures
            final(self).wf(),
            final(self).candidates == old(self).candidates,
            final(self).recorder.correlation_id == old(self).recorder.correlation_id,
            final(self).request == old(self).request,
            head_taken(
                *old(self),
                *final(self),
                r,
                upstream_status,
                now,
            ),
    {
        let status: u16 = if 100 <= upstream_status && upstream_status < 1000 {
            upstream_status
        } else {
            502
        };
        if 200 <= status && status < 300 {
            return HeadStep::Proceed(status);
        }
        let error = upstream_status_error(status);
        if is_attributable_upstream_status(status) {
            let category = attributable_http_category(status);
            let blame = self.fall_through(
                PreCommitFailure { error, category, http_status: Some(status as i64) },
                now,
            );
            return HeadStep::Failed(blame);
        }
        self.recorder.finish_model_route_attempt(
            Some(status as i64),
            Some(health_neutral_http_category().to_owned()),
            CommitPhase::PreCommit,
            ModelRouteAttemptOutcome::Failed,
            now,
        );
        let record = self.recorder.finalize(false, now);
        self.stage = CallStage::Over;
        HeadStep::Refused(error, record)
    }

    /// Passes on a complete answer under the published model's name, and ends
    /// the call.
    pub fn commit_answer(&mut self, status: u16, answer: Json, now: u64) -> (r: (
        Json,
        NewCallRecord,
    ))
        requires
            old(self).wf(),
            old(self).stage == CallStage::Trying,
            answer@ is Object,
        ensures
            final(self).wf(),
            final(self).candidates == old(self).candidates,
            final(self).recorder.correlation_id == old(self).recorder.correlation_id,
            final(self).request == old(self).request,
            final(self).final_error == old(self).final_error,
            final(self).stage == CallStage::Over,
            answer_committed(
                *old(self),
                *final(self),
                r,
                status,
                answer,
                now,
            ),
    {
        let mut answer = answer;
        let ghost given = answer@;
        let name = self.recorder.published_model_name.clone();
        proof {
            if json_wf(given) {
                lemma_set_keeps_form(given->Object_0, "model"@, JsonData::Text(name@));
            }
        }
        answer.set("model", Json::Text(name));
        self.recorder.finish_model_route_attempt(
            Some(status as i64),
            None,
            CommitPhase::Committed,
            ModelRouteAttemptOutcome::Success,
            now,
        );
        let usage = extract_usage(self.recorder.protocol, &answer);
        self.recorder.note_usage(usage);
        let record = self.recorder.finalize(true, now);
        self.stage = CallStage::Over;
        (answer, record)
    }

    /// Begins to pass a stream on: from here on no other candidate is tried.
    pub fn commit_stream(&mut self, status: u16)
        requires
            old(self).wf(),
            old(self).stage == CallStage::Trying,
        ensures
            final(self).wf(),
            final(self).candidates == old(self).candidates,
            final(self).recorder.correlation_id == old(self).recorder.correlation_id,
            final(self).request == old(self).request,
            final(self).final_error == old(self).final_error,
            final(self).stage == CallStage::Streaming,
            final(self).recorder@ == with_last(old(self).recorder@, committed(status as i64)),
    {
        self.recorder.mark_committed(status as i64);
        self.stage = CallStage::Streaming;
    }

    /// Notes bytes of the stream that go to the client, and what they report
    /// of the usage.
    pub fn stream_chunk(&mut self, usage: Option<Usage>, now: u64)
        requires
            old(self).wf(),
            old(self).stage == CallStage::Streaming,
        ensures
            final(self).wf(),
            final(self).candidates == old(self).candidates,
            final(self).recorder.correlation_id == old(self).recorder.correlation_id,
            final(self).request == old(self).request,
            final(self).final_error == old(self).final_error,
            final(self).stage == CallStage::Streaming,
            chunk_noted(
                *old(self),
                *final(self),
                usage,
                now,
            ),
    {
        self.recorder.note_first_chunk(now);
        self.recorder.note_usage(usage);
    }

    /// Ends the call with its stream: well, or, where the last event reports a
    /// failed response, as terminated, which is held against the route.
    pub fn stream_ended(
        &mut self,
        usage: Option<Usage>,
        semantic_failure: bool,
        http_status: i64,
        now: u64,
    ) -> (r: (NewCallRecord, Option<Blame>))
        requires
            old(self).wf(),
            old(self).stage == CallStage::Streaming,
        ensures
            final(self).wf(),
            final(self).candidates == old(self).candidates,
            final(self).recorder.correlation_id == old(self).recorder.correlation_id,
            final(self).request == old(self).request,
            final(self).final_error == old(self).final_error,
            final(self).stage == CallStage::Over,
            stream_end_taken(
                *old(self),
                *final(self),
                r,
                usage,
                semantic_failure,
                http_status,
                now,
            ),
    {
        let tried: usize = self.recorder.attempts.len();
        self.recorder.note_usage(usage);
        if semantic_failure {
            self.recorder.resolve_committed_model_route_attempt(
                ModelRouteAttemptOutcome::StreamTerminated,
                Some("upstream_semantic_failure".to_owned()),
                now,
            );
            let record = self.recorder.finalize(false, now);
            self.stage = CallStage::Over;
            let route_id = self.candidates[tried - 1].route_id.clone();
            (
                record,
                Some(
                    Blame {
                        route_id,
                        category: "upstream_semantic_failure",
                        http_status: Some(http_status),
                    },
                ),
            )
        } else {
            self.recorder.resolve_committed_model_route_attempt(
                ModelRouteAttemptOutcome::Success,
                None,
                now,
            );
            let record = self.recorder.finalize(true, now);
            self.stage = CallStage::Over;
            (record, None)
        }
    }

    /// Ends the call with a stream that broke off. That is held against the
    /// route, unless the stream only fell silent.
    pub fn stream_failed(&mut self, error: &RelayError, http_status: i64, now: u64) -> (r: (
        NewCallRecord,
        Option<Blame>,
    ))
        requires
            old(self).wf(),
            old(self).stage == CallStage::Streaming,
        ensures
            final(self).wf(),
            final(self).candidates == old(self).candidates,
            final(self).recorder.correlation_id == old(self).recorder.correlation_id,
            final(self).request == old(self).request,
            final(self).final_error == old(self).final_error,
            final(self).stage == CallStage::Over,
            stream_failure_taken(
                *old(self),
                *final(self),
                r,
                *error,
                http_status,
                now,
            ),
    {
        let tried: usize = self.recorder.attempts.len();
        let category = relay_error_category(error);
        self.recorder.resolve_committed_model_route_attempt(
            ModelRouteAttemptOutcome::StreamTerminated,
            Some(category.to_owned()),
            now,
        );
        let record = self.recorder.finalize(false, now);
        self.stage = CallStage::Over;
        if same_text(category, "upstream_timeout") {
            (record, None)
        } else {
            let route_id = self.candidates[tried - 1].route_id.clone();
            (record, Some(Blame { route_id, category, http_status: Some(http_status) }))
        }
    }

    /// Ends a call whose candidates are exhausted, with the error of the last
    /// attempt.
    pub fn exhausted(&mut self, now: u64) -> (r: (RelayError, NewCallRecord))
        requires
            old(self).wf(),
            old(self).stage == CallStage::Ready,
        ensures
            final(self).wf(),
            final(self).candidates == old(self).candidates,
            final(self).recorder.correlation_id == old(self).recorder.correlation_id,
            final(self).request == old(self).request,
            final(self).stage == CallStage::Over,
            r.0@ == exhausted_error(old(self).final_error),
            records_call(old(self).recorder@, false, now, r.1),
            final(self).recorder@ == (CallData { finalized: true, ..old(self).recorder@ }),
    {
        let record = self.recorder.finalize(false, now);
        self.stage = CallStage::Over;
        let error = match self.final_error.take() {
            Some(error) => error,
            None => relay_candidates_exhausted_error(),
        };
        (error, record)
    }

    /// Ends a call that the client walked away from, unless it has ended. No
    /// route is blamed.
    pub fn abandon(&mut self, now: u64) -> (r: Option<NewCallRecord>)
        requires
            old(self).wf(),
        ensures
            final(self).wf(),
            final(self).candidates == old(self).candidates,
            final(self).recorder.correlation_id == old(self).recorder.correlation_id,
            final(self).stage == CallStage::Over,
            final(self).request == old(self).request,
            final(self).final_error == old(self).final_error,
            r is None <==> old(self).stage == CallStage::Over,
            r is None ==> *final(self) == *old(self),
            call_abandoned(
                *old(self),
                *final(self),
                r,
                now,
            ),
    {
        let record = self.recorder.abandon(now);
        self.stage = CallStage::Over;
        record
    }
}

/// The client reads the published model's name in a complete answer, and
/// everything else as the upstream sent it.
pub proof fn law_answers_name_the_published_model(
    protocol: StreamProtocol,
    answer: JsonData,
    name: Seq<char>,
    other: Seq<char>,
)
    requires
        complete_answer(protocol, answer),
        other != "model"@,
    ensures
        ({
            let named = JsonData::Object(
                with_member(answer->Object_0, "model"@, JsonData::Text(name)),
            );
            named.text_member("model"@) == Some(name) && named.member(other) == answer.member(other)
        }),
        given_answer(answer, name).member("model"@) == Some(JsonData::Text(name)),
        given_answer(answer, name).member(other) == answer.member(other),
{
    law_member_set_then_read(answer->Object_0, "model"@, JsonData::Text(name), other);
}

/// The candidates of a call are tried in their order, each at most once, and
/// after an attempt that reached the client none is tried.
pub proof fn law_candidates_are_tried_in_order(call: RelayCall, i: int)
    requires
        call.wf(),
        0 <= i < call.tried(),
    ensures
        call.tried() <= call.candidates@.len(),
        call.recorder@.attempts[i].route_id == call.candidates@[i].route_id@,
        i < call.tried() - 1 ==> call.recorder@.attempts[i].phase == CommitPhase::PreCommit
            && call.recorder@.attempts[i].outcome == Some(ModelRouteAttemptOutcome::Fallback),
{
    assert(call.recorder@.attempts[i].sequence == i);
    if i < call.tried() - 1 {
        assert(call.recorder@.attempts[i].phase == CommitPhase::PreCommit);
    }
}

/// An upstream is asked under its own model's name, at the path of the call's
/// protocol below its base URL; every other member of the request is as it was.
pub proof fn law_candidates_are_asked_for_their_model(
    request: JsonData,
    candidate: ModelRouteCandidate,
    other: Seq<char>,
)
    requires
        request is Object,
        other != "model"@,
    ensures
        sent_request(request, candidate).member("model"@) == Some(
            JsonData::Text(candidate.upstream_model_name@),
        ),
        sent_request(request, candidate).member(other) == request.member(other),
        endpoint_data(StreamProtocol::ChatCompletions, candidate.base_url@)
            == candidate.base_url@ + "/chat/completions"@,
        endpoint_data(StreamProtocol::Responses, candidate.base_url@) == candidate.base_url@
            + "/responses"@,
{
    law_member_set_then_read(
        request->Object_0,
        "model"@,
        JsonData::Text(candidate.upstream_model_name@),
        other,
    );
}

/// A later candidate is asked as if it were the first: what an earlier one was
/// asked leaves no trace in the request.
pub proof fn law_fallback_asks_anew(
    request: JsonData,
    earlier: ModelRouteCandidate,
    candidate: ModelRouteCandidate,
    key: Seq<char>,
)
    requires
        request is Object,
    ensures
        sent_request(sent_request(request, earlier), candidate).member(key) == sent_request(
            request,
            candidate,
        ).member(key),
{
    let first = JsonData::Text(earlier.upstream_model_name@);
    let text = JsonData::Text(candidate.upstream_model_name@);
    law_member_set_then_read(request->Object_0, "model"@, first, key);
    law_member_set_then_read(request->Object_0, "model"@, text, key);
    law_member_set_then_read(sent_request(request, earlier)->Object_0, "model"@, text, key);
}

/// An answer of 200 to 299 is looked into. One of 401, 403, 404, 429 or of 500
/// to 599 is held against the route, and the next candidate is tried. Any other,
/// such as 400 or 422, speaks against the request and is given to the client
/// under its own status.
pub proof fn law_statuses_decide(status: u16, route_id: Seq<char>)
    ensures
        200 <= status <= 299 ==> head_of(status, route_id) == HeadData::Proceed(status),
        status == 401 || status == 403 || status == 404 || status == 429 || 500 <= status <= 599
            ==> (head_of(status, route_id) matches HeadData::Failed(blame) && blame.route_id
            == route_id && blame.http_status == Some(status as i64)),
        400 <= status <= 499 && status != 401 && status != 403 && status != 404 && status != 429
            ==> (head_of(status, route_id) matches HeadData::Refused(error) && error.status
            == status),
        300 <= status <= 399 ==> (head_of(status, route_id) matches HeadData::Refused(error)
            && error.status == status),
        status < 100 || status > 999 ==> (head_of(status, route_id) matches HeadData::Failed(blame)
            && blame.http_status == Some(502i64)),
        status == 401 ==> (head_of(status, route_id) matches HeadData::Failed(blame)
            && blame.category == "upstream_http_401"@),
        status == 403 ==> (head_of(status, route_id) matches HeadData::Failed(blame)
            && blame.category == "upstream_http_403"@),
        status == 404 ==> (head_of(status, route_id) matches HeadData::Failed(blame)
            && blame.category == "upstream_http_404"@),
        status == 429 ==> (head_of(status, route_id) matches HeadData::Failed(blame)
            && blame.category == "upstream_http_429"@),
        500 <= status <= 599 ==> (head_of(status, route_id) matches HeadData::Failed(blame)
            && blame.category == "upstream_http_5xx"@),
{
}

/// A complete answer is given to the client; a body that is no JSON, an answer
/// that is not complete, and a response that failed are held against the route
/// as what they are, and answered 502.
pub proof fn law_answers_are_judged(protocol: StreamProtocol, status: u16, body: JsonData)
    ensures
        answer_failure(protocol, status, None) matches Some(failure) && failure.error.status == 502
            && failure.category == "invalid_upstream_response"@,
        !complete_answer(protocol, body) ==> (answer_failure(protocol, status, Some(body)) matches Some(
            failure,
        ) && failure.error.status == 502 && failure.category == "invalid_upstream_response"@
            && failure.http_status == Some(status as i64)),
        protocol == StreamProtocol::ChatCompletions && complete_answer(protocol, body)
            ==> answer_failure(protocol, status, Some(body)) is None,
        protocol == StreamProtocol::Responses && complete_answer(protocol, body) && (body.member(
            "status"@,
        ) == Some(JsonData::Text("completed"@)) || body.member("status"@) == Some(
            JsonData::Text("incomplete"@),
        )) && (body.member("error"@) is None || body.member("error"@) == Some(JsonData::Null))
            ==> answer_failure(protocol, status, Some(body)) is None,
        protocol == StreamProtocol::Responses && complete_answer(protocol, body) && (body.member(
            "status"@,
        ) == Some(JsonData::Text("failed"@)) || body.member("status"@) == Some(
            JsonData::Text("cancelled"@),
        ) || (body.member("error"@) is Some && body.member("error"@) != Some(JsonData::Null)))
            ==> (answer_failure(protocol, status, Some(body)) matches Some(failure)
            && failure.error.status == 502 && failure.category == "upstream_semantic_failure"@
            && failure.http_status == Some(status as i64)),
{
    law_failed_responses(body);
}

/// A stream that breaks off is held against its route, whatever the error,
/// unless the upstream only fell silent.
pub proof fn law_broken_streams_are_blamed(
    code: Option<Seq<char>>,
    route_id: Seq<char>,
    http_status: i64,
)
    ensures
        code == Some("upstream_timeout"@) ==> broken_stream_blame(code, route_id, http_status)
            is None,
        code != Some("upstream_timeout"@) ==> (broken_stream_blame(code, route_id, http_status) matches Some(
            blame,
        ) && blame.route_id == route_id && blame.http_status == Some(http_status)),
        code == Some("invalid_upstream_response"@) ==> (broken_stream_blame(
            code,
            route_id,
            http_status,
        ) matches Some(blame) && blame.category == "invalid_upstream_response"@),
        code == Some("upstream_unavailable"@) ==> (broken_stream_blame(
            code,
            route_id,
            http_status,
        ) matches Some(blame) && blame.category == "upstream_connection"@),
{
    lemma_categories();
}

/// A stream that comes to its end is held against its route only where its last
/// event reports a failed response.
pub proof fn law_ended_streams_are_blamed_for_failures(route_id: Seq<char>, http_status: i64)
    ensures
        ended_stream_blame(false, route_id, http_status) is None,
        ended_stream_blame(true, route_id, http_status) matches Some(blame) && blame.route_id
            == route_id && blame.category == "upstream_semantic_failure"@ && blame.http_status
            == Some(http_status),
{
}

/// A call whose candidates are exhausted is answered with the error of the last
/// attempt.
pub proof fn law_the_last_error_is_given(error: RelayError)
    ensures
        exhausted_error(Some(error)) == error@,
        exhausted_error(None).status == 502,
{
}

/// Only the last candidate's failure is the call's; those before it lead on.
pub proof fn law_only_the_last_failure_is_final(i: int, n: int)
    requires
        0 <= i < n,
    ensures
        i == n - 1 ==> failing_outcome(i, n) == ModelRouteAttemptOutcome::Failed,
        i < n - 1 ==> failing_outcome(i, n) == ModelRouteAttemptOutcome::Fallback,
{
}

/// What is held against a route, and why an attempt failed, are seen by their
/// parts.
pub proof fn law_blame_is_seen_by_its_parts(
    blame: Blame,
    failure: PreCommitFailure,
    error: RelayError,
    record: NewCallRecord,
    status: u16,
)
    ensures
        blame@.route_id == blame.route_id@,
        blame@.category == blame.category@,
        blame@.http_status == blame.http_status,
        failure@.error == failure.error@,
        failure@.category == failure.category@,
        failure@.http_status == failure.http_status,
        HeadStep::Proceed(status)@ == HeadData::Proceed(status),
        HeadStep::Failed(blame)@ == HeadData::Failed(blame@),
        HeadStep::Refused(error, record)@ == HeadData::Refused(error@),
        optional_error(Some(error)) == Some(error@),
        optional_error(None) is None,
        optional_blame(Some(blame)) == Some(blame@),
        optional_blame(None) is None,
{
}

/// A call that begins an attempt asks the next candidate that was not tried, at
/// its address and with its key, and notes the attempt as open.
pub proof fn law_the_next_candidate_is_asked(
    before: RelayCall,
    after: RelayCall,
    call: UpstreamCall,
    now: u64,
)
    requires
        before.wf(),
        before.tried() < before.candidates@.len(),
        attempt_begun(before, after, Some(call), now),
    ensures
        ({
            let candidate = before.candidates@[before.tried()];
            let last = after.recorder@.attempts.last();
            &&& call.api_key@ == candidate.api_key@
            &&& call.endpoint@ == endpoint_data(before.recorder@.protocol, candidate.base_url@)
            &&& after.request@.member("model"@) == Some(
                JsonData::Text(candidate.upstream_model_name@),
            ) || !(before.request@ is Object)
            &&& after.tried() == before.tried() + 1
            &&& last.route_id == candidate.route_id@
            &&& last.provider_id == candidate.provider_id@
            &&& last.provider_name == candidate.provider_name@
            &&& last.sequence == before.tried()
            &&& last.started_at == now
            &&& last.outcome is None && last.ended_at is None
            &&& last.phase == CommitPhase::PreCommit
            &&& after.stage == CallStage::Trying
            &&& forall|i: int|
                0 <= i < before.tried() ==> #[trigger] after.recorder@.attempts[i]
                    == before.recorder@.attempts[i]
        }),
{
    let candidate = before.candidates@[before.tried()];
    if before.request@ is Object {
        law_member_set_then_read(
            before.request@->Object_0,
            "model"@,
            JsonData::Text(candidate.upstream_model_name@),
            "model"@,
        );
    }
}

/// A head that reports success leaves the call as it is; one that speaks against
/// the route ends the attempt before anything reached the client, as a fallback
/// unless it was the last; one that speaks against the request ends the call as
/// failed.
pub proof fn law_heads_are_taken(
    before: RelayCall,
    after: RelayCall,
    r: HeadStep,
    status: u16,
    now: u64,
)
    requires
        before.wf(),
        before.stage == CallStage::Trying,
        100 <= status <= 999,
        head_taken(before, after, r, status, now),
    ensures
        200 <= status <= 299 ==> after == before && r@ == HeadData::Proceed(status),
        500 <= status <= 599 || status == 401 || status == 403 || status == 404 || status == 429
            ==> {
            let last = after.recorder@.attempts.last();
            &&& r is Failed
            &&& after.stage == CallStage::Ready
            &&& after.tried() == before.tried()
            &&& last.http_status == Some(status as i64)
            &&& last.failure_category == Some(http_category(status))
            &&& last.phase == CommitPhase::PreCommit
            &&& last.ended_at == Some(now)
            &&& before.tried() == before.candidates@.len() ==> last.outcome == Some(
                ModelRouteAttemptOutcome::Failed,
            )
            &&& before.tried() < before.candidates@.len() ==> last.outcome == Some(
                ModelRouteAttemptOutcome::Fallback,
            )
            &&& after.final_error matches Some(error) && error@.status == status
                && error@.error_type == "api_error"@ && error@.message
                == "upstream request failed"@ && error@.code is None && error@.param is None
            &&& !after.recorder@.finalized
        },
        !(200 <= status <= 299) && !(500 <= status <= 599) && status != 401 && status != 403
            && status != 404 && status != 429 ==> {
            let last = after.recorder@.attempts.last();
            &&& r matches HeadStep::Refused(error, record) && error@.status == status
                && error@.error_type == "api_error"@ && error@.message
                == "upstream request failed"@ && error@.code is None && !record.succeeded
            &&& after.stage == CallStage::Over
            &&& after.recorder@.finalized
            &&& last.http_status == Some(status as i64)
            &&& last.failure_category == Some("upstream_http_4xx"@)
            &&& last.outcome == Some(ModelRouteAttemptOutcome::Failed)
            &&& last.phase == CommitPhase::PreCommit
        },
{
    law_statuses_decide(status, before.candidates@[before.tried() - 1].route_id@);
    assert(before.recorder@.attempts.len() > 0);
}

/// An answer that is given to the client ends the call as a success, with the
/// usage that the answer reports.
pub proof fn law_given_answers_succeed(
    before: RelayCall,
    after: RelayCall,
    r: (Json, NewCallRecord),
    status: u16,
    answer: Json,
    now: u64,
)
    requires
        before.wf(),
        before.stage == CallStage::Trying,
        answer_committed(before, after, r, status, answer, now),
    ensures
        ({
            let last = after.recorder@.attempts.last();
            &&& r.1.succeeded
            &&& r.0@ == given_answer(answer@, before.recorder@.published_model_name)
            &&& reported_usage(before.recorder@.protocol, r.0@) matches Some(usage) ==> r.1.usage
                == Some(usage)
            &&& last.outcome == Some(ModelRouteAttemptOutcome::Success)
            &&& last.phase == CommitPhase::Committed
            &&& last.failure_category is None
            &&& last.http_status == Some(status as i64)
            &&& last.ended_at == Some(now)
            &&& after.recorder@.finalized
            &&& after.tried() == before.tried()
        }),
{
    assert(before.recorder@.attempts.len() > 0);
}

/// A stream that ended well is recorded as a success with the usage it reported;
/// one that told of a failure as broken off, and is held against its route.
pub proof fn law_ended_streams_are_recorded(
    before: RelayCall,
    after: RelayCall,
    r: (NewCallRecord, Option<Blame>),
    usage: Option<Usage>,
    semantic_failure: bool,
    http_status: i64,
    now: u64,
)
    requires
        before.wf(),
        before.stage == CallStage::Streaming,
        stream_end_taken(before, after, r, usage, semantic_failure, http_status, now),
    ensures
        ({
            let last = after.recorder@.attempts.last();
            &&& r.0.succeeded == !semantic_failure
            &&& after.recorder@.finalized
            &&& last.ended_at == Some(now)
            &&& !semantic_failure ==> last.outcome == Some(ModelRouteAttemptOutcome::Success)
                && last.failure_category is None && r.1 is None
            &&& !semantic_failure && usage is Some ==> r.0.usage == usage
            &&& semantic_failure ==> last.outcome == Some(
                ModelRouteAttemptOutcome::StreamTerminated,
            ) && last.failure_category == Some("upstream_semantic_failure"@) && r.0.usage is None
            &&& semantic_failure ==> (r.1 matches Some(blame) && blame@.route_id
                == before.candidates@[before.tried() - 1].route_id@ && blame@.http_status == Some(
                http_status,
            ))
        }),
{
    assert(before.recorder@.attempts.len() > 0);
}

/// A stream that broke off is recorded as broken off, for what its error says,
/// and never as a success.
pub proof fn law_broken_streams_are_recorded(
    before: RelayCall,
    after: RelayCall,
    r: (NewCallRecord, Option<Blame>),
    error: RelayError,
    http_status: i64,
    now: u64,
)
    requires
        before.wf(),
        before.stage == CallStage::Streaming,
        stream_failure_taken(before, after, r, error, http_status, now),
    ensures
        ({
            let last = after.recorder@.attempts.last();
            &&& !r.0.succeeded
            &&& r.0.usage is None
            &&& last.outcome == Some(ModelRouteAttemptOutcome::StreamTerminated)
            &&& last.failure_category == Some(error_category(error@.code))
            &&& last.ended_at == Some(now)
            &&& after.recorder@.finalized
        }),
{
    assert(before.recorder@.attempts.len() > 0);
}

/// A client that went away ends the call without success; what had reached it is
/// recorded as cancelled.
pub proof fn law_abandoned_calls_are_recorded(
    before: RelayCall,
    after: RelayCall,
    record: NewCallRecord,
    now: u64,
)
    requires
        before.wf(),
        call_abandoned(before, after, Some(record), now),
    ensures
        !record.succeeded,
        record.usage is None,
        after.recorder@.finalized,
        before.stage == CallStage::Streaming ==> after.recorder@.attempts.last().outcome == Some(
            ModelRouteAttemptOutcome::ClientCancelled,
        ),
{
}

/// An attempt that failed before anything reached the client is noted with its
/// category and status, and held against its route; the call remembers its error.
pub proof fn law_failed_attempts_are_noted(
    before: RelayCall,
    after: RelayCall,
    r: Blame,
    failure: PreCommitFailure,
    now: u64,
)
    requires
        before.wf(),
        before.stage == CallStage::Trying,
        attempt_failed(before, after, r, failure, now),
    ensures
        ({
            let last = after.recorder@.attempts.last();
            &&& last.failure_category == Some(failure.category@)
            &&& last.http_status == failure.http_status
            &&& last.phase == CommitPhase::PreCommit
            &&& last.ended_at == Some(now)
            &&& before.tried() == before.candidates@.len() ==> last.outcome == Some(
                ModelRouteAttemptOutcome::Failed,
            )
            &&& before.tried() < before.candidates@.len() ==> last.outcome == Some(
                ModelRouteAttemptOutcome::Fallback,
            )
            &&& r.route_id@ == before.candidates@[before.tried() - 1].route_id@
            &&& r.category@ == failure.category@
            &&& r.http_status == failure.http_status
            &&& after.final_error matches Some(error) && error@ == failure.error@
        }),
{
    assert(before.recorder@.attempts.len() > 0);
}

/// A chunk notes the time of the first and the usage that was reported, and
/// nothing else.
pub proof fn law_passed_chunks_are_noted(
    before: RelayCall,
    after: RelayCall,
    usage: Option<Usage>,
    now: u64,
)
    requires
        chunk_noted(before, after, usage, now),
    ensures
        before.recorder@.first_chunk_at is None ==> after.recorder@.first_chunk_at == Some(now),
        before.recorder@.first_chunk_at is Some ==> after.recorder@.first_chunk_at
            == before.recorder@.first_chunk_at,
        usage is Some ==> after.recorder@.usage == usage,
        usage is None ==> after.recorder@.usage == before.recorder@.usage,
        after.recorder@.attempts == before.recorder@.attempts,
        after.recorder@.finalized == before.recorder@.finalized,
{
}

/// An answer that fails says so in its code.
pub proof fn law_failed_answers_say_why(protocol: StreamProtocol, status: u16, body: JsonData)
    ensures
        answer_failure(protocol, status, None) matches Some(failure) && failure.category
            == "invalid_upstream_response"@ && failure.error.status == 502 && failure.http_status
            == Some(status as i64),
        protocol == StreamProtocol::Responses ==> answer_failure(protocol, status, None)->0.error.code
            == Some("invalid_upstream_response"@),
        protocol == StreamProtocol::ChatCompletions ==> answer_failure(
            protocol,
            status,
            None,
        )->0.error.code is None,
        protocol == StreamProtocol::Responses ==> answer_failure(
            protocol,
            status,
            None,
        )->0.error.message == "upstream returned an invalid Responses response"@,
        protocol == StreamProtocol::ChatCompletions ==> answer_failure(
            protocol,
            status,
            None,
        )->0.error.message == "upstream returned an invalid Chat Completions response"@,
        !complete_answer(protocol, body) ==> answer_failure(protocol, status, Some(body))
            == answer_failure(protocol, status, None),
        protocol == StreamProtocol::ChatCompletions && complete_answer(protocol, body)
            ==> answer_failure(protocol, status, Some(body)) is None,
        protocol == StreamProtocol::Responses && complete_answer(protocol, body)
            && semantic_failure(body) ==> answer_failure(
            protocol,
            status,
            Some(body),
        )->0.error.code == Some("upstream_semantic_failure"@),
        exhausted_error(None).status == 502 && exhausted_error(None).code == Some(
            "all_upstream_attempts_failed"@,
        ),
{
}

} // verus!
