//! The decisions of the forwarding handler for `POST /v1/chat/completions`.
//!
//! The handler alternates outside work (reading the client body, calling
//! the upstream, reading or streaming the upstream body) with decisions.
//! The decisions are the step function [`forward_step`]: from the current
//! phase and what the outside work reported, the next phase and the action
//! to perform. The server runs the loop; this module proves what every run
//! guarantees: a rejected request never reaches the upstream and leaves no
//! trace, and every request that reaches the upstream leaves exactly one.

use vstd::prelude::*;

verus! {

/// Path the proxy accepts requests on.
pub const PROXY_PATH: &'static str = "/v1/chat/completions";

/// Status of a request that is not a POST.
pub const STATUS_METHOD_NOT_ALLOWED: u16 = 405;

/// Status of a request whose body could not be read.
pub const STATUS_BAD_REQUEST: u16 = 400;

/// Status of a request whose body exceeds the configured cap.
pub const STATUS_PAYLOAD_TOO_LARGE: u16 = 413;

/// Status returned when the upstream call or its body failed.
pub const STATUS_BAD_GATEWAY: u16 = 502;

/// The URL a request is forwarded to: the upstream base URL followed by
/// [`PROXY_PATH`].
pub fn upstream_request_url(upstream_url: &str) -> (r: String)
    ensures
        r@ == upstream_url@ + PROXY_PATH@,
{
    let mut r = String::from_str(upstream_url);
    r.append(PROXY_PATH);
    r
}

/// Where a forwarded request stands.
#[derive(Clone, Copy, Debug, PartialEq, Eq, Structural)]
pub enum ForwardPhase {
    /// The request has arrived; nothing is decided yet.
    Received,
    /// The client body is being read (within the size cap).
    ReadingBody,
    /// The upstream has been called.
    AwaitingUpstream,
    /// A buffered upstream response body is being read.
    ReadingUpstreamBody { status: u16 },
    /// An SSE upstream response is being streamed to the client.
    Streaming { status: u16 },
    /// The request is answered and, if the upstream was called, recorded.
    Finished,
}

/// What the outside work reported.
#[derive(Clone, Copy, Debug, PartialEq, Eq, Structural)]
pub enum ForwardEvent {
    /// The request arrived with this method.
    Arrived { is_post: bool },
    /// The whole client body was read within the cap.
    BodyComplete,
    /// The client body exceeds the cap.
    BodyTooLarge,
    /// Reading the client body failed.
    BodyFailed,
    /// The upstream answered with this status; `sse` when its content type
    /// is `text/event-stream`.
    UpstreamResponded { status: u16, sse: bool },
    /// The upstream call failed (connect, timeout, transport).
    UpstreamFailed,
    /// The buffered upstream body was read.
    UpstreamBodyRead,
    /// Reading the buffered upstream body failed.
    UpstreamBodyFailed,
    /// A stream chunk arrived and was handed to the client.
    ChunkForwarded,
    /// The client went away mid-stream.
    ClientGone,
    /// The upstream stream failed mid-way.
    StreamFailed,
    /// The upstream stream ended.
    StreamEnded,
}

/// Why a request is refused before the upstream is called.
#[derive(Clone, Copy, Debug, PartialEq, Eq, Structural)]
pub enum RejectReason {
    /// The method is not POST.
    MethodNotAllowed,
    /// The client body could not be read.
    BodyUnreadable,
    /// The client body exceeds the configured cap.
    BodyTooLarge,
}

/// What to do next.
#[derive(Clone, Copy, Debug, PartialEq, Eq, Structural)]
pub enum ForwardAction {
    /// Read the client body, capped at the configured size.
    ReadBody,
    /// Answer with a JSON error for this reason; nothing is recorded.
    Reject { reason: RejectReason },
    /// Forward the request (filtered headers, same body) upstream.
    CallUpstream,
    /// Read the buffered upstream body.
    ReadUpstreamBody,
    /// Record a failure trace (status 0) and answer with a JSON 502;
    /// `upstream_answered` when the upstream responded but its body could
    /// not be read.
    RecordFailure { upstream_answered: bool },
    /// Record the trace of the buffered exchange and relay the response.
    RecordAndRelay { status: u16 },
    /// Answer with a streaming response of this status (SSE hygiene
    /// headers added) and start teeing the upstream stream.
    OpenStream { status: u16 },
    /// Keep streaming.
    ContinueStream,
    /// Pass the upstream error to the client, then record the streamed
    /// trace.
    FailStreamAndRecord { status: u16 },
    /// Record the streamed trace with what was aggregated.
    RecordStream { status: u16 },
    /// The event does not apply in this phase; nothing to do.
    Ignore,
}

/// The step function of the handler.
pub open spec fn step_spec(phase: ForwardPhase, ev: ForwardEvent) -> (ForwardPhase, ForwardAction) {
    match (phase, ev) {
        (ForwardPhase::Received, ForwardEvent::Arrived { is_post }) => if is_post {
            (ForwardPhase::ReadingBody, ForwardAction::ReadBody)
        } else {
            (ForwardPhase::Finished, ForwardAction::Reject { reason: RejectReason::MethodNotAllowed })
        },
        (ForwardPhase::ReadingBody, ForwardEvent::BodyComplete) => (
            ForwardPhase::AwaitingUpstream,
            ForwardAction::CallUpstream,
        ),
        (ForwardPhase::ReadingBody, ForwardEvent::BodyTooLarge) => (
            ForwardPhase::Finished,
            ForwardAction::Reject { reason: RejectReason::BodyTooLarge },
        ),
        (ForwardPhase::ReadingBody, ForwardEvent::BodyFailed) => (
            ForwardPhase::Finished,
            ForwardAction::Reject { reason: RejectReason::BodyUnreadable },
        ),
        (ForwardPhase::AwaitingUpstream, ForwardEvent::UpstreamResponded { status, sse }) => if sse {
            (ForwardPhase::Streaming { status }, ForwardAction::OpenStream { status })
        } else {
            (ForwardPhase::ReadingUpstreamBody { status }, ForwardAction::ReadUpstreamBody)
        },
        (ForwardPhase::AwaitingUpstream, ForwardEvent::UpstreamFailed) => (
            ForwardPhase::Finished,
            ForwardAction::RecordFailure { upstream_answered: false },
        ),
        (ForwardPhase::ReadingUpstreamBody { status }, ForwardEvent::UpstreamBodyRead) => (
            ForwardPhase::Finished,
            ForwardAction::RecordAndRelay { status },
        ),
        (ForwardPhase::ReadingUpstreamBody { status }, ForwardEvent::UpstreamBodyFailed) => (
            ForwardPhase::Finished,
            ForwardAction::RecordFailure { upstream_answered: true },
        ),
        (ForwardPhase::Streaming { status }, ForwardEvent::ChunkForwarded) => (
            ForwardPhase::Streaming { status },
            ForwardAction::ContinueStream,
        ),
        (ForwardPhase::Streaming { status }, ForwardEvent::ClientGone) => (
            ForwardPhase::Finished,
            ForwardAction::RecordStream { status },
        ),
        (ForwardPhase::Streaming { status }, ForwardEvent::StreamFailed) => (
            ForwardPhase::Finished,
            ForwardAction::FailStreamAndRecord { status },
        ),
        (ForwardPhase::Streaming { status }, ForwardEvent::StreamEnded) => (
            ForwardPhase::Finished,
            ForwardAction::RecordStream { status },
        ),
        _ => (phase, ForwardAction::Ignore),
    }
}

/// One decision of the handler: the next phase and the action for an event.
pub fn forward_step(phase: ForwardPhase, ev: ForwardEvent) -> (r: (ForwardPhase, ForwardAction))
    ensures
        r == step_spec(phase, ev),
{
    match (phase, ev) {
        (ForwardPhase::Received, ForwardEvent::Arrived { is_post }) => if is_post {
            (ForwardPhase::ReadingBody, ForwardAction::ReadBody)
        } else {
            (ForwardPhase::Finished, ForwardAction::Reject { reason: RejectReason::MethodNotAllowed })
        },
        (ForwardPhase::ReadingBody, ForwardEvent::BodyComplete) => (
            ForwardPhase::AwaitingUpstream,
            ForwardAction::CallUpstream,
        ),
        (ForwardPhase::ReadingBody, ForwardEvent::BodyTooLarge) => (
            ForwardPhase::Finished,
            ForwardAction::Reject { reason: RejectReason::BodyTooLarge },
        ),
        (ForwardPhase::ReadingBody, ForwardEvent::BodyFailed) => (
            ForwardPhase::Finished,
            ForwardAction::Reject { reason: RejectReason::BodyUnreadable },
        ),
        (ForwardPhase::AwaitingUpstream, ForwardEvent::UpstreamResponded { status, sse }) => if sse {
            (ForwardPhase::Streaming { status }, ForwardAction::OpenStream { status })
        } else {
            (ForwardPhase::ReadingUpstreamBody { status }, ForwardAction::ReadUpstreamBody)
        },
        (ForwardPhase::AwaitingUpstream, ForwardEvent::UpstreamFailed) => (
            ForwardPhase::Finished,
            ForwardAction::RecordFailure { upstream_answered: false },
        ),
        (ForwardPhase::ReadingUpstreamBody { status }, ForwardEvent::UpstreamBodyRead) => (
            ForwardPhase::Finished,
            ForwardAction::RecordAndRelay { status },
        ),
        (ForwardPhase::ReadingUpstreamBody { status }, ForwardEvent::UpstreamBodyFailed) => (
            ForwardPhase::Finished,
            ForwardAction::RecordFailure { upstream_answered: true },
        ),
        (ForwardPhase::Streaming { status }, ForwardEvent::ChunkForwarded) => (
            ForwardPhase::Streaming { status },
            ForwardAction::ContinueStream,
        ),
        (ForwardPhase::Streaming { status }, ForwardEvent::ClientGone) => (
            ForwardPhase::Finished,
            ForwardAction::RecordStream { status },
        ),
        (ForwardPhase::Streaming { status }, ForwardEvent::StreamFailed) => (
            ForwardPhase::Finished,
            ForwardAction::FailStreamAndRecord { status },
        ),
        (ForwardPhase::Streaming { status }, ForwardEvent::StreamEnded) => (
            ForwardPhase::Finished,
            ForwardAction::RecordStream { status },
        ),
        _ => (phase, ForwardAction::Ignore),
    }
}

// ---------------------------------------------------------------------
// Runs
// ---------------------------------------------------------------------

/// The phase and the actions after a sequence of events from `start`.
pub open spec fn run(start: ForwardPhase, evs: Seq<ForwardEvent>) -> (ForwardPhase, Seq<ForwardAction>)
    decreases evs.len(),
{
    if evs.len() == 0 {
        (start, Seq::empty())
    } else {
        let (p, acts) = run(start, evs.drop_last());
        let (q, a) = step_spec(p, evs.last());
        (q, acts.push(a))
    }
}

/// An action that writes a trace record.
pub open spec fn records_trace(a: ForwardAction) -> bool {
    match a {
        ForwardAction::RecordFailure { .. } => true,
        ForwardAction::RecordAndRelay { .. } => true,
        ForwardAction::FailStreamAndRecord { .. } => true,
        ForwardAction::RecordStream { .. } => true,
        _ => false,
    }
}

/// An action that calls the upstream.
pub open spec fn calls_upstream(a: ForwardAction) -> bool {
    a == ForwardAction::CallUpstream
}

/// An action that answers with an error without recording.
pub open spec fn rejects(a: ForwardAction) -> bool {
    a is Reject
}

/// How many actions satisfy `p`.
pub open spec fn count(acts: Seq<ForwardAction>, p: spec_fn(ForwardAction) -> bool) -> nat
    decreases acts.len(),
{
    if acts.len() == 0 {
        0
    } else {
        count(acts.drop_last(), p) + if p(acts.last()) {
            1nat
        } else {
            0nat
        }
    }
}

/// How the phase reached relates to what was done so far.
pub open spec fn run_invariant(phase: ForwardPhase, acts: Seq<ForwardAction>) -> bool {
    let calls = count(acts, |a: ForwardAction| calls_upstream(a));
    let records = count(acts, |a: ForwardAction| records_trace(a));
    let rejections = count(acts, |a: ForwardAction| rejects(a));
    match phase {
        ForwardPhase::Received => calls == 0 && records == 0 && rejections == 0,
        ForwardPhase::ReadingBody => calls == 0 && records == 0 && rejections == 0,
        ForwardPhase::AwaitingUpstream => calls == 1 && records == 0 && rejections == 0,
        ForwardPhase::ReadingUpstreamBody { .. } => calls == 1 && records == 0 && rejections == 0,
        ForwardPhase::Streaming { .. } => calls == 1 && records == 0 && rejections == 0,
        ForwardPhase::Finished => (calls == 1 && records == 1 && rejections == 0) || (calls == 0
            && records == 0 && rejections == 1),
    }
}

proof fn lemma_run_invariant(evs: Seq<ForwardEvent>)
    ensures
        run_invariant(run(ForwardPhase::Received, evs).0, run(ForwardPhase::Received, evs).1),
    decreases evs.len(),
{
    if evs.len() > 0 {
        lemma_run_invariant(evs.drop_last());
        let (p, acts) = run(ForwardPhase::Received, evs.drop_last());
        let (q, a) = step_spec(p, evs.last());
        assert(acts.push(a).drop_last() == acts);
    }
}

/// Every run of the handler, whatever the outside work reports: the
/// upstream is called at most once and a trace is recorded at most once;
/// a rejected request (405, 400, 413) neither reaches the upstream nor
/// leaves a trace; and once the request is finished, it was either
/// rejected, or the upstream was called and exactly one trace was
/// recorded.
pub proof fn lemma_forward_runs(evs: Seq<ForwardEvent>)
    ensures
        ({
            let (phase, acts) = run(ForwardPhase::Received, evs);
            let calls = count(acts, |a: ForwardAction| calls_upstream(a));
            let records = count(acts, |a: ForwardAction| records_trace(a));
            let rejections = count(acts, |a: ForwardAction| rejects(a));
            &&& calls <= 1 && records <= 1 && rejections <= 1
            &&& rejections == 1 ==> calls == 0 && records == 0
            &&& records <= calls
            &&& phase == ForwardPhase::Finished ==> (rejections == 1 || (calls == 1 && records
                == 1))
        }),
{
    lemma_run_invariant(evs);
}

/// An upstream failure is answered with 502 and recorded as a failure
/// (status 0) whenever it happens while the upstream is being called or its
/// buffered body is being read.
pub proof fn lemma_upstream_failure_is_recorded(phase: ForwardPhase)
    ensures
        phase == ForwardPhase::AwaitingUpstream ==> step_spec(phase, ForwardEvent::UpstreamFailed)
            == (ForwardPhase::Finished, ForwardAction::RecordFailure { upstream_answered: false }),
        phase is ReadingUpstreamBody ==> step_spec(phase, ForwardEvent::UpstreamBodyFailed) == (
            ForwardPhase::Finished,
            ForwardAction::RecordFailure { upstream_answered: true },
        ),
        phase == ForwardPhase::AwaitingUpstream ==> error_reply_spec(
            step_spec(phase, ForwardEvent::UpstreamFailed).1,
        ) == Some((STATUS_BAD_GATEWAY, UPSTREAM_FAILED_MESSAGE@)),
        phase is ReadingUpstreamBody ==> error_reply_spec(
            step_spec(phase, ForwardEvent::UpstreamBodyFailed).1,
        ) == Some((STATUS_BAD_GATEWAY, UPSTREAM_BODY_FAILED_MESSAGE@)),
{
}

/// Whatever status the upstream answers with (a 2xx, or a 4xx/5xx such as
/// 429), a buffered answer whose body was read is relayed to the client
/// with that same status and recorded; a streamed one is opened with that
/// status. Over a whole exchange: POST, body read, upstream status `s`,
/// body read, ends in `RecordAndRelay { status: s }`.
pub proof fn lemma_upstream_status_relayed(s: u16, sse: bool)
    ensures
        step_spec(ForwardPhase::ReadingUpstreamBody { status: s }, ForwardEvent::UpstreamBodyRead)
            == (ForwardPhase::Finished, ForwardAction::RecordAndRelay { status: s }),
        step_spec(ForwardPhase::AwaitingUpstream, ForwardEvent::UpstreamResponded { status: s, sse })
            .1 == if sse {
            ForwardAction::OpenStream { status: s }
        } else {
            ForwardAction::ReadUpstreamBody
        },
        ({
            let evs = seq![
                ForwardEvent::Arrived { is_post: true },
                ForwardEvent::BodyComplete,
                ForwardEvent::UpstreamResponded { status: s, sse: false },
                ForwardEvent::UpstreamBodyRead,
            ];
            run(ForwardPhase::Received, evs) == (
                ForwardPhase::Finished,
                seq![
                    ForwardAction::ReadBody,
                    ForwardAction::CallUpstream,
                    ForwardAction::ReadUpstreamBody,
                    ForwardAction::RecordAndRelay { status: s },
                ],
            )
        }),
{
    let evs = seq![
        ForwardEvent::Arrived { is_post: true },
        ForwardEvent::BodyComplete,
        ForwardEvent::UpstreamResponded { status: s, sse: false },
        ForwardEvent::UpstreamBodyRead,
    ];
    assert(evs.drop_last().drop_last().drop_last().drop_last() =~= Seq::<ForwardEvent>::empty());
    assert(evs.drop_last().drop_last().drop_last() =~= seq![ForwardEvent::Arrived { is_post: true }]);
    assert(evs.drop_last().drop_last() =~= seq![
        ForwardEvent::Arrived { is_post: true },
        ForwardEvent::BodyComplete,
    ]);
    assert(evs.drop_last() =~= seq![
        ForwardEvent::Arrived { is_post: true },
        ForwardEvent::BodyComplete,
        ForwardEvent::UpstreamResponded { status: s, sse: false },
    ]);
    reveal_with_fuel(run, 5);
    assert(run(ForwardPhase::Received, evs).1 =~= seq![
        ForwardAction::ReadBody,
        ForwardAction::CallUpstream,
        ForwardAction::ReadUpstreamBody,
        ForwardAction::RecordAndRelay { status: s },
    ]);
}

/// A failure is recorded, and the proxy answers with its own 502, only
/// when the upstream call or the reading of its body failed: never on an
/// answer the upstream gave.
pub proof fn lemma_failure_only_on_upstream_failure(phase: ForwardPhase, ev: ForwardEvent)
    ensures
        step_spec(phase, ev).1 is RecordFailure ==> (ev == ForwardEvent::UpstreamFailed || ev
            == ForwardEvent::UpstreamBodyFailed),
        (ev is UpstreamResponded || ev == ForwardEvent::UpstreamBodyRead) ==> error_reply_spec(
            step_spec(phase, ev).1,
        ) is None,
{
}

/// Once finished, a request stays finished and nothing more is done.
pub proof fn lemma_finished_is_final(ev: ForwardEvent)
    ensures
        step_spec(ForwardPhase::Finished, ev) == (ForwardPhase::Finished, ForwardAction::Ignore),
{
}

/// Message of the 405 reply.
pub const METHOD_NOT_ALLOWED_MESSAGE: &'static str = "only POST is accepted";

/// Message of the 400 reply.
pub const BODY_UNREADABLE_MESSAGE: &'static str = "could not read request body";

/// Message of the 413 reply.
pub const BODY_TOO_LARGE_MESSAGE: &'static str = "request body exceeds the configured size limit";

/// Message of the 502 reply when the upstream call failed.
pub const UPSTREAM_FAILED_MESSAGE: &'static str = "upstream request failed";

/// Message of the 502 reply when the upstream body could not be read.
pub const UPSTREAM_BODY_FAILED_MESSAGE: &'static str = "failed to read upstream body";

/// The status and message of the JSON error a request is answered with,
/// for the actions that answer with one.
pub open spec fn error_reply_spec(a: ForwardAction) -> Option<(u16, Seq<char>)> {
    match a {
        ForwardAction::Reject { reason } => match reason {
            RejectReason::MethodNotAllowed => Some(
                (STATUS_METHOD_NOT_ALLOWED, METHOD_NOT_ALLOWED_MESSAGE@),
            ),
            RejectReason::BodyUnreadable => Some((STATUS_BAD_REQUEST, BODY_UNREADABLE_MESSAGE@)),
            RejectReason::BodyTooLarge => Some((STATUS_PAYLOAD_TOO_LARGE, BODY_TOO_LARGE_MESSAGE@)),
        },
        ForwardAction::RecordFailure { upstream_answered } => if upstream_answered {
            Some((STATUS_BAD_GATEWAY, UPSTREAM_BODY_FAILED_MESSAGE@))
        } else {
            Some((STATUS_BAD_GATEWAY, UPSTREAM_FAILED_MESSAGE@))
        },
        _ => None,
    }
}

/// The JSON error an action answers with: its status and message.
pub fn error_reply(a: ForwardAction) -> (r: Option<(u16, &'static str)>)
    ensures
        match error_reply_spec(a) {
            Some((status, message)) => r matches Some((s, m)) && s == status && m@ == message,
            None => r is None,
        },
{
    match a {
        ForwardAction::Reject { reason } => match reason {
            RejectReason::MethodNotAllowed => Some(
                (STATUS_METHOD_NOT_ALLOWED, METHOD_NOT_ALLOWED_MESSAGE),
            ),
            RejectReason::BodyUnreadable => Some((STATUS_BAD_REQUEST, BODY_UNREADABLE_MESSAGE)),
            RejectReason::BodyTooLarge => Some((STATUS_PAYLOAD_TOO_LARGE, BODY_TOO_LARGE_MESSAGE)),
        },
        ForwardAction::RecordFailure { upstream_answered } => if upstream_answered {
            Some((STATUS_BAD_GATEWAY, UPSTREAM_BODY_FAILED_MESSAGE))
        } else {
            Some((STATUS_BAD_GATEWAY, UPSTREAM_FAILED_MESSAGE))
        },
        _ => None,
    }
}

/// What a refused request is answered: a non-POST gets 405, an unreadable
/// body 400 and a body over the cap 413, each before the upstream is
/// called; every other answer the handler gives on its own is a 502 after
/// an upstream failure, and it comes with a failure trace.
pub proof fn lemma_refusals_answered(phase: ForwardPhase, ev: ForwardEvent)
    ensures
        phase == ForwardPhase::Received && ev == (ForwardEvent::Arrived { is_post: false })
            ==> error_reply_spec(step_spec(phase, ev).1) == Some(
            (STATUS_METHOD_NOT_ALLOWED, METHOD_NOT_ALLOWED_MESSAGE@),
        ),
        phase == ForwardPhase::ReadingBody && ev == ForwardEvent::BodyTooLarge ==> error_reply_spec(
            step_spec(phase, ev).1,
        ) == Some((STATUS_PAYLOAD_TOO_LARGE, BODY_TOO_LARGE_MESSAGE@)),
        phase == ForwardPhase::ReadingBody && ev == ForwardEvent::BodyFailed ==> error_reply_spec(
            step_spec(phase, ev).1,
        ) == Some((STATUS_BAD_REQUEST, BODY_UNREADABLE_MESSAGE@)),
        error_reply_spec(step_spec(phase, ev).1) is Some ==> (rejects(step_spec(phase, ev).1)
            || (records_trace(step_spec(phase, ev).1) && (error_reply_spec(step_spec(phase, ev).1)
            matches Some((status, _)) && status == STATUS_BAD_GATEWAY))),
{
}

/// The body-size check: a body longer than the cap is refused.
pub open spec fn body_fits(len: nat, max_request_bytes: nat) -> bool {
    len <= max_request_bytes
}

/// The event for a body read so far: too large once it exceeds the cap.
pub fn body_event(read_so_far: usize, max_request_bytes: usize) -> (ev: Option<ForwardEvent>)
    ensures
        ev == if body_fits(read_so_far as nat, max_request_bytes as nat) {
            None::<ForwardEvent>
        } else {
            Some(ForwardEvent::BodyTooLarge)
        },
{
    if read_so_far <= max_request_bytes {
        None
    } else {
        Some(ForwardEvent::BodyTooLarge)
    }
}

// ---------------------------------------------------------------------
// Teeing a stream
// ---------------------------------------------------------------------

/// The concatenation of the chunks.
pub open spec fn concat(chunks: Seq<Seq<u8>>) -> Seq<u8>
    decreases chunks.len(),
{
    if chunks.len() == 0 {
        Seq::empty()
    } else {
        concat(chunks.drop_last()) + chunks.last()
    }
}

/// The bytes aggregated for the trace while a stream is forwarded.
pub struct StreamTee {
    aggregated: Vec<u8>,
    chunks: Ghost<Seq<Seq<u8>>>,
}

impl StreamTee {
    /// The chunks seen so far.
    pub closed spec fn seen(&self) -> Seq<Seq<u8>> {
        self.chunks@
    }

    /// The aggregate is the concatenation of the chunks seen.
    pub closed spec fn wf(&self) -> bool {
        self.aggregated@ == concat(self.chunks@)
    }

    /// The aggregated bytes.
    pub closed spec fn bytes(&self) -> Seq<u8> {
        self.aggregated@
    }

    /// A tee that has seen nothing.
    pub fn new() -> (t: StreamTee)
        ensures
            t.wf(),
            t.seen() == Seq::<Seq<u8>>::empty(),
            t.bytes() == Seq::<u8>::empty(),
    {
        StreamTee { aggregated: Vec::new(), chunks: Ghost(Seq::empty()) }
    }

    /// Take in a chunk on its way to the client.
    pub fn on_chunk(&mut self, chunk: &[u8])
        requires
            old(self).wf(),
        ensures
            final(self).wf(),
            final(self).seen() == old(self).seen().push(chunk@),
            final(self).bytes() == old(self).bytes() + chunk@,
    {
        let ghost before = self.aggregated@;
        let ghost chunks0 = self.chunks@;
        let mut i: usize = 0;
        while i < chunk.len()
            invariant
                i <= chunk.len(),
                self.chunks@ == chunks0,
                before == concat(chunks0),
                self.aggregated@ == before + chunk@.take(i as int),
            decreases chunk.len() - i,
        {
            self.aggregated.push(chunk[i]);
            assert(chunk@.take(i + 1) == chunk@.take(i as int).push(chunk@[i as int]));
            i = i + 1;
        }
        assert(chunk@.take(chunk.len() as int) == chunk@);
        let ghost prev = self.chunks@;
        self.chunks = Ghost(prev.push(chunk@));
        assert(self.chunks@.drop_last() == prev);
        assert(self.chunks@.last() == chunk@);
        assert(concat(self.chunks@) == concat(prev) + chunk@);
    }

    /// The aggregated bytes.
    pub fn aggregated(&self) -> (r: &Vec<u8>)
        ensures
            r@ == self.bytes(),
    {
        &self.aggregated
    }

    /// The aggregated bytes are exactly the chunks seen, in order.
    pub proof fn lemma_aggregate(&self)
        requires
            self.wf(),
        ensures
            self.bytes() == concat(self.seen()),
    {
    }
}

} // verus!
