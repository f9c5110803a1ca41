//! The streaming relay: turns the chunks of a completion stream into an
//! ordered sequence of events, with a wall-clock ceiling checked per chunk.

use vstd::prelude::*;
use crate::model::InvokeResponse;

verus! {

/// Seconds a stream may run before the next chunk ends it.
pub const STREAM_TIMEOUT_SECS: u64 = 300;

/// One event for the event sink.
pub struct StreamChunk {
    pub content: String,
    pub is_complete: bool,
    pub error: Option<String>,
    pub status: Option<String>,
    pub message: Option<String>,
}

/// What an event says, with its texts as character sequences.
pub struct EventView {
    pub content: Seq<char>,
    pub is_complete: bool,
    pub error: Option<Seq<char>>,
    pub status: Option<Seq<char>>,
    pub message: Option<Seq<char>>,
}

impl View for StreamChunk {
    type V = EventView;

    open spec fn view(&self) -> EventView {
        EventView {
            content: self.content@,
            is_complete: self.is_complete,
            error: crate::model::opt_text(self.error),
            status: crate::model::opt_text(self.status),
            message: crate::model::opt_text(self.message),
        }
    }
}

pub open spec fn status_event_view(status: Seq<char>, message: Seq<char>) -> EventView {
    EventView {
        content: Seq::empty(),
        is_complete: false,
        error: None,
        status: Some(status),
        message: Some(message),
    }
}

pub open spec fn started_event() -> EventView {
    status_event_view("streaming_started"@, "Waiting for response..."@)
}

pub open spec fn content_event(c: Seq<char>) -> EventView {
    EventView { content: c, is_complete: false, error: None, status: None, message: None }
}

pub open spec fn timeout_message() -> Seq<char> {
    "Streaming timeout after 5 minutes"@
}

pub open spec fn timeout_event() -> EventView {
    EventView {
        content: Seq::empty(),
        is_complete: true,
        error: Some(timeout_message()),
        status: None,
        message: None,
    }
}

pub open spec fn completed_message() -> Seq<char> {
    "Streaming completed successfully"@
}

pub open spec fn completed_event() -> EventView {
    EventView {
        content: Seq::empty(),
        is_complete: true,
        error: None,
        status: Some("completed"@),
        message: Some(completed_message()),
    }
}

/// What one read from the upstream stream gave.
pub enum ChunkRead {
    /// A chunk carrying a text fragment.
    Content(String),
    /// A chunk carrying no text (usage accounting only, say).
    Empty,
    /// The read failed.
    Failed(String),
}

/// A chunk read, with the whole seconds elapsed since streaming began.
pub struct Arrival {
    pub elapsed_secs: u64,
    pub read: ChunkRead,
}

/// Where a streaming call stands: it streams until it completes, times out
/// or fails, once.
pub enum RelayState {
    Streaming,
    Completed,
    TimedOut,
    Failed,
}

/// How a relay call ends.
pub enum Outcome {
    Success(Seq<char>),
    Failure(Seq<char>),
}

/// The envelope `o` reports `out`.
pub open spec fn reports(o: InvokeResponse<String>, out: Outcome) -> bool {
    match out {
        Outcome::Success(t) => o.code == 0 && o.message@ == "ok"@ && (o.data matches Some(d)
            && d@ == t),
        Outcome::Failure(m) => o.code == 1 && o.message@ == m && o.data is None,
    }
}

pub open spec fn stream_error_message(detail: Seq<char>) -> Seq<char> {
    "Stream error: "@ + detail
}

/// The events and outcome once `arrivals` are read with `acc` accumulated,
/// the stream ending normally after the last of them.
pub open spec fn relay_from(arrivals: Seq<Arrival>, acc: Seq<char>) -> (Seq<EventView>, Outcome)
    decreases arrivals.len(),
{
    if arrivals.len() == 0 {
        (seq![completed_event()], Outcome::Success(acc))
    } else if arrivals[0].elapsed_secs > STREAM_TIMEOUT_SECS {
        (seq![timeout_event()], Outcome::Failure(timeout_message()))
    } else {
        match arrivals[0].read {
            ChunkRead::Failed(m) => (Seq::empty(), Outcome::Failure(stream_error_message(m@))),
            ChunkRead::Content(c) => {
                let rest = relay_from(arrivals.skip(1), acc + c@);
                (seq![content_event(c@)] + rest.0, rest.1)
            },
            ChunkRead::Empty => relay_from(arrivals.skip(1), acc),
        }
    }
}

/// The full event sequence and outcome of a relay over `arrivals`.
pub open spec fn relay_trace(arrivals: Seq<Arrival>) -> (Seq<EventView>, Outcome) {
    let r = relay_from(arrivals, Seq::empty());
    (seq![started_event()] + r.0, r.1)
}

pub open spec fn events_view(es: Seq<StreamChunk>) -> Seq<EventView> {
    es.map_values(|e: StreamChunk| e@)
}

proof fn lemma_relay_from_order(arrivals: Seq<Arrival>, acc: Seq<char>)
    ensures
        ({
            let (ev, out) = relay_from(arrivals, acc);
            &&& forall|k: int| 0 <= k < ev.len() - 1 ==> !(#[trigger] ev[k]).is_complete
            &&& out is Success ==> ev.len() > 0 && ev.last() == completed_event()
            &&& out is Failure ==> {
                ||| ev.len() > 0 && ev.last() == timeout_event() && out == Outcome::Failure(
                    timeout_message(),
                )
                ||| (forall|k: int| 0 <= k < ev.len() ==> !(#[trigger] ev[k]).is_complete)
                    && exists|d: Seq<char>| out == Outcome::Failure(stream_error_message(d))
            }
        }),
    decreases arrivals.len(),
{
    if arrivals.len() > 0 && arrivals[0].elapsed_secs <= STREAM_TIMEOUT_SECS {
        match arrivals[0].read {
            ChunkRead::Failed(m) => {
                assert(relay_from(arrivals, acc).1 == Outcome::Failure(stream_error_message(m@)));
            },
            ChunkRead::Content(c) => {
                lemma_relay_from_order(arrivals.skip(1), acc + c@);
                let rest = relay_from(arrivals.skip(1), acc + c@);
                let ev = seq![content_event(c@)] + rest.0;
                assert forall|k: int| 0 <= k < ev.len() - 1 implies !(#[trigger] ev[k]).is_complete by {
                    if k > 0 {
                        assert(ev[k] == rest.0[k - 1]);
                    }
                }
                if rest.1 is Failure && !(rest.0.len() > 0 && rest.0.last() == timeout_event()
                    && rest.1 == Outcome::Failure(timeout_message())) {
                    assert forall|k: int| 0 <= k < ev.len() implies !(#[trigger] ev[k]).is_complete by {
                        if k > 0 {
                            assert(ev[k] == rest.0[k - 1]);
                        }
                    }
                }
                if rest.0.len() > 0 {
                    assert(ev.last() == rest.0.last());
                }
            },
            ChunkRead::Empty => {
                lemma_relay_from_order(arrivals.skip(1), acc);
            },
        }
    }
}

/// A relay's events open with the "started" event, and no terminal event
/// stands before the last one. A call that succeeds ends with the
/// "completed" event; one that fails ends either with the timeout event or,
/// when a read failed, with no terminal event at all.
pub proof fn lemma_relay_order(arrivals: Seq<Arrival>)
    ensures
        ({
            let (ev, out) = relay_trace(arrivals);
            &&& ev.len() >= 1
            &&& ev[0] == started_event()
            &&& forall|k: int| 0 <= k < ev.len() - 1 ==> !(#[trigger] ev[k]).is_complete
            &&& out is Success ==> ev.last() == completed_event()
            &&& out is Failure ==> {
                ||| ev.last() == timeout_event() && out == Outcome::Failure(timeout_message())
                ||| (forall|k: int| 0 <= k < ev.len() ==> !(#[trigger] ev[k]).is_complete)
                    && exists|d: Seq<char>| out == Outcome::Failure(stream_error_message(d))
            }
        }),
{
    lemma_relay_from_order(arrivals, Seq::empty());
    let r = relay_from(arrivals, Seq::empty());
    let ev = seq![started_event()] + r.0;
    assert(ev[0] == started_event());
    assert forall|k: int| 0 <= k < ev.len() - 1 implies !(#[trigger] ev[k]).is_complete by {
        if k > 0 {
            assert(ev[k] == r.0[k - 1]);
        }
    }
    if r.1 is Failure && !(r.0.len() > 0 && r.0.last() == timeout_event() && r.1 == Outcome::Failure(
        timeout_message(),
    )) {
        assert forall|k: int| 0 <= k < ev.len() implies !(#[trigger] ev[k]).is_complete by {
            if k > 0 {
                assert(ev[k] == r.0[k - 1]);
            }
        }
    }
    if r.0.len() > 0 {
        assert(ev.last() == r.0.last());
    }
}

/// The text the events carry, in order.
pub open spec fn carried_text(ev: Seq<EventView>) -> Seq<char>
    decreases ev.len(),
{
    if ev.len() == 0 {
        Seq::empty()
    } else {
        ev[0].content + carried_text(ev.skip(1))
    }
}

proof fn lemma_relay_from_text(arrivals: Seq<Arrival>, acc: Seq<char>)
    ensures
        relay_from(arrivals, acc).1 matches Outcome::Success(t) ==> t == acc + carried_text(
            relay_from(arrivals, acc).0,
        ),
    decreases arrivals.len(),
{
    let ev0 = seq![completed_event()];
    assert(ev0.skip(1) =~= Seq::<EventView>::empty());
    assert(carried_text(ev0.skip(1)) == Seq::<char>::empty());
    assert(ev0[0].content == Seq::<char>::empty());
    assert(carried_text(ev0) =~= Seq::<char>::empty());
    assert(acc + Seq::<char>::empty() =~= acc);
    if arrivals.len() > 0 && arrivals[0].elapsed_secs <= STREAM_TIMEOUT_SECS {
        match arrivals[0].read {
            ChunkRead::Content(c) => {
                lemma_relay_from_text(arrivals.skip(1), acc + c@);
                let rest = relay_from(arrivals.skip(1), acc + c@);
                let ev = seq![content_event(c@)] + rest.0;
                assert(ev.skip(1) =~= rest.0);
                assert(carried_text(ev) == c@ + carried_text(rest.0));
                assert(acc + c@ + carried_text(rest.0) =~= acc + (c@ + carried_text(rest.0)));
            },
            ChunkRead::Empty => {
                lemma_relay_from_text(arrivals.skip(1), acc);
            },
            ChunkRead::Failed(_) => {},
        }
    }
}

/// A call that succeeds returns exactly the text its events carried, in the
/// order they were emitted.
pub proof fn lemma_relay_text(arrivals: Seq<Arrival>)
    ensures
        relay_trace(arrivals).1 matches Outcome::Success(t) ==> t == carried_text(
            relay_trace(arrivals).0,
        ),
{
    lemma_relay_from_text(arrivals, Seq::empty());
    let r = relay_from(arrivals, Seq::empty());
    let ev = seq![started_event()] + r.0;
    assert(ev.skip(1) =~= r.0);
    assert(carried_text(ev) == started_event().content + carried_text(r.0));
    assert(started_event().content + carried_text(r.0) =~= carried_text(r.0));
    assert(Seq::<char>::empty() + carried_text(r.0) =~= carried_text(r.0));
}

/// When the first chunk arrives after the ceiling, the call emits only the
/// "started" event and the timeout event, and fails with the timeout.
pub proof fn lemma_late_first_chunk(arrivals: Seq<Arrival>)
    requires
        arrivals.len() > 0,
        arrivals[0].elapsed_secs > STREAM_TIMEOUT_SECS,
    ensures
        relay_trace(arrivals).0 == seq![started_event(), timeout_event()],
        relay_trace(arrivals).1 == Outcome::Failure(timeout_message()),
{
    assert(relay_trace(arrivals).0 =~= seq![started_event(), timeout_event()]);
}

/// A progress or status event.
pub fn status_event(status: &str, message: &str) -> (r: StreamChunk)
    ensures
        r@ == status_event_view(status@, message@),
{
    StreamChunk {
        content: String::new(),
        is_complete: false,
        error: None,
        status: Some(String::from_str(status)),
        message: Some(String::from_str(message)),
    }
}

/// An event carrying one text fragment.
pub fn chunk_event(content: &str) -> (r: StreamChunk)
    ensures
        r@ == content_event(content@),
{
    StreamChunk {
        content: String::from_str(content),
        is_complete: false,
        error: None,
        status: None,
        message: None,
    }
}

/// The terminal timeout event and the failure it ends the call with.
pub fn timeout_error() -> (r: (StreamChunk, InvokeResponse<String>))
    ensures
        r.0@ == timeout_event(),
        reports(r.1, Outcome::Failure(timeout_message())),
{
    let event = StreamChunk {
        content: String::new(),
        is_complete: true,
        error: Some(String::from_str("Streaming timeout after 5 minutes")),
        status: None,
        message: None,
    };
    (event, InvokeResponse::fail(String::from_str("Streaming timeout after 5 minutes")))
}

/// The terminal completion event and the fixed acknowledgement of a stream
/// that ended normally.
pub fn complete_streaming() -> (r: (StreamChunk, InvokeResponse<String>))
    ensures
        r.0@ == completed_event(),
        reports(r.1, Outcome::Success(completed_message())),
{
    let event = StreamChunk {
        content: String::new(),
        is_complete: true,
        error: None,
        status: Some(String::from_str("completed")),
        message: Some(String::from_str("Streaming completed successfully")),
    };
    (event, InvokeResponse::success(String::from_str("Streaming completed successfully")))
}

/// The state of one streaming call.
pub struct StreamSession {
    pub full_content: String,
    pub chunk_count: u64,
    pub state: RelayState,
}

impl StreamSession {
    /// Enters streaming: nothing accumulated yet, and the "started" event to
    /// emit first.
    pub fn start() -> (r: (StreamSession, StreamChunk))
        ensures
            r.0.state is Streaming,
            r.0.full_content@ == Seq::<char>::empty(),
            r.0.chunk_count == 0,
            r.1@ == started_event(),
    {
        let session = StreamSession {
            full_content: String::new(),
            chunk_count: 0,
            state: RelayState::Streaming,
        };
        (session, status_event("streaming_started", "Waiting for response..."))
    }

    /// Handles one read from the upstream stream: the event to emit, if any,
    /// and the call's result once it ends here.
    pub fn on_chunk(&mut self, elapsed_secs: u64, read: &ChunkRead) -> (r: (
        Option<StreamChunk>,
        Option<InvokeResponse<String>>,
    ))
        requires
            old(self).state is Streaming,
        ensures
            elapsed_secs > STREAM_TIMEOUT_SECS ==> {
                &&& r.0 matches Some(e) && e@ == timeout_event()
                &&& r.1 matches Some(o) && reports(o, Outcome::Failure(timeout_message()))
                &&& final(self).state is TimedOut
                &&& final(self).full_content == old(self).full_content
            },
            elapsed_secs <= STREAM_TIMEOUT_SECS ==> match *read {
                ChunkRead::Failed(m) => {
                    &&& r.0 is None
                    &&& r.1 matches Some(o) && reports(o, Outcome::Failure(stream_error_message(m@)))
                    &&& final(self).state is Failed
                    &&& final(self).full_content == old(self).full_content
                },
                ChunkRead::Content(c) => {
                    &&& r.0 matches Some(e) && e@ == content_event(c@)
                    &&& r.1 is None
                    &&& final(self).state is Streaming
                    &&& final(self).full_content@ == old(self).full_content@ + c@
                    &&& final(self).chunk_count == old(self).chunk_count.saturating_add(1)
                },
                ChunkRead::Empty => {
                    &&& r.0 is None
                    &&& r.1 is None
                    &&& final(self).state is Streaming
                    &&& final(self).full_content == old(self).full_content
                    &&& final(self).chunk_count == old(self).chunk_count.saturating_add(1)
                },
            },
    {
        if elapsed_secs > STREAM_TIMEOUT_SECS {
            self.state = RelayState::TimedOut;
            let (event, result) = timeout_error();
            return (Some(event), Some(result));
        }
        match read {
            ChunkRead::Failed(m) => {
                self.state = RelayState::Failed;
                let msg = String::from_str("Stream error: ").concat(m.as_str());
                (None, Some(InvokeResponse::fail(msg)))
            },
            ChunkRead::Content(c) => {
                self.chunk_count = self.chunk_count.saturating_add(1);
                self.full_content.append(c.as_str());
                (Some(chunk_event(c.as_str())), None)
            },
            ChunkRead::Empty => {
                self.chunk_count = self.chunk_count.saturating_add(1);
                (None, None)
            },
        }
    }

    /// Ends a stream that finished normally: the "completed" event, and
    /// success carrying the whole accumulated text.
    pub fn finish(&mut self) -> (r: (StreamChunk, InvokeResponse<String>))
        requires
            old(self).state is Streaming,
        ensures
            final(self).state is Completed,
            r.0@ == completed_event(),
            reports(r.1, Outcome::Success(old(self).full_content@)),
    {
        self.state = RelayState::Completed;
        let (event, _ack) = complete_streaming();
        (event, InvokeResponse::success(self.full_content.clone()))
    }
}

/// Runs a whole streaming call over the reads of an upstream stream that
/// ends normally after the last of them: every event in emission order, and
/// the call's result.
pub fn relay(arrivals: &Vec<Arrival>) -> (r: (Vec<StreamChunk>, InvokeResponse<String>))
    ensures
        events_view(r.0@) == relay_trace(arrivals@).0,
        reports(r.1, relay_trace(arrivals@).1),
{
    let (mut session, started) = StreamSession::start();
    let mut events: Vec<StreamChunk> = Vec::new();
    events.push(started);
    let ghost whole = relay_trace(arrivals@);
    let mut i: usize = 0;
    assert(arrivals@.skip(0) =~= arrivals@);
    assert(events_view(events@) =~= seq![started_event()]);
    while i < arrivals.len()
        invariant
            i <= arrivals@.len(),
            whole == relay_trace(arrivals@),
            session.state is Streaming,
            events_view(events@) + relay_from(arrivals@.skip(i as int), session.full_content@).0
                == whole.0,
            relay_from(arrivals@.skip(i as int), session.full_content@).1 == whole.1,
        decreases arrivals.len() - i,
    {
        let ghost rest = arrivals@.skip(i as int);
        let ghost acc = session.full_content@;
        let ghost before = events@;
        assert(rest[0] == arrivals@[i as int]);
        assert(rest.skip(1) =~= arrivals@.skip(i + 1));
        let (event, done) = session.on_chunk(arrivals[i].elapsed_secs, &arrivals[i].read);
        match event {
            Some(e) => {
                events.push(e);
            },
            None => {},
        }
        match done {
            Some(result) => {
                assert(events_view(events@) =~= events_view(before) + relay_from(rest, acc).0);
                return (events, result);
            },
            None => {},
        }
        i += 1;
        assert(events_view(events@) + relay_from(arrivals@.skip(i as int), session.full_content@).0
            =~= events_view(before) + relay_from(rest, acc).0);
    }
    let (last, result) = session.finish();
    let ghost before = events@;
    events.push(last);
    assert(events_view(events@) =~= events_view(before) + relay_from(arrivals@.skip(i as int), session.full_content@).0);
    (events, result)
}

} // verus!
