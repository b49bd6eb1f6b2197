use vstd::prelude::*;
use crate::registry::{Registry, after_cleanup};

verus! {

/// A chunk of decoded shell output for session `id`.
#[derive(Debug)]
pub struct PtyOutput {
    pub data: String,
    pub id: String,
}

/// A notification for the event sink, tagged with its session id.
#[derive(Debug)]
pub enum PtyEvent {
    /// The session is usable; writing may begin.
    Ready(String),
    /// A chunk of output, in the order it was read.
    Output(PtyOutput),
    /// The session's last event.
    Exit(String),
}

/// What the sink sees of an event: ids and texts as character sequences.
pub enum EventView {
    Ready(Seq<char>),
    /// Session id, then the text.
    Output(Seq<char>, Seq<char>),
    Exit(Seq<char>),
}

impl View for PtyEvent {
    type V = EventView;

    open spec fn view(&self) -> EventView {
        match self {
            PtyEvent::Ready(id) => EventView::Ready(id@),
            PtyEvent::Output(o) => EventView::Output(o.id@, o.data@),
            PtyEvent::Exit(id) => EventView::Exit(id@),
        }
    }
}

/// The result of one blocking read from the pty master.
#[derive(Debug)]
pub enum ReadOutcome {
    /// The bytes that were read; none at all means end of stream.
    Data(Vec<u8>),
    /// End of stream: the child exited or the pty was closed.
    Eof,
    /// The read failed, with the reason.
    Failed(String),
}

/// A read outcome as the model sees it.
pub enum ReadView {
    Data(Seq<u8>),
    Eof,
    Failed,
}

impl View for ReadOutcome {
    type V = ReadView;

    open spec fn view(&self) -> ReadView {
        match self {
            ReadOutcome::Data(b) => ReadView::Data(b@),
            ReadOutcome::Eof => ReadView::Eof,
            ReadOutcome::Failed(_) => ReadView::Failed,
        }
    }
}

/// The phases of a reader loop.
#[derive(PartialEq, Eq, Structural, Clone, Copy, Debug)]
pub enum ReaderPhase {
    /// Reading and forwarding output.
    Running,
    /// The stream ended and `exit` was handed out; the registry cleanup is due.
    Stopping,
    /// Cleanup done; nothing more happens.
    Stopped,
}

/// The state of a reader loop as the model sees it.
pub struct ReaderState {
    pub id: Seq<char>,
    pub generation: u64,
    pub phase: ReaderPhase,
    /// The text of the last output event, empty before the first.
    pub previous: Seq<char>,
}

/// The text that `String::from_utf8_lossy` makes of a run of bytes.
pub uninterp spec fn lossy_text(bytes: Seq<u8>) -> Seq<char>;

/// Relies on `String::from_utf8_lossy`: valid UTF-8 is decoded and each invalid
/// sequence becomes U+FFFD, so the text is a function of the bytes alone.
#[verifier::external_body]
fn decode_lossy(bytes: &Vec<u8>) -> (r: String)
    ensures
        r@ == lossy_text(bytes@),
{
    String::from_utf8_lossy(bytes.as_slice()).into_owned()
}

/// A reader loop's start: running, nothing emitted yet.
pub open spec fn initial_state(id: Seq<char>, generation: u64) -> ReaderState {
    ReaderState { id, generation, phase: ReaderPhase::Running, previous: Seq::empty() }
}

/// One decoded chunk: forwarded unless it repeats the previous emission.
pub open spec fn text_step(s: ReaderState, text: Seq<char>) -> (ReaderState, Option<EventView>) {
    if s.phase != ReaderPhase::Running || text == s.previous {
        (s, None)
    } else {
        (ReaderState { previous: text, ..s }, Some(EventView::Output(s.id, text)))
    }
}

/// Whether a read ends the stream: end of file, an empty read, or an error.
pub open spec fn is_terminal(r: ReadView) -> bool {
    match r {
        ReadView::Data(b) => b.len() == 0,
        _ => true,
    }
}

/// One read: data is decoded and passed to `text_step`; the end of the stream
/// moves a running loop to `Stopping` and hands out its `exit`.
pub open spec fn read_step(s: ReaderState, r: ReadView) -> (ReaderState, Option<EventView>) {
    if s.phase != ReaderPhase::Running {
        (s, None)
    } else if is_terminal(r) {
        (ReaderState { phase: ReaderPhase::Stopping, ..s }, Some(EventView::Exit(s.id)))
    } else {
        text_step(s, lossy_text(r->Data_0))
    }
}

/// The view of an optional event.
pub open spec fn event_view(o: Option<PtyEvent>) -> Option<EventView> {
    match o {
        Some(e) => Some(e@),
        None => None,
    }
}

pub open spec fn option_seq<A>(o: Option<A>) -> Seq<A> {
    match o {
        Some(a) => seq![a],
        None => Seq::empty(),
    }
}

/// The state after a run of reads.
pub open spec fn state_after(s: ReaderState, rs: Seq<ReadView>) -> ReaderState
    decreases rs.len(),
{
    if rs.len() == 0 {
        s
    } else {
        state_after(read_step(s, rs[0]).0, rs.drop_first())
    }
}

/// The events emitted over a run of reads, in order.
pub open spec fn emitted(s: ReaderState, rs: Seq<ReadView>) -> Seq<EventView>
    decreases rs.len(),
{
    if rs.len() == 0 {
        Seq::empty()
    } else {
        let (s1, e) = read_step(s, rs[0]);
        option_seq(e) + emitted(s1, rs.drop_first())
    }
}

/// The background task of one session, as a state machine: the host performs
/// each blocking read and hands the outcome in; the loop says what to emit.
pub struct ReaderLoop {
    id: String,
    generation: u64,
    phase: ReaderPhase,
    previous: String,
}

impl View for ReaderLoop {
    type V = ReaderState;

    closed spec fn view(&self) -> ReaderState {
        ReaderState {
            id: self.id@,
            generation: self.generation,
            phase: self.phase,
            previous: self.previous@,
        }
    }
}

impl ReaderLoop {
    /// The loop of the session `id` started under `generation`, with the
    /// `ready` event to emit before its first read.
    pub fn new(id: String, generation: u64) -> (r: (ReaderLoop, PtyEvent))
        ensures
            r.0@ == initial_state(id@, generation),
            r.1@ == EventView::Ready(id@),
    {
        let ready = PtyEvent::Ready(id.clone());
        (ReaderLoop { id, generation, phase: ReaderPhase::Running, previous: String::new() }, ready)
    }

    /// The session id this loop reads for.
    pub fn id(&self) -> (r: &String)
        ensures
            r@ == self@.id,
    {
        &self.id
    }

    /// The generation of the session this loop reads for.
    pub fn generation(&self) -> (r: u64)
        ensures
            r == self@.generation,
    {
        self.generation
    }

    /// Whether the loop still wants reads.
    pub fn is_running(&self) -> (r: bool)
        ensures
            r == (self@.phase == ReaderPhase::Running),
    {
        self.phase == ReaderPhase::Running
    }

    /// Takes one decoded chunk: an output event unless it repeats the last one.
    pub fn on_text(&mut self, text: String) -> (r: Option<PtyEvent>)
        ensures
            (final(self)@, event_view(r)) == text_step(old(self)@, text@),
    {
        if self.phase != ReaderPhase::Running || text == self.previous {
            return None;
        }
        self.previous = text.clone();
        Some(PtyEvent::Output(PtyOutput { data: text, id: self.id.clone() }))
    }

    /// Takes the outcome of one read and says what to emit, if anything.
    pub fn on_read(&mut self, read: ReadOutcome) -> (r: Option<PtyEvent>)
        ensures
            (final(self)@, event_view(r)) == read_step(old(self)@, read@),
    {
        if self.phase != ReaderPhase::Running {
            return None;
        }
        match read {
            ReadOutcome::Data(bytes) => {
                if bytes.len() > 0 {
                    let text = decode_lossy(&bytes);
                    return self.on_text(text);
                }
            },
            _ => {},
        }
        self.phase = ReaderPhase::Stopping;
        Some(PtyEvent::Exit(self.id.clone()))
    }

    /// After `exit` was emitted: removes the session from the registry if it is
    /// still this loop's session, and stops. Does nothing in any other phase.
    /// Returns whether an entry was removed.
    pub fn finish<H>(&mut self, registry: &mut Registry<H>) -> (r: bool)
        ensures
            old(self)@.phase == ReaderPhase::Stopping ==> {
                &&& final(self)@ == ReaderState { phase: ReaderPhase::Stopped, ..old(self)@ }
                &&& final(registry)@ == after_cleanup(
                    old(registry)@,
                    old(self)@.id,
                    old(self)@.generation,
                )
                &&& r == (old(registry)@.contains_key(old(self)@.id) && old(registry)@[old(
                    self,
                )@.id].0 == old(self)@.generation)
            },
            old(self)@.phase != ReaderPhase::Stopping ==> {
                &&& final(self)@ == old(self)@
                &&& final(registry)@ == old(registry)@
                &&& !r
            },
            final(registry).next_gen() == old(registry).next_gen(),
    {
        if self.phase != ReaderPhase::Stopping {
            return false;
        }
        let removed = registry.close_generation(self.id.as_str(), self.generation);
        self.phase = ReaderPhase::Stopped;
        removed
    }
}

} // verus!
