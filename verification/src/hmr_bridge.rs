//! Host plugins-events bridge.
//!
//! WKWebView custom protocols answer with one complete body, so the page
//! cannot receive the Host's `/plugins/events` Server-Sent Events stream
//! through the `dsh-app` forwarder. The shell holds that stream instead and
//! queues its frames; the page's initialization script replaces the
//! `EventSource` for this endpoint with a polling command over the boot
//! bridge. Graph frames are full snapshots, so polling loses nothing.

use std::collections::VecDeque;

use vstd::prelude::*;

use crate::text::{text_of_bytes, trim};

verus! {

/// Frames kept for one poll window; the graph frame is a full snapshot, so
/// dropping the oldest frames under burst only skips intermediate states.
pub const MAX_QUEUED_FRAMES: usize = 32;

/// How long the bridge waits before it asks again whether the Host is ready.
pub const NOT_READY_DELAY_MS: u64 = 500;

/// How long the bridge waits after an attempt, whatever came of it.
pub const RECONNECT_DELAY_MS: u64 = 1000;

/// Polling queue over the shell-side Server-Sent Events connection.
pub struct HmrBridge {
    frames: VecDeque<String>,
}

/// The bytes of the stream since its last line feed.
pub struct EventLines {
    line: Vec<u8>,
}

/// Where the bridge is in an attempt to hold the stream.
pub enum EventsEvent {
    /// At its start, or behind a sleep.
    Idle,
    /// The Host answered the request with this status.
    Answered { status: u16 },
    /// The request failed.
    Failed,
    /// The stream ended, or reading it failed.
    Ended,
}

/// What the bridge does next.
pub enum EventsStep {
    /// Sleep for so long.
    Wait { milliseconds: u64 },
    /// Request the stream with these `accept` and `cookie` headers.
    Connect { url: String, accept: String, cookie: String },
    /// Feed what arrives to a new [`EventLines`].
    Read,
}

/// A queue with one more frame. A full queue first drops its oldest.
pub open spec fn queued(frames: Seq<Seq<char>>, frame: Seq<char>) -> Seq<Seq<char>> {
    if frames.len() == MAX_QUEUED_FRAMES {
        frames.drop_first().push(frame)
    } else {
        frames.push(frame)
    }
}

/// The newest frames, as many as a queue holds.
pub open spec fn newest(frames: Seq<Seq<char>>) -> Seq<Seq<char>> {
    if frames.len() <= MAX_QUEUED_FRAMES {
        frames
    } else {
        frames.skip(frames.len() - MAX_QUEUED_FRAMES)
    }
}

/// The bytes of `data: `, with which a line that carries a frame begins.
pub open spec fn data_mark() -> Seq<u8> {
    seq![100, 97, 116, 97, 58, 32]
}

/// The frame in the text behind a data mark: none where it is blank.
pub open spec fn frame_in(text: Seq<char>) -> Option<Seq<char>> {
    let frame = crate::text::trimmed(text);
    if frame.len() > 0 {
        Some(frame)
    } else {
        None
    }
}

/// The frame that a line of the stream carries. Comment and blank lines carry
/// none.
pub open spec fn line_frame(line: Seq<u8>) -> Option<Seq<char>> {
    if line.len() >= 6 && line.take(6) == data_mark() {
        frame_in(crate::text::decoded(line.skip(6)))
    } else {
        None
    }
}

/// The unfinished line and the queue after the bytes of `chunk` arrived.
pub open spec fn fed(line: Seq<u8>, frames: Seq<Seq<char>>, chunk: Seq<u8>) -> (
    Seq<u8>,
    Seq<Seq<char>>,
)
    decreases chunk.len(),
{
    if chunk.len() == 0 {
        (line, frames)
    } else {
        let (unfinished, queue) = fed(line, frames, chunk.drop_last());
        if chunk.last() == 10 {
            (
                seq![],
                match line_frame(unfinished) {
                    Some(frame) => queued(queue, frame),
                    None => queue,
                },
            )
        } else {
            (unfinished.push(chunk.last()), queue)
        }
    }
}

/// Every frame that the bytes of `chunk` complete, behind `line`, in order.
pub open spec fn completed(line: Seq<u8>, chunk: Seq<u8>) -> Seq<Seq<char>>
    decreases chunk.len(),
{
    if chunk.len() == 0 {
        seq![]
    } else {
        let earlier = completed(line, chunk.drop_last());
        if chunk.last() == 10 {
            match line_frame(fed(line, seq![], chunk.drop_last()).0) {
                Some(frame) => earlier.push(frame),
                None => earlier,
            }
        } else {
            earlier
        }
    }
}

impl View for HmrBridge {
    type V = Seq<Seq<char>>;

    closed spec fn view(&self) -> Seq<Seq<char>> {
        self.frames@.map_values(|frame: String| frame@)
    }
}

impl View for EventLines {
    type V = Seq<u8>;

    closed spec fn view(&self) -> Seq<u8> {
        self.line@
    }
}

impl HmrBridge {
    /// A queue never holds more frames than one poll window.
    pub open spec fn wf(self) -> bool {
        self@.len() <= MAX_QUEUED_FRAMES
    }

    /// An empty queue.
    pub fn new() -> (bridge: Self)
        ensures
            bridge@ == Seq::<Seq<char>>::empty(),
            bridge.wf(),
    {
        let bridge = HmrBridge { frames: VecDeque::new() };
        assert(bridge@ =~= Seq::<Seq<char>>::empty());
        bridge
    }

    /// Take every queued frame in arrival order.
    pub fn drain(&mut self) -> (taken: Vec<String>)
        ensures
            taken@.map_values(|frame: String| frame@) == old(self)@,
            final(self)@ == Seq::<Seq<char>>::empty(),
            final(self).wf(),
    {
        let ghost frames = self.frames@;
        let mut taken: Vec<String> = Vec::new();
        while self.frames.len() > 0
            invariant
                taken@ + self.frames@ == frames,
            decreases self.frames.len(),
        {
            match self.frames.pop_front() {
                Some(frame) => {
                    taken.push(frame);
                    assert(taken@ + self.frames@ =~= frames);
                },
                None => {},
            }
        }
        assert(taken@ =~= frames);
        assert(self@ =~= Seq::<Seq<char>>::empty());
        taken
    }

    /// Queue one frame, in the place of the oldest where the queue is full.
    pub fn push(&mut self, frame: String)
        ensures
            final(self)@ == queued(old(self)@, frame@),
            old(self).wf() ==> final(self).wf(),
    {
        if self.frames.len() == MAX_QUEUED_FRAMES {
            let _oldest = self.frames.pop_front();
        }
        self.frames.push_back(frame);
        assert(self@ =~= queued(old(self)@, frame@));
    }
}

/// The frame in the text behind a data mark: none where it is blank.
pub fn payload_of(text: &str) -> (frame: Option<String>)
    ensures
        frame is Some <==> frame_in(text@) is Some,
        frame matches Some(found) ==> frame_in(text@) == Some(found@),
{
    let frame = trim(text);
    if frame.as_str().is_empty() {
        None
    } else {
        Some(frame)
    }
}

impl EventLines {
    /// No bytes yet: the start of a stream.
    pub fn new() -> (lines: Self)
        ensures
            lines@ == Seq::<u8>::empty(),
    {
        EventLines { line: Vec::new() }
    }

    /// The frame that the finished line carries.
    fn finished(&self) -> (frame: Option<String>)
        ensures
            frame is Some <==> line_frame(self@) is Some,
            frame matches Some(found) ==> line_frame(self@) == Some(found@),
    {
        let line = &self.line;
        if line.len() < 6 {
            return None;
        }
        if line[0] == 100 && line[1] == 97 && line[2] == 116 && line[3] == 97 && line[4] == 58
            && line[5] == 32 {
            assert(self@.take(6) =~= data_mark());
            let rest = vstd::slice::slice_subrange(line.as_slice(), 6, line.len());
            assert(rest@ =~= self@.skip(6));
            payload_of(text_of_bytes(rest).as_str())
        } else {
            proof {
                if self@.take(6) == data_mark() {
                    let start = self@.take(6);
                    assert(start[0] == 100 && start[1] == 97 && start[2] == 116 && start[3] == 97
                        && start[4] == 58 && start[5] == 32);
                }
            }
            None
        }
    }

    /// Take the bytes of one chunk and queue the frames of the lines that it
    /// completes.
    pub fn feed(&mut self, chunk: &[u8], bridge: &mut HmrBridge)
        ensures
            (final(self)@, final(bridge)@) == fed(old(self)@, old(bridge)@, chunk@),
            old(bridge).wf() ==> final(bridge).wf(),
    {
        let mut at: usize = 0;
        assert(chunk@.take(0) =~= Seq::<u8>::empty());
        while at < chunk.len()
            invariant
                at <= chunk.len(),
                (self@, bridge@) == fed(old(self)@, old(bridge)@, chunk@.take(at as int)),
                old(bridge).wf() ==> bridge.wf(),
            decreases chunk.len() - at,
        {
            proof {
                let longer = chunk@.take(at + 1);
                assert(longer.drop_last() =~= chunk@.take(at as int));
                assert(longer.last() == chunk@[at as int]);
            }
            let byte: u8 = chunk[at];
            if byte == 10 {
                if let Some(frame) = self.finished() {
                    bridge.push(frame);
                }
                self.line.clear();
                assert(self@ =~= Seq::<u8>::empty());
            } else {
                self.line.push(byte);
            }
            at += 1;
        }
        assert(chunk@.take(chunk@.len() as int) =~= chunk@);
    }
}

/// Whether a status tells of success.
pub open spec fn succeeded(status: u16) -> bool {
    200 <= status < 300
}

/// `step` is what the bridge does on `event`, with what is known of the Host
/// then.
pub open spec fn follows(
    connection: Option<(String, String)>,
    event: EventsEvent,
    step: EventsStep,
) -> bool {
    match event {
        EventsEvent::Idle => match connection {
            Some((origin, held)) => {
                &&& step matches EventsStep::Connect { url, accept, cookie }
                &&& url@ == origin@ + "/plugins/events"@
                &&& accept@ == "text/event-stream"@
                &&& cookie@ == held@
            },
            None => step == (EventsStep::Wait { milliseconds: NOT_READY_DELAY_MS }),
        },
        EventsEvent::Answered { status } if succeeded(status) => step is Read,
        _ => step == (EventsStep::Wait { milliseconds: RECONNECT_DELAY_MS }),
    }
}

/// What the bridge does next: await Host readiness, then keep one Server-Sent
/// Events connection to the Host open, reconnecting after Host restarts.
///
/// The Host origin and cookie are asked for on every attempt, so a restarted
/// Host with a fresh cookie is picked up without shell action.
pub fn next_events_step(connection: &Option<(String, String)>, event: EventsEvent) -> (step:
    EventsStep)
    ensures
        follows(*connection, event, step),
{
    match event {
        EventsEvent::Idle => match connection {
            Some((origin, held)) => {
                let mut url = origin.clone();
                url.append("/plugins/events");
                EventsStep::Connect {
                    url,
                    accept: "text/event-stream".to_owned(),
                    cookie: held.clone(),
                }
            },
            None => EventsStep::Wait { milliseconds: NOT_READY_DELAY_MS },
        },
        EventsEvent::Answered { status } => {
            if 200 <= status && status < 300 {
                EventsStep::Read
            } else {
                EventsStep::Wait { milliseconds: RECONNECT_DELAY_MS }
            }
        },
        _ => EventsStep::Wait { milliseconds: RECONNECT_DELAY_MS },
    }
}

/// It does not matter how the stream is cut into chunks: one chunk and then
/// another leave the same line and the same queue as both at once.
pub proof fn law_chunks_compose(
    line: Seq<u8>,
    frames: Seq<Seq<char>>,
    first: Seq<u8>,
    second: Seq<u8>,
)
    ensures
        fed(line, frames, first + second) == fed(
            fed(line, frames, first).0,
            fed(line, frames, first).1,
            second,
        ),
    decreases second.len(),
{
    if second.len() == 0 {
        assert(first + second =~= first);
    } else {
        law_chunks_compose(line, frames, first, second.drop_last());
        assert((first + second).drop_last() =~= first + second.drop_last());
        assert((first + second).last() == second.last());
    }
}

/// The unfinished line does not depend on the queue.
proof fn lemma_line_alone(line: Seq<u8>, frames: Seq<Seq<char>>, chunk: Seq<u8>)
    ensures
        fed(line, frames, chunk).0 == fed(line, seq![], chunk).0,
    decreases chunk.len(),
{
    if chunk.len() > 0 {
        lemma_line_alone(line, frames, chunk.drop_last());
    }
}

/// A bounded queue always holds the newest of all frames that ever arrived, in
/// arrival order: only intermediate ones are skipped.
pub proof fn law_newest_frames_stay(line: Seq<u8>, frames: Seq<Seq<char>>, chunk: Seq<u8>)
    requires
        frames.len() <= MAX_QUEUED_FRAMES,
    ensures
        fed(line, frames, chunk).1 == newest(frames + completed(line, chunk)),
    decreases chunk.len(),
{
    if chunk.len() == 0 {
        assert(frames + completed(line, chunk) =~= frames);
    } else {
        let shorter = chunk.drop_last();
        law_newest_frames_stay(line, frames, shorter);
        lemma_line_alone(line, frames, shorter);
        let earlier = frames + completed(line, shorter);
        if chunk.last() == 10 {
            if let Some(frame) = line_frame(fed(line, frames, shorter).0) {
                assert(frames + completed(line, chunk) =~= earlier.push(frame));
                assert(queued(newest(earlier), frame) =~= newest(earlier.push(frame)));
            }
        }
    }
}

} // verus!
