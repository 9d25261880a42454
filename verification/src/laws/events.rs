//! Laws of the plugins-events bridge.

use vstd::prelude::*;

use crate::hmr_bridge::{
    next_events_step, payload_of, EventLines, EventsEvent, EventsStep, HmrBridge,
};

verus! {

/// A queue with one more frame: behind the others, in the place of the oldest
/// of thirty-two.
pub open spec fn with_frame(frames: Seq<Seq<char>>, frame: Seq<char>) -> Seq<Seq<char>> {
    if frames.len() == 32 {
        frames.skip(1).push(frame)
    } else {
        frames.push(frame)
    }
}

proof fn lemma_queued(frames: Seq<Seq<char>>, frame: Seq<char>)
    ensures
        crate::hmr_bridge::queued(frames, frame) == with_frame(frames, frame),
{
    assert(frames.len() > 0 ==> frames.drop_first() =~= frames.skip(1));
}

/// What stands behind a data mark, between its outer white space, is the frame
/// whole; where that is nothing there is no frame.
pub proof fn law_payloads_are_whole(
    text: &str,
    left: Seq<char>,
    core: Seq<char>,
    right: Seq<char>,
    frame: Option<String>,
)
    requires
        call_ensures(payload_of, (text,), frame),
        text@ == left + core + right,
        forall|i: int| 0 <= i < left.len() ==> crate::text::is_white_space(#[trigger] left[i]),
        forall|i: int| 0 <= i < right.len() ==> crate::text::is_white_space(#[trigger] right[i]),
        core.len() > 0 ==> !crate::text::is_white_space(core[0])
            && !crate::text::is_white_space(core.last()),
    ensures
        core.len() > 0 ==> (frame matches Some(found) && found@ == core),
        core.len() == 0 ==> frame is None,
{
    crate::laws::text::lemma_trimmed(left, core, right);
}

proof fn lemma_unbroken(line: Seq<u8>, frames: Seq<Seq<char>>, chunk: Seq<u8>)
    requires
        !chunk.contains(10),
    ensures
        crate::hmr_bridge::fed(line, frames, chunk) == (line + chunk, frames),
    decreases chunk.len(),
{
    if chunk.len() == 0 {
        assert(line + chunk =~= line);
    } else {
        let shorter = chunk.drop_last();
        assert(!shorter.contains(10)) by {
            if shorter.contains(10) {
                let k = choose|k: int| 0 <= k < shorter.len() && shorter[k] == 10;
                assert(chunk[k] == 10);
            }
        }
        assert(chunk[chunk.len() - 1] != 10);
        lemma_unbroken(line, frames, shorter);
        assert((line + shorter).push(chunk.last()) =~= line + chunk);
    }
}

proof fn lemma_broken(line: Seq<u8>, frames: Seq<Seq<char>>, rest: Seq<u8>)
    requires
        !rest.contains(10),
    ensures
        crate::hmr_bridge::fed(line, frames, rest.push(10)) == (
            Seq::<u8>::empty(),
            match crate::hmr_bridge::line_frame(line + rest) {
                Some(frame) => crate::hmr_bridge::queued(frames, frame),
                None => frames,
            },
        ),
{
    lemma_unbroken(line, frames, rest);
    assert(rest.push(10).drop_last() =~= rest);
}

proof fn lemma_data_line(left: Seq<char>, core: Seq<char>, right: Seq<char>)
    requires
        forall|i: int| 0 <= i < left.len() ==> crate::text::is_white_space(#[trigger] left[i]),
        forall|i: int| 0 <= i < right.len() ==> crate::text::is_white_space(#[trigger] right[i]),
        core.len() > 0 ==> !crate::text::is_white_space(core[0])
            && !crate::text::is_white_space(core.last()),
    ensures
        crate::hmr_bridge::line_frame(
            vstd::utf8::encode_utf8("data: "@ + (left + core + right)),
        ) == (if core.len() > 0 {
            Some(core)
        } else {
            None
        }),
{
    let payload = left + core + right;
    reveal_strlit("data: ");
    let mark = "data: "@;
    assert(vstd::utf8::is_ascii_chars(mark));
    vstd::utf8::is_ascii_chars_encode_utf8(mark);
    let bytes = vstd::utf8::encode_utf8(mark);
    assert(mark[0] as u8 == bytes[0] && mark[1] as u8 == bytes[1] && mark[2] as u8 == bytes[2]
        && mark[3] as u8 == bytes[3] && mark[4] as u8 == bytes[4] && mark[5] as u8 == bytes[5]);
    assert(bytes =~= crate::hmr_bridge::data_mark());
    crate::laws::text::lemma_encode_concat(mark, payload);
    let line = vstd::utf8::encode_utf8(mark + payload);
    assert(line.take(6) =~= bytes);
    assert(line.skip(6) =~= vstd::utf8::encode_utf8(payload));
    vstd::utf8::encode_utf8_valid_utf8(payload);
    vstd::utf8::encode_utf8_decode_utf8(payload);
    crate::laws::text::lemma_trimmed(left, core, right);
}

/// A data line queues exactly one frame, its text between the outer white space
/// and all of it, or none where that is nothing. It does not matter which part
/// of the line had arrived before.
pub proof fn law_data_lines_queue_their_text(left: Seq<char>, core: Seq<char>, right: Seq<char>)
    requires
        forall|i: int| 0 <= i < left.len() ==> crate::text::is_white_space(#[trigger] left[i]),
        forall|i: int| 0 <= i < right.len() ==> crate::text::is_white_space(#[trigger] right[i]),
        core.len() > 0 ==> !crate::text::is_white_space(core[0])
            && !crate::text::is_white_space(core.last()),
        !left.contains('\n'),
        !core.contains('\n'),
        !right.contains('\n'),
    ensures
        forall|lines: &mut EventLines, chunk: &[u8], bridge: &mut HmrBridge|
            #[trigger] call_ensures(EventLines::feed, (lines, chunk, bridge), ()) && chunk@.len()
                > 0 && (*lines)@ + chunk@ == vstd::utf8::encode_utf8(
                "data: "@ + (left + core + right),
            ).push(10) ==> {
                &&& final(lines)@.len() == 0
                &&& final(bridge)@ == (if core.len() > 0 {
                    with_frame((*bridge)@, core)
                } else {
                    (*bridge)@
                })
            },
{
    lemma_data_line(left, core, right);
    let text = "data: "@ + (left + core + right);
    let whole = vstd::utf8::encode_utf8(text);
    assert(!text.contains('\n')) by {
        reveal_strlit("data: ");
        if text.contains('\n') {
            let k = choose|k: int| 0 <= k < text.len() && text[k] == '\n';
            let j = k - 6;
            if k < 6 {
                assert("data: "@[k] == '\n');
            } else if j < left.len() {
                assert(left[j] == '\n');
            } else if j < left.len() + core.len() {
                assert(core[j - left.len()] == '\n');
            } else {
                assert(right[j - left.len() - core.len()] == '\n');
            }
        }
    }
    crate::laws::text::lemma_encode_line_feed(text);
    assert forall|lines: &mut EventLines, chunk: &[u8], bridge: &mut HmrBridge|
        #[trigger] call_ensures(EventLines::feed, (lines, chunk, bridge), ()) && chunk@.len() > 0
            && (*lines)@ + chunk@ == whole.push(10) implies {
        &&& final(lines)@.len() == 0
        &&& final(bridge)@ == (if core.len() > 0 {
            with_frame((*bridge)@, core)
        } else {
            (*bridge)@
        })
    } by {
        let rest = chunk@.drop_last();
        let joined = (*lines)@ + chunk@;
        assert(joined.last() == 10);
        assert(chunk@ =~= rest.push(10));
        assert(joined.drop_last() =~= (*lines)@ + rest);
        assert(joined.drop_last() =~= whole);
        assert(!rest.contains(10)) by {
            if rest.contains(10) {
                let k = choose|k: int| 0 <= k < rest.len() && rest[k] == 10;
                assert(whole[(*lines)@.len() + k] == 10);
            }
        }
        lemma_broken((*lines)@, (*bridge)@, rest);
        lemma_queued((*bridge)@, core);
    }
}

/// A line that does not begin with the data mark queues nothing.
pub proof fn law_other_lines_queue_nothing(line: Seq<u8>)
    requires
        !line.contains(10),
        line.len() < 6 || line.take(6) != vstd::utf8::encode_utf8("data: "@),
    ensures
        forall|lines: &mut EventLines, chunk: &[u8], bridge: &mut HmrBridge|
            #[trigger] call_ensures(EventLines::feed, (lines, chunk, bridge), ()) && chunk@.len()
                > 0 && (*lines)@ + chunk@ == line.push(10) ==> final(lines)@.len() == 0 && final(bridge)@ == (*bridge)@,
{
    reveal_strlit("data: ");
    let mark = "data: "@;
    assert(vstd::utf8::is_ascii_chars(mark));
    vstd::utf8::is_ascii_chars_encode_utf8(mark);
    let bytes = vstd::utf8::encode_utf8(mark);
    assert(mark[0] as u8 == bytes[0] && mark[1] as u8 == bytes[1] && mark[2] as u8 == bytes[2]
        && mark[3] as u8 == bytes[3] && mark[4] as u8 == bytes[4] && mark[5] as u8 == bytes[5]);
    assert(bytes =~= crate::hmr_bridge::data_mark());
    assert forall|lines: &mut EventLines, chunk: &[u8], bridge: &mut HmrBridge|
        #[trigger] call_ensures(EventLines::feed, (lines, chunk, bridge), ()) && chunk@.len() > 0
            && (*lines)@ + chunk@ == line.push(10) implies final(lines)@.len() == 0 && final(bridge)@ == (*bridge)@ by {
        let rest = chunk@.drop_last();
        let joined = (*lines)@ + chunk@;
        assert(joined.last() == 10);
        assert(chunk@ =~= rest.push(10));
        assert(joined.drop_last() =~= (*lines)@ + rest);
        assert(joined.drop_last() =~= line);
        assert(!rest.contains(10)) by {
            if rest.contains(10) {
                let k = choose|k: int| 0 <= k < rest.len() && rest[k] == 10;
                assert(line[(*lines)@.len() + k] == 10);
            }
        }
        lemma_broken((*lines)@, (*bridge)@, rest);
    }
}

/// Bytes without a line feed wait behind the unfinished line.
pub proof fn law_unfinished_lines_wait()
    ensures
        forall|lines: &mut EventLines, chunk: &[u8], bridge: &mut HmrBridge|
            #[trigger] call_ensures(EventLines::feed, (lines, chunk, bridge), ())
                && !chunk@.contains(10) ==> final(lines)@ == (*lines)@ + chunk@ && final(bridge)@
                == (*bridge)@,
        forall|lines: EventLines| #[trigger]
            call_ensures(EventLines::new, (), lines) ==> lines@.len() == 0,
{
    assert forall|lines: &mut EventLines, chunk: &[u8], bridge: &mut HmrBridge|
        #[trigger] call_ensures(EventLines::feed, (lines, chunk, bridge), ()) && !chunk@.contains(
            10,
        ) implies final(lines)@ == (*lines)@ + chunk@ && final(bridge)@ == (*bridge)@ by {
        lemma_unbroken((*lines)@, (*bridge)@, chunk@);
    }
}

/// One chunk and then another leave the same line and the same queue as both at
/// once.
pub proof fn law_cuts_do_not_matter(first: &[u8], second: &[u8], both: &[u8])
    requires
        both@ == first@ + second@,
    ensures
        forall|
            a: &mut EventLines,
            p: &mut HmrBridge,
            b: &mut EventLines,
            q: &mut HmrBridge,
            c: &mut EventLines,
            r: &mut HmrBridge,
        |
            #[trigger] call_ensures(EventLines::feed, (a, first, p), ())
                && #[trigger] call_ensures(EventLines::feed, (b, second, q), ())
                && #[trigger] call_ensures(EventLines::feed, (c, both, r), ()) && (*b)@ == final(a)@ && (*q)@ == final(p)@ && (*c)@ == (*a)@ && (*r)@ == (*p)@ ==> final(c)@ == final(b)@
                && final(r)@ == final(q)@,
{
    assert forall|
        a: &mut EventLines,
        p: &mut HmrBridge,
        b: &mut EventLines,
        q: &mut HmrBridge,
        c: &mut EventLines,
        r: &mut HmrBridge,
    |
        #[trigger] call_ensures(EventLines::feed, (a, first, p), ()) && #[trigger] call_ensures(
            EventLines::feed,
            (b, second, q),
            (),
        ) && #[trigger] call_ensures(EventLines::feed, (c, both, r), ()) && (*b)@ == final(a)@
            && (*q)@ == final(p)@ && (*c)@ == (*a)@ && (*r)@ == (*p)@ implies final(c)@ == final(b)@
        && final(r)@ == final(q)@ by {
        crate::hmr_bridge::law_chunks_compose((*a)@, (*p)@, first@, second@);
    }
}

/// Frames are queued behind each other, at most thirty-two of them, and come out
/// in that order, each once.
pub proof fn law_frames_come_out_in_order(fresh: HmrBridge)
    requires
        call_ensures(HmrBridge::new, (), fresh),
    ensures
        fresh@.len() == 0,
        forall|bridge: &mut HmrBridge, frame: String| #[trigger]
            call_ensures(HmrBridge::push, (bridge, frame), ()) ==> final(bridge)@ == with_frame(
                (*bridge)@,
                frame@,
            ),
        forall|bridge: &mut HmrBridge, taken: Vec<String>| #[trigger]
            call_ensures(HmrBridge::drain, (bridge,), taken) ==> {
                &&& final(bridge)@.len() == 0
                &&& taken@.len() == (*bridge)@.len()
                &&& forall|i: int|
                    0 <= i < taken@.len() ==> #[trigger] taken@[i]@ == (*bridge)@[i]
            },
{
    assert forall|bridge: &mut HmrBridge, frame: String| #[trigger]
        call_ensures(HmrBridge::push, (bridge, frame), ()) implies final(bridge)@ == with_frame(
        (*bridge)@,
        frame@,
    ) by {
        lemma_queued((*bridge)@, frame@);
    }
    assert forall|bridge: &mut HmrBridge, taken: Vec<String>| #[trigger]
        call_ensures(HmrBridge::drain, (bridge,), taken) implies {
        &&& final(bridge)@.len() == 0
        &&& taken@.len() == (*bridge)@.len()
        &&& forall|i: int| 0 <= i < taken@.len() ==> #[trigger] taken@[i]@ == (*bridge)@[i]
    } by {
        let texts = taken@.map_values(|frame: String| frame@);
        assert(texts.len() == taken@.len());
        assert forall|i: int| 0 <= i < taken@.len() implies #[trigger] taken@[i]@ == (*bridge)@[i] by {
            assert(texts[i] == taken@[i]@);
        }
    }
}

/// The bridge asks the Host for its events with the Host's own cookie, reads
/// them where the Host agrees, and otherwise tries again a second later; until
/// the Host is ready it looks twice a second.
pub proof fn law_the_stream_is_asked_for(
    connection: &Option<(String, String)>,
    status: u16,
    idle: EventsStep,
    answered: EventsStep,
    failed: EventsStep,
    ended: EventsStep,
)
    requires
        call_ensures(next_events_step, (connection, EventsEvent::Idle), idle),
        call_ensures(next_events_step, (connection, EventsEvent::Answered { status }), answered),
        call_ensures(next_events_step, (connection, EventsEvent::Failed), failed),
        call_ensures(next_events_step, (connection, EventsEvent::Ended), ended),
    ensures
        connection is None ==> idle == (EventsStep::Wait { milliseconds: 500 }),
        connection matches Some((origin, held)) ==> {
            &&& idle matches EventsStep::Connect { url, accept, cookie }
            &&& url@ == origin@ + "/plugins/events"@
            &&& accept@ == "text/event-stream"@
            &&& cookie@ == held@
        },
        200 <= status < 300 ==> answered is Read,
        !(200 <= status < 300) ==> answered == (EventsStep::Wait { milliseconds: 1000 }),
        failed == (EventsStep::Wait { milliseconds: 1000 }),
        ended == (EventsStep::Wait { milliseconds: 1000 }),
{
}

} // verus!
