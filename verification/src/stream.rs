//! What a whole byte stream decodes to, however it is cut into chunks.
//!
//! A connection calls the decoder again and again on a buffer to which the
//! transport appends. [`run`] is the outcome of those calls up to the point
//! where the buffer gives no more, and [`drain`] makes them; [`feed`] is one
//! arrival of bytes, and [`feed_all`] a series of them. The laws at the end
//! of the file say that the cuts do not matter, and what the two control
//! sequences that edit the line buffer do.

use crate::buffer::buffered;
use crate::telnet::classify;
use crate::telnet::decode_spec;
use crate::telnet::erase_last;
use crate::telnet::lemma_step_used;
use crate::telnet::parse_iac;
use crate::telnet::step;
use crate::telnet::DecodeError;
use crate::telnet::Item;
use crate::telnet::ItemView;
use crate::telnet::Step;
use crate::telnet::TelnetCodec;
use crate::telnet::IAC;
use crate::telnet::LINE_FEED;
use tokio_util::bytes::BytesMut;
use vstd::prelude::*;

verus! {

/// The second byte of the control sequence that erases one character.
pub const ERASE_CHARACTER: u8 = 247;

/// A connection's decoding so far: the commands it gave, the unfinished
/// line, the bytes not yet taken, and the error that ended it, if one did.
/// An ended session keeps its commands and nothing else.
pub struct Session {
    pub items: Seq<ItemView>,
    pub line: Seq<u8>,
    pub rest: Seq<u8>,
    pub failed: Option<DecodeError>,
}

/// The session of a connection that has sent nothing yet.
pub open spec fn fresh() -> Session {
    Session { items: Seq::empty(), line: Seq::empty(), rest: Seq::empty(), failed: None }
}

/// `later`, with `item` put before its commands.
pub open spec fn after_item(item: ItemView, later: Session) -> Session {
    Session { items: seq![item] + later.items, ..later }
}

/// The decoder called on line buffer `line` and input `input` until it
/// gives no further command.
pub open spec fn run(line: Seq<u8>, input: Seq<u8>) -> Session
    decreases input.len(),
{
    let s = step(line, input);
    match s.kind {
        Step::Wait => Session { items: Seq::empty(), line, rest: input, failed: None },
        Step::Fail(command) => Session {
            items: Seq::empty(),
            line: Seq::empty(),
            rest: Seq::empty(),
            failed: Some(DecodeError { command }),
        },
        Step::Emit(item) => after_item(item, run(s.line, input.skip(s.used as int))),
        Step::Silent => run(s.line, input.skip(s.used as int)),
    }
}

/// The session `s` after `chunk` has arrived: the chunk joins the bytes not
/// yet taken, and the decoder runs on. Nothing arrives at an ended session.
pub open spec fn feed(s: Session, chunk: Seq<u8>) -> Session {
    if s.failed is Some {
        s
    } else {
        let r = run(s.line, s.rest + chunk);
        Session { items: s.items + r.items, line: r.line, rest: r.rest, failed: r.failed }
    }
}

/// The session `s` after the chunks have arrived one by one, first to last.
pub open spec fn feed_all(s: Session, chunks: Seq<Seq<u8>>) -> Session
    decreases chunks.len(),
{
    if chunks.len() == 0 {
        s
    } else {
        feed(feed_all(s, chunks.drop_last()), chunks.last())
    }
}

/// The chunks joined into one, first to last.
pub open spec fn joined(chunks: Seq<Seq<u8>>) -> Seq<u8>
    decreases chunks.len(),
{
    if chunks.len() == 0 {
        Seq::empty()
    } else {
        joined(chunks.drop_last()) + chunks.last()
    }
}

/// The line buffer and the unread bytes where the run on `line` and `input`
/// stops: where the input gives no more for now, or in front of the control
/// sequence that cannot be read.
pub open spec fn stopped(line: Seq<u8>, input: Seq<u8>) -> (Seq<u8>, Seq<u8>)
    decreases input.len(),
{
    let s = step(line, input);
    match s.kind {
        Step::Wait => (line, input),
        Step::Fail(_) => (line, input),
        _ => stopped(s.line, input.skip(s.used as int)),
    }
}

/// Where a run stops: a call of the decoder that gives a command leaves the
/// run to stop where the run on what the call left stops, and a call that
/// gives none leaves the decoder and the input where the run stops.
pub proof fn lemma_stopped_unfolds_by_decode(line: Seq<u8>, input: Seq<u8>)
    ensures
        stopped(line, input) == (match decode_spec(line, input).result {
            Ok(Some(_)) => stopped(decode_spec(line, input).line, decode_spec(line, input).rest),
            _ => (decode_spec(line, input).line, decode_spec(line, input).rest),
        }),
    decreases input.len(),
{
    let s = step(line, input);
    lemma_step_used(line, input);
    if s.kind is Silent {
        lemma_stopped_unfolds_by_decode(s.line, input.skip(s.used as int));
    }
}

/// A run that no error ends leaves the line buffer and the unread bytes
/// where it stops, waiting for input; a run that an error ends stops in
/// front of the control sequence whose command is unknown.
pub proof fn lemma_run_stops(line: Seq<u8>, input: Seq<u8>)
    ensures
        match run(line, input).failed {
            None => {
                &&& run(line, input).line == stopped(line, input).0
                &&& run(line, input).rest == stopped(line, input).1
                &&& step(stopped(line, input).0, stopped(line, input).1).kind is Wait
            },
            Some(e) => step(stopped(line, input).0, stopped(line, input).1).kind == Step::Fail(
                e.command,
            ),
        },
    decreases input.len(),
{
    let s = step(line, input);
    lemma_step_used(line, input);
    if s.kind is Silent || s.kind is Emit {
        lemma_run_stops(s.line, input.skip(s.used as int));
    }
}

/// The commands of a list, each by its view, in order.
pub open spec fn item_views(items: Seq<Item>) -> Seq<ItemView> {
    items.map_values(|item: Item| item@)
}

/// A call of the decoder that gives a command has taken at least one byte.
pub proof fn lemma_command_takes_input(line: Seq<u8>, input: Seq<u8>)
    requires
        decode_spec(line, input).result matches Ok(Some(_)),
    ensures
        decode_spec(line, input).rest.len() < input.len(),
    decreases input.len(),
{
    let s = step(line, input);
    lemma_step_used(line, input);
    if s.kind is Silent {
        lemma_command_takes_input(s.line, input.skip(s.used as int));
    }
}

/// Calls the decoder on `src` until it gives no further command, and
/// returns the commands in order, with the error if one ended the run.
/// Without an error, the unfinished line is in the decoder and an
/// incomplete control sequence is left in `src`. With an error, the decoder
/// holds the line as it was read up to the unknown control sequence, which
/// is left at the head of `src` with all that follows it.
pub fn drain(codec: &mut TelnetCodec, src: &mut BytesMut) -> (res: (Vec<Item>, Option<DecodeError>))
    ensures
        item_views(res.0@) == run(old(codec)@, buffered(*old(src))).items,
        res.1 == run(old(codec)@, buffered(*old(src))).failed,
        res.1 is None ==> final(codec)@ == run(old(codec)@, buffered(*old(src))).line,
        res.1 is None ==> buffered(*final(src)) == run(old(codec)@, buffered(*old(src))).rest,
        final(codec)@ == stopped(old(codec)@, buffered(*old(src))).0,
        buffered(*final(src)) == stopped(old(codec)@, buffered(*old(src))).1,
{
    let ghost whole = run(codec@, buffered(*src));
    let mut items: Vec<Item> = Vec::new();
    assert(item_views(items@) + whole.items =~= whole.items);
    loop
        invariant
            whole == run(old(codec)@, buffered(*old(src))),
            whole.items == item_views(items@) + run(codec@, buffered(*src)).items,
            whole.failed == run(codec@, buffered(*src)).failed,
            whole.failed is None ==> whole.line == run(codec@, buffered(*src)).line,
            whole.failed is None ==> whole.rest == run(codec@, buffered(*src)).rest,
            stopped(codec@, buffered(*src)) == stopped(old(codec)@, buffered(*old(src))),
        decreases buffered(*src).len(),
    {
        let ghost line = codec@;
        let ghost input = buffered(*src);
        let ghost earlier = items@;
        proof {
            lemma_run_unfolds_by_decode(line, input);
            lemma_stopped_unfolds_by_decode(line, input);
        }
        match codec.decode(src) {
            Ok(Some(item)) => {
                proof {
                    lemma_command_takes_input(line, input);
                    let later = run(codec@, buffered(*src));
                    assert(item_views(earlier.push(item)) =~= item_views(earlier).push(item@));
                    assert(item_views(earlier) + (seq![item@] + later.items) =~= item_views(
                        earlier,
                    ).push(item@) + later.items);
                }
                items.push(item);
            },
            Ok(None) => {
                assert(item_views(items@) + Seq::<ItemView>::empty() =~= item_views(items@));
                return (items, None);
            },
            Err(e) => {
                assert(item_views(items@) + Seq::<ItemView>::empty() =~= item_views(items@));
                return (items, Some(e));
            },
        }
    }
}

/// A step that does not wait for input reads only bytes that are there:
/// more input behind them changes nothing of it.
pub proof fn lemma_step_stable(line: Seq<u8>, a: Seq<u8>, b: Seq<u8>)
    requires
        !(step(line, a).kind is Wait),
    ensures
        step(line, a + b) == step(line, a),
{
    let ab = a + b;
    assert(a.len() >= 1);
    assert(ab[0] == a[0]);
    if a[0] == IAC {
        assert(a.len() >= 2);
        assert(ab[1] == a[1]);
        if a.len() >= 3 {
            assert(ab[2] == a[2]);
        }
        assert(parse_iac(ab) == parse_iac(a));
    }
}

/// A run is the decoder's calls in a row: the first call's command, then the
/// run on what that call left.
pub proof fn lemma_run_unfolds_by_decode(line: Seq<u8>, input: Seq<u8>)
    ensures
        run(line, input) == (match decode_spec(line, input).result {
            Err(e) => Session {
                items: Seq::empty(),
                line: Seq::empty(),
                rest: Seq::empty(),
                failed: Some(e),
            },
            Ok(None) => Session {
                items: Seq::empty(),
                line: decode_spec(line, input).line,
                rest: decode_spec(line, input).rest,
                failed: None,
            },
            Ok(Some(item)) => after_item(
                item,
                run(decode_spec(line, input).line, decode_spec(line, input).rest),
            ),
        }),
    decreases input.len(),
{
    let s = step(line, input);
    lemma_step_used(line, input);
    if s.kind is Silent {
        lemma_run_unfolds_by_decode(s.line, input.skip(s.used as int));
    }
}

/// Running on `a` and then, with `b` behind what was left, running again
/// gives what one run on `a + b` gives.
pub proof fn lemma_run_append(line: Seq<u8>, a: Seq<u8>, b: Seq<u8>)
    ensures
        feed(run(line, a), b) == run(line, a + b),
    decreases a.len(),
{
    let s = step(line, a);
    lemma_step_used(line, a);
    match s.kind {
        Step::Wait => {
            let r = run(line, a + b);
            assert(Seq::<ItemView>::empty() + r.items =~= r.items);
        },
        Step::Fail(command) => {
            lemma_step_stable(line, a, b);
        },
        Step::Emit(item) => {
            lemma_step_stable(line, a, b);
            let u = s.used as int;
            assert((a + b).skip(u) =~= a.skip(u) + b);
            lemma_run_append(s.line, a.skip(u), b);
            let first = run(s.line, a.skip(u));
            if first.failed is None {
                let second = run(first.line, first.rest + b);
                assert((seq![item] + first.items) + second.items =~= seq![item] + (first.items
                    + second.items));
            }
        },
        Step::Silent => {
            lemma_step_stable(line, a, b);
            let u = s.used as int;
            assert((a + b).skip(u) =~= a.skip(u) + b);
            lemma_run_append(s.line, a.skip(u), b);
        },
    }
}

/// Two arrivals, one after the other, leave the session that the two
/// chunks leave when they arrive as one.
pub proof fn lemma_feed_append(s: Session, a: Seq<u8>, b: Seq<u8>)
    ensures
        feed(feed(s, a), b) == feed(s, a + b),
{
    if s.failed is None {
        lemma_run_append(s.line, s.rest + a, b);
        assert((s.rest + a) + b =~= s.rest + (a + b));
        let first = run(s.line, s.rest + a);
        if first.failed is None {
            let second = run(first.line, first.rest + b);
            assert((s.items + first.items) + second.items =~= s.items + (first.items
                + second.items));
        }
    }
}

/// Chunk-boundary independence: bytes that arrive in chunks, however small
/// and wherever cut, decode to the same commands as the same bytes arriving
/// as one chunk, and leave the same line buffer, the same unread bytes and
/// the same failure, if any.
pub proof fn lemma_chunks_do_not_matter(chunks: Seq<Seq<u8>>)
    ensures
        feed_all(fresh(), chunks) == feed(fresh(), joined(chunks)),
    decreases chunks.len(),
{
    if chunks.len() == 0 {
        assert(Seq::<u8>::empty() + Seq::<u8>::empty() =~= Seq::<u8>::empty());
        assert(Seq::<ItemView>::empty() + Seq::<ItemView>::empty() =~= Seq::<ItemView>::empty());
    } else {
        lemma_chunks_do_not_matter(chunks.drop_last());
        lemma_feed_append(fresh(), joined(chunks.drop_last()), chunks.last());
    }
}

/// A doubled marker byte puts one literal `0xFF` into the line buffer and
/// does nothing else: it gives no command, ends no line, and the decoder
/// goes on behind it.
pub proof fn lemma_doubled_marker_is_literal(line: Seq<u8>, input: Seq<u8>)
    requires
        input.len() >= 2,
        input[0] == IAC,
        input[1] == IAC,
    ensures
        step(line, input).kind is Silent,
        step(line, input).line == line.push(IAC),
        decode_spec(line, input) == decode_spec(line.push(IAC), input.skip(2)),
        run(line, input) == run(line.push(IAC), input.skip(2)),
{
}

/// A line with a doubled marker in it: the bytes before the pair, one
/// `0xFF`, and the bytes up to the line feed make the line that is
/// classified, when those bytes are plain text.
pub proof fn lemma_doubled_marker_in_line(before: Seq<u8>, behind: Seq<u8>)
    requires
        forall|i: int| 0 <= i < before.len() ==> 32 <= #[trigger] before[i] < IAC,
        forall|i: int| 0 <= i < behind.len() ==> 32 <= #[trigger] behind[i] < IAC,
    ensures
        decode_spec(
            Seq::empty(),
            before + seq![IAC, IAC] + behind + seq![LINE_FEED],
        ).result == Ok::<Option<ItemView>, DecodeError>(
            Some(classify(before + seq![IAC] + behind)),
        ),
{
    let input = before + seq![IAC, IAC] + behind + seq![LINE_FEED];
    lemma_plain_text(Seq::empty(), before, seq![IAC, IAC] + behind + seq![LINE_FEED]);
    assert(before + (seq![IAC, IAC] + behind + seq![LINE_FEED]) =~= input);
    assert(Seq::<u8>::empty() + before =~= before);
    let mid = seq![IAC, IAC] + behind + seq![LINE_FEED];
    assert(mid.skip(2) =~= behind + seq![LINE_FEED]);
    lemma_doubled_marker_is_literal(before, mid);
    lemma_plain_text(before.push(IAC), behind, seq![LINE_FEED]);
    assert(before.push(IAC) + behind =~= before + seq![IAC] + behind);
    let end = seq![LINE_FEED];
    assert(end.skip(1) =~= Seq::<u8>::empty());
}

/// Plain text at the head of the input goes into the line buffer byte by
/// byte, and the decoder goes on behind it.
pub proof fn lemma_plain_text(line: Seq<u8>, text: Seq<u8>, behind: Seq<u8>)
    requires
        forall|i: int| 0 <= i < text.len() ==> 32 <= #[trigger] text[i] < IAC,
    ensures
        decode_spec(line, text + behind) == decode_spec(line + text, behind),
    decreases text.len(),
{
    if text.len() == 0 {
        assert(text + behind =~= behind);
        assert(line + text =~= line);
    } else {
        let input = text + behind;
        assert(input[0] == text[0]);
        assert(input.skip(1) =~= text.skip(1) + behind);
        lemma_plain_text(line.push(text[0]), text.skip(1), behind);
        assert(line.push(text[0]) + text.skip(1) =~= line + text);
    }
}

/// The erase-character sequence takes the last byte out of the line buffer,
/// and only that one; on an empty buffer it does nothing. Either way it
/// gives no command and no error, and the decoder goes on behind it.
pub proof fn lemma_erase_character(line: Seq<u8>, input: Seq<u8>)
    requires
        input.len() >= 2,
        input[0] == IAC,
        input[1] == ERASE_CHARACTER,
    ensures
        step(line, input).kind is Silent,
        step(line, input).line == erase_last(line),
        line.len() == 0 ==> erase_last(line) == line,
        line.len() > 0 ==> erase_last(line) == line.take(line.len() - 1),
        decode_spec(line, input) == decode_spec(erase_last(line), input.skip(2)),
        run(line, input) == run(erase_last(line), input.skip(2)),
{
}

/// Erasing undoes the byte that was buffered last.
pub proof fn lemma_erase_undoes_push(line: Seq<u8>, byte: u8)
    ensures
        erase_last(line.push(byte)) == line,
{
    assert(line.push(byte).drop_last() =~= line);
}

} // verus!
