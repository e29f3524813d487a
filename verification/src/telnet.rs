//! The frame decoder: a byte stream in, commands out.
//!
//! Two syntaxes share the stream. A byte `0xFF` opens a control sequence of
//! two or three bytes; every other byte belongs to a line, which a line feed
//! ends. A finished line is either one of the embedded commands or plain
//! chat text.
//!
//! The decoder is described twice: by the spec functions [`step`],
//! [`decode_spec`] and [`run`], and by the executable [`TelnetCodec::decode`],
//! which is proved to compute `decode_spec`.

use crate::buffer::buffered;
use crate::buffer::discard;
use crate::buffer::unread;
use crate::decimal;
use crate::write_decimal;
use tokio_util::bytes::BytesMut;
use vstd::prelude::*;
use vstd::string::StringExecFns;

verus! {

/// The byte that opens a control sequence, and that stands for itself when
/// doubled.
pub const IAC: u8 = 255;

/// The byte that ends a line.
pub const LINE_FEED: u8 = 10;

/// The byte that separates the create-group marker from the list of
/// participants, and the participants from one another.
pub const SPACE: u8 = 32;

/// One decoded command.
#[derive(Clone, Debug, PartialEq, Eq)]
pub enum Item {
    Line(Vec<u8>),
    PublishKeyPackage,
    CreateGroup(Vec<u8>),
    ShowKPDetails,
    SE,
    DataMark,
    Break,
    InterruptProcess,
    AbortOutput,
    AreYouThere,
    GoAhead,
    SB,
    Will(u8),
    Wont(u8),
    Do(u8),
    Dont(u8),
}

/// What an [`Item`] is to the contracts: the same command, its bytes as a
/// sequence.
pub enum ItemView {
    Line(Seq<u8>),
    PublishKeyPackage,
    CreateGroup(Seq<u8>),
    ShowKPDetails,
    SE,
    DataMark,
    Break,
    InterruptProcess,
    AbortOutput,
    AreYouThere,
    GoAhead,
    SB,
    Will(u8),
    Wont(u8),
    Do(u8),
    Dont(u8),
}

impl View for Item {
    type V = ItemView;

    open spec fn view(&self) -> ItemView {
        match *self {
            Item::Line(bytes) => ItemView::Line(bytes@),
            Item::PublishKeyPackage => ItemView::PublishKeyPackage,
            Item::CreateGroup(ids) => ItemView::CreateGroup(ids@),
            Item::ShowKPDetails => ItemView::ShowKPDetails,
            Item::SE => ItemView::SE,
            Item::DataMark => ItemView::DataMark,
            Item::Break => ItemView::Break,
            Item::InterruptProcess => ItemView::InterruptProcess,
            Item::AbortOutput => ItemView::AbortOutput,
            Item::AreYouThere => ItemView::AreYouThere,
            Item::GoAhead => ItemView::GoAhead,
            Item::SB => ItemView::SB,
            Item::Will(option) => ItemView::Will(option),
            Item::Wont(option) => ItemView::Wont(option),
            Item::Do(option) => ItemView::Do(option),
            Item::Dont(option) => ItemView::Dont(option),
        }
    }
}

/// The one way decoding fails: a control sequence whose second byte is no
/// known command. The byte is kept for the report.
#[derive(Copy, Clone, Debug, PartialEq, Eq, Structural)]
pub struct DecodeError {
    pub command: u8,
}

impl DecodeError {
    /// The error in words: that the command is unknown, with its number.
    pub open spec fn text(&self) -> Seq<char> {
        "Unknown IAC command "@ + decimal(self.command as nat) + "."@
    }

    /// The error in words.
    pub fn to_text(&self) -> (text: String)
        ensures
            text@ == self.text(),
    {
        let mut text = String::from_str("Unknown IAC command ");
        write_decimal(self.command as usize, &mut text);
        text.append(".");
        assert(text@ =~= self.text());
        text
    }
}

/// What the head of the input is, read as a control sequence.
#[derive(Clone, Debug, PartialEq, Eq)]
pub enum ParseIacResult {
    /// The second byte is no known command.
    Invalid(u8),
    /// The sequence is not yet complete.
    NeedMore,
    /// A command to hand on.
    Item(Item),
    /// Nothing to do.
    NOP,
    /// Remove the last buffered byte of the line.
    EraseCharacter,
    /// Remove the whole buffered line.
    EraseLine,
    /// A doubled marker: one literal `0xFF` for the line.
    Escaped,
}

/// Whether `byte`, as the second byte of a control sequence, asks for a third.
pub open spec fn three_byte_iac(byte: u8) -> bool {
    251 <= byte <= 254
}

/// The control sequence at the head of `bytes`, and how many bytes it takes.
/// Nothing is taken while the sequence is incomplete, nor when it is
/// unknown.
pub open spec fn parse_iac(bytes: Seq<u8>) -> (ParseIacResult, nat) {
    if bytes.len() < 2 {
        (ParseIacResult::NeedMore, 0)
    } else if three_byte_iac(bytes[1]) && bytes.len() < 3 {
        (ParseIacResult::NeedMore, 0)
    } else if bytes[1] == 240 {
        (ParseIacResult::Item(Item::SE), 2)
    } else if bytes[1] == 241 {
        (ParseIacResult::NOP, 2)
    } else if bytes[1] == 242 {
        (ParseIacResult::Item(Item::DataMark), 2)
    } else if bytes[1] == 243 {
        (ParseIacResult::Item(Item::Break), 2)
    } else if bytes[1] == 244 {
        (ParseIacResult::Item(Item::InterruptProcess), 2)
    } else if bytes[1] == 245 {
        (ParseIacResult::Item(Item::AbortOutput), 2)
    } else if bytes[1] == 246 {
        (ParseIacResult::Item(Item::AreYouThere), 2)
    } else if bytes[1] == 247 {
        (ParseIacResult::EraseCharacter, 2)
    } else if bytes[1] == 248 {
        (ParseIacResult::EraseLine, 2)
    } else if bytes[1] == 249 {
        (ParseIacResult::Item(Item::GoAhead), 2)
    } else if bytes[1] == 250 {
        (ParseIacResult::Item(Item::SB), 2)
    } else if bytes[1] == 251 {
        (ParseIacResult::Item(Item::Will(bytes[2])), 3)
    } else if bytes[1] == 252 {
        (ParseIacResult::Item(Item::Wont(bytes[2])), 3)
    } else if bytes[1] == 253 {
        (ParseIacResult::Item(Item::Do(bytes[2])), 3)
    } else if bytes[1] == 254 {
        (ParseIacResult::Item(Item::Dont(bytes[2])), 3)
    } else if bytes[1] == 255 {
        (ParseIacResult::Escaped, 2)
    } else {
        (ParseIacResult::Invalid(bytes[1]), 0)
    }
}

/// The line that publishes a key package: `c"pkp`.
pub open spec fn publish_marker() -> Seq<u8> {
    seq![99u8, 34u8, 112u8, 107u8, 112u8]
}

/// The line that asks for the key-package notes: `c"skd`.
pub open spec fn details_marker() -> Seq<u8> {
    seq![99u8, 34u8, 115u8, 107u8, 100u8]
}

/// The four bytes that open a create-group line: `c"cg`.
pub open spec fn group_marker() -> Seq<u8> {
    seq![99u8, 34u8, 99u8, 103u8]
}

/// Whether `line` is a create-group line: the marker, then the space that
/// separates it from the list of participants.
pub open spec fn is_group_line(line: Seq<u8>) -> bool {
    line.len() >= 5 && line.subrange(0, 4) == group_marker() && line[4] == SPACE
}

/// Whether the byte at `i` of a list of participants is a space that ends a
/// token with at least one byte in it.
pub open spec fn closes_token(list: Seq<u8>, i: int) -> bool {
    list[i] == SPACE && i > 0 && list[i - 1] != SPACE
}

/// The entries of a list of participants.
///
/// The list is made of tokens, and a space ends a token. Each byte of a
/// token is an entry of its own, so a token is best one byte long. A space
/// that ends a token with bytes in it is left out. A space that ends a token
/// with no byte in it, at the head of the list or right behind another
/// space, stays as the entry of that empty token: it is no digit, and so
/// names the connection that every such byte names. What stands behind the
/// last space needs no space to end it; where nothing stands there, as in an
/// empty list or behind a closing space, there is no further entry.
pub open spec fn entries(list: Seq<u8>) -> Seq<u8>
    decreases list.len(),
{
    if list.len() == 0 {
        Seq::empty()
    } else if closes_token(list, list.len() - 1) {
        entries(list.drop_last())
    } else {
        entries(list.drop_last()).push(list.last())
    }
}

/// The participants of a create-group line: the entries of the list that
/// follows its first five bytes.
pub open spec fn participants(line: Seq<u8>) -> Seq<u8> {
    entries(line.skip(5))
}

/// The command that a finished line stands for.
pub open spec fn classify(line: Seq<u8>) -> ItemView {
    if line == publish_marker() {
        ItemView::PublishKeyPackage
    } else if is_group_line(line) {
        ItemView::CreateGroup(participants(line))
    } else if line == details_marker() {
        ItemView::ShowKPDetails
    } else {
        ItemView::Line(line)
    }
}

/// A line that is neither of the two marker lines and does not open with
/// the create-group marker and its separator is a plain line, whatever its
/// bytes and its length, and is carried as it came.
pub proof fn lemma_other_lines_are_plain(line: Seq<u8>)
    requires
        line != publish_marker(),
        line != details_marker(),
        !is_group_line(line),
    ensures
        classify(line) == ItemView::Line(line),
{
}

/// A list of participants is read token by token. Behind a space the
/// reading starts afresh: the entries of what stands before the space and
/// the space itself, then the entries of what stands behind it. The space
/// is no entry where it ends a token with bytes in it, and is the entry of
/// an empty token where it stands at the head or behind another space.
pub proof fn lemma_entries_split_at_space(head: Seq<u8>, tail: Seq<u8>)
    ensures
        entries(head.push(SPACE) + tail) == entries(head.push(SPACE)) + entries(tail),
        entries(head.push(SPACE)) == (if head.len() > 0 && head.last() != SPACE {
            entries(head)
        } else {
            entries(head).push(SPACE)
        }),
    decreases tail.len(),
{
    let front = head.push(SPACE);
    assert(front.drop_last() =~= head);
    if tail.len() == 0 {
        assert(front + tail =~= front);
        assert(entries(front) + entries(tail) =~= entries(front));
    } else {
        let whole = front + tail;
        lemma_entries_split_at_space(head, tail.drop_last());
        assert(whole.drop_last() =~= front + tail.drop_last());
        assert(whole.last() == tail.last());
        if tail.len() == 1 {
            assert(whole[whole.len() - 2] == SPACE);
        } else {
            assert(whole[whole.len() - 2] == tail[tail.len() - 2]);
        }
        assert(closes_token(whole, whole.len() - 1) == closes_token(tail, tail.len() - 1));
        if !closes_token(tail, tail.len() - 1) {
            assert(entries(front) + entries(tail.drop_last()).push(tail.last()) =~= (entries(front)
                + entries(tail.drop_last())).push(tail.last()));
        }
    }
}

/// A list without a space in it has each of its bytes as an entry.
pub proof fn lemma_entries_without_space(list: Seq<u8>)
    requires
        forall|i: int| 0 <= i < list.len() ==> list[i] != SPACE,
    ensures
        entries(list) == list,
    decreases list.len(),
{
    if list.len() > 0 {
        lemma_entries_without_space(list.drop_last());
        assert(list.drop_last().push(list.last()) =~= list);
    }
}

/// Tells whether a control command takes an option byte with it.
pub fn is_three_byte_iac(byte: u8) -> (res: bool)
    ensures
        res == three_byte_iac(byte),
{
    251 <= byte && byte <= 254
}

/// Reads the control sequence at the head of `bytes`. The caller has seen
/// the opening marker: where a second byte is there, the first is `0xFF`.
pub fn try_parse_iac(bytes: &[u8]) -> (res: (ParseIacResult, usize))
    requires
        bytes@.len() >= 2 ==> bytes@[0] == IAC,
    ensures
        res.0 == parse_iac(bytes@).0,
        res.1 == parse_iac(bytes@).1,
{
    if bytes.len() < 2 {
        return (ParseIacResult::NeedMore, 0);
    }
    let command: u8 = bytes[1];
    if is_three_byte_iac(command) && bytes.len() < 3 {
        return (ParseIacResult::NeedMore, 0);
    }
    match command {
        240 => (ParseIacResult::Item(Item::SE), 2),
        241 => (ParseIacResult::NOP, 2),
        242 => (ParseIacResult::Item(Item::DataMark), 2),
        243 => (ParseIacResult::Item(Item::Break), 2),
        244 => (ParseIacResult::Item(Item::InterruptProcess), 2),
        245 => (ParseIacResult::Item(Item::AbortOutput), 2),
        246 => (ParseIacResult::Item(Item::AreYouThere), 2),
        247 => (ParseIacResult::EraseCharacter, 2),
        248 => (ParseIacResult::EraseLine, 2),
        249 => (ParseIacResult::Item(Item::GoAhead), 2),
        250 => (ParseIacResult::Item(Item::SB), 2),
        251 => (ParseIacResult::Item(Item::Will(bytes[2])), 3),
        252 => (ParseIacResult::Item(Item::Wont(bytes[2])), 3),
        253 => (ParseIacResult::Item(Item::Do(bytes[2])), 3),
        254 => (ParseIacResult::Item(Item::Dont(bytes[2])), 3),
        255 => (ParseIacResult::Escaped, 2),
        cmd => (ParseIacResult::Invalid(cmd), 0),
    }
}

/// Classifies a finished line. Every line is something: the result is never
/// `None`.
pub fn parse_line(line: Vec<u8>) -> (res: Option<Item>)
    ensures
        res matches Some(item) && item@ == classify(line@),
{
    let n: usize = line.len();
    if n == 5 && line[0] == 99 && line[1] == 34 && line[2] == 112 && line[3] == 107 && line[4]
        == 112 {
        assert(line@ =~= publish_marker());
        return Some(Item::PublishKeyPackage);
    }
    assert(line@ != publish_marker()) by {
        if line@ == publish_marker() {
            assert(publish_marker().len() == 5);
            assert(publish_marker()[4] == 112);
        }
    }
    if n >= 5 && line[0] == 99 && line[1] == 34 && line[2] == 99 && line[3] == 103 && line[4]
        == 32 {
        assert(line@.subrange(0, 4) =~= group_marker());
        let mut ids: Vec<u8> = Vec::new();
        let mut i: usize = 5;
        while i < n
            invariant
                5 <= i <= n,
                n == line.len(),
                ids@ == entries(line@.subrange(5, i as int)),
            decreases n - i,
        {
            let value: u8 = line[i];
            let closes: bool = value == 32 && i > 5 && line[i - 1] != 32;
            proof {
                let before = line@.subrange(5, i as int);
                let after = line@.subrange(5, i + 1);
                assert(after.drop_last() =~= before);
                assert(after.last() == value);
                assert(i > 5 ==> after[after.len() - 2] == line@[i - 1]);
                assert(closes == closes_token(after, after.len() - 1));
            }
            if !closes {
                ids.push(value);
            }
            i += 1;
        }
        assert(line@.subrange(5, n as int) =~= line@.skip(5));
        return Some(Item::CreateGroup(ids));
    }
    assert(!is_group_line(line@)) by {
        if is_group_line(line@) {
            let head = line@.subrange(0, 4);
            assert(head[0] == line@[0] && head[1] == line@[1] && head[2] == line@[2] && head[3]
                == line@[3]);
            assert(group_marker()[0] == 99 && group_marker()[1] == 34 && group_marker()[2] == 99
                && group_marker()[3] == 103);
        }
    }
    if n == 5 && line[0] == 99 && line[1] == 34 && line[2] == 115 && line[3] == 107 && line[4]
        == 100 {
        assert(line@ =~= details_marker());
        return Some(Item::ShowKPDetails);
    }
    assert(line@ != details_marker()) by {
        if line@ == details_marker() {
            assert(details_marker().len() == 5);
            assert(details_marker()[4] == 100);
        }
    }
    Some(Item::Line(line))
}

/// What one step of the decoder does.
pub enum Step {
    /// The input is used up, or ends inside a control sequence.
    Wait,
    /// The input opens with an unknown control command.
    Fail(u8),
    /// A command is complete.
    Emit(ItemView),
    /// The input was taken in and nothing is to be reported yet.
    Silent,
}

/// The result of one step: what happened, the line buffer after it, and how
/// many bytes of input it took.
pub struct Stepped {
    pub kind: Step,
    pub line: Seq<u8>,
    pub used: nat,
}

/// The line buffer without its last byte; an empty buffer stays empty.
pub open spec fn erase_last(line: Seq<u8>) -> Seq<u8> {
    if line.len() > 0 {
        line.drop_last()
    } else {
        line
    }
}

/// One step of the decoder on line buffer `line` and unread input `input`.
pub open spec fn step(line: Seq<u8>, input: Seq<u8>) -> Stepped {
    if input.len() == 0 {
        Stepped { kind: Step::Wait, line, used: 0 }
    } else if input[0] == IAC {
        let used = parse_iac(input).1;
        match parse_iac(input).0 {
            ParseIacResult::Invalid(command) => Stepped { kind: Step::Fail(command), line, used: 0 },
            ParseIacResult::NeedMore => Stepped { kind: Step::Wait, line, used: 0 },
            ParseIacResult::Item(item) => Stepped { kind: Step::Emit(item@), line, used },
            ParseIacResult::NOP => Stepped { kind: Step::Silent, line, used },
            ParseIacResult::EraseCharacter => Stepped {
                kind: Step::Silent,
                line: erase_last(line),
                used,
            },
            ParseIacResult::EraseLine => Stepped { kind: Step::Silent, line: Seq::empty(), used },
            ParseIacResult::Escaped => Stepped { kind: Step::Silent, line: line.push(IAC), used },
        }
    } else if input[0] == LINE_FEED {
        Stepped { kind: Step::Emit(classify(line)), line: Seq::empty(), used: 1 }
    } else if input[0] < 32 {
        Stepped { kind: Step::Silent, line, used: 1 }
    } else {
        Stepped { kind: Step::Silent, line: line.push(input[0]), used: 1 }
    }
}

/// What one call of the decoder leaves: its answer, the line buffer and the
/// unread input.
pub struct Decoded {
    pub result: Result<Option<ItemView>, DecodeError>,
    pub line: Seq<u8>,
    pub rest: Seq<u8>,
}

/// One call of the decoder: steps are taken until a command is complete, the
/// input gives no more, or it cannot be read. On failure, and while a
/// control sequence is incomplete, nothing of it is taken.
pub open spec fn decode_spec(line: Seq<u8>, input: Seq<u8>) -> Decoded
    decreases input.len(),
{
    let s = step(line, input);
    match s.kind {
        Step::Wait => Decoded { result: Ok(None), line, rest: input },
        Step::Fail(command) => Decoded { result: Err(DecodeError { command }), line, rest: input },
        Step::Emit(item) => Decoded {
            result: Ok(Some(item)),
            line: s.line,
            rest: input.skip(s.used as int),
        },
        Step::Silent => decode_spec(s.line, input.skip(s.used as int)),
    }
}

/// A step that goes on takes at least one byte and no more than there are.
pub proof fn lemma_step_used(line: Seq<u8>, input: Seq<u8>)
    ensures
        step(line, input).kind is Wait || step(line, input).kind is Fail ==> step(
            line,
            input,
        ).used == 0 && step(line, input).line == line,
        step(line, input).kind is Emit || step(line, input).kind is Silent ==> 0 < step(
            line,
            input,
        ).used <= input.len(),
{
}

/// The answer of a call of the decoder, its bytes as sequences.
pub open spec fn answer_view(res: Result<Option<Item>, DecodeError>) -> Result<
    Option<ItemView>,
    DecodeError,
> {
    match res {
        Ok(Some(item)) => Ok(Some(item@)),
        Ok(None) => Ok(None),
        Err(e) => Err(e),
    }
}

/// The state of one connection's decoder: the bytes of the line that is
/// being read.
pub struct TelnetCodec {
    current_line: Vec<u8>,
}

impl View for TelnetCodec {
    type V = Seq<u8>;

    closed spec fn view(&self) -> Seq<u8> {
        self.current_line@
    }
}

impl TelnetCodec {
    /// A decoder at the start of a line.
    pub fn new() -> (codec: Self)
        ensures
            codec@ == Seq::<u8>::empty(),
    {
        TelnetCodec { current_line: Vec::with_capacity(1024) }
    }

    /// The bytes of the unfinished line, oldest first.
    pub fn current_line(&self) -> (line: &[u8])
        ensures
            line@ == self@,
    {
        self.current_line.as_slice()
    }

    /// Takes bytes from the head of `src` until a command is complete and
    /// returns it. Returns `Ok(None)` when `src` gives no further command:
    /// what was read of an unfinished line is kept in the decoder, and an
    /// incomplete control sequence stays in `src` untouched. Returns the
    /// error when `src` opens with an unknown control command, which stays
    /// in `src` too.
    pub fn decode(&mut self, src: &mut BytesMut) -> (res: Result<Option<Item>, DecodeError>)
        ensures
            answer_view(res) == decode_spec(old(self)@, buffered(*old(src))).result,
            final(self)@ == decode_spec(old(self)@, buffered(*old(src))).line,
            buffered(*final(src)) == decode_spec(old(self)@, buffered(*old(src))).rest,
    {
        loop
            invariant
                decode_spec(self@, buffered(*src)) == decode_spec(
                    old(self)@,
                    buffered(*old(src)),
                ),
            decreases buffered(*src).len(),
        {
            let ghost line0 = self@;
            let ghost input0 = buffered(*src);
            let bytes = unread(src);
            if bytes.len() == 0 {
                return Ok(None);
            }
            let first: u8 = bytes[0];
            if first == 255 {
                let (res, consume) = try_parse_iac(bytes);
                discard(src, consume);
                match res {
                    ParseIacResult::Invalid(command) => {
                        assert(buffered(*src) =~= input0);
                        return Err(DecodeError { command });
                    },
                    ParseIacResult::NeedMore => {
                        assert(buffered(*src) =~= input0);
                        return Ok(None);
                    },
                    ParseIacResult::Item(item) => {
                        return Ok(Some(item));
                    },
                    ParseIacResult::NOP => {},
                    ParseIacResult::EraseCharacter => {
                        let _ = self.current_line.pop();
                        assert(self@ =~= erase_last(line0));
                    },
                    ParseIacResult::EraseLine => {
                        self.current_line.clear();
                    },
                    ParseIacResult::Escaped => {
                        self.current_line.push(255);
                    },
                }
            } else {
                discard(src, 1);
                if first == 10 {
                    let mut line: Vec<u8> = Vec::new();
                    std::mem::swap(&mut line, &mut self.current_line);
                    return Ok(parse_line(line));
                } else if first < 32 {
                } else {
                    self.current_line.push(first);
                }
            }
        }
    }
}

} // verus!
