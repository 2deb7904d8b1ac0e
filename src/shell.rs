//! The line assembler that turns transport bytes into command lines, and
//! the rendering of command results.
use vstd::prelude::*;
use vstd::string::*;
use vstd::utf8::encode_utf8;

use crate::commands::handlers::{slot_line, slots_output, slot_lines};
use crate::commands::{dispatch, lookup, ContextView, CommandResult, Reply, MAX_TOKENS};
use crate::flash::SLOT_COUNT;
use crate::text::{is_space, lemma_blank_has_no_words, push_str, push_bytes, words};
use crate::{error_message, Error, MAX_COMMAND_LENGTH};

verus! {

pub open spec fn is_printable(b: u8) -> bool {
    32 <= b <= 126
}

pub open spec fn is_terminator(b: u8) -> bool {
    b == 13 || b == 10
}

pub open spec fn is_backspace(b: u8) -> bool {
    b == 8 || b == 127
}

/// What one input byte asks of the shell.
pub enum LineEvent {
    /// Nothing to do.
    Nothing,
    /// The last byte of the line was dropped: erase it on the terminal.
    Erase,
    /// A complete line to dispatch.
    Line(Vec<u8>),
}

/// The meaning of a [`LineEvent`].
pub enum LineStep {
    Nothing,
    Erase,
    Line(Seq<u8>),
}

impl View for LineEvent {
    type V = LineStep;

    open spec fn view(&self) -> LineStep {
        match self {
            LineEvent::Nothing => LineStep::Nothing,
            LineEvent::Erase => LineStep::Erase,
            LineEvent::Line(l) => LineStep::Line(l@),
        }
    }
}

/// One byte of input applied to the buffer `buf`: the new buffer and the event.
pub open spec fn step(buf: Seq<u8>, b: u8) -> (Seq<u8>, LineStep) {
    if is_terminator(b) {
        if buf.len() > 0 {
            (seq![], LineStep::Line(buf))
        } else {
            (buf, LineStep::Nothing)
        }
    } else if is_backspace(b) {
        if buf.len() > 0 {
            (buf.drop_last(), LineStep::Erase)
        } else {
            (buf, LineStep::Nothing)
        }
    } else if is_printable(b) && buf.len() < MAX_COMMAND_LENGTH {
        (buf.push(b), LineStep::Nothing)
    } else {
        (buf, LineStep::Nothing)
    }
}

/// Bytes applied one by one to `buf`: the final buffer and the lines
/// dispatched, in order.
pub open spec fn feed(buf: Seq<u8>, bytes: Seq<u8>) -> (Seq<u8>, Seq<Seq<u8>>)
    decreases bytes.len(),
{
    if bytes.len() == 0 {
        (buf, seq![])
    } else {
        let (b1, lines) = feed(buf, bytes.drop_last());
        let (b2, ev) = step(b1, bytes.last());
        (
            b2,
            match ev {
                LineStep::Line(l) => lines.push(l),
                _ => lines,
            },
        )
    }
}

/// The line being typed.
pub struct Shell {
    command_buf: Vec<u8>,
}

impl View for Shell {
    type V = Seq<u8>;

    closed spec fn view(&self) -> Seq<u8> {
        self.command_buf@
    }
}

impl Shell {
    pub open spec fn wf(&self) -> bool {
        self@.len() <= MAX_COMMAND_LENGTH
    }

    /// A shell with an empty line.
    pub fn new() -> (r: Shell)
        ensures
            r.wf(),
            r@ == Seq::<u8>::empty(),
    {
        Shell { command_buf: Vec::new() }
    }

    /// The number of bytes in the line so far.
    pub fn position(&self) -> (r: usize)
        ensures
            r == self@.len(),
    {
        self.command_buf.len()
    }

    /// Forgets the line being typed, as after a lost connection.
    pub fn reset(&mut self)
        ensures
            final(self).wf(),
            final(self)@ == Seq::<u8>::empty(),
    {
        self.command_buf = Vec::new();
    }

    /// Applies one input byte: a terminator hands over a non-empty line,
    /// backspace or delete drops the last byte, a printable byte is kept
    /// while there is room, and anything else is ignored.
    pub fn process_byte(&mut self, byte: u8) -> (r: LineEvent)
        requires
            old(self).wf(),
        ensures
            final(self).wf(),
            (final(self)@, r@) == step(old(self)@, byte),
    {
        if byte == 13u8 || byte == 10u8 {
            if self.command_buf.len() > 0 {
                let mut line: Vec<u8> = Vec::new();
                std::mem::swap(&mut line, &mut self.command_buf);
                LineEvent::Line(line)
            } else {
                LineEvent::Nothing
            }
        } else if byte == 8u8 || byte == 127u8 {
            if self.command_buf.len() > 0 {
                self.command_buf.pop();
                LineEvent::Erase
            } else {
                LineEvent::Nothing
            }
        } else {
            if 32u8 <= byte && byte <= 126u8 && self.command_buf.len() < MAX_COMMAND_LENGTH {
                self.command_buf.push(byte);
            }
            LineEvent::Nothing
        }
    }
}

/// Printable bytes fed to an empty buffer fill it up to the maximum and
/// dispatch nothing.
proof fn lemma_fill(p: Seq<u8>)
    requires
        forall|i: int| 0 <= i < p.len() ==> is_printable(#[trigger] p[i]),
    ensures
        feed(seq![], p).0 == p.take(
            if p.len() <= MAX_COMMAND_LENGTH {
                p.len() as int
            } else {
                MAX_COMMAND_LENGTH as int
            },
        ),
        feed(seq![], p).1 == Seq::<Seq<u8>>::empty(),
    decreases p.len(),
{
    if p.len() > 0 {
        let q = p.drop_last();
        lemma_fill(q);
        if q.len() < MAX_COMMAND_LENGTH {
            assert(q.take(q.len() as int).push(p.last()) =~= p.take(p.len() as int));
        } else {
            assert(q.take(MAX_COMMAND_LENGTH as int) =~= p.take(MAX_COMMAND_LENGTH as int));
        }
    }
}

/// A line of printable bytes followed by a terminator dispatches exactly
/// its first `MAX_COMMAND_LENGTH` bytes (all of it when shorter) and leaves
/// the buffer empty: excess bytes are dropped, never the line.
pub proof fn lemma_long_line_truncated(p: Seq<u8>, t: u8)
    requires
        p.len() > 0,
        forall|i: int| 0 <= i < p.len() ==> is_printable(#[trigger] p[i]),
        is_terminator(t),
    ensures
        feed(seq![], p.push(t)) == (
            Seq::<u8>::empty(),
            seq![
                p.take(
                    if p.len() <= MAX_COMMAND_LENGTH {
                        p.len() as int
                    } else {
                        MAX_COMMAND_LENGTH as int
                    },
                ),
            ],
        ),
{
    lemma_fill(p);
    assert(p.push(t).drop_last() =~= p);
    let (b, lines) = feed(seq![], p.push(t));
    assert(lines =~= seq![feed(seq![], p).0]);
    assert(b =~= Seq::<u8>::empty());
}

/// Backspace or delete on an empty line changes nothing and asks for nothing.
pub proof fn lemma_backspace_on_empty(b: u8)
    requires
        is_backspace(b),
    ensures
        step(seq![], b) == (Seq::<u8>::empty(), LineStep::Nothing),
{
}

/// A line with no words (empty, or only spaces) dispatches to nothing: no
/// reply text and no change of state.
pub proof fn lemma_blank_line_is_idle(line: Seq<u8>, c: ContextView)
    requires
        forall|i: int| 0 <= i < line.len() ==> is_space(#[trigger] line[i]),
    ensures
        dispatch(line, c) == (Reply::Idle, c),
        rendered(Reply::Idle) == Seq::<u8>::empty(),
{
    lemma_blank_has_no_words(line);
}

/// A line whose first word names no command fails with `UnknownCommand`
/// and leaves the state as it was, so dispatching it again does the same.
pub proof fn lemma_unknown_command(line: Seq<u8>, c: ContextView)
    requires
        words(line).len() > 0,
        words(line).len() <= MAX_TOKENS,
        lookup(words(line)[0]) is None,
    ensures
        dispatch(line, c) == (Reply::Failed(Error::UnknownCommand), c),
        dispatch(line, dispatch(line, c).1) == dispatch(line, c),
{
}

/// The slot listing is one entry per configured slot, in slot order.
pub proof fn lemma_slots_listing()
    ensures
        slots_output() == Seq::new(SLOT_COUNT as nat, |i: int| slot_line(i as nat)).flatten(),
{
    lemma_slot_lines_flatten(SLOT_COUNT as nat);
}

proof fn lemma_slot_lines_flatten(n: nat)
    ensures
        slot_lines(n) == Seq::new(n, |i: int| slot_line(i as nat)).flatten(),
    decreases n,
{
    broadcast use Seq::lemma_flatten_push;

    if n == 0 {
        assert(Seq::new(0, |i: int| slot_line(i as nat)) =~= Seq::<Seq<u8>>::empty());
    } else {
        let m = (n - 1) as nat;
        lemma_slot_lines_flatten(m);
        assert(Seq::new(n, |i: int| slot_line(i as nat)) =~= Seq::new(
            m,
            |i: int| slot_line(i as nat),
        ).push(slot_line(m)));
    }
}

/// What is written back for a command result.
pub open spec fn rendered(r: Reply) -> Seq<u8> {
    match r {
        Reply::Idle => seq![],
        Reply::Done => seq![13u8, 10u8, 79u8, 75u8],
        Reply::Text(t) => seq![13u8, 10u8] + t,
        Reply::Failed(e) => encode_utf8("\r\nError: "@) + encode_utf8(error_message(e)),
        Reply::Halt => seq![],
    }
}

/// The bytes to write back for a command result: a line break and the
/// text, an `OK` marker, or `Error: ` and the message.
pub fn render_result(r: &CommandResult) -> (out: Vec<u8>)
    ensures
        out@ == rendered(r@),
{
    let mut out: Vec<u8> = Vec::new();
    match r {
        CommandResult::Idle => {},
        CommandResult::Success(None) => {
            out.push(13u8);
            out.push(10u8);
            out.push(79u8);
            out.push(75u8);
        },
        CommandResult::Success(Some(t)) => {
            out.push(13u8);
            out.push(10u8);
            push_bytes(&mut out, t.as_slice());
        },
        CommandResult::Error(e) => {
            push_str(&mut out, "\r\nError: ");
            push_str(&mut out, e.message());
        },
        CommandResult::Halt => {},
    }
    assert(out@ =~= rendered(r@));
    out
}

} // verus!
