//! Raw-mode line editor: consumes one input byte at a time, maintains
//! the edit buffer, interprets enter, backspace and the three-byte
//! arrow escape sequences, and says what must be echoed. The caller
//! owns the terminal: it obtains each byte in raw mode, performs the
//! echo this module asks for, and stops when a line is finished.

use vstd::prelude::*;

verus! {

/// Escape-sequence recognition state, scoped to one line read.
#[derive(Clone, Copy, PartialEq, Eq, Structural, Debug)]
pub enum EscState {
    Idle,
    SawEscape,
    SawBracket,
}

/// What the caller must echo after one byte was consumed.
#[derive(Clone, Copy, PartialEq, Eq, Structural, Debug)]
pub enum Echo {
    /// Echo nothing.
    Nothing,
    /// Echo the byte itself in the normal colour.
    Byte(u8),
    /// Echo a line break: the line is finished.
    Newline,
    /// Visually erase the last character: step left over the previous
    /// buffer contents, reprint the remaining buffer plus one blank,
    /// then step left once more.
    EraseLast,
    /// Move the visible cursor one column right (visual only).
    CursorRight,
    /// Move the visible cursor one column left (visual only).
    CursorLeft,
}

/// A byte with no control meaning in the current escape state: it is
/// appended to the buffer and echoed.
pub open spec fn is_ordinary(esc: EscState, b: u8) -> bool {
    &&& b != 10
    &&& b != 127
    &&& b != 27
    &&& !(b == 91 && esc is SawEscape)
    &&& !((b == 65 || b == 66 || b == 67 || b == 68) && esc is SawBracket)
}

/// The edit buffer after one byte.
pub open spec fn next_buf(buf: Seq<u8>, esc: EscState, b: u8) -> Seq<u8> {
    if b == 10 {
        buf
    } else if b == 127 {
        if buf.len() == 0 {
            buf
        } else {
            buf.drop_last()
        }
    } else if is_ordinary(esc, b) {
        buf.push(b)
    } else {
        buf
    }
}

/// The escape state after one byte.
pub open spec fn next_esc(buf: Seq<u8>, esc: EscState, b: u8) -> EscState {
    if b == 10 {
        esc
    } else if b == 127 {
        if buf.len() == 0 {
            esc
        } else {
            EscState::Idle
        }
    } else if b == 27 {
        EscState::SawEscape
    } else if b == 91 && esc is SawEscape {
        EscState::SawBracket
    } else {
        EscState::Idle
    }
}

/// The echo owed for one byte.
pub open spec fn echo_of(buf: Seq<u8>, esc: EscState, b: u8) -> Echo {
    if b == 10 {
        Echo::Newline
    } else if b == 127 {
        if buf.len() == 0 {
            Echo::Nothing
        } else {
            Echo::EraseLast
        }
    } else if is_ordinary(esc, b) {
        Echo::Byte(b)
    } else if b == 67 && esc is SawBracket {
        Echo::CursorRight
    } else if b == 68 && esc is SawBracket {
        Echo::CursorLeft
    } else {
        Echo::Nothing
    }
}

/// The finished line produced by a byte stream starting from the given
/// buffer and escape state: `None` if the stream ends before enter.
pub open spec fn line_from(buf: Seq<u8>, esc: EscState, input: Seq<u8>) -> Option<Seq<u8>>
    decreases input.len(),
{
    if input.len() == 0 {
        None
    } else if input[0] == 10 {
        Some(buf)
    } else {
        line_from(
            next_buf(buf, esc, input[0]),
            next_esc(buf, esc, input[0]),
            input.drop_first(),
        )
    }
}

/// The finished line produced by a byte stream on a fresh editor.
pub open spec fn line_of(input: Seq<u8>) -> Option<Seq<u8>> {
    line_from(Seq::empty(), EscState::Idle, input)
}

/// The line editor: edit buffer, escape state, and whether enter has
/// arrived.
pub struct LineEditor {
    pub buf: Vec<u8>,
    pub esc: EscState,
    pub done: bool,
}

impl LineEditor {
    /// A fresh editor with an empty buffer.
    pub fn new() -> (ed: LineEditor)
        ensures
            ed.buf@ == Seq::<u8>::empty(),
            ed.esc == EscState::Idle,
            !ed.done,
    {
        LineEditor { buf: Vec::new(), esc: EscState::Idle, done: false }
    }

    /// Consumes one byte: updates buffer and escape state exactly as
    /// the byte-dispatch rules say, and returns the echo owed.
    pub fn step(&mut self, b: u8) -> (e: Echo)
        requires
            !old(self).done,
        ensures
            final(self).buf@ == next_buf(old(self).buf@, old(self).esc, b),
            final(self).esc == next_esc(old(self).buf@, old(self).esc, b),
            final(self).done == (b == 10),
            e == echo_of(old(self).buf@, old(self).esc, b),
    {
        if b == 10 {
            self.done = true;
            Echo::Newline
        } else if b == 127 {
            if self.buf.len() == 0 {
                Echo::Nothing
            } else {
                self.buf.pop();
                self.esc = EscState::Idle;
                Echo::EraseLast
            }
        } else if b == 27 {
            self.esc = EscState::SawEscape;
            Echo::Nothing
        } else if b == 91 && matches!(self.esc, EscState::SawEscape) {
            self.esc = EscState::SawBracket;
            Echo::Nothing
        } else if (b == 65 || b == 66) && matches!(self.esc, EscState::SawBracket) {
            self.esc = EscState::Idle;
            Echo::Nothing
        } else if b == 67 && matches!(self.esc, EscState::SawBracket) {
            self.esc = EscState::Idle;
            Echo::CursorRight
        } else if b == 68 && matches!(self.esc, EscState::SawBracket) {
            self.esc = EscState::Idle;
            Echo::CursorLeft
        } else {
            self.buf.push(b);
            self.esc = EscState::Idle;
            Echo::Byte(b)
        }
    }
}

/// Runs a whole byte stream through a fresh editor: the finished line,
/// or `None` if the stream ends before an enter byte.
pub fn run_line(input: &Vec<u8>) -> (r: Option<Vec<u8>>)
    ensures
        match r {
            Some(v) => line_of(input@) matches Some(s) && v@ == s,
            None => line_of(input@) is None,
        },
{
    let mut ed = LineEditor::new();
    let mut i: usize = 0;
    proof {
        assert(input@.skip(0) =~= input@);
    }
    while i < input.len()
        invariant
            0 <= i <= input@.len(),
            !ed.done,
            line_of(input@) == line_from(ed.buf@, ed.esc, input@.skip(i as int)),
        decreases input@.len() - i,
    {
        let b = input[i];
        proof {
            assert(input@.skip(i as int).drop_first() =~= input@.skip(i as int + 1));
            assert(input@.skip(i as int)[0] == input@[i as int]);
        }
        ed.step(b);
        i = i + 1;
        if ed.done {
            return Some(ed.buf);
        }
    }
    proof {
        assert(input@.skip(i as int).len() == 0);
    }
    None
}

} // verus!
