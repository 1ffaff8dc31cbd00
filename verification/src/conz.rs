//! Console message model: output categories, message values that the
//! engine hands to its caller for printing, and the yes/no reader fed
//! from a pre-supplied token queue.
//!
//! The engine never prints by itself: every function here and in the
//! rest of the crate returns `Msg` values; the binary around the
//! library renders them with the colour that belongs to each category.

use vstd::prelude::*;
use vstd::string::StringSliceAdditionalSpecFns;
use std::collections::VecDeque;

verus! {

/// The five fixed output categories; each maps to one terminal colour.
#[derive(Clone, Copy, PartialEq, Eq, Structural, Debug)]
pub enum MsgType {
    Normal,
    Error,
    Prompt,
    Highlight,
    Value,
}

/// One fragment of user-visible output: its category, its text as raw
/// bytes, and whether a line break follows it.
pub struct Msg {
    pub kind: MsgType,
    pub text: Vec<u8>,
    pub newline: bool,
}

/// One message with exactly this category, text and line break.
pub open spec fn msg_is(m: Msg, k: MsgType, text: Seq<u8>, nl: bool) -> bool {
    m.kind == k && m.text@ == text && m.newline == nl
}

/// An entity that can render itself as messages.
pub trait Printable {
    fn print(&self) -> (r: Vec<Msg>);
}

/// An entity that can render itself as one row of a table: the cell
/// texts with one category each, under fixed column titles and widths.
pub trait PrettyPrintable {
    type ArgType;

    fn pretty_print(&self, arg: &Self::ArgType) -> (r: (Vec<Vec<u8>>, Vec<MsgType>))
        ensures
            r.0@.len() == r.1@.len(),
    ;

    fn lengths(arg: &Self::ArgType) -> (r: Vec<u16>);

    fn titles(arg: &Self::ArgType) -> (r: Vec<Vec<u8>>);
}

/// The bytes of a string literal, so that contracts can speak of fixed
/// texts through `spec_bytes`.
pub fn lit(s: &str) -> (r: Vec<u8>)
    ensures
        r@ == s.spec_bytes(),
{
    vstd::slice::slice_to_vec(s.as_bytes())
}

/// A message carrying a fixed text.
pub fn msg(kind: MsgType, s: &str, newline: bool) -> (m: Msg)
    ensures
        m.kind == kind,
        m.text@ == s.spec_bytes(),
        m.newline == newline,
{
    Msg { kind, text: lit(s), newline }
}

/// A message carrying already-built bytes.
pub fn msg_bytes(kind: MsgType, text: Vec<u8>, newline: bool) -> (m: Msg)
    ensures
        m.kind == kind,
        m.text == text,
        m.newline == newline,
{
    Msg { kind, text, newline }
}

/// A copy of a byte string.
pub fn clone_bytes(v: &Vec<u8>) -> (r: Vec<u8>)
    ensures
        r@ == v@,
{
    vstd::slice::slice_to_vec(v.as_slice())
}

/// Exact byte equality of two byte strings.
pub fn bytes_eq(a: &Vec<u8>, b: &Vec<u8>) -> (r: bool)
    ensures
        r == (a@ == b@),
{
    if a.len() != b.len() {
        return false;
    }
    let mut i: usize = 0;
    while i < a.len()
        invariant
            0 <= i <= a@.len(),
            a@.len() == b@.len(),
            forall|j: int| 0 <= j < i ==> a@[j] == b@[j],
        decreases a@.len() - i,
    {
        if a[i] != b[i] {
            return false;
        }
        i = i + 1;
    }
    proof {
        assert(a@ =~= b@);
    }
    true
}

/// The affirmative answers accepted by `read_bool`.
pub open spec fn is_yes(s: Seq<u8>) -> bool {
    ||| s == "y".spec_bytes()
    ||| s == "ye".spec_bytes()
    ||| s == "yes".spec_bytes()
    ||| s == "ok".spec_bytes()
    ||| s == "+".spec_bytes()
}

/// Whether one line of input counts as an affirmative answer.
pub fn read_bool_line(line: &Vec<u8>) -> (r: bool)
    ensures
        r == is_yes(line@),
{
    if bytes_eq(line, &lit("y")) {
        true
    } else if bytes_eq(line, &lit("ye")) {
        true
    } else if bytes_eq(line, &lit("yes")) {
        true
    } else if bytes_eq(line, &lit("ok")) {
        true
    } else if bytes_eq(line, &lit("+")) {
        true
    } else {
        false
    }
}

/// Reads a yes/no answer from the pre-supplied token queue, if one is
/// there. `None` means the caller must fall back to an interactive
/// line read and decide with `read_bool_line`; this happens exactly
/// when no queue was supplied or the queue is exhausted.
pub fn read_bool(inputs: &mut Option<VecDeque<Vec<u8>>>) -> (r: Option<bool>)
    ensures
        (*old(inputs)) is None ==> r is None && (*final(inputs)) is None,
        (*old(inputs)) matches Some(q) ==> ({
            &&& q@.len() == 0 ==> r is None
            &&& q@.len() > 0 ==> r == Some(is_yes(q@[0]@))
            &&& (*final(inputs)) matches Some(q2)
                && q2@ == (if q@.len() == 0 { q@ } else { q@.drop_first() })
        }),
{
    match inputs {
        None => None,
        Some(q) => {
            match q.pop_front() {
                None => None,
                Some(line) => Some(read_bool_line(&line)),
            }
        }
    }
}

} // verus!
