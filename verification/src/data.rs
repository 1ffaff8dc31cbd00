//! The plain data model behind the commands: points (dated events),
//! todos with an urgency, decimal rendering, and the calendar
//! operations. A moment is carried as a Unix timestamp in seconds;
//! only rendering a moment as text, naming its weekday, parsing one
//! from text and reading the clock are left to the calendar library,
//! behind trusted wrappers.

use vstd::prelude::*;
use vstd::string::StringSliceAdditionalSpecFns;
use crate::conz::MsgType;
use crate::conz::Msg;
use crate::conz::PrettyPrintable;
use crate::conz::Printable;

verus! {

/// The "dd-mm-yyyy hh:mm:ss" text of a moment; a function of the
/// timestamp alone.
pub uninterp spec fn dt_text_of(t: i64) -> Seq<u8>;

/// The seven English weekday names, Sunday first.
pub open spec fn dayname_table() -> Seq<Seq<u8>> {
    seq![
        "Sunday".spec_bytes(),
        "Monday".spec_bytes(),
        "Tuesday".spec_bytes(),
        "Wednesday".spec_bytes(),
        "Thursday".spec_bytes(),
        "Friday".spec_bytes(),
        "Saturday".spec_bytes(),
    ]
}

/// The English weekday name of a moment: day zero of the epoch was a
/// Thursday, and each whole day of 86400 seconds advances the week.
pub open spec fn dt_dayname_of(t: i64) -> Seq<u8> {
    dayname_table()[((t as int) / 86400 + 4) % 7]
}

/// The moment named by a "dd-mm-yyyy hh:mm:ss" text, if it parses; a
/// function of the text alone.
pub uninterp spec fn dt_parse_of(s: Seq<u8>) -> Option<i64>;

/// Relies on chrono::Local::now; nothing is promised of the moment it
/// reports.
#[verifier::external_body]
pub fn dt_now() -> i64 {
    chrono::Local::now().timestamp()
}

/// Relies on chrono::DateTime::from_timestamp and chrono's `format`:
/// the rendered text depends on the timestamp alone.
#[verifier::external_body]
pub fn dt_text(t: i64) -> (r: Vec<u8>)
    ensures
        r@ == dt_text_of(t),
{
    match chrono::DateTime::<chrono::Utc>::from_timestamp(t, 0) {
        Some(d) => d.format("%d-%m-%Y %H:%M:%S").to_string().into_bytes(),
        None => Vec::new(),
    }
}

/// A whole number of weeks in seconds, large enough to shift any
/// timestamp into the non-negative range.
const WEEK_SHIFT: i128 = 9223372036855065600;

/// The English weekday name of a moment.
pub fn dt_dayname(t: i64) -> (r: Vec<u8>)
    ensures
        r@ == dt_dayname_of(t),
{
    proof {
        assert(t as i128 + WEEK_SHIFT >= 0);
    }
    let u: u128 = ((t as i128) + WEEK_SHIFT) as u128;
    let days: u128 = u / 86400;
    let idx: u128 = (days + 4) % 7;
    proof {
        let ti = t as int;
        let q = ti / 86400;
        let r0 = ti % 86400;
        vstd::arithmetic::div_mod::lemma_fundamental_div_mod(ti, 86400);
        vstd::arithmetic::div_mod::lemma_mod_bound(ti, 86400);
        assert(u as int == 86400 * (q + 106751991167304) + r0);
        vstd::arithmetic::div_mod::lemma_div_multiples_vanish_fancy(
            q + 106751991167304,
            r0,
            86400,
        );
        assert(days as int == q + 106751991167304);
        assert(days as int + 4 == 7 * 15250284452472 + (q + 4));
        vstd::arithmetic::div_mod::lemma_mod_multiples_vanish(15250284452472, q + 4, 7);
        assert(idx as int == (q + 4) % 7);
        vstd::arithmetic::div_mod::lemma_mod_bound(q + 4, 7);
    }
    if idx == 0 {
        crate::conz::lit("Sunday")
    } else if idx == 1 {
        crate::conz::lit("Monday")
    } else if idx == 2 {
        crate::conz::lit("Tuesday")
    } else if idx == 3 {
        crate::conz::lit("Wednesday")
    } else if idx == 4 {
        crate::conz::lit("Thursday")
    } else if idx == 5 {
        crate::conz::lit("Friday")
    } else {
        crate::conz::lit("Saturday")
    }
}

/// Relies on chrono::NaiveDateTime::parse_from_str: whether a text
/// parses as "dd-mm-yyyy hh:mm:ss", and the moment it names, depend on
/// the text alone.
#[verifier::external_body]
pub fn dt_parse(s: &Vec<u8>) -> (r: Option<i64>)
    ensures
        r == dt_parse_of(s@),
{
    match std::str::from_utf8(s.as_slice()) {
        Ok(txt) => match chrono::NaiveDateTime::parse_from_str(txt, "%d-%m-%Y %H:%M:%S") {
            Ok(d) => Some(d.and_utc().timestamp()),
            Err(_) => None,
        },
        Err(_) => None,
    }
}

/// The decimal digits of a number, most significant first.
pub open spec fn digits_of(n: nat) -> Seq<u8>
    decreases n,
{
    if n < 10 {
        seq![(48 + n) as u8]
    } else {
        digits_of(n / 10).push((48 + n % 10) as u8)
    }
}

/// Renders a number in decimal.
pub fn fmt_u64(n: u64) -> (r: Vec<u8>)
    ensures
        r@ == digits_of(n as nat),
    decreases n,
{
    if n < 10 {
        let mut v: Vec<u8> = Vec::new();
        v.push(48 + n as u8);
        v
    } else {
        let mut v = fmt_u64(n / 10);
        v.push(48 + (n % 10) as u8);
        v
    }
}

/// Whether every byte is a decimal digit.
pub open spec fn all_digits(s: Seq<u8>) -> bool {
    forall|i: int| 0 <= i < s.len() ==> 48 <= #[trigger] s[i] <= 57
}

/// The number a digit string denotes.
pub open spec fn dec_val(s: Seq<u8>) -> int
    decreases s.len(),
{
    if s.len() == 0 {
        0
    } else {
        dec_val(s.drop_last()) * 10 + (s.last() - 48)
    }
}

proof fn lemma_dec_val_nonneg(s: Seq<u8>)
    requires
        all_digits(s),
    ensures
        dec_val(s) >= 0,
    decreases s.len(),
{
    if s.len() > 0 {
        assert(all_digits(s.drop_last()));
        lemma_dec_val_nonneg(s.drop_last());
    }
}

proof fn lemma_dec_val_prefix(s: Seq<u8>, i: int)
    requires
        all_digits(s),
        0 <= i <= s.len(),
    ensures
        dec_val(s.take(i)) <= dec_val(s),
    decreases s.len() - i,
{
    if i < s.len() {
        assert(s.take(i + 1).drop_last() =~= s.take(i));
        assert(s.take(i + 1).last() == s[i]);
        assert(all_digits(s.take(i)));
        lemma_dec_val_nonneg(s.take(i));
        lemma_dec_val_prefix(s, i + 1);
    } else {
        assert(s.take(i) =~= s);
    }
}

/// Parses an unsigned decimal number: the denoted value exactly when
/// the text is non-empty, all digits, and the value fits.
pub fn parse_u16(s: &Vec<u8>) -> (r: Option<u16>)
    ensures
        r matches Some(v) ==> s@.len() > 0 && all_digits(s@) && v == dec_val(s@),
        r is None ==> s@.len() == 0 || !all_digits(s@) || dec_val(s@) > u16::MAX,
{
    if s.len() == 0 {
        return None;
    }
    let mut acc: u32 = 0;
    let mut i: usize = 0;
    while i < s.len()
        invariant
            0 < s@.len(),
            0 <= i <= s@.len(),
            all_digits(s@.take(i as int)),
            acc == dec_val(s@.take(i as int)),
            acc <= u16::MAX,
        decreases s@.len() - i,
    {
        let b = s[i];
        proof {
            assert(s@.take(i as int + 1).drop_last() =~= s@.take(i as int));
            assert(s@.take(i as int + 1).last() == s@[i as int]);
        }
        if b < 48 || b > 57 {
            return None;
        }
        acc = acc * 10 + (b - 48) as u32;
        if acc > 65535 {
            proof {
                if all_digits(s@) {
                    lemma_dec_val_prefix(s@, i as int + 1);
                }
            }
            return None;
        }
        i += 1;
    }
    proof {
        assert(s@.take(s@.len() as int) =~= s@);
    }
    Some(acc as u16)
}

/// A point: a titled moment (an appointment or event).
pub struct Point {
    pub title: Vec<u8>,
    pub dt: i64,
}

/// A todo: a titled task with an urgency.
pub struct Todo {
    pub title: Vec<u8>,
    pub urgency: u16,
}

/// A todo at or above this urgency is listed as current.
pub const TODO_URGENCY: u16 = 100;

/// A todo at or above this urgency, below the current band, is listed
/// as long-term; anything lower is an idea.
pub const LONGTERM_URGENCY: u16 = 10;

impl Printable for Point {
    fn print(&self) -> (r: Vec<Msg>)
        ensures
            r@.len() == 2,
            r@[0].kind == MsgType::Normal && r@[0].text@ == self.title@ && r@[0].newline,
            r@[1].kind == MsgType::Value && r@[1].text@ == dt_text_of(self.dt) && r@[1].newline,
    {
        let mut r: Vec<Msg> = Vec::new();
        r.push(Msg { kind: MsgType::Normal, text: crate::conz::clone_bytes(&self.title), newline: true });
        r.push(Msg { kind: MsgType::Value, text: dt_text(self.dt), newline: true });
        r
    }
}

impl PrettyPrintable for Point {
    type ArgType = i64;

    fn pretty_print(&self, arg: &i64) -> (r: (Vec<Vec<u8>>, Vec<MsgType>))
        ensures
            r.0@.len() == r.1@.len(),
            r.0@.len() == 2,
            r.0@[0]@ == self.title@ && r.1@[0] == MsgType::Normal,
            r.0@[1]@ == dt_text_of(self.dt) && r.1@[1] == MsgType::Value,
    {
        let mut cells: Vec<Vec<u8>> = Vec::new();
        let mut kinds: Vec<MsgType> = Vec::new();
        cells.push(crate::conz::clone_bytes(&self.title));
        kinds.push(MsgType::Normal);
        cells.push(dt_text(self.dt));
        kinds.push(MsgType::Value);
        (cells, kinds)
    }

    fn lengths(arg: &i64) -> (r: Vec<u16>)
        ensures
            r@ == seq![32u16, 23u16],
    {
        let mut r: Vec<u16> = Vec::new();
        r.push(32);
        r.push(23);
        proof {
            assert(r@ =~= seq![32u16, 23u16]);
        }
        r
    }

    fn titles(arg: &i64) -> (r: Vec<Vec<u8>>)
        ensures
            r@.len() == 2,
            r@[0]@ == "title".spec_bytes(),
            r@[1]@ == "date".spec_bytes(),
    {
        let mut r: Vec<Vec<u8>> = Vec::new();
        r.push(crate::conz::lit("title"));
        r.push(crate::conz::lit("date"));
        r
    }
}

impl PrettyPrintable for Todo {
    type ArgType = bool;

    fn pretty_print(&self, arg: &bool) -> (r: (Vec<Vec<u8>>, Vec<MsgType>))
        ensures
            r.0@.len() == r.1@.len(),
            r.0@.len() == 2,
            r.0@[0]@ == digits_of(self.urgency as nat) && r.1@[0] == MsgType::Value,
            r.0@[1]@ == self.title@ && r.1@[1] == MsgType::Normal,
    {
        let mut cells: Vec<Vec<u8>> = Vec::new();
        let mut kinds: Vec<MsgType> = Vec::new();
        cells.push(fmt_u64(self.urgency as u64));
        kinds.push(MsgType::Value);
        cells.push(crate::conz::clone_bytes(&self.title));
        kinds.push(MsgType::Normal);
        (cells, kinds)
    }

    fn lengths(arg: &bool) -> (r: Vec<u16>)
        ensures
            r@ == seq![5u16, 32u16],
    {
        let mut r: Vec<u16> = Vec::new();
        r.push(5);
        r.push(32);
        proof {
            assert(r@ =~= seq![5u16, 32u16]);
        }
        r
    }

    fn titles(arg: &bool) -> (r: Vec<Vec<u8>>)
        ensures
            r@.len() == 2,
            r@[0]@ == "urgency".spec_bytes(),
            r@[1]@ == "title".spec_bytes(),
    {
        let mut r: Vec<Vec<u8>> = Vec::new();
        r.push(crate::conz::lit("urgency"));
        r.push(crate::conz::lit("title"));
        r
    }
}

} // verus!
