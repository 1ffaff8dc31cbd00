//! The command handlers. Each one takes the session state, the full
//! token sequence of the matched command, and the pre-supplied queue
//! of structured inputs; it returns the messages to print, the
//! prompts still to be answered interactively (if the queue did not
//! cover them), and at most one file the surrounding program must
//! fetch. Handlers never read the terminal or the disk themselves.

use vstd::prelude::*;
use vstd::string::StringSliceAdditionalSpecFns;
use std::collections::VecDeque;
use crate::conz::Msg;
use crate::conz::MsgType;
use crate::conz::msg;
use crate::conz::msg_is;
use crate::conz::msg_bytes;
use crate::conz::clone_bytes;
use crate::conz::bytes_eq;
use crate::conz::read_bool;
use crate::data::Point;
use crate::data::Todo;
use crate::data::dt_text;
use crate::data::dt_text_of;
use crate::data::dt_dayname;
use crate::data::dt_dayname_of;
use crate::data::dt_parse;
use crate::data::dt_parse_of;
use crate::data::fmt_u64;
use crate::data::digits_of;
use crate::data::parse_u16;
use crate::data::dec_val;
use crate::data::all_digits;
use crate::data::TODO_URGENCY;
use crate::data::LONGTERM_URGENCY;
use crate::state::State;
use crate::parser::CmdId;

verus! {

/// What one handler invocation asks of its caller: messages to print,
/// prompts whose answers must be collected into a fresh input queue
/// before invoking the handler again, and at most one file to fetch
/// and print.
pub struct Reply {
    pub msgs: Vec<Msg>,
    pub prompts: Vec<Vec<u8>>,
    pub file: Option<Vec<u8>>,
}

/// A reply that asks nothing further of the caller.
pub open spec fn done(r: Reply) -> bool {
    r.prompts@.len() == 0 && r.file is None
}

/// Whether the queue holds at least `n` pre-supplied inputs.
pub open spec fn has_n(oq: Option<VecDeque<Vec<u8>>>, n: int) -> bool {
    oq matches Some(q) && q@.len() >= n
}

/// Takes the next `n` inputs off the queue, all or nothing.
pub fn take_inputs(inputs: &mut Option<VecDeque<Vec<u8>>>, n: usize) -> (r: Option<Vec<Vec<u8>>>)
    ensures
        !has_n(*old(inputs), n as int) ==> r is None && *final(inputs) == *old(inputs),
        has_n(*old(inputs), n as int) ==> ({
            &&& (*old(inputs)) matches Some(q)
            &&& r matches Some(v) && v@.len() == n
                && (forall|i: int| 0 <= i < n ==> v@[i] == q@[i])
                && ((*final(inputs)) matches Some(q2) && q2@ == q@.skip(n as int))
        }),
{
    match inputs {
        None => None,
        Some(q) => {
            if q.len() < n {
                return None;
            }
            let ghost q0 = q@;
            let mut v: Vec<Vec<u8>> = Vec::new();
            let mut i: usize = 0;
            while i < n
                invariant
                    0 <= i <= n,
                    n <= q0.len(),
                    v@.len() == i,
                    q@ == q0.skip(i as int),
                    forall|j: int| 0 <= j < i ==> v@[j] == q0[j],
                decreases n - i,
            {
                proof {
                    assert(q0.skip(i as int)[0] == q0[i as int]);
                    assert(q0.skip(i as int).drop_first() =~= q0.skip(i as int + 1));
                }
                let x = match q.pop_front() {
                    Some(x) => x,
                    None => {
                        proof {
                            assert(false);
                        }
                        Vec::new()
                    }
                };
                v.push(x);
                i += 1;
            }
            Some(v)
        }
    }
}

/// The number of entries equal to `t`.
pub open spec fn num_eq(s: Seq<Seq<u8>>, t: Seq<u8>) -> int
    decreases s.len(),
{
    if s.len() == 0 {
        0
    } else {
        num_eq(s.drop_last(), t) + if s.last() == t {
            1int
        } else {
            0int
        }
    }
}

/// The index of the first entry equal to `t`, or -1.
pub open spec fn first_eq(s: Seq<Seq<u8>>, t: Seq<u8>) -> int
    decreases s.len(),
{
    if s.len() == 0 {
        -1
    } else if s[0] == t {
        0
    } else if first_eq(s.drop_first(), t) < 0 {
        -1
    } else {
        first_eq(s.drop_first(), t) + 1
    }
}

/// `first_eq` finds the first equal entry, and -1 means none.
pub proof fn lemma_first_eq(s: Seq<Seq<u8>>, t: Seq<u8>)
    ensures
        first_eq(s, t) == -1 ==> forall|j: int| 0 <= j < s.len() ==> s[j] != t,
        first_eq(s, t) != -1 ==> 0 <= first_eq(s, t) < s.len() && s[first_eq(s, t)] == t
            && (forall|j: int| 0 <= j < first_eq(s, t) ==> s[j] != t),
    decreases s.len(),
{
    if s.len() > 0 && s[0] != t {
        let st = s.drop_first();
        lemma_first_eq(st, t);
        if first_eq(st, t) == -1 {
            assert forall|j: int| 0 <= j < s.len() implies s[j] != t by {
                if j > 0 {
                    assert(s[j] == st[j - 1]);
                }
            }
        } else {
            let ki = first_eq(st, t) + 1;
            assert(s[ki] == st[ki - 1]);
            assert forall|j: int| 0 <= j < ki implies s[j] != t by {
                if j > 0 {
                    assert(s[j] == st[j - 1]);
                }
            }
        }
    }
}

/// The titles of a sequence of points.
pub open spec fn point_titles_spec(s: Seq<Point>) -> Seq<Seq<u8>> {
    s.map_values(|p: Point| p.title@)
}

/// The titles of a sequence of todos.
pub open spec fn todo_titles_spec(s: Seq<Todo>) -> Seq<Seq<u8>> {
    s.map_values(|p: Todo| p.title@)
}

/// How many entries match the term, and where the first one stands.
fn count_matches(titles: &Vec<Vec<u8>>, term: &Vec<u8>) -> (r: (usize, usize))
    ensures
        r.0 == num_eq(crate::parser::tok_views(titles@), term@),
        r.0 > 0 ==> r.1 < titles@.len()
            && first_eq(crate::parser::tok_views(titles@), term@) == r.1,
{
    let ghost tv = crate::parser::tok_views(titles@);
    let mut count: usize = 0;
    let mut first: usize = 0;
    let mut i: usize = 0;
    while i < titles.len()
        invariant
            tv == crate::parser::tok_views(titles@),
            0 <= i <= titles@.len(),
            count <= i,
            count == num_eq(tv.take(i as int), term@),
            count > 0 ==> first < i && tv[first as int] == term@
                && (forall|j: int| 0 <= j < first ==> tv[j] != term@),
            count == 0 ==> forall|j: int| 0 <= j < i ==> tv[j] != term@,
        decreases titles@.len() - i,
    {
        proof {
            assert(tv.len() == titles@.len());
            assert(tv.take(i as int + 1).drop_last() =~= tv.take(i as int));
            assert(tv.take(i as int + 1).last() == tv[i as int]);
            assert(tv[i as int] == titles@[i as int]@);
        }
        if bytes_eq(&titles[i], term) {
            if count == 0 {
                first = i;
            }
            count += 1;
        }
        i += 1;
    }
    proof {
        assert(tv.take(titles@.len() as int) =~= tv);
        if count > 0 {
            lemma_first_eq(tv, term@);
        }
    }
    (count, first)
}

fn point_titles(items: &Vec<Point>) -> (r: Vec<Vec<u8>>)
    ensures
        crate::parser::tok_views(r@) == point_titles_spec(items@),
{
    let mut r: Vec<Vec<u8>> = Vec::new();
    let mut i: usize = 0;
    while i < items.len()
        invariant
            0 <= i <= items@.len(),
            r@.len() == i,
            forall|j: int| 0 <= j < i ==> r@[j]@ == items@[j].title@,
        decreases items@.len() - i,
    {
        r.push(clone_bytes(&items[i].title));
        i += 1;
    }
    proof {
        assert(crate::parser::tok_views(r@) =~= point_titles_spec(items@));
    }
    r
}

fn todo_titles(items: &Vec<Todo>) -> (r: Vec<Vec<u8>>)
    ensures
        crate::parser::tok_views(r@) == todo_titles_spec(items@),
{
    let mut r: Vec<Vec<u8>> = Vec::new();
    let mut i: usize = 0;
    while i < items.len()
        invariant
            0 <= i <= items@.len(),
            r@.len() == i,
            forall|j: int| 0 <= j < i ==> r@[j]@ == items@[j].title@,
        decreases items@.len() - i,
    {
        r.push(clone_bytes(&items[i].title));
        i += 1;
    }
    proof {
        assert(crate::parser::tok_views(r@) =~= todo_titles_spec(items@));
    }
    r
}

/// One listing row per point: its title, a space, and its date.
pub open spec fn point_rows_ok(msgs: Seq<Msg>, base: int, items: Seq<Point>) -> bool {
    forall|i: int| 0 <= i < items.len() ==> ({
        &&& msg_is(msgs[base + 2 * i], MsgType::Normal, (#[trigger] items[i]).title@ + seq![32u8], false)
        &&& msg_is(msgs[base + 2 * i + 1], MsgType::Value, dt_text_of(items[i].dt), true)
    })
}

fn push_point_rows(out: &mut Vec<Msg>, items: &Vec<Point>)
    ensures
        final(out)@.len() == old(out)@.len() + 2 * items@.len(),
        forall|j: int| 0 <= j < old(out)@.len() ==> final(out)@[j] == old(out)@[j],
        point_rows_ok(final(out)@, old(out)@.len() as int, items@),
{
    let mut i: usize = 0;
    while i < items.len()
        invariant
            0 <= i <= items@.len(),
            out@.len() == old(out)@.len() + 2 * i,
            forall|j: int| 0 <= j < old(out)@.len() ==> out@[j] == old(out)@[j],
            point_rows_ok(out@, old(out)@.len() as int, items@.take(i as int)),
        decreases items@.len() - i,
    {
        let mut title = clone_bytes(&items[i].title);
        title.push(32);
        proof {
            assert(title@ =~= items@[i as int].title@ + seq![32u8]);
        }
        out.push(msg_bytes(MsgType::Normal, title, false));
        out.push(msg_bytes(MsgType::Value, dt_text(items[i].dt), true));
        proof {
            assert(items@.take(i as int + 1).drop_last() =~= items@.take(i as int));
        }
        i += 1;
    }
    proof {
        assert(items@.take(items@.len() as int) =~= items@);
    }
}

/// The view of a todo: its title bytes and its urgency.
pub open spec fn todo_view(td: Todo) -> (Seq<u8>, u16) {
    (td.title@, td.urgency)
}

/// The views of a sequence of todos.
pub open spec fn todo_views(s: Seq<Todo>) -> Seq<(Seq<u8>, u16)> {
    s.map_values(|td: Todo| todo_view(td))
}

/// One listing row per todo: its urgency, a space, and its title.
pub open spec fn todo_rows_ok(msgs: Seq<Msg>, base: int, items: Seq<(Seq<u8>, u16)>) -> bool {
    forall|i: int| 0 <= i < items.len() ==> msg_is(
        msgs[base + i],
        MsgType::Normal,
        digits_of((#[trigger] items[i]).1 as nat) + seq![32u8] + items[i].0,
        true,
    )
}

fn push_todo_rows(out: &mut Vec<Msg>, items: &Vec<Todo>)
    ensures
        final(out)@.len() == old(out)@.len() + items@.len(),
        forall|j: int| 0 <= j < old(out)@.len() ==> final(out)@[j] == old(out)@[j],
        todo_rows_ok(final(out)@, old(out)@.len() as int, todo_views(items@)),
{
    let mut i: usize = 0;
    while i < items.len()
        invariant
            0 <= i <= items@.len(),
            out@.len() == old(out)@.len() + i,
            forall|j: int| 0 <= j < old(out)@.len() ==> out@[j] == old(out)@[j],
            todo_rows_ok(out@, old(out)@.len() as int, todo_views(items@.take(i as int))),
        decreases items@.len() - i,
    {
        let mut text = fmt_u64(items[i].urgency as u64);
        text.push(32);
        let mut k: usize = 0;
        let ghost mid = text@;
        while k < items[i].title.len()
            invariant
                0 <= k <= items@[i as int].title@.len(),
                i < items@.len(),
                text@ == mid + items@[i as int].title@.take(k as int),
            decreases items@[i as int].title@.len() - k,
        {
            text.push(items[i].title[k]);
            proof {
                assert(mid + items@[i as int].title@.take(k as int + 1)
                    =~= (mid + items@[i as int].title@.take(k as int)).push(
                        items@[i as int].title@[k as int],
                    ));
            }
            k += 1;
        }
        proof {
            assert(items@[i as int].title@.take(items@[i as int].title@.len() as int)
                =~= items@[i as int].title@);
            assert(text@ =~= digits_of(items@[i as int].urgency as nat) + seq![32u8]
                + items@[i as int].title@);
        }
        let ghost prev = out@;
        out.push(msg_bytes(MsgType::Normal, text, true));
        proof {
            let base = old(out)@.len() as int;
            let nv = todo_views(items@.take(i as int + 1));
            assert(nv.len() == i + 1);
            assert forall|ii: int| 0 <= ii < nv.len() implies msg_is(
                out@[base + ii],
                MsgType::Normal,
                digits_of((#[trigger] nv[ii]).1 as nat) + seq![32u8] + nv[ii].0,
                true,
            ) by {
                if ii < i {
                    assert(nv[ii] == todo_view(items@.take(i as int + 1)[ii]));
                    assert(items@.take(i as int + 1)[ii] == items@.take(i as int)[ii]);
                    assert(todo_views(items@.take(i as int))[ii]
                        == todo_view(items@.take(i as int)[ii]));
                    assert(out@[base + ii] == prev[base + ii]);
                } else {
                    assert(nv[ii] == todo_view(items@.take(i as int + 1)[ii]));
                    assert(items@.take(i as int + 1)[ii] == items@[i as int]);
                    assert(out@[base + ii] == out@.last());
                }
            }
        }
        i += 1;
    }
    proof {
        assert(items@.take(items@.len() as int) =~= items@);
    }
}

/// The urgency band of a todo: current (2), long-term (1), or idea (0).
pub open spec fn band_of(tv: (Seq<u8>, u16)) -> int {
    if tv.1 >= TODO_URGENCY {
        2
    } else if tv.1 >= LONGTERM_URGENCY {
        1
    } else {
        0
    }
}

/// The todos of one urgency band, in order.
pub open spec fn sel_band(s: Seq<(Seq<u8>, u16)>, b: int) -> Seq<(Seq<u8>, u16)>
    decreases s.len(),
{
    if s.len() == 0 {
        Seq::empty()
    } else if band_of(s.last()) == b {
        sel_band(s.drop_last(), b).push(s.last())
    } else {
        sel_band(s.drop_last(), b)
    }
}

/// Splits todos into current, long-term and idea, keeping order.
pub fn split_todos(items: &Vec<Todo>) -> (r: (Vec<Todo>, Vec<Todo>, Vec<Todo>))
    ensures
        todo_views(r.0@) == sel_band(todo_views(items@), 2),
        todo_views(r.1@) == sel_band(todo_views(items@), 1),
        todo_views(r.2@) == sel_band(todo_views(items@), 0),
{
    let mut to: Vec<Todo> = Vec::new();
    let mut lo: Vec<Todo> = Vec::new();
    let mut id: Vec<Todo> = Vec::new();
    let mut i: usize = 0;
    while i < items.len()
        invariant
            0 <= i <= items@.len(),
            todo_views(to@) == sel_band(todo_views(items@.take(i as int)), 2),
            todo_views(lo@) == sel_band(todo_views(items@.take(i as int)), 1),
            todo_views(id@) == sel_band(todo_views(items@.take(i as int)), 0),
        decreases items@.len() - i,
    {
        proof {
            assert(todo_views(items@.take(i as int + 1)).drop_last()
                =~= todo_views(items@.take(i as int)));
            assert(todo_views(items@.take(i as int + 1)).last()
                == todo_view(items@[i as int]));
        }
        let u = items[i].urgency;
        let item = Todo { title: clone_bytes(&items[i].title), urgency: u };
        let ghost gitem = item;
        proof {
            assert(todo_view(gitem) == todo_view(items@[i as int]));
        }
        if u >= TODO_URGENCY {
            let ghost gto = to@;
            to.push(item);
            proof {
                assert(todo_views(to@) =~= todo_views(gto).push(todo_view(gitem)));
            }
        } else if u >= LONGTERM_URGENCY {
            let ghost glo = lo@;
            lo.push(item);
            proof {
                assert(todo_views(lo@) =~= todo_views(glo).push(todo_view(gitem)));
            }
        } else {
            let ghost gid = id@;
            id.push(item);
            proof {
                assert(todo_views(id@) =~= todo_views(gid).push(todo_view(gitem)));
            }
        }
        i += 1;
    }
    proof {
        assert(items@.take(items@.len() as int) =~= items@);
    }
    (to, lo, id)
}


/// Appends one byte string to another.
fn append_bytes(dst: &mut Vec<u8>, src: &Vec<u8>)
    ensures
        final(dst)@ == old(dst)@ + src@,
{
    let mut k: usize = 0;
    while k < src.len()
        invariant
            0 <= k <= src@.len(),
            dst@ == old(dst)@ + src@.take(k as int),
        decreases src@.len() - k,
    {
        dst.push(src[k]);
        proof {
            assert(old(dst)@ + src@.take(k as int + 1)
                =~= (old(dst)@ + src@.take(k as int)).push(src@[k as int]));
        }
        k += 1;
    }
    proof {
        assert(src@.take(src@.len() as int) =~= src@);
        assert(dst@ =~= old(dst)@ + src@);
    }
}

/// The usage notes shown when the tool is invoked with a help flag.
pub fn help_cli() -> (r: Vec<Msg>)
    ensures
        r@.len() == 10,
        msg_is(r@[0], MsgType::Normal, "pplanner is an TUI/CLI program to manage your time.".spec_bytes(), true),
        msg_is(r@[1], MsgType::Normal, "To use it, start it and type commands in its prompt.".spec_bytes(), true),
        msg_is(r@[2], MsgType::Normal, "Type ".spec_bytes(), false),
        msg_is(r@[3], MsgType::Highlight, "help".spec_bytes(), false),
        msg_is(r@[4], MsgType::Normal, " in its prompt to get help on commands.".spec_bytes(), true),
        msg_is(r@[5], MsgType::Normal, "Give a pplanner command as cli argument to run it directly from the terminal.".spec_bytes(), true),
        msg_is(r@[6], MsgType::Normal, "For example: ".spec_bytes(), false),
        msg_is(r@[7], MsgType::Highlight, "pplanner 'ls todos'".spec_bytes(), true),
        msg_is(r@[8], MsgType::Normal, "pplanner is made by ".spec_bytes(), false),
        msg_is(r@[9], MsgType::Prompt, "Cody Bloemhard.".spec_bytes(), true),
{
    let mut r: Vec<Msg> = Vec::new();
    r.push(msg(MsgType::Normal, "pplanner is an TUI/CLI program to manage your time.", true));
    r.push(msg(MsgType::Normal, "To use it, start it and type commands in its prompt.", true));
    r.push(msg(MsgType::Normal, "Type ", false));
    r.push(msg(MsgType::Highlight, "help", false));
    r.push(msg(MsgType::Normal, " in its prompt to get help on commands.", true));
    r.push(msg(MsgType::Normal, "Give a pplanner command as cli argument to run it directly from the terminal.", true));
    r.push(msg(MsgType::Normal, "For example: ", false));
    r.push(msg(MsgType::Highlight, "pplanner 'ls todos'", true));
    r.push(msg(MsgType::Normal, "pplanner is made by ", false));
    r.push(msg(MsgType::Prompt, "Cody Bloemhard.", true));
    r
}

/// Reports the current date, time and weekday.
/// What `now` guarantees, stated over the session state before
/// and after the call, the input queue, and the reply; the
/// dispatcher carries this for its callers.
pub open spec fn now_post(
    pre: State,
    pre_q: Option<VecDeque<Vec<u8>>>,
    post: State,
    post_q: Option<VecDeque<Vec<u8>>>,
    now_t: i64,
    r: Reply,
) -> bool {
    &&& (post_q == pre_q)
    &&& (post == pre)
    &&& (done(r))
    &&& (r.msgs@.len() == 4)
    &&& (msg_is(r.msgs@[0], MsgType::Normal, "Today:".spec_bytes(), true))
    &&& (msg_is(r.msgs@[1], MsgType::Value, dt_text_of(now_t), false))
    &&& (msg_is(r.msgs@[2], MsgType::Normal, " ".spec_bytes(), false))
    &&& (msg_is(r.msgs@[3], MsgType::Value, dt_dayname_of(now_t), true))
}

pub fn now(
    state: &mut State,
    _args: &Vec<Vec<u8>>,
    inputs: &mut Option<VecDeque<Vec<u8>>>,
    now_t: i64,
) -> (r: Reply)
    ensures
        now_post(*old(state), *old(inputs), *final(state), *final(inputs), now_t, r),
{
    let mut msgs: Vec<Msg> = Vec::new();
    msgs.push(msg(MsgType::Normal, "Today:", true));
    msgs.push(msg_bytes(MsgType::Value, dt_text(now_t), false));
    msgs.push(msg(MsgType::Normal, " ", false));
    msgs.push(msg_bytes(MsgType::Value, dt_dayname(now_t), true));
    Reply { msgs, prompts: Vec::new(), file: None }
}

/// Lists every registered command name.
/// What `ls_commands` guarantees, stated over the session state before
/// and after the call, the input queue, and the reply; the
/// dispatcher carries this for its callers.
pub open spec fn ls_commands_post(
    pre: State,
    pre_q: Option<VecDeque<Vec<u8>>>,
    post: State,
    post_q: Option<VecDeque<Vec<u8>>>,
    r: Reply,
) -> bool {
    &&& (post_q == pre_q)
    &&& (post == pre)
    &&& (done(r))
    &&& (r.msgs@.len() == 1 + pre.fset@.len())
    &&& (msg_is(r.msgs@[0], MsgType::Normal, "All commands: ".spec_bytes(), true))
    &&& (forall|i: int| 0 <= i < pre.fset@.len() ==> msg_is(
        r.msgs@[1 + i],
        MsgType::Normal,
        (#[trigger] pre.fset@[i])@,
        true,
    ))
}

pub fn ls_commands(
    state: &mut State,
    _args: &Vec<Vec<u8>>,
    inputs: &mut Option<VecDeque<Vec<u8>>>,
) -> (r: Reply)
    ensures
        ls_commands_post(*old(state), *old(inputs), *final(state), *final(inputs), r),
{
    let mut msgs: Vec<Msg> = Vec::new();
    msgs.push(msg(MsgType::Normal, "All commands: ", true));
    let mut i: usize = 0;
    while i < state.fset.len()
        invariant
            *state == *old(state),
            0 <= i <= state.fset@.len(),
            msgs@.len() == 1 + i,
            msg_is(msgs@[0], MsgType::Normal, "All commands: ".spec_bytes(), true),
            forall|j: int| 0 <= j < i ==> msg_is(
                msgs@[1 + j],
                MsgType::Normal,
                (#[trigger] state.fset@[j])@,
                true,
            ),
        decreases state.fset@.len() - i,
    {
        msgs.push(msg_bytes(MsgType::Normal, clone_bytes(&state.fset[i]), true));
        i += 1;
    }
    Reply { msgs, prompts: Vec::new(), file: None }
}

/// Creates a point from a title and a moment taken off the queue.
/// What `mk_point` guarantees, stated over the session state before
/// and after the call, the input queue, and the reply; the
/// dispatcher carries this for its callers.
pub open spec fn mk_point_post(
    pre: State,
    pre_q: Option<VecDeque<Vec<u8>>>,
    post: State,
    post_q: Option<VecDeque<Vec<u8>>>,
    r: Reply,
) -> bool {
    &&& (r.file is None)
    &&& (r.msgs@.len() >= 1 && msg_is(r.msgs@[0], MsgType::Normal, "Add point: ".spec_bytes(), true))
    &&& (!has_n(pre_q, 2) ==> ({
        &&& post == pre
        &&& post_q == pre_q
        &&& r.msgs@.len() == 1
        &&& r.prompts@.len() == 2 && r.prompts@[0]@ == "title: ".spec_bytes()
            && r.prompts@[1]@ == "deadline: ".spec_bytes()
    }))
    &&& (has_n(pre_q, 2) ==> ({
        &&& pre_q matches Some(q)
        &&& r.prompts@.len() == 0
        &&& (post_q matches Some(q2) && q2@ == q@.skip(2))
        &&& match dt_parse_of(q@[1]@) {
            None => post == pre && r.msgs@.len() == 2
                && msg_is(r.msgs@[1], MsgType::Error, "Error: could not parse datetime.".spec_bytes(), true),
            Some(d) => ({
                &&& post.points.items_spec()
                    == pre.points.items_spec().push(Point { title: q@[0], dt: d })
                &&& post.points.clean_spec()
                &&& post.points_archive == pre.points_archive
                &&& post.todos == pre.todos
                &&& post.todos_archive == pre.todos_archive
                &&& post.deadlines == pre.deadlines
                &&& post.fset == pre.fset
                &&& r.msgs@.len() == 2
                &&& msg_is(r.msgs@[1], MsgType::Highlight, "Success: Point saved.".spec_bytes(), true)
            }),
        }
    }))
}

pub fn mk_point(
    state: &mut State,
    _args: &Vec<Vec<u8>>,
    inputs: &mut Option<VecDeque<Vec<u8>>>,
) -> (r: Reply)
    ensures
        mk_point_post(*old(state), *old(inputs), *final(state), *final(inputs), r),
{
    let mut msgs: Vec<Msg> = Vec::new();
    msgs.push(msg(MsgType::Normal, "Add point: ", true));
    match take_inputs(inputs, 2) {
        None => {
            let mut prompts: Vec<Vec<u8>> = Vec::new();
            prompts.push(crate::conz::lit("title: "));
            prompts.push(crate::conz::lit("deadline: "));
            Reply { msgs, prompts, file: None }
        }
        Some(mut v) => {
            let title = v.remove(0);
            let dts = v.remove(0);
            match dt_parse(&dts) {
                None => {
                    msgs.push(msg(MsgType::Error, "Error: could not parse datetime.", true));
                    Reply { msgs, prompts: Vec::new(), file: None }
                }
                Some(d) => {
                    state.points.add_item(Point { title, dt: d });
                    let _ = state.points.write();
                    msgs.push(msg(MsgType::Highlight, "Success: Point saved.", true));
                    Reply { msgs, prompts: Vec::new(), file: None }
                }
            }
        }
    }
}

/// Creates a todo from a title and an urgency taken off the queue.
/// What `mk_todo` guarantees, stated over the session state before
/// and after the call, the input queue, and the reply; the
/// dispatcher carries this for its callers.
pub open spec fn mk_todo_post(
    pre: State,
    pre_q: Option<VecDeque<Vec<u8>>>,
    post: State,
    post_q: Option<VecDeque<Vec<u8>>>,
    r: Reply,
) -> bool {
    &&& (r.file is None)
    &&& (r.msgs@.len() >= 1 && msg_is(r.msgs@[0], MsgType::Normal, "Add todo: ".spec_bytes(), true))
    &&& (!has_n(pre_q, 2) ==> ({
        &&& post == pre
        &&& post_q == pre_q
        &&& r.msgs@.len() == 1
        &&& r.prompts@.len() == 2 && r.prompts@[0]@ == "title: ".spec_bytes()
            && r.prompts@[1]@ == "urgency: ".spec_bytes()
    }))
    &&& (has_n(pre_q, 2) ==> ({
        &&& pre_q matches Some(q)
        &&& r.prompts@.len() == 0
        &&& (post_q matches Some(q2) && q2@ == q@.skip(2))
        &&& if q@[1]@.len() > 0 && all_digits(q@[1]@) && dec_val(q@[1]@) <= u16::MAX {
            ({
                &&& post.todos.items_spec()
                    == pre.todos.items_spec().push(
                        Todo { title: q@[0], urgency: dec_val(q@[1]@) as u16 },
                    )
                &&& post.todos.clean_spec()
                &&& post.points == pre.points
                &&& post.points_archive == pre.points_archive
                &&& post.todos_archive == pre.todos_archive
                &&& post.deadlines == pre.deadlines
                &&& post.fset == pre.fset
                &&& r.msgs@.len() == 2
                &&& msg_is(r.msgs@[1], MsgType::Highlight, "Success: Todo saved.".spec_bytes(), true)
            })
        } else {
            post == pre && r.msgs@.len() == 2
                && msg_is(r.msgs@[1], MsgType::Error, "Error: could not parse urgency.".spec_bytes(), true)
        }
    }))
}

pub fn mk_todo(
    state: &mut State,
    _args: &Vec<Vec<u8>>,
    inputs: &mut Option<VecDeque<Vec<u8>>>,
) -> (r: Reply)
    ensures
        mk_todo_post(*old(state), *old(inputs), *final(state), *final(inputs), r),
{
    let mut msgs: Vec<Msg> = Vec::new();
    msgs.push(msg(MsgType::Normal, "Add todo: ", true));
    match take_inputs(inputs, 2) {
        None => {
            let mut prompts: Vec<Vec<u8>> = Vec::new();
            prompts.push(crate::conz::lit("title: "));
            prompts.push(crate::conz::lit("urgency: "));
            Reply { msgs, prompts, file: None }
        }
        Some(mut v) => {
            let title = v.remove(0);
            let us = v.remove(0);
            match parse_u16(&us) {
                None => {
                    msgs.push(msg(MsgType::Error, "Error: could not parse urgency.", true));
                    Reply { msgs, prompts: Vec::new(), file: None }
                }
                Some(u) => {
                    state.todos.add_item(Todo { title, urgency: u });
                    let _ = state.todos.write();
                    msgs.push(msg(MsgType::Highlight, "Success: Todo saved.", true));
                    Reply { msgs, prompts: Vec::new(), file: None }
                }
            }
        }
    }
}

/// Removes the single point whose title equals the searched term, and
/// archives it.
/// What `rm_points` guarantees, stated over the session state before
/// and after the call, the input queue, and the reply; the
/// dispatcher carries this for its callers.
pub open spec fn rm_points_post(
    pre: State,
    pre_q: Option<VecDeque<Vec<u8>>>,
    post: State,
    post_q: Option<VecDeque<Vec<u8>>>,
    r: Reply,
) -> bool {
    &&& (r.file is None)
    &&& (r.msgs@.len() >= 1 && msg_is(r.msgs@[0], MsgType::Normal, "Remove point: ".spec_bytes(), true))
    &&& (!has_n(pre_q, 1) ==> ({
        &&& post == pre
        &&& r.msgs@.len() == 1
        &&& r.prompts@.len() == 1 && r.prompts@[0]@ == "title: ".spec_bytes()
    }))
    &&& (has_n(pre_q, 1) ==> ({
        let q = pre_q->0;
        let titles = point_titles_spec(pre.points.items_spec());
        let n = num_eq(titles, q@[0]@);
        ({
            &&& r.prompts@.len() == 0
            &&& n == 0 ==> post == pre && r.msgs@.len() == 2
                && msg_is(r.msgs@[1], MsgType::Error, "Fail: no results found.".spec_bytes(), true)
            &&& n > 1 ==> post == pre && r.msgs@.len() == 2
                && msg_is(r.msgs@[1], MsgType::Error, "Fail: more than one result.".spec_bytes(), true)
            &&& n == 1 ==> ({
                let idx = first_eq(titles, q@[0]@);
                &&& post.points.items_spec()
                    == pre.points.items_spec().remove(idx)
                &&& post.points_archive.items_spec()
                    == pre.points_archive.items_spec().push(
                        pre.points.items_spec()[idx],
                    )
                &&& post.points.clean_spec()
                &&& post.points_archive.clean_spec()
                &&& post.todos == pre.todos
                &&& post.todos_archive == pre.todos_archive
                &&& post.deadlines == pre.deadlines
                &&& post.fset == pre.fset
                &&& r.msgs@.len() == 2
                &&& msg_is(r.msgs@[1], MsgType::Highlight, "Success: Removed point.".spec_bytes(), true)
            })
        })
    }))
}

pub fn rm_points(
    state: &mut State,
    _args: &Vec<Vec<u8>>,
    inputs: &mut Option<VecDeque<Vec<u8>>>,
) -> (r: Reply)
    ensures
        rm_points_post(*old(state), *old(inputs), *final(state), *final(inputs), r),
{
    let mut msgs: Vec<Msg> = Vec::new();
    msgs.push(msg(MsgType::Normal, "Remove point: ", true));
    match take_inputs(inputs, 1) {
        None => {
            let mut prompts: Vec<Vec<u8>> = Vec::new();
            prompts.push(crate::conz::lit("title: "));
            Reply { msgs, prompts, file: None }
        }
        Some(mut v) => {
            let term = v.remove(0);
            let titles = point_titles(state.points.get_items());
            let (count, fi) = count_matches(&titles, &term);
            if count == 0 {
                msgs.push(msg(MsgType::Error, "Fail: no results found.", true));
                Reply { msgs, prompts: Vec::new(), file: None }
            } else if count > 1 {
                msgs.push(msg(MsgType::Error, "Fail: more than one result.", true));
                Reply { msgs, prompts: Vec::new(), file: None }
            } else {
                let item = state.points.remove_item(fi);
                state.points_archive.add_item(item);
                let _ = state.points.write();
                let _ = state.points_archive.write();
                msgs.push(msg(MsgType::Highlight, "Success: Removed point.", true));
                Reply { msgs, prompts: Vec::new(), file: None }
            }
        }
    }
}

/// Removes the single todo whose title equals the searched term, and
/// archives it.
/// What `rm_todos` guarantees, stated over the session state before
/// and after the call, the input queue, and the reply; the
/// dispatcher carries this for its callers.
pub open spec fn rm_todos_post(
    pre: State,
    pre_q: Option<VecDeque<Vec<u8>>>,
    post: State,
    post_q: Option<VecDeque<Vec<u8>>>,
    r: Reply,
) -> bool {
    &&& (r.file is None)
    &&& (r.msgs@.len() >= 1 && msg_is(r.msgs@[0], MsgType::Normal, "Remove todo: ".spec_bytes(), true))
    &&& (!has_n(pre_q, 1) ==> ({
        &&& post == pre
        &&& r.msgs@.len() == 1
        &&& r.prompts@.len() == 1 && r.prompts@[0]@ == "title: ".spec_bytes()
    }))
    &&& (has_n(pre_q, 1) ==> ({
        let q = pre_q->0;
        let titles = todo_titles_spec(pre.todos.items_spec());
        let n = num_eq(titles, q@[0]@);
        ({
            &&& r.prompts@.len() == 0
            &&& n == 0 ==> post == pre && r.msgs@.len() == 2
                && msg_is(r.msgs@[1], MsgType::Error, "Fail: no results found.".spec_bytes(), true)
            &&& n > 1 ==> post == pre && r.msgs@.len() == 2
                && msg_is(r.msgs@[1], MsgType::Error, "Fail: more than one result.".spec_bytes(), true)
            &&& n == 1 ==> ({
                let idx = first_eq(titles, q@[0]@);
                &&& post.todos.items_spec()
                    == pre.todos.items_spec().remove(idx)
                &&& post.todos_archive.items_spec()
                    == pre.todos_archive.items_spec().push(
                        pre.todos.items_spec()[idx],
                    )
                &&& post.todos.clean_spec()
                &&& post.todos_archive.clean_spec()
                &&& post.points == pre.points
                &&& post.points_archive == pre.points_archive
                &&& post.deadlines == pre.deadlines
                &&& post.fset == pre.fset
                &&& r.msgs@.len() == 2
                &&& msg_is(r.msgs@[1], MsgType::Highlight, "Success: Removed todo.".spec_bytes(), true)
            })
        })
    }))
}

pub fn rm_todos(
    state: &mut State,
    _args: &Vec<Vec<u8>>,
    inputs: &mut Option<VecDeque<Vec<u8>>>,
) -> (r: Reply)
    ensures
        rm_todos_post(*old(state), *old(inputs), *final(state), *final(inputs), r),
{
    let mut msgs: Vec<Msg> = Vec::new();
    msgs.push(msg(MsgType::Normal, "Remove todo: ", true));
    match take_inputs(inputs, 1) {
        None => {
            let mut prompts: Vec<Vec<u8>> = Vec::new();
            prompts.push(crate::conz::lit("title: "));
            Reply { msgs, prompts, file: None }
        }
        Some(mut v) => {
            let term = v.remove(0);
            let titles = todo_titles(state.todos.get_items());
            let (count, fi) = count_matches(&titles, &term);
            if count == 0 {
                msgs.push(msg(MsgType::Error, "Fail: no results found.", true));
                Reply { msgs, prompts: Vec::new(), file: None }
            } else if count > 1 {
                msgs.push(msg(MsgType::Error, "Fail: more than one result.", true));
                Reply { msgs, prompts: Vec::new(), file: None }
            } else {
                let item = state.todos.remove_item(fi);
                state.todos_archive.add_item(item);
                let _ = state.todos.write();
                let _ = state.todos_archive.write();
                msgs.push(msg(MsgType::Highlight, "Success: Removed todo.", true));
                Reply { msgs, prompts: Vec::new(), file: None }
            }
        }
    }
}

/// The number of leading points that lie strictly before the moment.
pub open spec fn past_prefix(s: Seq<Point>, t: i64) -> int
    decreases s.len(),
{
    if s.len() == 0 {
        0
    } else if s[0].dt >= t {
        0
    } else {
        1 + past_prefix(s.drop_first(), t)
    }
}

fn past_prefix_len(items: &Vec<Point>, t: i64) -> (k: usize)
    ensures
        k == past_prefix(items@, t),
        k <= items@.len(),
{
    let mut k: usize = 0;
    let n = items.len();
    while k < n && items[k].dt < t
        invariant
            0 <= k <= n,
            n == items@.len(),
            forall|j: int| 0 <= j < k ==> (#[trigger] items@[j]).dt < t,
        decreases n - k,
    {
        k += 1;
    }
    proof {
        lemma_past_prefix(items@, t, k as int);
    }
    k
}

proof fn lemma_past_prefix(s: Seq<Point>, t: i64, k: int)
    requires
        0 <= k <= s.len(),
        forall|j: int| 0 <= j < k ==> (#[trigger] s[j]).dt < t,
        k == s.len() || s[k].dt >= t,
    ensures
        past_prefix(s, t) == k,
    decreases s.len(),
{
    if s.len() > 0 && k > 0 {
        let st = s.drop_first();
        assert forall|j: int| 0 <= j < k - 1 implies (#[trigger] st[j]).dt < t by {
            assert(st[j] == s[j + 1]);
        }
        if k - 1 < st.len() {
            assert(st[k - 1] == s[k]);
        }
        lemma_past_prefix(st, t, k - 1);
    }
}

/// After confirmation, removes every leading point that lies in the
/// past and archives it; stops at the first point not yet due.
/// What `clean_points` guarantees, stated over the session state before
/// and after the call, the input queue, and the reply; the
/// dispatcher carries this for its callers.
pub open spec fn clean_points_post(
    pre: State,
    pre_q: Option<VecDeque<Vec<u8>>>,
    post: State,
    post_q: Option<VecDeque<Vec<u8>>>,
    now_t: i64,
    r: Reply,
) -> bool {
    &&& (r.file is None)
    &&& (r.msgs@.len() >= 1 && msg_is(
        r.msgs@[0],
        MsgType::Normal,
        "Remove all points that are in the past: ".spec_bytes(),
        true,
    ))
    &&& (!has_n(pre_q, 1) ==> ({
        &&& post == pre
        &&& r.msgs@.len() == 1
        &&& r.prompts@.len() == 1 && r.prompts@[0]@ == "Sure to remove them?: ".spec_bytes()
    }))
    &&& (has_n(pre_q, 1) ==> ({
        let q = pre_q->0;
        ({
            &&& r.prompts@.len() == 0
            &&& !crate::conz::is_yes(q@[0]@) ==> post == pre
                && r.msgs@.len() == 1
            &&& crate::conz::is_yes(q@[0]@) ==> ({
                let k = past_prefix(pre.points.items_spec(), now_t);
                &&& post.points.items_spec()
                    == pre.points.items_spec().skip(k)
                &&& post.points_archive.items_spec()
                    == pre.points_archive.items_spec()
                        + pre.points.items_spec().take(k)
                &&& post.points.clean_spec()
                &&& post.points_archive.clean_spec()
                &&& post.todos == pre.todos
                &&& post.todos_archive == pre.todos_archive
                &&& post.deadlines == pre.deadlines
                &&& post.fset == pre.fset
                &&& r.msgs@.len() == 2
                &&& msg_is(r.msgs@[1], MsgType::Highlight, "Success: Removed points.".spec_bytes(), true)
            })
        })
    }))
}

pub fn clean_points(
    state: &mut State,
    _args: &Vec<Vec<u8>>,
    inputs: &mut Option<VecDeque<Vec<u8>>>,
    now_t: i64,
) -> (r: Reply)
    ensures
        clean_points_post(*old(state), *old(inputs), *final(state), *final(inputs), now_t, r),
{
    let mut msgs: Vec<Msg> = Vec::new();
    msgs.push(msg(MsgType::Normal, "Remove all points that are in the past: ", true));
    match read_bool(inputs) {
        None => {
            let mut prompts: Vec<Vec<u8>> = Vec::new();
            prompts.push(crate::conz::lit("Sure to remove them?: "));
            Reply { msgs, prompts, file: None }
        }
        Some(false) => Reply { msgs, prompts: Vec::new(), file: None },
        Some(true) => {
            let ghost items0 = state.points.items_spec();
            let k = past_prefix_len(state.points.get_items(), now_t);
            let mut j: usize = 0;
            while j < k
                invariant
                    0 <= j <= k <= items0.len(),
                    past_prefix(items0, now_t) == k,
                    state.points.items_spec() == items0.skip(j as int),
                    state.points_archive.items_spec()
                        == old(state).points_archive.items_spec() + items0.take(j as int),
                    state.todos == old(state).todos,
                    state.todos_archive == old(state).todos_archive,
                    state.deadlines == old(state).deadlines,
                    state.fset == old(state).fset,
                decreases k - j,
            {
                proof {
                    assert(items0.skip(j as int)[0] == items0[j as int]);
                    assert(items0.skip(j as int).remove(0) =~= items0.skip(j as int + 1));
                }
                let item = state.points.remove_item(0);
                state.points_archive.add_item(item);
                proof {
                    assert(old(state).points_archive.items_spec() + items0.take(j as int + 1)
                        =~= (old(state).points_archive.items_spec() + items0.take(j as int)).push(
                            items0[j as int],
                        ));
                }
                j += 1;
            }
            let _ = state.points.write();
            let _ = state.points_archive.write();
            msgs.push(msg(MsgType::Highlight, "Success: Removed points.", true));
            Reply { msgs, prompts: Vec::new(), file: None }
        }
    }
}

/// Replaces the title and moment of the single point whose title
/// equals the searched term.
/// What `edit_points` guarantees, stated over the session state before
/// and after the call, the input queue, and the reply; the
/// dispatcher carries this for its callers.
pub open spec fn edit_points_post(
    pre: State,
    pre_q: Option<VecDeque<Vec<u8>>>,
    post: State,
    post_q: Option<VecDeque<Vec<u8>>>,
    r: Reply,
) -> bool {
    &&& (r.file is None)
    &&& (r.msgs@.len() >= 1 && msg_is(r.msgs@[0], MsgType::Normal, "Edit point: ".spec_bytes(), true))
    &&& (!has_n(pre_q, 3) ==> ({
        &&& post == pre
        &&& r.msgs@.len() == 1
        &&& r.prompts@.len() == 3 && r.prompts@[0]@ == "title: ".spec_bytes()
            && r.prompts@[1]@ == "new title: ".spec_bytes()
            && r.prompts@[2]@ == "new deadline: ".spec_bytes()
    }))
    &&& (has_n(pre_q, 3) ==> ({
        let q = pre_q->0;
        let titles = point_titles_spec(pre.points.items_spec());
        let n = num_eq(titles, q@[0]@);
        ({
            &&& r.prompts@.len() == 0
            &&& n == 0 ==> post == pre && r.msgs@.len() == 2
                && msg_is(r.msgs@[1], MsgType::Error, "Fail: no results found.".spec_bytes(), true)
            &&& n > 1 ==> post == pre && r.msgs@.len() == 2
                && msg_is(r.msgs@[1], MsgType::Error, "Fail: more than one result.".spec_bytes(), true)
            &&& n == 1 ==> match dt_parse_of(q@[2]@) {
                None => post == pre && r.msgs@.len() == 2
                    && msg_is(r.msgs@[1], MsgType::Error, "Error: could not parse datetime.".spec_bytes(), true),
                Some(d) => ({
                    let idx = first_eq(titles, q@[0]@);
                    &&& post.points.items_spec()
                        == pre.points.items_spec().update(
                            idx,
                            Point { title: q@[1], dt: d },
                        )
                    &&& post.points.clean_spec()
                    &&& post.points_archive == pre.points_archive
                    &&& post.todos == pre.todos
                    &&& post.todos_archive == pre.todos_archive
                    &&& post.deadlines == pre.deadlines
                    &&& post.fset == pre.fset
                    &&& r.msgs@.len() == 2
                    &&& msg_is(r.msgs@[1], MsgType::Highlight, "Success: Edited point.".spec_bytes(), true)
                }),
            }
        })
    }))
}

pub fn edit_points(
    state: &mut State,
    _args: &Vec<Vec<u8>>,
    inputs: &mut Option<VecDeque<Vec<u8>>>,
) -> (r: Reply)
    ensures
        edit_points_post(*old(state), *old(inputs), *final(state), *final(inputs), r),
{
    let mut msgs: Vec<Msg> = Vec::new();
    msgs.push(msg(MsgType::Normal, "Edit point: ", true));
    match take_inputs(inputs, 3) {
        None => {
            let mut prompts: Vec<Vec<u8>> = Vec::new();
            prompts.push(crate::conz::lit("title: "));
            prompts.push(crate::conz::lit("new title: "));
            prompts.push(crate::conz::lit("new deadline: "));
            Reply { msgs, prompts, file: None }
        }
        Some(mut v) => {
            let term = v.remove(0);
            let new_title = v.remove(0);
            let dts = v.remove(0);
            let titles = point_titles(state.points.get_items());
            let (count, fi) = count_matches(&titles, &term);
            if count == 0 {
                msgs.push(msg(MsgType::Error, "Fail: no results found.", true));
                Reply { msgs, prompts: Vec::new(), file: None }
            } else if count > 1 {
                msgs.push(msg(MsgType::Error, "Fail: more than one result.", true));
                Reply { msgs, prompts: Vec::new(), file: None }
            } else {
                match dt_parse(&dts) {
                    None => {
                        msgs.push(msg(MsgType::Error, "Error: could not parse datetime.", true));
                        Reply { msgs, prompts: Vec::new(), file: None }
                    }
                    Some(d) => {
                        state.points.set_item(fi, Point { title: new_title, dt: d });
                        let _ = state.points.write();
                        msgs.push(msg(MsgType::Highlight, "Success: Edited point.", true));
                        Reply { msgs, prompts: Vec::new(), file: None }
                    }
                }
            }
        }
    }
}

/// Replaces the title and urgency of the single todo whose title
/// equals the searched term.
/// What `edit_todos` guarantees, stated over the session state before
/// and after the call, the input queue, and the reply; the
/// dispatcher carries this for its callers.
pub open spec fn edit_todos_post(
    pre: State,
    pre_q: Option<VecDeque<Vec<u8>>>,
    post: State,
    post_q: Option<VecDeque<Vec<u8>>>,
    r: Reply,
) -> bool {
    &&& (r.file is None)
    &&& (r.msgs@.len() >= 1 && msg_is(r.msgs@[0], MsgType::Normal, "Edit todo: ".spec_bytes(), true))
    &&& (!has_n(pre_q, 3) ==> ({
        &&& post == pre
        &&& r.msgs@.len() == 1
        &&& r.prompts@.len() == 3 && r.prompts@[0]@ == "title: ".spec_bytes()
            && r.prompts@[1]@ == "new title: ".spec_bytes()
            && r.prompts@[2]@ == "new urgency: ".spec_bytes()
    }))
    &&& (has_n(pre_q, 3) ==> ({
        let q = pre_q->0;
        let titles = todo_titles_spec(pre.todos.items_spec());
        let n = num_eq(titles, q@[0]@);
        ({
            &&& r.prompts@.len() == 0
            &&& n == 0 ==> post == pre && r.msgs@.len() == 2
                && msg_is(r.msgs@[1], MsgType::Error, "Fail: no results found.".spec_bytes(), true)
            &&& n > 1 ==> post == pre && r.msgs@.len() == 2
                && msg_is(r.msgs@[1], MsgType::Error, "Fail: more than one result.".spec_bytes(), true)
            &&& n == 1 ==> if q@[2]@.len() > 0 && all_digits(q@[2]@) && dec_val(q@[2]@) <= u16::MAX {
                ({
                    let idx = first_eq(titles, q@[0]@);
                    &&& post.todos.items_spec()
                        == pre.todos.items_spec().update(
                            idx,
                            Todo { title: q@[1], urgency: dec_val(q@[2]@) as u16 },
                        )
                    &&& post.todos.clean_spec()
                    &&& post.points == pre.points
                    &&& post.points_archive == pre.points_archive
                    &&& post.todos_archive == pre.todos_archive
                    &&& post.deadlines == pre.deadlines
                    &&& post.fset == pre.fset
                    &&& r.msgs@.len() == 2
                    &&& msg_is(r.msgs@[1], MsgType::Highlight, "Success: Edited todo.".spec_bytes(), true)
                })
            } else {
                post == pre && r.msgs@.len() == 2
                    && msg_is(r.msgs@[1], MsgType::Error, "Error: could not parse urgency.".spec_bytes(), true)
            }
        })
    }))
}

pub fn edit_todos(
    state: &mut State,
    _args: &Vec<Vec<u8>>,
    inputs: &mut Option<VecDeque<Vec<u8>>>,
) -> (r: Reply)
    ensures
        edit_todos_post(*old(state), *old(inputs), *final(state), *final(inputs), r),
{
    let mut msgs: Vec<Msg> = Vec::new();
    msgs.push(msg(MsgType::Normal, "Edit todo: ", true));
    match take_inputs(inputs, 3) {
        None => {
            let mut prompts: Vec<Vec<u8>> = Vec::new();
            prompts.push(crate::conz::lit("title: "));
            prompts.push(crate::conz::lit("new title: "));
            prompts.push(crate::conz::lit("new urgency: "));
            Reply { msgs, prompts, file: None }
        }
        Some(mut v) => {
            let term = v.remove(0);
            let new_title = v.remove(0);
            let us = v.remove(0);
            let titles = todo_titles(state.todos.get_items());
            let (count, fi) = count_matches(&titles, &term);
            if count == 0 {
                msgs.push(msg(MsgType::Error, "Fail: no results found.", true));
                Reply { msgs, prompts: Vec::new(), file: None }
            } else if count > 1 {
                msgs.push(msg(MsgType::Error, "Fail: more than one result.", true));
                Reply { msgs, prompts: Vec::new(), file: None }
            } else {
                match parse_u16(&us) {
                    None => {
                        msgs.push(msg(MsgType::Error, "Error: could not parse urgency.", true));
                        Reply { msgs, prompts: Vec::new(), file: None }
                    }
                    Some(u) => {
                        state.todos.set_item(fi, Todo { title: new_title, urgency: u });
                        let _ = state.todos.write();
                        msgs.push(msg(MsgType::Highlight, "Success: Edited todo.", true));
                        Reply { msgs, prompts: Vec::new(), file: None }
                    }
                }
            }
        }
    }
}

/// Lists the points: one title row and one date row per point.
/// What `ls_points` guarantees, stated over the session state before
/// and after the call, the input queue, and the reply; the
/// dispatcher carries this for its callers.
pub open spec fn ls_points_post(
    pre: State,
    pre_q: Option<VecDeque<Vec<u8>>>,
    post: State,
    post_q: Option<VecDeque<Vec<u8>>>,
    r: Reply,
) -> bool {
    &&& (post_q == pre_q)
    &&& (post == pre)
    &&& (done(r))
    &&& (r.msgs@.len() == 2 * pre.points.items_spec().len())
    &&& (point_rows_ok(r.msgs@, 0, pre.points.items_spec()))
}

pub fn ls_points(
    state: &mut State,
    _args: &Vec<Vec<u8>>,
    inputs: &mut Option<VecDeque<Vec<u8>>>,
) -> (r: Reply)
    ensures
        ls_points_post(*old(state), *old(inputs), *final(state), *final(inputs), r),
{
    let mut msgs: Vec<Msg> = Vec::new();
    push_point_rows(&mut msgs, state.points.get_items());
    Reply { msgs, prompts: Vec::new(), file: None }
}

/// Lists the archived points.
/// What `ls_points_archive` guarantees, stated over the session state before
/// and after the call, the input queue, and the reply; the
/// dispatcher carries this for its callers.
pub open spec fn ls_points_archive_post(
    pre: State,
    pre_q: Option<VecDeque<Vec<u8>>>,
    post: State,
    post_q: Option<VecDeque<Vec<u8>>>,
    r: Reply,
) -> bool {
    &&& (post_q == pre_q)
    &&& (post == pre)
    &&& (done(r))
    &&& (r.msgs@.len() == 2 * pre.points_archive.items_spec().len())
    &&& (point_rows_ok(r.msgs@, 0, pre.points_archive.items_spec()))
}

pub fn ls_points_archive(
    state: &mut State,
    _args: &Vec<Vec<u8>>,
    inputs: &mut Option<VecDeque<Vec<u8>>>,
) -> (r: Reply)
    ensures
        ls_points_archive_post(*old(state), *old(inputs), *final(state), *final(inputs), r),
{
    let mut msgs: Vec<Msg> = Vec::new();
    push_point_rows(&mut msgs, state.points_archive.read());
    Reply { msgs, prompts: Vec::new(), file: None }
}

/// Shows the single point whose title equals the searched term, with
/// the whole days between now and its moment.
/// What `inspect_point` guarantees, stated over the session state before
/// and after the call, the input queue, and the reply; the
/// dispatcher carries this for its callers.
pub open spec fn inspect_point_post(
    pre: State,
    pre_q: Option<VecDeque<Vec<u8>>>,
    post: State,
    post_q: Option<VecDeque<Vec<u8>>>,
    now_t: i64,
    r: Reply,
) -> bool {
    &&& (r.file is None)
    &&& (post == pre)
    &&& (r.msgs@.len() >= 1 && msg_is(
        r.msgs@[0],
        MsgType::Normal,
        "Inspect point(search first): ".spec_bytes(),
        true,
    ))
    &&& (!has_n(pre_q, 1) ==> ({
        &&& r.msgs@.len() == 1
        &&& r.prompts@.len() == 1 && r.prompts@[0]@ == "title: ".spec_bytes()
    }))
    &&& (has_n(pre_q, 1) ==> ({
        let q = pre_q->0;
        let titles = point_titles_spec(pre.points.items_spec());
        let n = num_eq(titles, q@[0]@);
        ({
            &&& r.prompts@.len() == 0
            &&& n == 0 ==> r.msgs@.len() == 2
                && msg_is(r.msgs@[1], MsgType::Error, "Fail: no results found.".spec_bytes(), true)
            &&& n > 1 ==> r.msgs@.len() == 2
                && msg_is(r.msgs@[1], MsgType::Error, "Fail: more than one result.".spec_bytes(), true)
            &&& n == 1 ==> ({
                let p = pre.points.items_spec()[first_eq(titles, q@[0]@)];
                &&& r.msgs@.len() == 5
                &&& msg_is(r.msgs@[1], MsgType::Normal, p.title@, true)
                &&& msg_is(r.msgs@[2], MsgType::Value, dt_text_of(p.dt), true)
                &&& p.dt >= now_t ==> msg_is(r.msgs@[3], MsgType::Normal, "Days left: ".spec_bytes(), false)
                    && msg_is(r.msgs@[4], MsgType::Value, digits_of((((p.dt - now_t) / 86400) as nat)), true)
                &&& p.dt < now_t ==> msg_is(r.msgs@[3], MsgType::Normal, "Days past: ".spec_bytes(), false)
                    && msg_is(r.msgs@[4], MsgType::Value, digits_of((((now_t - p.dt) / 86400) as nat)), true)
            })
        })
    }))
}

pub fn inspect_point(
    state: &mut State,
    _args: &Vec<Vec<u8>>,
    inputs: &mut Option<VecDeque<Vec<u8>>>,
    now_t: i64,
) -> (r: Reply)
    ensures
        inspect_point_post(*old(state), *old(inputs), *final(state), *final(inputs), now_t, r),
{
    let mut msgs: Vec<Msg> = Vec::new();
    msgs.push(msg(MsgType::Normal, "Inspect point(search first): ", true));
    match take_inputs(inputs, 1) {
        None => {
            let mut prompts: Vec<Vec<u8>> = Vec::new();
            prompts.push(crate::conz::lit("title: "));
            Reply { msgs, prompts, file: None }
        }
        Some(mut v) => {
            let term = v.remove(0);
            let titles = point_titles(state.points.get_items());
            let (count, fi) = count_matches(&titles, &term);
            if count == 0 {
                msgs.push(msg(MsgType::Error, "Fail: no results found.", true));
                Reply { msgs, prompts: Vec::new(), file: None }
            } else if count > 1 {
                msgs.push(msg(MsgType::Error, "Fail: more than one result.", true));
                Reply { msgs, prompts: Vec::new(), file: None }
            } else {
                let pdt = state.points.get_items()[fi].dt;
                msgs.push(msg_bytes(
                    MsgType::Normal,
                    clone_bytes(&state.points.get_items()[fi].title),
                    true,
                ));
                msgs.push(msg_bytes(MsgType::Value, dt_text(pdt), true));
                if pdt >= now_t {
                    let days = ((pdt as i128 - now_t as i128) / 86400) as u64;
                    msgs.push(msg(MsgType::Normal, "Days left: ", false));
                    msgs.push(msg_bytes(MsgType::Value, fmt_u64(days), true));
                } else {
                    let days = ((now_t as i128 - pdt as i128) / 86400) as u64;
                    msgs.push(msg(MsgType::Normal, "Days past: ", false));
                    msgs.push(msg_bytes(MsgType::Value, fmt_u64(days), true));
                }
                Reply { msgs, prompts: Vec::new(), file: None }
            }
        }
    }
}

/// Lists the todos in three sections: current, long-term, ideas.
/// What `ls_todos` guarantees, stated over the session state before
/// and after the call, the input queue, and the reply; the
/// dispatcher carries this for its callers.
pub open spec fn ls_todos_post(
    pre: State,
    pre_q: Option<VecDeque<Vec<u8>>>,
    post: State,
    post_q: Option<VecDeque<Vec<u8>>>,
    r: Reply,
) -> bool {
    &&& (post_q == pre_q)
    &&& (post == pre)
    &&& (done(r))
    &&& (({
        let tv = todo_views(pre.todos.items_spec());
        let to = sel_band(tv, 2);
        let lo = sel_band(tv, 1);
        let id = sel_band(tv, 0);
        &&& r.msgs@.len() == 3 + to.len() + lo.len() + id.len()
        &&& msg_is(r.msgs@[0], MsgType::Normal, "Todo: ".spec_bytes(), true)
        &&& todo_rows_ok(r.msgs@, 1, to)
        &&& msg_is(r.msgs@[1 + to.len() as int], MsgType::Normal, "Longterm: ".spec_bytes(), true)
        &&& todo_rows_ok(r.msgs@, 2 + to.len() as int, lo)
        &&& msg_is(r.msgs@[2 + to.len() + lo.len() as int], MsgType::Normal, "Idea: ".spec_bytes(), true)
        &&& todo_rows_ok(r.msgs@, 3 + to.len() + lo.len() as int, id)
    }))
}

pub fn ls_todos(
    state: &mut State,
    _args: &Vec<Vec<u8>>,
    inputs: &mut Option<VecDeque<Vec<u8>>>,
) -> (r: Reply)
    ensures
        ls_todos_post(*old(state), *old(inputs), *final(state), *final(inputs), r),
{
    let (to, lo, id) = split_todos(state.todos.get_items());
    let mut msgs: Vec<Msg> = Vec::new();
    msgs.push(msg(MsgType::Normal, "Todo: ", true));
    push_todo_rows(&mut msgs, &to);
    msgs.push(msg(MsgType::Normal, "Longterm: ", true));
    push_todo_rows(&mut msgs, &lo);
    msgs.push(msg(MsgType::Normal, "Idea: ", true));
    push_todo_rows(&mut msgs, &id);
    Reply { msgs, prompts: Vec::new(), file: None }
}

/// Lists the archived todos.
/// What `ls_todos_archive` guarantees, stated over the session state before
/// and after the call, the input queue, and the reply; the
/// dispatcher carries this for its callers.
pub open spec fn ls_todos_archive_post(
    pre: State,
    pre_q: Option<VecDeque<Vec<u8>>>,
    post: State,
    post_q: Option<VecDeque<Vec<u8>>>,
    r: Reply,
) -> bool {
    &&& (post_q == pre_q)
    &&& (post == pre)
    &&& (done(r))
    &&& (r.msgs@.len() == 1 + pre.todos_archive.items_spec().len())
    &&& (msg_is(r.msgs@[0], MsgType::Normal, "Todo archive: ".spec_bytes(), true))
    &&& (todo_rows_ok(r.msgs@, 1, todo_views(pre.todos_archive.items_spec())))
}

pub fn ls_todos_archive(
    state: &mut State,
    _args: &Vec<Vec<u8>>,
    inputs: &mut Option<VecDeque<Vec<u8>>>,
) -> (r: Reply)
    ensures
        ls_todos_archive_post(*old(state), *old(inputs), *final(state), *final(inputs), r),
{
    let mut msgs: Vec<Msg> = Vec::new();
    msgs.push(msg(MsgType::Normal, "Todo archive: ", true));
    push_todo_rows(&mut msgs, state.todos_archive.read());
    Reply { msgs, prompts: Vec::new(), file: None }
}

/// Reports the moment, then the points, then the todos.
/// What `status` guarantees, stated over the session state before
/// and after the call, the input queue, and the reply; the
/// dispatcher carries this for its callers.
pub open spec fn status_post(
    pre: State,
    pre_q: Option<VecDeque<Vec<u8>>>,
    post: State,
    post_q: Option<VecDeque<Vec<u8>>>,
    now_t: i64,
    r: Reply,
) -> bool {
    &&& (post == pre)
    &&& (done(r))
    &&& (r.msgs@.len() == 4 + 2 * pre.points.items_spec().len() + 3
        + todo_views(pre.todos.items_spec()).len())
    &&& (msg_is(r.msgs@[0], MsgType::Normal, "Today:".spec_bytes(), true))
    &&& (msg_is(r.msgs@[1], MsgType::Value, dt_text_of(now_t), false))
    &&& (msg_is(r.msgs@[2], MsgType::Normal, " ".spec_bytes(), false))
    &&& (msg_is(r.msgs@[3], MsgType::Value, dt_dayname_of(now_t), true))
    &&& (point_rows_ok(r.msgs@, 4, pre.points.items_spec()))
    &&& (({
        let base = 4 + 2 * pre.points.items_spec().len() as int;
        let tv = todo_views(pre.todos.items_spec());
        let to = sel_band(tv, 2);
        let lo = sel_band(tv, 1);
        let id = sel_band(tv, 0);
        &&& msg_is(r.msgs@[base], MsgType::Normal, "Todo: ".spec_bytes(), true)
        &&& todo_rows_ok(r.msgs@, base + 1, to)
        &&& msg_is(r.msgs@[base + 1 + to.len() as int], MsgType::Normal, "Longterm: ".spec_bytes(), true)
        &&& todo_rows_ok(r.msgs@, base + 2 + to.len() as int, lo)
        &&& msg_is(r.msgs@[base + 2 + to.len() + lo.len() as int], MsgType::Normal, "Idea: ".spec_bytes(), true)
        &&& todo_rows_ok(r.msgs@, base + 3 + to.len() + lo.len() as int, id)
    }))
}

pub fn status(
    state: &mut State,
    args: &Vec<Vec<u8>>,
    inputs: &mut Option<VecDeque<Vec<u8>>>,
    now_t: i64,
) -> (r: Reply)
    ensures
        status_post(*old(state), *old(inputs), *final(state), *final(inputs), now_t, r),
{
    let a = now(state, args, inputs, now_t);
    let b = ls_points(state, args, inputs);
    let c = ls_todos(state, args, inputs);
    let ghost am = a.msgs@;
    let ghost bm0 = b.msgs@;
    let ghost cm0 = c.msgs@;
    let mut msgs = a.msgs;
    let mut bm = b.msgs;
    let ghost mut i: int = 0;
    while bm.len() > 0
        invariant
            0 <= i <= bm0.len(),
            bm@ == bm0.skip(i),
            msgs@ == am + bm0.take(i),
        decreases bm@.len(),
    {
        proof {
            assert(bm0.skip(i)[0] == bm0[i]);
            assert(bm0.skip(i).remove(0) =~= bm0.skip(i + 1));
            assert(am + bm0.take(i + 1)
                =~= (am + bm0.take(i)).push(bm0[i]));
        }
        let m = bm.remove(0);
        msgs.push(m);
        proof {
            i = i + 1;
        }
    }
    proof {
        assert(bm0.take(bm0.len() as int) =~= bm0);
        assert(bm0.skip(i).len() == 0);
    }
    let mut cm = c.msgs;
    let ghost mid = msgs@;
    let ghost mut j: int = 0;
    while cm.len() > 0
        invariant
            0 <= j <= cm0.len(),
            cm@ == cm0.skip(j),
            msgs@ == mid + cm0.take(j),
        decreases cm@.len(),
    {
        proof {
            assert(cm0.skip(j)[0] == cm0[j]);
            assert(cm0.skip(j).remove(0) =~= cm0.skip(j + 1));
            assert(mid + cm0.take(j + 1)
                =~= (mid + cm0.take(j)).push(cm0[j]));
        }
        let m = cm.remove(0);
        msgs.push(m);
        proof {
            j = j + 1;
        }
    }
    proof {
        assert(cm0.take(cm0.len() as int) =~= cm0);
        assert(cm0.skip(j).len() == 0);
        let tv = todo_views(old(state).todos.items_spec());
        assert(sel_band(tv, 2).len() + sel_band(tv, 1).len() + sel_band(tv, 0).len()
            == tv.len()) by {
            lemma_sel_band_total(tv);
        }
        let base = mid.len() as int;
        assert forall|k: int| 0 <= k < cm0.len() implies msgs@[base + k] == cm0[k] by {
            assert(msgs@ == mid + cm0);
        }
        assert forall|k: int| 0 <= k < bm0.len() implies msgs@[4 + k] == bm0[k] by {
            assert(mid == am + bm0);
            assert(msgs@[4 + k] == mid[4 + k]);
        }
        assert forall|k: int| 0 <= k < 4 implies msgs@[k] == am[k] by {
            assert(mid == am + bm0);
            assert(msgs@[k] == mid[k]);
        }
    }
    Reply { msgs, prompts: Vec::new(), file: None }
}

/// The three urgency bands together hold every todo.
pub proof fn lemma_sel_band_total(s: Seq<(Seq<u8>, u16)>)
    ensures
        sel_band(s, 2).len() + sel_band(s, 1).len() + sel_band(s, 0).len() == s.len(),
    decreases s.len(),
{
    if s.len() > 0 {
        lemma_sel_band_total(s.drop_last());
    }
}

/// Reports whether anything is unsaved, and saves it all.
/// What `flush_files` guarantees, stated over the session state before
/// and after the call, the input queue, and the reply; the
/// dispatcher carries this for its callers.
pub open spec fn flush_files_post(
    pre: State,
    pre_q: Option<VecDeque<Vec<u8>>>,
    post: State,
    post_q: Option<VecDeque<Vec<u8>>>,
    r: Reply,
) -> bool {
    &&& (post_q == pre_q)
    &&& (done(r))
    &&& (r.msgs@.len() == 1)
    &&& (pre.all_clean() ==> post == pre
        && msg_is(r.msgs@[0], MsgType::Highlight, "All files clean, nothing to do.".spec_bytes(), true))
    &&& (!pre.all_clean() ==> ({
        &&& post.all_clean()
        &&& post.points.items_spec() == pre.points.items_spec()
        &&& post.points_archive.items_spec() == pre.points_archive.items_spec()
        &&& post.todos.items_spec() == pre.todos.items_spec()
        &&& post.todos_archive.items_spec() == pre.todos_archive.items_spec()
        &&& post.deadlines.items_spec() == pre.deadlines.items_spec()
        &&& post.fset == pre.fset
        &&& msg_is(r.msgs@[0], MsgType::Highlight, "Success: Flushed all dirty files.".spec_bytes(), true)
    }))
}

pub fn flush_files(
    state: &mut State,
    _args: &Vec<Vec<u8>>,
    inputs: &mut Option<VecDeque<Vec<u8>>>,
) -> (r: Reply)
    ensures
        flush_files_post(*old(state), *old(inputs), *final(state), *final(inputs), r),
{
    let mut msgs: Vec<Msg> = Vec::new();
    if state.is_clean() {
        msgs.push(msg(MsgType::Highlight, "All files clean, nothing to do.", true));
        return Reply { msgs, prompts: Vec::new(), file: None };
    }
    let _ = state.flush_files();
    msgs.push(msg(MsgType::Highlight, "Success: Flushed all dirty files.", true));
    Reply { msgs, prompts: Vec::new(), file: None }
}

/// Announces the key-test mode; the surrounding program then echoes
/// raw key codes until it is ended.
/// What `test_keys` guarantees, stated over the session state before
/// and after the call, the input queue, and the reply; the
/// dispatcher carries this for its callers.
pub open spec fn test_keys_post(
    pre: State,
    pre_q: Option<VecDeque<Vec<u8>>>,
    post: State,
    post_q: Option<VecDeque<Vec<u8>>>,
    r: Reply,
) -> bool {
    &&& (post_q == pre_q)
    &&& (post == pre)
    &&& (done(r))
    &&& (r.msgs@.len() == 1)
    &&& (msg_is(
        r.msgs@[0],
        MsgType::Normal,
        "Testing keys, press any key to get id, exit program to stop.".spec_bytes(),
        true,
    ))
}

pub fn test_keys(
    state: &mut State,
    _args: &Vec<Vec<u8>>,
    inputs: &mut Option<VecDeque<Vec<u8>>>,
) -> (r: Reply)
    ensures
        test_keys_post(*old(state), *old(inputs), *final(state), *final(inputs), r),
{
    let mut msgs: Vec<Msg> = Vec::new();
    msgs.push(msg(MsgType::Normal, "Testing keys, press any key to get id, exit program to stop.", true));
    Reply { msgs, prompts: Vec::new(), file: None }
}

/// With no further tokens, explains how to use help; with a command
/// name, checks it exists and asks the caller to fetch its help file,
/// named by the command's tokens joined with underscores.
/// What `help` guarantees, stated over the session state before
/// and after the call, the input queue, and the reply; the
/// dispatcher carries this for its callers.
pub open spec fn help_post(
    pre: State,
    pre_q: Option<VecDeque<Vec<u8>>>,
    post: State,
    post_q: Option<VecDeque<Vec<u8>>>,
    args: Seq<Seq<u8>>,
    r: Reply,
) -> bool {
    &&& (post_q == pre_q)
    &&& (post == pre)
    &&& (r.prompts@.len() == 0)
    &&& (args.len() <= 1 ==> ({
        &&& r.file is None
        &&& r.msgs@.len() == 9
        &&& msg_is(r.msgs@[0], MsgType::Normal, "Help, type ".spec_bytes(), false)
        &&& msg_is(r.msgs@[1], MsgType::Highlight, "help(command) ".spec_bytes(), false)
        &&& msg_is(r.msgs@[2], MsgType::Normal, "to find help.".spec_bytes(), true)
        &&& msg_is(r.msgs@[3], MsgType::Normal, "For example: ".spec_bytes(), false)
        &&& msg_is(r.msgs@[4], MsgType::Highlight, "help (mk point)".spec_bytes(), false)
        &&& msg_is(r.msgs@[5], MsgType::Normal, ".".spec_bytes(), true)
        &&& msg_is(r.msgs@[6], MsgType::Normal, "To list all commands use ".spec_bytes(), false)
        &&& msg_is(r.msgs@[7], MsgType::Highlight, "ls commands".spec_bytes(), false)
        &&& msg_is(r.msgs@[8], MsgType::Normal, ".".spec_bytes(), true)
    }))
    &&& (args.len() > 1 ==> ({
        let rest = args.skip(1);
        let name = crate::parser::joined(rest, 32);
        ({
            &&& num_eq(crate::parser::tok_views(pre.fset@), name) == 0 ==> ({
                &&& r.file is None
                &&& r.msgs@.len() == 1
                &&& msg_is(r.msgs@[0], MsgType::Error, "Fail: command does not exist, so help for it neither.".spec_bytes(), true)
            })
            &&& num_eq(crate::parser::tok_views(pre.fset@), name) > 0 ==> ({
                &&& r.file matches Some(f) && f@ == crate::parser::joined(rest, 95)
                &&& r.msgs@.len() == 2
                &&& msg_is(r.msgs@[0], MsgType::Normal, "Command: ".spec_bytes(), false)
                &&& msg_is(r.msgs@[1], MsgType::Highlight, name, true)
            })
        })
    }))
}

pub fn help(
    state: &mut State,
    args: &Vec<Vec<u8>>,
    inputs: &mut Option<VecDeque<Vec<u8>>>,
) -> (r: Reply)
    ensures
        help_post(*old(state), *old(inputs), *final(state), *final(inputs), crate::parser::tok_views(args@), r),
{
    if args.len() <= 1 {
        let mut msgs: Vec<Msg> = Vec::new();
        msgs.push(msg(MsgType::Normal, "Help, type ", false));
        msgs.push(msg(MsgType::Highlight, "help(command) ", false));
        msgs.push(msg(MsgType::Normal, "to find help.", true));
        msgs.push(msg(MsgType::Normal, "For example: ", false));
        msgs.push(msg(MsgType::Highlight, "help (mk point)", false));
        msgs.push(msg(MsgType::Normal, ".", true));
        msgs.push(msg(MsgType::Normal, "To list all commands use ", false));
        msgs.push(msg(MsgType::Highlight, "ls commands", false));
        msgs.push(msg(MsgType::Normal, ".", true));
        return Reply { msgs, prompts: Vec::new(), file: None };
    }
    let mut rest: Vec<Vec<u8>> = Vec::new();
    let mut i: usize = 1;
    while i < args.len()
        invariant
            1 <= i <= args@.len(),
            rest@.len() == i - 1,
            forall|j: int| 0 <= j < i - 1 ==> rest@[j]@ == args@[j + 1]@,
        decreases args@.len() - i,
    {
        rest.push(clone_bytes(&args[i]));
        i += 1;
    }
    proof {
        assert(crate::parser::tok_views(rest@) =~= crate::parser::tok_views(args@).skip(1));
    }
    let name = crate::parser::unsplit(&rest, 32);
    let (count, _) = count_matches(&state.fset, &name);
    let mut msgs: Vec<Msg> = Vec::new();
    if count == 0 {
        msgs.push(msg(MsgType::Error, "Fail: command does not exist, so help for it neither.", true));
        Reply { msgs, prompts: Vec::new(), file: None }
    } else {
        let fname = crate::parser::unsplit(&rest, 95);
        msgs.push(msg(MsgType::Normal, "Command: ", false));
        msgs.push(msg_bytes(MsgType::Highlight, name, true));
        Reply { msgs, prompts: Vec::new(), file: Some(fname) }
    }
}

/// Asks the caller to fetch and print the license file.
/// What `license` guarantees, stated over the session state before
/// and after the call, the input queue, and the reply; the
/// dispatcher carries this for its callers.
pub open spec fn license_post(
    pre: State,
    pre_q: Option<VecDeque<Vec<u8>>>,
    post: State,
    post_q: Option<VecDeque<Vec<u8>>>,
    r: Reply,
) -> bool {
    &&& (post_q == pre_q)
    &&& (post == pre)
    &&& (r.msgs@.len() == 0)
    &&& (r.prompts@.len() == 0)
    &&& (r.file matches Some(f) && f@ == "LICENSE".spec_bytes())
}

pub fn license(
    state: &mut State,
    _args: &Vec<Vec<u8>>,
    inputs: &mut Option<VecDeque<Vec<u8>>>,
) -> (r: Reply)
    ensures
        license_post(*old(state), *old(inputs), *final(state), *final(inputs), r),
{
    Reply { msgs: Vec::new(), prompts: Vec::new(), file: Some(crate::conz::lit("LICENSE")) }
}


/// The guarantee that holds of the session state, the input queue and
/// the reply after the handler named by the identifier ran with the
/// full token sequence of the matched command.
pub open spec fn handler_post(
    c: CmdId,
    pre: State,
    pre_q: Option<VecDeque<Vec<u8>>>,
    post: State,
    post_q: Option<VecDeque<Vec<u8>>>,
    args: Seq<Seq<u8>>,
    now_t: i64,
    r: Reply,
) -> bool {
    match c {
        CmdId::Now => now_post(pre, pre_q, post, post_q, now_t, r),
        CmdId::AddDeadline => crate::parser::add_deadline_post(pre, pre_q, post, post_q, r),
        CmdId::MkPoint => mk_point_post(pre, pre_q, post, post_q, r),
        CmdId::RmPoints => rm_points_post(pre, pre_q, post, post_q, r),
        CmdId::CleanPoints => clean_points_post(pre, pre_q, post, post_q, now_t, r),
        CmdId::EditPoints => edit_points_post(pre, pre_q, post, post_q, r),
        CmdId::LsPoints => ls_points_post(pre, pre_q, post, post_q, r),
        CmdId::LsPointsArchive => ls_points_archive_post(pre, pre_q, post, post_q, r),
        CmdId::InspectPoint => inspect_point_post(pre, pre_q, post, post_q, now_t, r),
        CmdId::MkTodo => mk_todo_post(pre, pre_q, post, post_q, r),
        CmdId::RmTodos => rm_todos_post(pre, pre_q, post, post_q, r),
        CmdId::EditTodos => edit_todos_post(pre, pre_q, post, post_q, r),
        CmdId::LsTodos => ls_todos_post(pre, pre_q, post, post_q, r),
        CmdId::LsTodosArchive => ls_todos_archive_post(pre, pre_q, post, post_q, r),
        CmdId::Status => status_post(pre, pre_q, post, post_q, now_t, r),
        CmdId::FlushFiles => flush_files_post(pre, pre_q, post, post_q, r),
        CmdId::LsCommands => ls_commands_post(pre, pre_q, post, post_q, r),
        CmdId::Help => help_post(pre, pre_q, post, post_q, args, r),
        CmdId::License => license_post(pre, pre_q, post, post_q, r),
        CmdId::TestKeys => test_keys_post(pre, pre_q, post, post_q, r),
    }
}

} // verus!

