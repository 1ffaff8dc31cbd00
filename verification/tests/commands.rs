use std::collections::VecDeque;
use pplanner::commands::{
    clean_points, edit_points, flush_files, help_cli, inspect_point, ls_points, ls_todos,
    ls_todos_archive, mk_point, mk_todo, rm_points, rm_todos, split_todos, status,
};
use pplanner::parser::add_deadline;
use pplanner::conz::{MsgType, Printable, PrettyPrintable};
use pplanner::data::{fmt_u64, parse_u16, Todo};
use pplanner::state::State;

fn queue(lines: &[&str]) -> Option<VecDeque<Vec<u8>>> {
    Some(lines.iter().map(|l| l.as_bytes().to_vec()).collect())
}

fn no_args() -> Vec<Vec<u8>> {
    Vec::new()
}

#[test]
fn mk_point_stores_and_saves() {
    let mut st = State::new();
    let mut inputs = queue(&["dentist", "01-02-2030 09:30:00"]);
    let r = mk_point(&mut st, &no_args(), &mut inputs);
    assert_eq!(r.msgs[0].text, b"Add point: ".to_vec());
    assert_eq!(r.msgs[1].text, b"Success: Point saved.".to_vec());
    assert_eq!(r.msgs[1].kind, MsgType::Highlight);
    assert_eq!(st.points.get_items().len(), 1);
    assert_eq!(st.points.get_items()[0].title, b"dentist".to_vec());
    assert!(st.points.is_clean());
}

#[test]
fn mk_point_without_inputs_prompts() {
    let mut st = State::new();
    let mut inputs = None;
    let r = mk_point(&mut st, &no_args(), &mut inputs);
    assert_eq!(r.prompts, vec![b"title: ".to_vec(), b"deadline: ".to_vec()]);
    assert_eq!(st.points.get_items().len(), 0);
}

#[test]
fn mk_point_rejects_bad_datetime() {
    let mut st = State::new();
    let mut inputs = queue(&["dentist", "not a date"]);
    let r = mk_point(&mut st, &no_args(), &mut inputs);
    assert_eq!(r.msgs[1].text, b"Error: could not parse datetime.".to_vec());
    assert_eq!(st.points.get_items().len(), 0);
}

#[test]
fn mk_todo_stores_with_urgency() {
    let mut st = State::new();
    let mut inputs = queue(&["write tests", "150"]);
    let r = mk_todo(&mut st, &no_args(), &mut inputs);
    assert_eq!(r.msgs[1].text, b"Success: Todo saved.".to_vec());
    assert_eq!(st.todos.get_items()[0].urgency, 150);
}

#[test]
fn mk_todo_rejects_bad_urgency() {
    let mut st = State::new();
    let mut inputs = queue(&["write tests", "soon"]);
    let r = mk_todo(&mut st, &no_args(), &mut inputs);
    assert_eq!(r.msgs[1].text, b"Error: could not parse urgency.".to_vec());
    assert_eq!(st.todos.get_items().len(), 0);
}

#[test]
fn rm_points_removes_unique_match_and_archives() {
    let mut st = State::new();
    let mut inputs = queue(&["a", "01-01-2030 00:00:00"]);
    mk_point(&mut st, &no_args(), &mut inputs);
    let mut inputs = queue(&["b", "01-01-2031 00:00:00"]);
    mk_point(&mut st, &no_args(), &mut inputs);
    let mut inputs = queue(&["a"]);
    let r = rm_points(&mut st, &no_args(), &mut inputs);
    assert_eq!(r.msgs[1].text, b"Success: Removed point.".to_vec());
    assert_eq!(st.points.get_items().len(), 1);
    assert_eq!(st.points.get_items()[0].title, b"b".to_vec());
    assert_eq!(st.points_archive.get_items().len(), 1);
    assert_eq!(st.points_archive.get_items()[0].title, b"a".to_vec());
}

#[test]
fn rm_points_fails_without_match() {
    let mut st = State::new();
    let mut inputs = queue(&["nothing"]);
    let r = rm_points(&mut st, &no_args(), &mut inputs);
    assert_eq!(r.msgs[1].text, b"Fail: no results found.".to_vec());
}

#[test]
fn rm_points_fails_on_ambiguity() {
    let mut st = State::new();
    let mut inputs = queue(&["a", "01-01-2030 00:00:00"]);
    mk_point(&mut st, &no_args(), &mut inputs);
    let mut inputs = queue(&["a", "01-01-2031 00:00:00"]);
    mk_point(&mut st, &no_args(), &mut inputs);
    let mut inputs = queue(&["a"]);
    let r = rm_points(&mut st, &no_args(), &mut inputs);
    assert_eq!(r.msgs[1].text, b"Fail: more than one result.".to_vec());
    assert_eq!(st.points.get_items().len(), 2);
}

#[test]
fn clean_points_archives_past_prefix() {
    let mut st = State::new();
    let mut inputs = queue(&["past", "01-01-2000 00:00:00"]);
    mk_point(&mut st, &no_args(), &mut inputs);
    let mut inputs = queue(&["future", "01-01-2999 00:00:00"]);
    mk_point(&mut st, &no_args(), &mut inputs);
    let now_t = 1_700_000_000;
    let mut inputs = queue(&["yes"]);
    let r = clean_points(&mut st, &no_args(), &mut inputs, now_t);
    assert_eq!(r.msgs[1].text, b"Success: Removed points.".to_vec());
    assert_eq!(st.points.get_items().len(), 1);
    assert_eq!(st.points.get_items()[0].title, b"future".to_vec());
    assert_eq!(st.points_archive.get_items().len(), 1);
}

#[test]
fn clean_points_declined_changes_nothing() {
    let mut st = State::new();
    let mut inputs = queue(&["past", "01-01-2000 00:00:00"]);
    mk_point(&mut st, &no_args(), &mut inputs);
    let mut inputs = queue(&["no"]);
    let r = clean_points(&mut st, &no_args(), &mut inputs, 1_700_000_000);
    assert_eq!(r.msgs.len(), 1);
    assert_eq!(st.points.get_items().len(), 1);
}

#[test]
fn ls_points_lists_rows() {
    let mut st = State::new();
    let mut inputs = queue(&["dentist", "01-02-2030 09:30:00"]);
    mk_point(&mut st, &no_args(), &mut inputs);
    let r = ls_points(&mut st, &no_args(), &mut None);
    assert_eq!(r.msgs.len(), 2);
    assert_eq!(r.msgs[0].text, b"dentist ".to_vec());
    assert_eq!(r.msgs[1].text, b"01-02-2030 09:30:00".to_vec());
    assert_eq!(r.msgs[1].kind, MsgType::Value);
}

#[test]
fn ls_todos_sections_follow_bands() {
    let mut st = State::new();
    let mut inputs = queue(&["urgent", "200"]);
    mk_todo(&mut st, &no_args(), &mut inputs);
    let mut inputs = queue(&["later", "50"]);
    mk_todo(&mut st, &no_args(), &mut inputs);
    let mut inputs = queue(&["maybe", "1"]);
    mk_todo(&mut st, &no_args(), &mut inputs);
    let r = ls_todos(&mut st, &no_args(), &mut None);
    assert_eq!(r.msgs.len(), 6);
    assert_eq!(r.msgs[0].text, b"Todo: ".to_vec());
    assert_eq!(r.msgs[1].text, b"200 urgent".to_vec());
    assert_eq!(r.msgs[2].text, b"Longterm: ".to_vec());
    assert_eq!(r.msgs[3].text, b"50 later".to_vec());
    assert_eq!(r.msgs[4].text, b"Idea: ".to_vec());
    assert_eq!(r.msgs[5].text, b"1 maybe".to_vec());
}

#[test]
fn split_todos_partitions_by_urgency() {
    let items = vec![
        Todo { title: b"a".to_vec(), urgency: 100 },
        Todo { title: b"b".to_vec(), urgency: 99 },
        Todo { title: b"c".to_vec(), urgency: 10 },
        Todo { title: b"d".to_vec(), urgency: 9 },
        Todo { title: b"e".to_vec(), urgency: 0 },
    ];
    let (to, lo, id) = split_todos(&items);
    assert_eq!(to.len(), 1);
    assert_eq!(to[0].title, b"a".to_vec());
    assert_eq!(lo.len(), 2);
    assert_eq!(lo[0].title, b"b".to_vec());
    assert_eq!(lo[1].title, b"c".to_vec());
    assert_eq!(id.len(), 2);
}

#[test]
fn inspect_point_reports_days() {
    let mut st = State::new();
    let mut inputs = queue(&["event", "01-01-2000 00:00:00"]);
    mk_point(&mut st, &no_args(), &mut inputs);
    let dt = st.points.get_items()[0].dt;
    let now_t = dt + 3 * 86400 + 5;
    let mut inputs = queue(&["event"]);
    let r = inspect_point(&mut st, &no_args(), &mut inputs, now_t);
    assert_eq!(r.msgs[1].text, b"event".to_vec());
    assert_eq!(r.msgs[3].text, b"Days past: ".to_vec());
    assert_eq!(r.msgs[4].text, b"3".to_vec());
}

#[test]
fn flush_files_reports_clean_state() {
    let mut st = State::new();
    let r = flush_files(&mut st, &no_args(), &mut None);
    assert_eq!(r.msgs[0].text, b"All files clean, nothing to do.".to_vec());
}

#[test]
fn flush_files_flushes_dirty_state() {
    let mut st = State::new();
    let mut inputs = queue(&["a", "01-01-2030 00:00:00"]);
    mk_point(&mut st, &no_args(), &mut inputs);
    st.points.add_item(pplanner::data::Point { title: b"x".to_vec(), dt: 0 });
    assert!(!st.is_clean());
    let r = flush_files(&mut st, &no_args(), &mut None);
    assert_eq!(r.msgs[0].text, b"Success: Flushed all dirty files.".to_vec());
    assert!(st.is_clean());
}

#[test]
fn help_cli_explains_usage() {
    let msgs = help_cli();
    assert_eq!(msgs.len(), 10);
    assert_eq!(
        msgs[0].text,
        b"pplanner is an TUI/CLI program to manage your time.".to_vec()
    );
}

#[test]
fn fmt_u64_renders_decimal() {
    assert_eq!(fmt_u64(0), b"0".to_vec());
    assert_eq!(fmt_u64(7), b"7".to_vec());
    assert_eq!(fmt_u64(1234), b"1234".to_vec());
    assert_eq!(fmt_u64(1000), b"1000".to_vec());
}

#[test]
fn parse_u16_accepts_digits_only() {
    assert_eq!(parse_u16(&b"0".to_vec()), Some(0));
    assert_eq!(parse_u16(&b"123".to_vec()), Some(123));
    assert_eq!(parse_u16(&b"65535".to_vec()), Some(65535));
    assert_eq!(parse_u16(&b"65536".to_vec()), None);
    assert_eq!(parse_u16(&b"".to_vec()), None);
    assert_eq!(parse_u16(&b"12a".to_vec()), None);
    assert_eq!(parse_u16(&b"-1".to_vec()), None);
}

#[test]
fn point_prints_title_and_date() {
    let p = pplanner::data::Point { title: b"dentist".to_vec(), dt: 0 };
    let msgs = p.print();
    assert_eq!(msgs.len(), 2);
    assert_eq!(msgs[0].text, b"dentist".to_vec());
    assert_eq!(msgs[1].text, b"01-01-1970 00:00:00".to_vec());
    assert_eq!(msgs[1].kind, MsgType::Value);
}

#[test]
fn point_pretty_print_row_shape() {
    let p = pplanner::data::Point { title: b"dentist".to_vec(), dt: 0 };
    let (cells, kinds) = p.pretty_print(&0);
    assert_eq!(cells.len(), kinds.len());
    assert_eq!(cells[0], b"dentist".to_vec());
    assert_eq!(cells[1], b"01-01-1970 00:00:00".to_vec());
    let titles = <pplanner::data::Point as PrettyPrintable>::titles(&0);
    assert_eq!(titles.len(), 2);
}

#[test]
fn todo_pretty_print_row_shape() {
    let t = Todo { title: b"write".to_vec(), urgency: 42 };
    let (cells, kinds) = t.pretty_print(&false);
    assert_eq!(cells.len(), kinds.len());
    assert_eq!(cells[0], b"42".to_vec());
    assert_eq!(cells[1], b"write".to_vec());
}

#[test]
fn ls_todos_archive_lists_archived() {
    let mut st = State::new();
    let mut inputs = queue(&["write", "42"]);
    mk_todo(&mut st, &no_args(), &mut inputs);
    let mut inputs = queue(&["write"]);
    rm_todos(&mut st, &no_args(), &mut inputs);
    let r = ls_todos_archive(&mut st, &no_args(), &mut None);
    assert_eq!(r.msgs.len(), 2);
    assert_eq!(r.msgs[0].text, b"Todo archive: ".to_vec());
    assert_eq!(r.msgs[1].text, b"42 write".to_vec());
}

#[test]
fn edit_points_replaces_unique_match() {
    let mut st = State::new();
    let mut inputs = queue(&["a", "01-01-2030 00:00:00"]);
    mk_point(&mut st, &no_args(), &mut inputs);
    let mut inputs = queue(&["a", "b", "02-01-2030 00:00:00"]);
    let r = edit_points(&mut st, &no_args(), &mut inputs);
    assert_eq!(r.msgs[1].text, b"Success: Edited point.".to_vec());
    assert_eq!(st.points.get_items()[0].title, b"b".to_vec());
}

#[test]
fn status_combines_reports() {
    let mut st = State::new();
    let mut inputs = queue(&["a", "01-01-2030 00:00:00"]);
    mk_point(&mut st, &no_args(), &mut inputs);
    let r = status(&mut st, &no_args(), &mut None, 0);
    assert_eq!(r.msgs[0].text, b"Today:".to_vec());
    assert_eq!(r.msgs.len(), 4 + 2 + 3);
}

#[test]
fn add_deadline_stores_deadline() {
    let mut st = State::new();
    let mut inputs = queue(&["ship it", "31-12-2030 23:59:59"]);
    let r = add_deadline(&mut st, &no_args(), &mut inputs);
    assert_eq!(r.msgs[1].text, b"Success: deadline saved".to_vec());
    assert_eq!(st.deadlines.get_items().len(), 1);
    assert!(st.deadlines.is_clean());
}
