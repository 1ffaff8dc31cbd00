use std::collections::VecDeque;
use pplanner::conz::{read_bool, read_bool_line, MsgType};
use pplanner::parser::{tokenize, unsplit, CmdId, LoopStep, Parser};
use pplanner::state::State;

fn fresh_parser() -> Parser {
    Parser::new(State::new())
}

fn queue(lines: &[&str]) -> Option<VecDeque<Vec<u8>>> {
    Some(lines.iter().map(|l| l.as_bytes().to_vec()).collect())
}

#[test]
fn q_quits_the_loop() {
    let mut p = fresh_parser();
    let step = p.handle_line(&b"q".to_vec(), &mut None, 0);
    assert!(matches!(step, LoopStep::Quit));
}

#[test]
fn quit_quits_the_loop() {
    let mut p = fresh_parser();
    let step = p.handle_line(&b"quit".to_vec(), &mut None, 0);
    assert!(matches!(step, LoopStep::Quit));
}

#[test]
fn unknown_command_reports_exact_text() {
    let mut p = fresh_parser();
    let step = p.handle_line(&b"frobnicate this".to_vec(), &mut None, 0);
    match step {
        LoopStep::NotFound(msgs) => {
            assert_eq!(msgs.len(), 3);
            assert_eq!(msgs[0].text, b"Error: Command not found: \"".to_vec());
            assert_eq!(msgs[1].text, b"frobnicate this".to_vec());
            assert_eq!(msgs[2].text, b"\"!".to_vec());
        }
        _ => panic!("expected a not-found report"),
    }
}

#[test]
fn now_command_dispatches() {
    let mut p = fresh_parser();
    let step = p.handle_line(&b"now".to_vec(), &mut None, 0);
    match step {
        LoopStep::Ran(c, reply) => {
            assert_eq!(c, CmdId::Now);
            assert_eq!(reply.msgs[0].text, b"Today:".to_vec());
            assert_eq!(reply.msgs.len(), 4);
            assert_eq!(reply.msgs[3].text, b"Thursday".to_vec());
        }
        _ => panic!("expected now to run"),
    }
}

#[test]
fn weekday_names_follow_the_epoch() {
    assert_eq!(pplanner::data::dt_dayname(0), b"Thursday".to_vec());
    assert_eq!(pplanner::data::dt_dayname(86400), b"Friday".to_vec());
    assert_eq!(pplanner::data::dt_dayname(-1), b"Wednesday".to_vec());
    assert_eq!(pplanner::data::dt_dayname(3 * 86400), b"Sunday".to_vec());
}

#[test]
fn ls_commands_lists_all_names() {
    let mut p = fresh_parser();
    let step = p.handle_line(&b"ls commands".to_vec(), &mut None, 0);
    match step {
        LoopStep::Ran(c, reply) => {
            assert_eq!(c, CmdId::LsCommands);
            assert_eq!(reply.msgs.len(), 21);
            assert_eq!(reply.msgs[1].text, b"now".to_vec());
            assert_eq!(reply.msgs[20].text, b"test keys".to_vec());
        }
        _ => panic!("expected ls commands to run"),
    }
}

#[test]
fn read_bool_uses_queue_first() {
    let mut inputs = queue(&["yes"]);
    assert_eq!(read_bool(&mut inputs), Some(true));
    assert_eq!(inputs.as_ref().map(|q| q.len()), Some(0));
}

#[test]
fn read_bool_falls_back_when_exhausted() {
    let mut inputs = queue(&[]);
    assert_eq!(read_bool(&mut inputs), None);
    let mut none = None;
    assert_eq!(read_bool(&mut none), None);
}

#[test]
fn read_bool_line_answers() {
    assert!(read_bool_line(&b"y".to_vec()));
    assert!(read_bool_line(&b"ye".to_vec()));
    assert!(read_bool_line(&b"yes".to_vec()));
    assert!(read_bool_line(&b"ok".to_vec()));
    assert!(read_bool_line(&b"+".to_vec()));
    assert!(!read_bool_line(&b"no".to_vec()));
    assert!(!read_bool_line(&b"".to_vec()));
    assert!(!read_bool_line(&b"Yes".to_vec()));
}

#[test]
fn tokenize_splits_on_whitespace() {
    let toks = tokenize(&b"  add   deadline ".to_vec());
    assert_eq!(toks, vec![b"add".to_vec(), b"deadline".to_vec()]);
    let toks = tokenize(&b"".to_vec());
    assert_eq!(toks, Vec::<Vec<u8>>::new());
    let toks = tokenize(&b"one".to_vec());
    assert_eq!(toks, vec![b"one".to_vec()]);
}

#[test]
fn unsplit_joins_with_separator() {
    let toks = vec![b"ls".to_vec(), b"commands".to_vec()];
    assert_eq!(unsplit(&toks, b' '), b"ls commands".to_vec());
    assert_eq!(unsplit(&toks, b'_'), b"ls_commands".to_vec());
    assert_eq!(unsplit(&Vec::new(), b' '), b"".to_vec());
}

#[test]
fn one_shot_line_from_arguments() {
    let args = vec![b"ls".to_vec(), b"commands".to_vec()];
    let line = unsplit(&args, b' ');
    let mut p = fresh_parser();
    let step = p.handle_line(&line, &mut None, 0);
    assert!(matches!(step, LoopStep::Ran(CmdId::LsCommands, _)));
}

#[test]
fn help_without_command_explains_usage() {
    let mut p = fresh_parser();
    let step = p.handle_line(&b"help".to_vec(), &mut None, 0);
    match step {
        LoopStep::Ran(c, reply) => {
            assert_eq!(c, CmdId::Help);
            assert_eq!(reply.msgs.len(), 9);
            assert!(reply.file.is_none());
        }
        _ => panic!("expected help to run"),
    }
}

#[test]
fn help_for_known_command_requests_file() {
    let mut p = fresh_parser();
    let args = vec![b"help".to_vec(), b"ls".to_vec(), b"commands".to_vec()];
    let reply = pplanner::commands::help(&mut p.state, &args, &mut None);
    assert_eq!(reply.file, Some(b"ls_commands".to_vec()));
    assert_eq!(reply.msgs[1].text, b"ls commands".to_vec());
}

#[test]
fn help_for_unknown_command_fails() {
    let mut p = fresh_parser();
    let args = vec![b"help".to_vec(), b"no".to_vec(), b"such".to_vec()];
    let reply = pplanner::commands::help(&mut p.state, &args, &mut None);
    assert!(reply.file.is_none());
    assert_eq!(
        reply.msgs[0].text,
        b"Fail: command does not exist, so help for it neither.".to_vec()
    );
    assert_eq!(reply.msgs[0].kind, MsgType::Error);
}

#[test]
fn license_requests_license_file() {
    let mut p = fresh_parser();
    let step = p.handle_line(&b"license".to_vec(), &mut None, 0);
    match step {
        LoopStep::Ran(c, reply) => {
            assert_eq!(c, CmdId::License);
            assert_eq!(reply.file, Some(b"LICENSE".to_vec()));
        }
        _ => panic!("expected license to run"),
    }
}

#[test]
fn banner_and_bye_texts() {
    let banner = Parser::banner();
    assert_eq!(banner.len(), 3);
    assert_eq!(banner[0].text, b"Henlo Fren!".to_vec());
    assert_eq!(banner[0].kind, MsgType::Prompt);
    assert_eq!(Parser::bye().text, b"Bye!".to_vec());
}

#[test]
fn surrounding_whitespace_still_quits() {
    let mut p = fresh_parser();
    let step = p.handle_line(&b"  q ".to_vec(), &mut None, 0);
    assert!(matches!(step, LoopStep::Quit));
}

#[test]
fn quit_with_extra_words_does_not_quit() {
    let mut p = fresh_parser();
    let step = p.handle_line(&b"q now".to_vec(), &mut None, 0);
    assert!(matches!(step, LoopStep::NotFound(_)));
}
