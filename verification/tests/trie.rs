use pplanner::parser::{CmdId, FuncTree};

fn path(words: &[&str]) -> Vec<Vec<u8>> {
    words.iter().map(|w| w.as_bytes().to_vec()).collect()
}

#[test]
fn insert_then_lookup_returns_handler() {
    let mut t = FuncTree::new();
    assert!(t.push(&path(&["add", "deadline"]), CmdId::AddDeadline).is_ok());
    assert_eq!(t.find(&path(&["add", "deadline"])), Ok(CmdId::AddDeadline));
}

#[test]
fn insert_single_token_path() {
    let mut t = FuncTree::new();
    assert!(t.push(&path(&["now"]), CmdId::Now).is_ok());
    assert_eq!(t.find(&path(&["now"])), Ok(CmdId::Now));
}

#[test]
fn duplicate_insert_fails_and_keeps_first() {
    let mut t = FuncTree::new();
    assert!(t.push(&path(&["mk", "point"]), CmdId::MkPoint).is_ok());
    assert!(t.push(&path(&["mk", "point"]), CmdId::MkTodo).is_err());
    assert_eq!(t.find(&path(&["mk", "point"])), Ok(CmdId::MkPoint));
}

#[test]
fn lookup_proper_prefix_not_found() {
    let mut t = FuncTree::new();
    assert!(t.push(&path(&["add", "deadline"]), CmdId::AddDeadline).is_ok());
    assert_eq!(t.find(&path(&["add"])), Err(()));
}

#[test]
fn lookup_past_leaf_not_found() {
    let mut t = FuncTree::new();
    assert!(t.push(&path(&["add", "deadline"]), CmdId::AddDeadline).is_ok());
    assert_eq!(t.find(&path(&["add", "deadline", "tomorrow"])), Err(()));
}

#[test]
fn lookup_empty_path_not_found() {
    let mut t = FuncTree::new();
    assert!(t.push(&path(&["now"]), CmdId::Now).is_ok());
    assert_eq!(t.find(&path(&[])), Err(()));
}

#[test]
fn lookup_unknown_sibling_not_found() {
    let mut t = FuncTree::new();
    assert!(t.push(&path(&["ls", "points"]), CmdId::LsPoints).is_ok());
    assert_eq!(t.find(&path(&["ls", "todos"])), Err(()));
}

#[test]
fn several_paths_coexist() {
    let mut t = FuncTree::new();
    assert!(t.push(&path(&["ls", "points"]), CmdId::LsPoints).is_ok());
    assert!(t.push(&path(&["ls", "points", "archive"]), CmdId::LsPointsArchive).is_ok());
    assert!(t.push(&path(&["ls", "todos"]), CmdId::LsTodos).is_ok());
    assert_eq!(t.find(&path(&["ls", "points"])), Ok(CmdId::LsPoints));
    assert_eq!(t.find(&path(&["ls", "points", "archive"])), Ok(CmdId::LsPointsArchive));
    assert_eq!(t.find(&path(&["ls", "todos"])), Ok(CmdId::LsTodos));
}

#[test]
fn case_sensitive_matching() {
    let mut t = FuncTree::new();
    assert!(t.push(&path(&["now"]), CmdId::Now).is_ok());
    assert_eq!(t.find(&path(&["Now"])), Err(()));
}
