//! The command trie and the dispatch decisions: a tree of token nodes
//! built once at startup, resolving an ordered token sequence to the
//! handler registered for it, plus the tokenizer and the per-line
//! decision of the interactive loop.

use vstd::prelude::*;
use vstd::string::StringSliceAdditionalSpecFns;
use vstd::string::is_ascii;
use std::collections::VecDeque;
use crate::conz::bytes_eq;
use crate::conz::clone_bytes;
use crate::conz::lit;
use crate::conz::msg;
use crate::conz::msg_bytes;
use crate::conz::msg_is;
use crate::conz::Msg;
use crate::conz::MsgType;
use crate::commands::Reply;
use crate::state::State;

verus! {

/// The handler bound to a registered command path. The dispatch maps
/// each identifier to one handler function of the library.
#[derive(Clone, Copy, PartialEq, Eq, Structural, Debug)]
pub enum CmdId {
    Now,
    AddDeadline,
    MkPoint,
    RmPoints,
    CleanPoints,
    EditPoints,
    LsPoints,
    LsPointsArchive,
    InspectPoint,
    MkTodo,
    RmTodos,
    EditTodos,
    LsTodos,
    LsTodosArchive,
    Status,
    FlushFiles,
    LsCommands,
    Help,
    License,
    TestKeys,
}

/// One child of a trie node: the token that selects it, and the node.
struct Entry {
    key: Vec<u8>,
    node: FuncTree,
}

/// A trie node: a token-keyed list of exclusively owned children, and
/// an optional handler ("leaf") registered at this exact path.
pub struct FuncTree {
    tree: Vec<Entry>,
    leaf: Option<CmdId>,
}

/// The views of a sequence of tokens.
pub open spec fn tok_views(s: Seq<Vec<u8>>) -> Seq<Seq<u8>> {
    s.map_values(|v: Vec<u8>| v@)
}

/// The token path still to walk below depth `index`.
pub open spec fn sub_path(key: Seq<Vec<u8>>, index: int) -> Seq<Seq<u8>> {
    tok_views(key).skip(index)
}

/// The index of the first entry carrying the key, or -1.
spec fn key_index(s: Seq<Entry>, k: Seq<u8>) -> int
    decreases s.len(),
{
    if s.len() == 0 {
        -1
    } else if s[0].key@ == k {
        0
    } else if key_index(s.drop_first(), k) < 0 {
        -1
    } else {
        key_index(s.drop_first(), k) + 1
    }
}

/// `key_index` finds the first entry with the key, and -1 means none.
proof fn lemma_key_index(s: Seq<Entry>, k: Seq<u8>)
    ensures
        key_index(s, k) == -1 ==> forall|j: int| 0 <= j < s.len() ==> s[j].key@ != k,
        key_index(s, k) != -1 ==> 0 <= key_index(s, k) < s.len()
            && s[key_index(s, k)].key@ == k
            && (forall|j: int| 0 <= j < key_index(s, k) ==> s[j].key@ != k),
    decreases s.len(),
{
    if s.len() > 0 && s[0].key@ != k {
        let st = s.drop_first();
        lemma_key_index(st, k);
        if key_index(st, k) == -1 {
            assert forall|j: int| 0 <= j < s.len() implies s[j].key@ != k by {
                if j > 0 {
                    assert(s[j] == st[j - 1]);
                }
            }
        } else {
            let ki = key_index(st, k) + 1;
            assert(s[ki] == st[ki - 1]);
            assert forall|j: int| 0 <= j < ki implies s[j].key@ != k by {
                if j > 0 {
                    assert(s[j] == st[j - 1]);
                }
            }
        }
    }
}

/// Replacing an entry by one with the same key moves no key index.
proof fn lemma_key_index_update(s: Seq<Entry>, i: int, e: Entry, k: Seq<u8>)
    requires
        0 <= i < s.len(),
        e.key@ == s[i].key@,
    ensures
        key_index(s.update(i, e), k) == key_index(s, k),
    decreases s.len(),
{
    if i == 0 {
        assert(s.update(0, e).drop_first() =~= s.drop_first());
    } else {
        assert(s.update(i, e).drop_first() =~= s.drop_first().update(i - 1, e));
        lemma_key_index_update(s.drop_first(), i - 1, e, k);
    }
}

/// Appending an entry leaves present keys where they were, and gives
/// an absent key the new slot exactly when the new entry carries it.
proof fn lemma_key_index_push(s: Seq<Entry>, e: Entry, k: Seq<u8>)
    ensures
        key_index(s, k) != -1 ==> key_index(s.push(e), k) == key_index(s, k),
        key_index(s, k) == -1 && e.key@ == k ==> key_index(s.push(e), k) == s.len(),
        key_index(s, k) == -1 && e.key@ != k ==> key_index(s.push(e), k) == -1,
    decreases s.len(),
{
    if s.len() == 0 {
        assert(s.push(e)[0] == e);
        assert(s.push(e).drop_first() =~= Seq::<Entry>::empty());
        assert(key_index(Seq::<Entry>::empty(), k) == -1);
        if e.key@ == k {
            assert(key_index(s.push(e), k) == 0);
        } else {
            assert(key_index(s.push(e), k) == -1);
        }
    } else {
        assert(s.push(e)[0] == s[0]);
        assert(s.push(e).drop_first() =~= s.drop_first().push(e));
        lemma_key_index_push(s.drop_first(), e, k);
        assert(key_index(s.push(e), k) == (
            if s.push(e)[0].key@ == k {
                0int
            } else if key_index(s.drop_first().push(e), k) < 0 {
                -1int
            } else {
                key_index(s.drop_first().push(e), k) + 1
            }
        ));
    }
}

/// Two non-empty paths with the same head and the same tail are the
/// same path.
proof fn lemma_path_eq(p: Seq<Seq<u8>>, q: Seq<Seq<u8>>)
    requires
        p.len() >= 1,
        q.len() >= 1,
        p[0] == q[0],
        p.drop_first() == q.drop_first(),
    ensures
        p == q,
{
    assert(p.drop_first().len() == p.len() - 1);
    assert(q.drop_first().len() == q.len() - 1);
    assert(p.len() == q.len());
    assert forall|j: int| 0 <= j < p.len() implies p[j] == q[j] by {
        if j > 0 {
            assert(p[j] == p.drop_first()[j - 1]);
            assert(q[j] == q.drop_first()[j - 1]);
        }
    }
    assert(p =~= q);
}

impl FuncTree {
    /// The handler resolved for a token path: walks the children
    /// strictly token by token; the handler of the final node, if any.
    /// An empty path resolves to nothing.
    pub closed spec fn find_spec(self, key: Seq<Seq<u8>>) -> Option<CmdId>
        decreases key.len(),
    {
        if key.len() == 0 {
            None
        } else {
            let i = key_index(self.tree@, key[0]);
            if i < 0 {
                None
            } else if key.len() == 1 {
                self.tree@[i].node.leaf
            } else {
                self.tree@[i].node.find_spec(key.drop_first())
            }
        }
    }

    /// The handler registered at this node itself.
    pub closed spec fn handler(self) -> Option<CmdId> {
        self.leaf
    }

    /// What a path resolves to depends only on the children.
    proof fn lemma_find_children(a: FuncTree, b: FuncTree, p: Seq<Seq<u8>>)
        requires
            a.tree@ == b.tree@,
        ensures
            a.find_spec(p) == b.find_spec(p),
    {
    }

    /// An empty node resolves no path.
    pub fn new() -> (t: FuncTree)
        ensures
            forall|p: Seq<Seq<u8>>| #[trigger] t.find_spec(p) is None,
            t.handler() is None,
    {
        let t = FuncTree { tree: Vec::new(), leaf: None };
        proof {
            assert forall|p: Seq<Seq<u8>>| #[trigger] t.find_spec(p) is None by {
                if p.len() > 0 {
                    lemma_key_index(t.tree@, p[0]);
                }
            }
        }
        t
    }

    /// A childless node already carrying a handler, to stand at the
    /// end of a freshly inserted path.
    pub fn new_value(f: CmdId) -> (t: FuncTree)
        ensures
            forall|p: Seq<Seq<u8>>| #[trigger] t.find_spec(p) is None,
            t.handler() == Some(f),
    {
        let t = FuncTree { tree: Vec::new(), leaf: Some(f) };
        proof {
            assert forall|p: Seq<Seq<u8>>| #[trigger] t.find_spec(p) is None by {
                if p.len() > 0 {
                    lemma_key_index(t.tree@, p[0]);
                }
            }
        }
        t
    }

    /// The position of the child selected by one token, if any.
    fn find_child_index(tree: &Vec<Entry>, k: &Vec<u8>) -> (r: Option<usize>)
        ensures
            match r {
                Some(i) => i < tree@.len() && key_index(tree@, k@) == i,
                None => key_index(tree@, k@) == -1,
            },
    {
        let mut j: usize = 0;
        while j < tree.len()
            invariant
                j <= tree@.len(),
                forall|jj: int| 0 <= jj < j ==> tree@[jj].key@ != k@,
            decreases tree@.len() - j,
        {
            if bytes_eq(&tree[j].key, k) {
                proof {
                    lemma_key_index(tree@, k@);
                }
                return Some(j);
            }
            j += 1;
        }
        proof {
            lemma_key_index(tree@, k@);
        }
        None
    }

    /// Resolves a full token path to its handler; `Err` when any token
    /// has no child along the way, when the final node carries no
    /// handler, or when the path is empty.
    pub fn find(&self, key: &Vec<Vec<u8>>) -> (r: Result<CmdId, ()>)
        ensures
            r matches Ok(h) ==> self.find_spec(tok_views(key@)) == Some(h),
            r is Err ==> self.find_spec(tok_views(key@)) is None,
    {
        if key.len() == 0 {
            return Err(());
        }
        proof {
            assert(sub_path(key@, 0) =~= tok_views(key@));
        }
        match self.find_at(key, 0) {
            Some(h) => Ok(h),
            None => Err(()),
        }
    }

    fn find_at(&self, key: &Vec<Vec<u8>>, index: usize) -> (r: Option<CmdId>)
        requires
            index < key@.len(),
        ensures
            r == self.find_spec(sub_path(key@, index as int)),
        decreases key@.len() - index,
    {
        let ghost sub = sub_path(key@, index as int);
        proof {
            assert(sub.len() == key@.len() - index);
            assert(sub[0] == key@[index as int]@);
        }
        let n = key.len();
        match Self::find_child_index(&self.tree, &key[index]) {
            None => None,
            Some(i) => {
                if index + 1 == n {
                    self.tree[i].node.leaf
                } else {
                    proof {
                        assert(sub.drop_first() =~= sub_path(key@, index as int + 1));
                    }
                    self.tree[i].node.find_at(key, index + 1)
                }
            }
        }
    }

    /// Registers a handler at a non-empty token path, creating the
    /// intermediate nodes on demand. Registering a path that already
    /// carries a handler fails and changes nothing; otherwise exactly
    /// that one path gains the handler.
    pub fn push(&mut self, key: &Vec<Vec<u8>>, f: CmdId) -> (r: Result<(), ()>)
        requires
            key@.len() > 0,
        ensures
            old(self).find_spec(tok_views(key@)) is Some ==> (
                r is Err
                && (forall|p: Seq<Seq<u8>>|
                    #[trigger] final(self).find_spec(p) == old(self).find_spec(p))
            ),
            old(self).find_spec(tok_views(key@)) is None ==> (
                r is Ok
                && (forall|p: Seq<Seq<u8>>|
                    #[trigger] final(self).find_spec(p)
                        == (if p == tok_views(key@) { Some(f) } else { old(self).find_spec(p) }))
            ),
            final(self).handler() == old(self).handler(),
    {
        proof {
            assert(sub_path(key@, 0) =~= tok_views(key@));
        }
        self.push_at(key, 0, f)
    }

    fn push_at(&mut self, key: &Vec<Vec<u8>>, index: usize, f: CmdId) -> (r: Result<(), ()>)
        requires
            index < key@.len(),
        ensures
            old(self).find_spec(sub_path(key@, index as int)) is Some ==> (
                r is Err
                && (forall|p: Seq<Seq<u8>>|
                    #[trigger] final(self).find_spec(p) == old(self).find_spec(p))
            ),
            old(self).find_spec(sub_path(key@, index as int)) is None ==> (
                r is Ok
                && (forall|p: Seq<Seq<u8>>|
                    #[trigger] final(self).find_spec(p)
                        == (if p == sub_path(key@, index as int) { Some(f) } else {
                            old(self).find_spec(p)
                        }))
            ),
            final(self).handler() == old(self).handler(),
        decreases key@.len() - index,
    {
        let ghost sub = sub_path(key@, index as int);
        let ghost old_tree = self.tree@;
        let ghost oldself = *self;
        let n = key.len();
        let last = index + 1 == n;
        proof {
            assert(sub.len() == key@.len() - index);
            assert(sub[0] == key@[index as int]@);
            assert(sub.drop_first() =~= sub_path(key@, index as int + 1));
        }
        match Self::find_child_index(&self.tree, &key[index]) {
            None => {
                if last {
                    let ent = Entry { key: clone_bytes(&key[index]), node: FuncTree::new_value(f) };
                    let ghost ge = ent;
                    self.tree.push(ent);
                    proof {
                        self.lemma_push_new_entry(oldself, ge, sub, f);
                    }
                    Ok(())
                } else {
                    let mut node = FuncTree::new();
                    let rr = node.push_at(key, index + 1, f);
                    let ent = Entry { key: clone_bytes(&key[index]), node };
                    let ghost ge = ent;
                    self.tree.push(ent);
                    proof {
                        self.lemma_push_new_entry(oldself, ge, sub, f);
                    }
                    rr
                }
            }
            Some(i) => {
                let mut ent = self.tree.remove(i);
                let ghost ge_old = ent;
                let r: Result<(), ()>;
                if last {
                    if ent.node.leaf.is_some() {
                        r = Err(());
                    } else {
                        ent.node.leaf = Some(f);
                        r = Ok(());
                    }
                } else {
                    r = ent.node.push_at(key, index + 1, f);
                }
                let ghost ge_new = ent;
                self.tree.insert(i, ent);
                proof {
                    assert(self.tree@ =~= old_tree.update(i as int, ge_new));
                    self.lemma_push_existing(oldself, ge_old, ge_new, i as int, sub, f, r);
                }
                r
            }
        }
    }

    /// After appending a fresh child entry whose subtree resolves
    /// exactly the tail of the inserted path, the whole node resolves
    /// exactly the inserted path on top of what it resolved before.
    proof fn lemma_push_new_entry(self, oldself: FuncTree, ge: Entry, sub: Seq<Seq<u8>>, f: CmdId)
        requires
            sub.len() >= 1,
            key_index(oldself.tree@, sub[0]) == -1,
            ge.key@ == sub[0],
            self.tree@ == oldself.tree@.push(ge),
            self.leaf == oldself.leaf,
            sub.len() == 1 ==> ge.node.handler() == Some(f)
                && (forall|q: Seq<Seq<u8>>| #[trigger] ge.node.find_spec(q) is None),
            sub.len() > 1 ==> ge.node.handler() is None
                && (forall|q: Seq<Seq<u8>>|
                    #[trigger] ge.node.find_spec(q)
                        == (if q == sub.drop_first() { Some(f) } else { None::<CmdId> })),
        ensures
            oldself.find_spec(sub) is None,
            forall|p: Seq<Seq<u8>>|
                #[trigger] self.find_spec(p)
                    == (if p == sub { Some(f) } else { oldself.find_spec(p) }),
            self.handler() == oldself.handler(),
    {
        let ot = oldself.tree@;
        assert forall|p: Seq<Seq<u8>>|
            #[trigger] self.find_spec(p)
                == (if p == sub { Some(f) } else { oldself.find_spec(p) }) by {
            if p.len() == 0 {
                assert(p != sub);
            } else {
                lemma_key_index_push(ot, ge, p[0]);
                lemma_key_index(ot, p[0]);
                if p[0] == sub[0] {
                    assert(key_index(ot, p[0]) == -1);
                    assert(key_index(self.tree@, p[0]) == ot.len());
                    assert(self.tree@[ot.len() as int] == ge);
                    assert(oldself.find_spec(p) is None);
                    if p.len() == 1 {
                        if sub.len() == 1 {
                            assert(p =~= sub);
                            assert(self.find_spec(p) == ge.node.leaf);
                            assert(ge.node.leaf == Some(f));
                        } else {
                            assert(p != sub);
                            assert(self.find_spec(p) == ge.node.leaf);
                            assert(ge.node.handler() is None);
                        }
                    } else {
                        assert(self.find_spec(p) == ge.node.find_spec(p.drop_first()));
                        if sub.len() == 1 {
                            assert(p != sub);
                            assert(ge.node.find_spec(p.drop_first()) is None);
                        } else {
                            if p.drop_first() == sub.drop_first() {
                                lemma_path_eq(p, sub);
                            } else {
                                assert(p != sub);
                            }
                        }
                    }
                } else {
                    assert(p != sub);
                    assert(key_index(self.tree@, p[0]) == key_index(ot, p[0]));
                    if key_index(ot, p[0]) != -1 {
                        assert(self.tree@[key_index(ot, p[0])] == ot[key_index(ot, p[0])]);
                    }
                }
            }
        }
    }

    /// After replacing the child entry at the selected token by one
    /// with the same key, the node resolves every path as the new
    /// child does below that token and as before elsewhere.
    proof fn lemma_push_existing(
        self,
        oldself: FuncTree,
        ge_old: Entry,
        ge_new: Entry,
        i: int,
        sub: Seq<Seq<u8>>,
        f: CmdId,
        r: Result<(), ()>,
    )
        requires
            sub.len() >= 1,
            0 <= i < oldself.tree@.len(),
            key_index(oldself.tree@, sub[0]) == i,
            ge_old == oldself.tree@[i],
            ge_new.key@ == ge_old.key@,
            self.tree@ == oldself.tree@.update(i, ge_new),
            self.leaf == oldself.leaf,
            sub.len() == 1 ==> ({
                &&& ge_new.node.tree@ == ge_old.node.tree@
                &&& ge_old.node.handler() is Some ==> r is Err
                    && ge_new.node.handler() == ge_old.node.handler()
                &&& ge_old.node.handler() is None ==> r is Ok
                    && ge_new.node.handler() == Some(f)
            }),
            sub.len() > 1 ==> ({
                &&& ge_new.node.handler() == ge_old.node.handler()
                &&& ge_old.node.find_spec(sub.drop_first()) is Some ==> r is Err
                    && (forall|q: Seq<Seq<u8>>|
                        #[trigger] ge_new.node.find_spec(q) == ge_old.node.find_spec(q))
                &&& ge_old.node.find_spec(sub.drop_first()) is None ==> r is Ok
                    && (forall|q: Seq<Seq<u8>>|
                        #[trigger] ge_new.node.find_spec(q)
                            == (if q == sub.drop_first() { Some(f) } else {
                                ge_old.node.find_spec(q)
                            }))
            }),
        ensures
            oldself.find_spec(sub) is Some ==> r is Err
                && (forall|p: Seq<Seq<u8>>|
                    #[trigger] self.find_spec(p) == oldself.find_spec(p)),
            oldself.find_spec(sub) is None ==> r is Ok
                && (forall|p: Seq<Seq<u8>>|
                    #[trigger] self.find_spec(p)
                        == (if p == sub { Some(f) } else { oldself.find_spec(p) })),
            self.handler() == oldself.handler(),
    {
        let ot = oldself.tree@;
        lemma_key_index(ot, sub[0]);
        assert(ot[i].key@ == sub[0]);
        if sub.len() == 1 {
            assert(oldself.find_spec(sub) == ge_old.node.leaf);
        } else {
            assert(oldself.find_spec(sub) == ge_old.node.find_spec(sub.drop_first()));
        }
        assert forall|p: Seq<Seq<u8>>|
            #[trigger] self.find_spec(p)
                == (if p == sub && oldself.find_spec(sub) is None { Some(f) } else {
                    oldself.find_spec(p)
                }) by {
            if p.len() == 0 {
                assert(p != sub);
            } else {
                lemma_key_index_update(ot, i, ge_new, p[0]);
                lemma_key_index(ot, p[0]);
                let ki = key_index(ot, p[0]);
                assert(key_index(self.tree@, p[0]) == ki);
                if ki == i {
                    assert(p[0] == sub[0]);
                    assert(self.tree@[i] == ge_new);
                    if p.len() == 1 {
                        assert(self.find_spec(p) == ge_new.node.leaf);
                        assert(oldself.find_spec(p) == ge_old.node.leaf);
                        if sub.len() == 1 {
                            assert(p =~= sub);
                        } else {
                            assert(p != sub);
                        }
                    } else {
                        assert(self.find_spec(p) == ge_new.node.find_spec(p.drop_first()));
                        assert(oldself.find_spec(p) == ge_old.node.find_spec(p.drop_first()));
                        if sub.len() == 1 {
                            assert(p != sub);
                            FuncTree::lemma_find_children(
                                ge_new.node,
                                ge_old.node,
                                p.drop_first(),
                            );
                        } else {
                            if p.drop_first() == sub.drop_first() {
                                lemma_path_eq(p, sub);
                            } else {
                                assert(p != sub);
                            }
                        }
                    }
                } else {
                    assert(p != sub);
                    if ki != -1 {
                        assert(self.tree@[ki] == ot[ki]);
                    }
                }
            }
        }
    }
}


/// A whitespace byte for tokenization.
pub open spec fn is_ws(b: u8) -> bool {
    b == 32 || b == 9 || b == 10 || b == 13
}

/// The tokens of the line from position `i` on, given the partial
/// token and the tokens already split off.
pub open spec fn tokenize_from(s: Seq<u8>, i: int, cur: Seq<u8>, acc: Seq<Seq<u8>>) -> Seq<Seq<u8>>
    decreases s.len() - i,
{
    if i < 0 || i >= s.len() {
        if cur.len() > 0 {
            acc.push(cur)
        } else {
            acc
        }
    } else if is_ws(s[i]) {
        if cur.len() > 0 {
            tokenize_from(s, i + 1, Seq::empty(), acc.push(cur))
        } else {
            tokenize_from(s, i + 1, cur, acc)
        }
    } else {
        tokenize_from(s, i + 1, cur.push(s[i]), acc)
    }
}

/// The whitespace-delimited tokens of a line.
pub open spec fn tokens_of(s: Seq<u8>) -> Seq<Seq<u8>> {
    tokenize_from(s, 0, Seq::empty(), Seq::empty())
}

/// Splits a line into its whitespace-delimited tokens.
pub fn tokenize(line: &Vec<u8>) -> (r: Vec<Vec<u8>>)
    ensures
        tok_views(r@) == tokens_of(line@),
{
    let mut acc: Vec<Vec<u8>> = Vec::new();
    let mut cur: Vec<u8> = Vec::new();
    let mut i: usize = 0;
    proof {
        assert(tok_views(acc@) =~= Seq::<Seq<u8>>::empty());
    }
    while i < line.len()
        invariant
            0 <= i <= line@.len(),
            tokens_of(line@) == tokenize_from(line@, i as int, cur@, tok_views(acc@)),
        decreases line@.len() - i,
    {
        let b = line[i];
        if b == 32 || b == 9 || b == 10 || b == 13 {
            if cur.len() > 0 {
                let ghost gacc = acc@;
                let ghost gcur = cur@;
                acc.push(cur);
                cur = Vec::new();
                proof {
                    assert(tok_views(acc@) =~= tok_views(gacc).push(gcur));
                }
            }
        } else {
            cur.push(b);
        }
        i += 1;
    }
    if cur.len() > 0 {
        let ghost gacc = acc@;
        let ghost gcur = cur@;
        acc.push(cur);
        proof {
            assert(tok_views(acc@) =~= tok_views(gacc).push(gcur));
        }
    }
    acc
}

/// The line with leading whitespace removed.
pub open spec fn trim_front(s: Seq<u8>) -> Seq<u8>
    decreases s.len(),
{
    if s.len() > 0 && is_ws(s[0]) {
        trim_front(s.drop_first())
    } else {
        s
    }
}

/// The line with trailing whitespace removed.
pub open spec fn trim_back(s: Seq<u8>) -> Seq<u8>
    decreases s.len(),
{
    if s.len() > 0 && is_ws(s.last()) {
        trim_back(s.drop_last())
    } else {
        s
    }
}

/// The line with leading and trailing whitespace removed.
pub open spec fn trimmed(s: Seq<u8>) -> Seq<u8> {
    trim_back(trim_front(s))
}

/// Strips leading and trailing whitespace.
pub fn trim_bytes(line: &Vec<u8>) -> (r: Vec<u8>)
    ensures
        r@ == trimmed(line@),
{
    let mut v = clone_bytes(line);
    while v.len() > 0 && (v[0] == 32 || v[0] == 9 || v[0] == 10 || v[0] == 13)
        invariant
            trim_front(line@) == trim_front(v@),
        decreases v@.len(),
    {
        proof {
            assert(v@.remove(0) =~= v@.drop_first());
        }
        v.remove(0);
    }
    let ghost mid = v@;
    proof {
        assert(trim_front(line@) == mid);
    }
    while v.len() > 0
        && (v[v.len() - 1] == 32 || v[v.len() - 1] == 9 || v[v.len() - 1] == 10
            || v[v.len() - 1] == 13)
        invariant
            trim_back(mid) == trim_back(v@),
        decreases v@.len(),
    {
        v.pop();
    }
    v
}

/// Tokens joined by one separator byte.
pub open spec fn joined(toks: Seq<Seq<u8>>, sep: u8) -> Seq<u8>
    decreases toks.len(),
{
    if toks.len() == 0 {
        Seq::empty()
    } else if toks.len() == 1 {
        toks[0]
    } else {
        joined(toks.drop_last(), sep).push(sep) + toks.last()
    }
}

/// Joins tokens with one separator byte between them.
pub fn unsplit(toks: &Vec<Vec<u8>>, sep: u8) -> (r: Vec<u8>)
    ensures
        r@ == joined(tok_views(toks@), sep),
{
    let mut r: Vec<u8> = Vec::new();
    let mut i: usize = 0;
    while i < toks.len()
        invariant
            0 <= i <= toks@.len(),
            r@ == joined(tok_views(toks@.take(i as int)), sep),
        decreases toks@.len() - i,
    {
        if i > 0 {
            r.push(sep);
        }
        let ghost mid = r@;
        let mut k: usize = 0;
        while k < toks[i].len()
            invariant
                i < toks@.len(),
                0 <= k <= toks@[i as int]@.len(),
                r@ == mid + toks@[i as int]@.take(k as int),
            decreases toks@[i as int]@.len() - k,
        {
            r.push(toks[i][k]);
            proof {
                assert(mid + toks@[i as int]@.take(k as int + 1)
                    =~= (mid + toks@[i as int]@.take(k as int)).push(toks@[i as int]@[k as int]));
            }
            k += 1;
        }
        proof {
            assert(toks@[i as int]@.take(toks@[i as int]@.len() as int) =~= toks@[i as int]@);
            let tv1 = tok_views(toks@.take(i as int + 1));
            assert(tv1.drop_last() =~= tok_views(toks@.take(i as int)));
            assert(tv1.last() == toks@[i as int]@);
            if i == 0 {
                assert(r@ =~= joined(tv1, sep));
            } else {
                assert(r@ =~= joined(tv1.drop_last(), sep).push(sep) + tv1.last());
            }
        }
        i += 1;
    }
    proof {
        assert(toks@.take(toks@.len() as int) =~= toks@);
    }
    r
}

/// The command paths registered at startup and their handlers.
pub open spec fn registered(p: Seq<Seq<u8>>) -> Option<CmdId> {
    if p == seq!["flush".spec_bytes(), "files".spec_bytes()] {
        Some(CmdId::FlushFiles)
    } else if p == seq!["ls".spec_bytes(), "commands".spec_bytes()] {
        Some(CmdId::LsCommands)
    } else if p == seq!["help".spec_bytes()] {
        Some(CmdId::Help)
    } else if p == seq!["license".spec_bytes()] {
        Some(CmdId::License)
    } else if p == seq!["test".spec_bytes(), "keys".spec_bytes()] {
        Some(CmdId::TestKeys)
    } else if p == seq!["rm".spec_bytes(), "todos".spec_bytes()] {
        Some(CmdId::RmTodos)
    } else if p == seq!["edit".spec_bytes(), "todos".spec_bytes()] {
        Some(CmdId::EditTodos)
    } else if p == seq!["ls".spec_bytes(), "todos".spec_bytes()] {
        Some(CmdId::LsTodos)
    } else if p == seq!["ls".spec_bytes(), "todos".spec_bytes(), "archive".spec_bytes()] {
        Some(CmdId::LsTodosArchive)
    } else if p == seq!["status".spec_bytes()] {
        Some(CmdId::Status)
    } else if p == seq!["edit".spec_bytes(), "points".spec_bytes()] {
        Some(CmdId::EditPoints)
    } else if p == seq!["ls".spec_bytes(), "points".spec_bytes()] {
        Some(CmdId::LsPoints)
    } else if p == seq!["ls".spec_bytes(), "points".spec_bytes(), "archive".spec_bytes()] {
        Some(CmdId::LsPointsArchive)
    } else if p == seq!["inspect".spec_bytes(), "point".spec_bytes()] {
        Some(CmdId::InspectPoint)
    } else if p == seq!["mk".spec_bytes(), "todo".spec_bytes()] {
        Some(CmdId::MkTodo)
    } else if p == seq!["now".spec_bytes()] {
        Some(CmdId::Now)
    } else if p == seq!["add".spec_bytes(), "deadline".spec_bytes()] {
        Some(CmdId::AddDeadline)
    } else if p == seq!["mk".spec_bytes(), "point".spec_bytes()] {
        Some(CmdId::MkPoint)
    } else if p == seq!["rm".spec_bytes(), "points".spec_bytes()] {
        Some(CmdId::RmPoints)
    } else if p == seq!["clean".spec_bytes(), "points".spec_bytes()] {
        Some(CmdId::CleanPoints)
    } else {
        None
    }
}

/// The full command names, in registration order, for the session's
/// set of valid command names.
pub open spec fn command_names() -> Seq<Seq<u8>> {
    seq![
        "now".spec_bytes(),
        "add deadline".spec_bytes(),
        "mk point".spec_bytes(),
        "rm points".spec_bytes(),
        "clean points".spec_bytes(),
        "edit points".spec_bytes(),
        "ls points".spec_bytes(),
        "ls points archive".spec_bytes(),
        "inspect point".spec_bytes(),
        "mk todo".spec_bytes(),
        "rm todos".spec_bytes(),
        "edit todos".spec_bytes(),
        "ls todos".spec_bytes(),
        "ls todos archive".spec_bytes(),
        "status".spec_bytes(),
        "flush files".spec_bytes(),
        "ls commands".spec_bytes(),
        "help".spec_bytes(),
        "license".spec_bytes(),
        "test keys".spec_bytes(),
    ]
}

/// The paths resolved after the first registration stage.
spec fn stage_points(p: Seq<Seq<u8>>) -> Option<CmdId> {
    if p == seq!["now".spec_bytes()] {
        Some(CmdId::Now)
    } else if p == seq!["add".spec_bytes(), "deadline".spec_bytes()] {
        Some(CmdId::AddDeadline)
    } else if p == seq!["mk".spec_bytes(), "point".spec_bytes()] {
        Some(CmdId::MkPoint)
    } else if p == seq!["rm".spec_bytes(), "points".spec_bytes()] {
        Some(CmdId::RmPoints)
    } else if p == seq!["clean".spec_bytes(), "points".spec_bytes()] {
        Some(CmdId::CleanPoints)
    } else {
        None
    }
}

/// The paths resolved after the second registration stage.
spec fn stage_lists(p: Seq<Seq<u8>>) -> Option<CmdId> {
    if p == seq!["edit".spec_bytes(), "points".spec_bytes()] {
        Some(CmdId::EditPoints)
    } else if p == seq!["ls".spec_bytes(), "points".spec_bytes()] {
        Some(CmdId::LsPoints)
    } else if p == seq!["ls".spec_bytes(), "points".spec_bytes(), "archive".spec_bytes()] {
        Some(CmdId::LsPointsArchive)
    } else if p == seq!["inspect".spec_bytes(), "point".spec_bytes()] {
        Some(CmdId::InspectPoint)
    } else if p == seq!["mk".spec_bytes(), "todo".spec_bytes()] {
        Some(CmdId::MkTodo)
    } else {
        stage_points(p)
    }
}

/// The paths resolved after the third registration stage.
spec fn stage_todos(p: Seq<Seq<u8>>) -> Option<CmdId> {
    if p == seq!["rm".spec_bytes(), "todos".spec_bytes()] {
        Some(CmdId::RmTodos)
    } else if p == seq!["edit".spec_bytes(), "todos".spec_bytes()] {
        Some(CmdId::EditTodos)
    } else if p == seq!["ls".spec_bytes(), "todos".spec_bytes()] {
        Some(CmdId::LsTodos)
    } else if p == seq!["ls".spec_bytes(), "todos".spec_bytes(), "archive".spec_bytes()] {
        Some(CmdId::LsTodosArchive)
    } else if p == seq!["status".spec_bytes()] {
        Some(CmdId::Status)
    } else {
        stage_lists(p)
    }
}

/// The dispatcher: the command trie and the session state it hands to
/// the handlers.
pub struct Parser {
    pub ftree: FuncTree,
    pub state: State,
}

/// What one line of input led to: leaving the loop, a handled
/// command, or a command-not-found report.
pub enum LoopStep {
    Quit,
    Ran(CmdId, Reply),
    NotFound(Vec<Msg>),
}

impl Parser {
    /// The handler the dispatcher resolves for a token path.
    pub closed spec fn resolves(&self, p: Seq<Seq<u8>>) -> Option<CmdId> {
        self.ftree.find_spec(p)
    }

    /// Builds the trie with every built-in command and fills the
    /// session's set of command names. The twenty built-in paths are
    /// distinct, so every registration succeeds: a duplicate would be
    /// a configuration error, and the proof rules it out.
    #[verifier::rlimit(100)]
    #[verifier::spinoff_prover]
    pub fn new(state: State) -> (r: Parser)
        ensures
            forall|p: Seq<Seq<u8>>| #[trigger] r.resolves(p) == registered(p),
            tok_views(r.state.fset@) == command_names(),
            r.state.points == state.points,
            r.state.points_archive == state.points_archive,
            r.state.todos == state.todos,
            r.state.todos_archive == state.todos_archive,
            r.state.deadlines == state.deadlines,
    {
        let mut t = FuncTree::new();
        Self::reg_points(&mut t);
        Self::reg_lists(&mut t);
        Self::reg_todos(&mut t);
        Self::reg_misc(&mut t);
        let mut st = state;
        let fset = vec![
            lit("now"),
            lit("add deadline"),
            lit("mk point"),
            lit("rm points"),
            lit("clean points"),
            lit("edit points"),
            lit("ls points"),
            lit("ls points archive"),
            lit("inspect point"),
            lit("mk todo"),
            lit("rm todos"),
            lit("edit todos"),
            lit("ls todos"),
            lit("ls todos archive"),
            lit("status"),
            lit("flush files"),
            lit("ls commands"),
            lit("help"),
            lit("license"),
            lit("test keys"),
        ];
        proof {
            assert(tok_views(fset@) =~= command_names());
        }
        st.fset = fset;
        let pr = Parser { ftree: t, state: st };
        proof {
            assert forall|p: Seq<Seq<u8>>| #[trigger] pr.resolves(p) == registered(p) by {
                assert(pr.ftree.find_spec(p) == t.find_spec(p));
            }
        }
        pr
    }

    /// Registers the first five commands in an empty trie.
    #[verifier::rlimit(100)]
    #[verifier::spinoff_prover]
    fn reg_points(t: &mut FuncTree)
        requires
            forall|p: Seq<Seq<u8>>| #[trigger] old(t).find_spec(p) is None,
        ensures
            forall|p: Seq<Seq<u8>>| #[trigger] final(t).find_spec(p) == stage_points(p),
    {
        proof {
            broadcast use vstd::string::is_ascii_spec_bytes;
            reveal_strlit("now");
            reveal_strlit("add");
            reveal_strlit("deadline");
            reveal_strlit("mk");
            reveal_strlit("point");
            reveal_strlit("rm");
            reveal_strlit("points");
            reveal_strlit("clean");
            assert(is_ascii("now"));
            assert(is_ascii("add"));
            assert(is_ascii("deadline"));
            assert(is_ascii("mk"));
            assert(is_ascii("point"));
            assert(is_ascii("rm"));
            assert(is_ascii("points"));
            assert(is_ascii("clean"));
            assert("now".spec_bytes().len() == 3);
            assert("now".spec_bytes()[0] == 110);
            assert("now".spec_bytes()[1] == 111);
            assert("add".spec_bytes().len() == 3);
            assert("add".spec_bytes()[0] == 97);
            assert("add".spec_bytes()[1] == 100);
            assert("deadline".spec_bytes().len() == 8);
            assert("deadline".spec_bytes()[0] == 100);
            assert("deadline".spec_bytes()[1] == 101);
            assert("mk".spec_bytes().len() == 2);
            assert("mk".spec_bytes()[0] == 109);
            assert("mk".spec_bytes()[1] == 107);
            assert("point".spec_bytes().len() == 5);
            assert("point".spec_bytes()[0] == 112);
            assert("point".spec_bytes()[1] == 111);
            assert("rm".spec_bytes().len() == 2);
            assert("rm".spec_bytes()[0] == 114);
            assert("rm".spec_bytes()[1] == 109);
            assert("points".spec_bytes().len() == 6);
            assert("points".spec_bytes()[0] == 112);
            assert("points".spec_bytes()[1] == 111);
            assert("clean".spec_bytes().len() == 5);
            assert("clean".spec_bytes()[0] == 99);
            assert("clean".spec_bytes()[1] == 108);
        }
        let p1 = vec![lit("now")];
        proof {
            assert(tok_views(p1@) =~= seq!["now".spec_bytes()]);
        }
        proof {
            assert(t.find_spec(tok_views(p1@)) is None);
        }
        let _ = t.push(&p1, CmdId::Now);
        let p2 = vec![lit("add"), lit("deadline")];
        proof {
            assert(tok_views(p2@) =~= seq!["add".spec_bytes(), "deadline".spec_bytes()]);
        }
        proof {
            assert(t.find_spec(tok_views(p2@)) is None);
        }
        let _ = t.push(&p2, CmdId::AddDeadline);
        let p3 = vec![lit("mk"), lit("point")];
        proof {
            assert(tok_views(p3@) =~= seq!["mk".spec_bytes(), "point".spec_bytes()]);
        }
        proof {
            assert(t.find_spec(tok_views(p3@)) is None);
        }
        let _ = t.push(&p3, CmdId::MkPoint);
        let p4 = vec![lit("rm"), lit("points")];
        proof {
            assert(tok_views(p4@) =~= seq!["rm".spec_bytes(), "points".spec_bytes()]);
        }
        proof {
            assert(t.find_spec(tok_views(p4@)) is None);
        }
        let _ = t.push(&p4, CmdId::RmPoints);
        let p5 = vec![lit("clean"), lit("points")];
        proof {
            assert(tok_views(p5@) =~= seq!["clean".spec_bytes(), "points".spec_bytes()]);
        }
        proof {
            assert(t.find_spec(tok_views(p5@)) is None);
        }
        let _ = t.push(&p5, CmdId::CleanPoints);
    }

    /// Registers the point-listing and point-editing commands.
    #[verifier::rlimit(100)]
    #[verifier::spinoff_prover]
    fn reg_lists(t: &mut FuncTree)
        requires
            forall|p: Seq<Seq<u8>>| #[trigger] old(t).find_spec(p) == stage_points(p),
        ensures
            forall|p: Seq<Seq<u8>>| #[trigger] final(t).find_spec(p) == stage_lists(p),
    {
        proof {
            broadcast use vstd::string::is_ascii_spec_bytes;
            reveal_strlit("now");
            reveal_strlit("add");
            reveal_strlit("deadline");
            reveal_strlit("mk");
            reveal_strlit("point");
            reveal_strlit("rm");
            reveal_strlit("points");
            reveal_strlit("clean");
            reveal_strlit("edit");
            reveal_strlit("ls");
            reveal_strlit("archive");
            reveal_strlit("inspect");
            reveal_strlit("todo");
            assert(is_ascii("now"));
            assert(is_ascii("add"));
            assert(is_ascii("deadline"));
            assert(is_ascii("mk"));
            assert(is_ascii("point"));
            assert(is_ascii("rm"));
            assert(is_ascii("points"));
            assert(is_ascii("clean"));
            assert(is_ascii("edit"));
            assert(is_ascii("ls"));
            assert(is_ascii("archive"));
            assert(is_ascii("inspect"));
            assert(is_ascii("todo"));
            assert("now".spec_bytes().len() == 3);
            assert("now".spec_bytes()[0] == 110);
            assert("now".spec_bytes()[1] == 111);
            assert("add".spec_bytes().len() == 3);
            assert("add".spec_bytes()[0] == 97);
            assert("add".spec_bytes()[1] == 100);
            assert("deadline".spec_bytes().len() == 8);
            assert("deadline".spec_bytes()[0] == 100);
            assert("deadline".spec_bytes()[1] == 101);
            assert("mk".spec_bytes().len() == 2);
            assert("mk".spec_bytes()[0] == 109);
            assert("mk".spec_bytes()[1] == 107);
            assert("point".spec_bytes().len() == 5);
            assert("point".spec_bytes()[0] == 112);
            assert("point".spec_bytes()[1] == 111);
            assert("rm".spec_bytes().len() == 2);
            assert("rm".spec_bytes()[0] == 114);
            assert("rm".spec_bytes()[1] == 109);
            assert("points".spec_bytes().len() == 6);
            assert("points".spec_bytes()[0] == 112);
            assert("points".spec_bytes()[1] == 111);
            assert("clean".spec_bytes().len() == 5);
            assert("clean".spec_bytes()[0] == 99);
            assert("clean".spec_bytes()[1] == 108);
            assert("edit".spec_bytes().len() == 4);
            assert("edit".spec_bytes()[0] == 101);
            assert("edit".spec_bytes()[1] == 100);
            assert("ls".spec_bytes().len() == 2);
            assert("ls".spec_bytes()[0] == 108);
            assert("ls".spec_bytes()[1] == 115);
            assert("archive".spec_bytes().len() == 7);
            assert("archive".spec_bytes()[0] == 97);
            assert("archive".spec_bytes()[1] == 114);
            assert("inspect".spec_bytes().len() == 7);
            assert("inspect".spec_bytes()[0] == 105);
            assert("inspect".spec_bytes()[1] == 110);
            assert("todo".spec_bytes().len() == 4);
            assert("todo".spec_bytes()[0] == 116);
            assert("todo".spec_bytes()[1] == 111);
        }
        let p6 = vec![lit("edit"), lit("points")];
        proof {
            assert(tok_views(p6@) =~= seq!["edit".spec_bytes(), "points".spec_bytes()]);
        }
        proof {
            assert(t.find_spec(tok_views(p6@)) is None);
        }
        let _ = t.push(&p6, CmdId::EditPoints);
        let p7 = vec![lit("ls"), lit("points")];
        proof {
            assert(tok_views(p7@) =~= seq!["ls".spec_bytes(), "points".spec_bytes()]);
        }
        proof {
            assert(t.find_spec(tok_views(p7@)) is None);
        }
        let _ = t.push(&p7, CmdId::LsPoints);
        let p8 = vec![lit("ls"), lit("points"), lit("archive")];
        proof {
            assert(tok_views(p8@) =~= seq![
                "ls".spec_bytes(),
                "points".spec_bytes(),
                "archive".spec_bytes(),
            ]);
        }
        proof {
            assert(t.find_spec(tok_views(p8@)) is None);
        }
        let _ = t.push(&p8, CmdId::LsPointsArchive);
        let p9 = vec![lit("inspect"), lit("point")];
        proof {
            assert(tok_views(p9@) =~= seq!["inspect".spec_bytes(), "point".spec_bytes()]);
        }
        proof {
            assert(t.find_spec(tok_views(p9@)) is None);
        }
        let _ = t.push(&p9, CmdId::InspectPoint);
        let p10 = vec![lit("mk"), lit("todo")];
        proof {
            assert(tok_views(p10@) =~= seq!["mk".spec_bytes(), "todo".spec_bytes()]);
        }
        proof {
            assert(t.find_spec(tok_views(p10@)) is None);
        }
        let _ = t.push(&p10, CmdId::MkTodo);
    }

    /// Registers the todo commands and the status report.
    #[verifier::rlimit(100)]
    #[verifier::spinoff_prover]
    fn reg_todos(t: &mut FuncTree)
        requires
            forall|p: Seq<Seq<u8>>| #[trigger] old(t).find_spec(p) == stage_lists(p),
        ensures
            forall|p: Seq<Seq<u8>>| #[trigger] final(t).find_spec(p) == stage_todos(p),
    {
        proof {
            broadcast use vstd::string::is_ascii_spec_bytes;
            reveal_strlit("now");
            reveal_strlit("add");
            reveal_strlit("deadline");
            reveal_strlit("mk");
            reveal_strlit("point");
            reveal_strlit("rm");
            reveal_strlit("points");
            reveal_strlit("clean");
            reveal_strlit("edit");
            reveal_strlit("ls");
            reveal_strlit("archive");
            reveal_strlit("inspect");
            reveal_strlit("todo");
            reveal_strlit("todos");
            reveal_strlit("status");
            assert(is_ascii("now"));
            assert(is_ascii("add"));
            assert(is_ascii("deadline"));
            assert(is_ascii("mk"));
            assert(is_ascii("point"));
            assert(is_ascii("rm"));
            assert(is_ascii("points"));
            assert(is_ascii("clean"));
            assert(is_ascii("edit"));
            assert(is_ascii("ls"));
            assert(is_ascii("archive"));
            assert(is_ascii("inspect"));
            assert(is_ascii("todo"));
            assert(is_ascii("todos"));
            assert(is_ascii("status"));
            assert("now".spec_bytes().len() == 3);
            assert("now".spec_bytes()[0] == 110);
            assert("now".spec_bytes()[1] == 111);
            assert("add".spec_bytes().len() == 3);
            assert("add".spec_bytes()[0] == 97);
            assert("add".spec_bytes()[1] == 100);
            assert("deadline".spec_bytes().len() == 8);
            assert("deadline".spec_bytes()[0] == 100);
            assert("deadline".spec_bytes()[1] == 101);
            assert("mk".spec_bytes().len() == 2);
            assert("mk".spec_bytes()[0] == 109);
            assert("mk".spec_bytes()[1] == 107);
            assert("point".spec_bytes().len() == 5);
            assert("point".spec_bytes()[0] == 112);
            assert("point".spec_bytes()[1] == 111);
            assert("rm".spec_bytes().len() == 2);
            assert("rm".spec_bytes()[0] == 114);
            assert("rm".spec_bytes()[1] == 109);
            assert("points".spec_bytes().len() == 6);
            assert("points".spec_bytes()[0] == 112);
            assert("points".spec_bytes()[1] == 111);
            assert("clean".spec_bytes().len() == 5);
            assert("clean".spec_bytes()[0] == 99);
            assert("clean".spec_bytes()[1] == 108);
            assert("edit".spec_bytes().len() == 4);
            assert("edit".spec_bytes()[0] == 101);
            assert("edit".spec_bytes()[1] == 100);
            assert("ls".spec_bytes().len() == 2);
            assert("ls".spec_bytes()[0] == 108);
            assert("ls".spec_bytes()[1] == 115);
            assert("archive".spec_bytes().len() == 7);
            assert("archive".spec_bytes()[0] == 97);
            assert("archive".spec_bytes()[1] == 114);
            assert("inspect".spec_bytes().len() == 7);
            assert("inspect".spec_bytes()[0] == 105);
            assert("inspect".spec_bytes()[1] == 110);
            assert("todo".spec_bytes().len() == 4);
            assert("todo".spec_bytes()[0] == 116);
            assert("todo".spec_bytes()[1] == 111);
            assert("todos".spec_bytes().len() == 5);
            assert("todos".spec_bytes()[0] == 116);
            assert("todos".spec_bytes()[1] == 111);
            assert("status".spec_bytes().len() == 6);
            assert("status".spec_bytes()[0] == 115);
            assert("status".spec_bytes()[1] == 116);
        }
        let p11 = vec![lit("rm"), lit("todos")];
        proof {
            assert(tok_views(p11@) =~= seq!["rm".spec_bytes(), "todos".spec_bytes()]);
        }
        proof {
            assert(t.find_spec(tok_views(p11@)) is None);
        }
        let _ = t.push(&p11, CmdId::RmTodos);
        let p12 = vec![lit("edit"), lit("todos")];
        proof {
            assert(tok_views(p12@) =~= seq!["edit".spec_bytes(), "todos".spec_bytes()]);
        }
        proof {
            assert(t.find_spec(tok_views(p12@)) is None);
        }
        let _ = t.push(&p12, CmdId::EditTodos);
        let p13 = vec![lit("ls"), lit("todos")];
        proof {
            assert(tok_views(p13@) =~= seq!["ls".spec_bytes(), "todos".spec_bytes()]);
        }
        proof {
            assert(t.find_spec(tok_views(p13@)) is None);
        }
        let _ = t.push(&p13, CmdId::LsTodos);
        let p14 = vec![lit("ls"), lit("todos"), lit("archive")];
        proof {
            assert(tok_views(p14@) =~= seq![
                "ls".spec_bytes(),
                "todos".spec_bytes(),
                "archive".spec_bytes(),
            ]);
        }
        proof {
            assert(t.find_spec(tok_views(p14@)) is None);
        }
        let _ = t.push(&p14, CmdId::LsTodosArchive);
        let p15 = vec![lit("status")];
        proof {
            assert(tok_views(p15@) =~= seq!["status".spec_bytes()]);
        }
        proof {
            assert(t.find_spec(tok_views(p15@)) is None);
        }
        let _ = t.push(&p15, CmdId::Status);
    }

    /// Registers the bookkeeping and help commands.
    #[verifier::rlimit(100)]
    #[verifier::spinoff_prover]
    fn reg_misc(t: &mut FuncTree)
        requires
            forall|p: Seq<Seq<u8>>| #[trigger] old(t).find_spec(p) == stage_todos(p),
        ensures
            forall|p: Seq<Seq<u8>>| #[trigger] final(t).find_spec(p) == registered(p),
    {
        proof {
            broadcast use vstd::string::is_ascii_spec_bytes;
            reveal_strlit("now");
            reveal_strlit("add");
            reveal_strlit("deadline");
            reveal_strlit("mk");
            reveal_strlit("point");
            reveal_strlit("rm");
            reveal_strlit("points");
            reveal_strlit("clean");
            reveal_strlit("edit");
            reveal_strlit("ls");
            reveal_strlit("archive");
            reveal_strlit("inspect");
            reveal_strlit("todo");
            reveal_strlit("todos");
            reveal_strlit("status");
            reveal_strlit("flush");
            reveal_strlit("files");
            reveal_strlit("commands");
            reveal_strlit("help");
            reveal_strlit("license");
            reveal_strlit("test");
            reveal_strlit("keys");
            assert(is_ascii("now"));
            assert(is_ascii("add"));
            assert(is_ascii("deadline"));
            assert(is_ascii("mk"));
            assert(is_ascii("point"));
            assert(is_ascii("rm"));
            assert(is_ascii("points"));
            assert(is_ascii("clean"));
            assert(is_ascii("edit"));
            assert(is_ascii("ls"));
            assert(is_ascii("archive"));
            assert(is_ascii("inspect"));
            assert(is_ascii("todo"));
            assert(is_ascii("todos"));
            assert(is_ascii("status"));
            assert(is_ascii("flush"));
            assert(is_ascii("files"));
            assert(is_ascii("commands"));
            assert(is_ascii("help"));
            assert(is_ascii("license"));
            assert(is_ascii("test"));
            assert(is_ascii("keys"));
            assert("now".spec_bytes().len() == 3);
            assert("now".spec_bytes()[0] == 110);
            assert("now".spec_bytes()[1] == 111);
            assert("add".spec_bytes().len() == 3);
            assert("add".spec_bytes()[0] == 97);
            assert("add".spec_bytes()[1] == 100);
            assert("deadline".spec_bytes().len() == 8);
            assert("deadline".spec_bytes()[0] == 100);
            assert("deadline".spec_bytes()[1] == 101);
            assert("mk".spec_bytes().len() == 2);
            assert("mk".spec_bytes()[0] == 109);
            assert("mk".spec_bytes()[1] == 107);
            assert("point".spec_bytes().len() == 5);
            assert("point".spec_bytes()[0] == 112);
            assert("point".spec_bytes()[1] == 111);
            assert("rm".spec_bytes().len() == 2);
            assert("rm".spec_bytes()[0] == 114);
            assert("rm".spec_bytes()[1] == 109);
            assert("points".spec_bytes().len() == 6);
            assert("points".spec_bytes()[0] == 112);
            assert("points".spec_bytes()[1] == 111);
            assert("clean".spec_bytes().len() == 5);
            assert("clean".spec_bytes()[0] == 99);
            assert("clean".spec_bytes()[1] == 108);
            assert("edit".spec_bytes().len() == 4);
            assert("edit".spec_bytes()[0] == 101);
            assert("edit".spec_bytes()[1] == 100);
            assert("ls".spec_bytes().len() == 2);
            assert("ls".spec_bytes()[0] == 108);
            assert("ls".spec_bytes()[1] == 115);
            assert("archive".spec_bytes().len() == 7);
            assert("archive".spec_bytes()[0] == 97);
            assert("archive".spec_bytes()[1] == 114);
            assert("inspect".spec_bytes().len() == 7);
            assert("inspect".spec_bytes()[0] == 105);
            assert("inspect".spec_bytes()[1] == 110);
            assert("todo".spec_bytes().len() == 4);
            assert("todo".spec_bytes()[0] == 116);
            assert("todo".spec_bytes()[1] == 111);
            assert("todos".spec_bytes().len() == 5);
            assert("todos".spec_bytes()[0] == 116);
            assert("todos".spec_bytes()[1] == 111);
            assert("status".spec_bytes().len() == 6);
            assert("status".spec_bytes()[0] == 115);
            assert("status".spec_bytes()[1] == 116);
            assert("flush".spec_bytes().len() == 5);
            assert("flush".spec_bytes()[0] == 102);
            assert("flush".spec_bytes()[1] == 108);
            assert("files".spec_bytes().len() == 5);
            assert("files".spec_bytes()[0] == 102);
            assert("files".spec_bytes()[1] == 105);
            assert("commands".spec_bytes().len() == 8);
            assert("commands".spec_bytes()[0] == 99);
            assert("commands".spec_bytes()[1] == 111);
            assert("help".spec_bytes().len() == 4);
            assert("help".spec_bytes()[0] == 104);
            assert("help".spec_bytes()[1] == 101);
            assert("license".spec_bytes().len() == 7);
            assert("license".spec_bytes()[0] == 108);
            assert("license".spec_bytes()[1] == 105);
            assert("test".spec_bytes().len() == 4);
            assert("test".spec_bytes()[0] == 116);
            assert("test".spec_bytes()[1] == 101);
            assert("keys".spec_bytes().len() == 4);
            assert("keys".spec_bytes()[0] == 107);
            assert("keys".spec_bytes()[1] == 101);
        }
        let p16 = vec![lit("flush"), lit("files")];
        proof {
            assert(tok_views(p16@) =~= seq!["flush".spec_bytes(), "files".spec_bytes()]);
        }
        proof {
            assert(t.find_spec(tok_views(p16@)) is None);
        }
        let _ = t.push(&p16, CmdId::FlushFiles);
        let p17 = vec![lit("ls"), lit("commands")];
        proof {
            assert(tok_views(p17@) =~= seq!["ls".spec_bytes(), "commands".spec_bytes()]);
        }
        proof {
            assert(t.find_spec(tok_views(p17@)) is None);
        }
        let _ = t.push(&p17, CmdId::LsCommands);
        let p18 = vec![lit("help")];
        proof {
            assert(tok_views(p18@) =~= seq!["help".spec_bytes()]);
        }
        proof {
            assert(t.find_spec(tok_views(p18@)) is None);
        }
        let _ = t.push(&p18, CmdId::Help);
        let p19 = vec![lit("license")];
        proof {
            assert(tok_views(p19@) =~= seq!["license".spec_bytes()]);
        }
        proof {
            assert(t.find_spec(tok_views(p19@)) is None);
        }
        let _ = t.push(&p19, CmdId::License);
        let p20 = vec![lit("test"), lit("keys")];
        proof {
            assert(tok_views(p20@) =~= seq!["test".spec_bytes(), "keys".spec_bytes()]);
        }
        proof {
            assert(t.find_spec(tok_views(p20@)) is None);
        }
        let _ = t.push(&p20, CmdId::TestKeys);
    }

    /// Tokenizes a line, resolves it in the trie, and runs the
    /// matched handler with the full token sequence; `None` when the
    /// tokens name no registered command.
    pub fn parse_and_run(
        &mut self,
        line: &Vec<u8>,
        inputs: &mut Option<VecDeque<Vec<u8>>>,
        now_t: i64,
    ) -> (r: Option<(CmdId, Reply)>)
        ensures
            r is Some <==> old(self).resolves(tokens_of(line@)) is Some,
            r matches Some((c, reply)) ==> ({
                &&& old(self).resolves(tokens_of(line@)) == Some(c)
                &&& crate::commands::handler_post(
                    c,
                    old(self).state,
                    *old(inputs),
                    final(self).state,
                    *final(inputs),
                    tokens_of(line@),
                    now_t,
                    reply,
                )
            }),
            r is None ==> *final(self) == *old(self) && *final(inputs) == *old(inputs),
            final(self).ftree == old(self).ftree,
            forall|p: Seq<Seq<u8>>| #[trigger] final(self).resolves(p) == old(self).resolves(p),
    {
        let command = tokenize(line);
        match self.ftree.find(&command) {
            Err(_) => None,
            Ok(c) => {
                let reply = self.run_cmd(c, &command, inputs, now_t);
                Some((c, reply))
            }
        }
    }

    /// Runs one handler against the session state.
    fn run_cmd(
        &mut self,
        c: CmdId,
        args: &Vec<Vec<u8>>,
        inputs: &mut Option<VecDeque<Vec<u8>>>,
        now_t: i64,
    ) -> (r: Reply)
        ensures
            final(self).ftree == old(self).ftree,
            crate::commands::handler_post(
                c,
                old(self).state,
                *old(inputs),
                final(self).state,
                *final(inputs),
                tok_views(args@),
                now_t,
                r,
            ),
    {
        match c {
            CmdId::Now => crate::commands::now(&mut self.state, args, inputs, now_t),
            CmdId::AddDeadline => add_deadline(&mut self.state, args, inputs),
            CmdId::MkPoint => crate::commands::mk_point(&mut self.state, args, inputs),
            CmdId::RmPoints => crate::commands::rm_points(&mut self.state, args, inputs),
            CmdId::CleanPoints => crate::commands::clean_points(&mut self.state, args, inputs, now_t),
            CmdId::EditPoints => crate::commands::edit_points(&mut self.state, args, inputs),
            CmdId::LsPoints => crate::commands::ls_points(&mut self.state, args, inputs),
            CmdId::LsPointsArchive => crate::commands::ls_points_archive(&mut self.state, args, inputs),
            CmdId::InspectPoint => crate::commands::inspect_point(&mut self.state, args, inputs, now_t),
            CmdId::MkTodo => crate::commands::mk_todo(&mut self.state, args, inputs),
            CmdId::RmTodos => crate::commands::rm_todos(&mut self.state, args, inputs),
            CmdId::EditTodos => crate::commands::edit_todos(&mut self.state, args, inputs),
            CmdId::LsTodos => crate::commands::ls_todos(&mut self.state, args, inputs),
            CmdId::LsTodosArchive => crate::commands::ls_todos_archive(&mut self.state, args, inputs),
            CmdId::Status => crate::commands::status(&mut self.state, args, inputs, now_t),
            CmdId::FlushFiles => crate::commands::flush_files(&mut self.state, args, inputs),
            CmdId::LsCommands => crate::commands::ls_commands(&mut self.state, args, inputs),
            CmdId::Help => crate::commands::help(&mut self.state, args, inputs),
            CmdId::License => crate::commands::license(&mut self.state, args, inputs),
            CmdId::TestKeys => crate::commands::test_keys(&mut self.state, args, inputs),
        }
    }

    /// The decision for one entered line: quit on exactly `q` or
    /// `quit`, otherwise dispatch, otherwise report the unknown text.
    pub fn handle_line(
        &mut self,
        line: &Vec<u8>,
        inputs: &mut Option<VecDeque<Vec<u8>>>,
        now_t: i64,
    ) -> (r: LoopStep)
        ensures
            (trimmed(line@) == "q".spec_bytes() || trimmed(line@) == "quit".spec_bytes())
                <==> r is Quit,
            r is Quit ==> *final(self) == *old(self) && *final(inputs) == *old(inputs),
            r matches LoopStep::Ran(c, reply) ==> ({
                &&& old(self).resolves(tokens_of(line@)) == Some(c)
                &&& crate::commands::handler_post(
                    c,
                    old(self).state,
                    *old(inputs),
                    final(self).state,
                    *final(inputs),
                    tokens_of(line@),
                    now_t,
                    reply,
                )
            }),
            r matches LoopStep::NotFound(m) ==> ({
                &&& old(self).resolves(tokens_of(line@)) is None
                &&& *final(self) == *old(self)
                &&& *final(inputs) == *old(inputs)
                &&& m@.len() == 3
                &&& msg_is(m@[0], MsgType::Error, "Error: Command not found: \"".spec_bytes(), false)
                &&& msg_is(m@[1], MsgType::Highlight, line@, false)
                &&& msg_is(m@[2], MsgType::Error, "\"!".spec_bytes(), true)
            }),
            final(self).ftree == old(self).ftree,
            forall|p: Seq<Seq<u8>>| #[trigger] final(self).resolves(p) == old(self).resolves(p),
    {
        let t = trim_bytes(line);
        if bytes_eq(&t, &lit("q")) || bytes_eq(&t, &lit("quit")) {
            return LoopStep::Quit;
        }
        match self.parse_and_run(line, inputs, now_t) {
            Some((c, reply)) => LoopStep::Ran(c, reply),
            None => {
                let mut m: Vec<Msg> = Vec::new();
                m.push(msg(MsgType::Error, "Error: Command not found: \"", false));
                m.push(msg_bytes(MsgType::Highlight, clone_bytes(line), false));
                m.push(msg(MsgType::Error, "\"!", true));
                LoopStep::NotFound(m)
            }
        }
    }

    /// The greeting of the interactive loop.
    pub fn banner() -> (r: Vec<Msg>)
        ensures
            r@.len() == 3,
            msg_is(r@[0], MsgType::Prompt, "Henlo Fren!".spec_bytes(), true),
            msg_is(r@[1], MsgType::Prompt, "pplanner: a ascii cli time management tool.".spec_bytes(), true),
            msg_is(r@[2], MsgType::Prompt, "Made by Cody Bloemhard.".spec_bytes(), true),
    {
        let mut r: Vec<Msg> = Vec::new();
        r.push(msg(MsgType::Prompt, "Henlo Fren!", true));
        r.push(msg(MsgType::Prompt, "pplanner: a ascii cli time management tool.", true));
        r.push(msg(MsgType::Prompt, "Made by Cody Bloemhard.", true));
        r
    }

    /// The farewell of the interactive loop.
    pub fn bye() -> (r: Msg)
        ensures
            msg_is(r, MsgType::Prompt, "Bye!".spec_bytes(), true),
    {
        msg(MsgType::Prompt, "Bye!", true)
    }
}

/// What `add_deadline` guarantees, stated over the session state
/// before and after the call, the input queue, and the reply; the
/// dispatcher carries this for its callers.
pub open spec fn add_deadline_post(
    pre: State,
    pre_q: Option<VecDeque<Vec<u8>>>,
    post: State,
    post_q: Option<VecDeque<Vec<u8>>>,
    r: Reply,
) -> bool {
    &&& (r.file is None)
    &&& (r.msgs@.len() >= 1 && msg_is(r.msgs@[0], MsgType::Normal, "Add deadline: ".spec_bytes(), true))
    &&& (!crate::commands::has_n(pre_q, 2) ==> ({
        &&& post == pre
        &&& post_q == pre_q
        &&& r.msgs@.len() == 1
        &&& r.prompts@.len() == 2 && r.prompts@[0]@ == "title: ".spec_bytes()
            && r.prompts@[1]@ == "deadline: ".spec_bytes()
    }))
    &&& (crate::commands::has_n(pre_q, 2) ==> ({
        &&& pre_q matches Some(q)
        &&& r.prompts@.len() == 0
        &&& (post_q matches Some(q2) && q2@ == q@.skip(2))
        &&& match crate::data::dt_parse_of(q@[1]@) {
            None => post == pre && r.msgs@.len() == 2
                && msg_is(r.msgs@[1], MsgType::Error, "Error: could not parse datetime.".spec_bytes(), true),
            Some(d) => ({
                &&& post.deadlines.items_spec()
                    == pre.deadlines.items_spec().push(
                        crate::data::Point { title: q@[0], dt: d },
                    )
                &&& post.deadlines.clean_spec()
                &&& post.points == pre.points
                &&& post.points_archive == pre.points_archive
                &&& post.todos == pre.todos
                &&& post.todos_archive == pre.todos_archive
                &&& post.fset == pre.fset
                &&& r.msgs@.len() == 2
                &&& msg_is(r.msgs@[1], MsgType::Highlight, "Success: deadline saved".spec_bytes(), true)
            }),
        }
    }))
}

/// Handles the `add deadline` command: reads a title and a moment from
/// the queue, stores the deadline, and reports success.
pub fn add_deadline(
    state: &mut State,
    _args: &Vec<Vec<u8>>,
    inputs: &mut Option<VecDeque<Vec<u8>>>,
) -> (r: Reply)
    ensures
        add_deadline_post(*old(state), *old(inputs), *final(state), *final(inputs), r),
{
    let mut msgs: Vec<Msg> = Vec::new();
    msgs.push(msg(MsgType::Normal, "Add deadline: ", true));
    match crate::commands::take_inputs(inputs, 2) {
        None => {
            let mut prompts: Vec<Vec<u8>> = Vec::new();
            prompts.push(lit("title: "));
            prompts.push(lit("deadline: "));
            Reply { msgs, prompts, file: None }
        }
        Some(mut v) => {
            let title = v.remove(0);
            let dts = v.remove(0);
            match crate::data::dt_parse(&dts) {
                None => {
                    msgs.push(msg(MsgType::Error, "Error: could not parse datetime.", true));
                    Reply { msgs, prompts: Vec::new(), file: None }
                }
                Some(d) => {
                    state.deadlines.add_item(crate::data::Point { title, dt: d });
                    let _ = state.deadlines.write();
                    msgs.push(msg(MsgType::Highlight, "Success: deadline saved", true));
                    Reply { msgs, prompts: Vec::new(), file: None }
                }
            }
        }
    }
}

/// A trie that resolves exactly the paths of a registry.
pub open spec fn resolves_exactly(t: FuncTree, m: Map<Seq<Seq<u8>>, CmdId>) -> bool {
    forall|p: Seq<Seq<u8>>| #[trigger] t.find_spec(p) == (if m.dom().contains(p) {
        Some(m[p])
    } else {
        None
    })
}

/// Looking up a proper, non-empty prefix of a registered path finds
/// nothing unless that prefix was itself registered.
pub proof fn lemma_lookup_proper_prefix(
    t: FuncTree,
    m: Map<Seq<Seq<u8>>, CmdId>,
    p: Seq<Seq<u8>>,
    q: Seq<Seq<u8>>,
)
    requires
        resolves_exactly(t, m),
        m.dom().contains(p),
        q.len() < p.len(),
        q == p.take(q.len() as int),
        !m.dom().contains(q),
    ensures
        t.find_spec(q) is None,
{
}

/// Extending a registered path by further tokens finds nothing unless
/// the longer path was itself registered.
pub proof fn lemma_lookup_past_leaf(
    t: FuncTree,
    m: Map<Seq<Seq<u8>>, CmdId>,
    p: Seq<Seq<u8>>,
    q: Seq<Seq<u8>>,
)
    requires
        resolves_exactly(t, m),
        m.dom().contains(p),
        q.len() > p.len(),
        p == q.take(p.len() as int),
        !m.dom().contains(q),
    ensures
        t.find_spec(q) is None,
{
}

} // verus!

