//! The session state the handlers mutate: stores of points, todos and
//! deadlines with their archives, the set of valid command names, and
//! the clean/dirty bookkeeping for deferred persistence. Writing a
//! store to disk is the surrounding program's duty; a store only
//! records whether it has unsaved changes.

use vstd::prelude::*;
use crate::data::Point;
use crate::data::Todo;

verus! {

/// An in-memory collection with a dirty flag for deferred persistence.
pub struct Store<T> {
    items: Vec<T>,
    dirty: bool,
}

impl<T> Store<T> {
    /// What the store holds.
    pub closed spec fn items_spec(&self) -> Seq<T> {
        self.items@
    }

    /// Whether the store has no unsaved changes.
    pub closed spec fn clean_spec(&self) -> bool {
        !self.dirty
    }

    /// An empty, clean store.
    pub fn new() -> (s: Store<T>)
        ensures
            s.items_spec() == Seq::<T>::empty(),
            s.clean_spec(),
    {
        Store { items: Vec::new(), dirty: false }
    }

    /// The items, in insertion order.
    pub fn get_items(&self) -> (r: &Vec<T>)
        ensures
            r@ == self.items_spec(),
    {
        &self.items
    }

    /// Appends one item and marks the store dirty.
    pub fn add_item(&mut self, t: T)
        ensures
            final(self).items_spec() == old(self).items_spec().push(t),
            !final(self).clean_spec(),
    {
        self.items.push(t);
        self.dirty = true;
    }

    /// Removes the item at a position and marks the store dirty.
    pub fn remove_item(&mut self, i: usize) -> (r: T)
        requires
            i < old(self).items_spec().len(),
        ensures
            r == old(self).items_spec()[i as int],
            final(self).items_spec() == old(self).items_spec().remove(i as int),
            !final(self).clean_spec(),
    {
        self.dirty = true;
        self.items.remove(i)
    }

    /// Replaces the item at a position and marks the store dirty.
    pub fn set_item(&mut self, i: usize, t: T)
        requires
            i < old(self).items_spec().len(),
        ensures
            final(self).items_spec() == old(self).items_spec().update(i as int, t),
            !final(self).clean_spec(),
    {
        self.items.remove(i);
        self.items.insert(i, t);
        proof {
            assert(self.items@ =~= old(self).items_spec().update(i as int, t));
        }
        self.dirty = true;
    }

    /// Marks the store persisted; its contents are untouched. The
    /// caller owns the actual writing.
    pub fn write(&mut self) -> (ok: bool)
        ensures
            ok,
            final(self).items_spec() == old(self).items_spec(),
            final(self).clean_spec(),
    {
        self.dirty = false;
        true
    }

    /// Whether the store has no unsaved changes.
    pub fn is_clean(&self) -> (r: bool)
        ensures
            r == self.clean_spec(),
    {
        !self.dirty
    }

    /// The persisted view of an archive store.
    pub fn read(&self) -> (r: &Vec<T>)
        ensures
            r@ == self.items_spec(),
    {
        &self.items
    }
}

/// The live session: the collections the handlers work on, their
/// archives, and the names of all registered commands.
pub struct State {
    pub points: Store<Point>,
    pub points_archive: Store<Point>,
    pub todos: Store<Todo>,
    pub todos_archive: Store<Todo>,
    pub deadlines: Store<Point>,
    pub fset: Vec<Vec<u8>>,
}

impl State {
    /// A fresh session with empty stores and no command names yet; the
    /// dispatcher fills the names when it registers the commands.
    pub fn new() -> (s: State)
        ensures
            s.points.items_spec() == Seq::<Point>::empty(),
            s.points_archive.items_spec() == Seq::<Point>::empty(),
            s.todos.items_spec() == Seq::<Todo>::empty(),
            s.todos_archive.items_spec() == Seq::<Todo>::empty(),
            s.deadlines.items_spec() == Seq::<Point>::empty(),
            s.fset@ == Seq::<Vec<u8>>::empty(),
            s.all_clean(),
    {
        State {
            points: Store::new(),
            points_archive: Store::new(),
            todos: Store::new(),
            todos_archive: Store::new(),
            deadlines: Store::new(),
            fset: Vec::new(),
        }
    }

    /// Whether every store is persisted.
    pub open spec fn all_clean(&self) -> bool {
        &&& self.points.clean_spec()
        &&& self.points_archive.clean_spec()
        &&& self.todos.clean_spec()
        &&& self.todos_archive.clean_spec()
        &&& self.deadlines.clean_spec()
    }

    /// Whether every store is persisted.
    pub fn is_clean(&self) -> (r: bool)
        ensures
            r == self.all_clean(),
    {
        self.points.is_clean() && self.points_archive.is_clean() && self.todos.is_clean()
            && self.todos_archive.is_clean() && self.deadlines.is_clean()
    }

    /// Marks every store persisted; contents are untouched.
    pub fn flush_files(&mut self) -> (ok: bool)
        ensures
            ok,
            final(self).all_clean(),
            final(self).points.items_spec() == old(self).points.items_spec(),
            final(self).points_archive.items_spec() == old(self).points_archive.items_spec(),
            final(self).todos.items_spec() == old(self).todos.items_spec(),
            final(self).todos_archive.items_spec() == old(self).todos_archive.items_spec(),
            final(self).deadlines.items_spec() == old(self).deadlines.items_spec(),
            final(self).fset == old(self).fset,
    {
        let a = self.points.write();
        let b = self.points_archive.write();
        let c = self.todos.write();
        let d = self.todos_archive.write();
        let e = self.deadlines.write();
        a && b && c && d && e
    }
}

} // verus!
