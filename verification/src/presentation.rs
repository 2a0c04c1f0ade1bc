//! Referential presentations: append-only tables whose entries are referred
//! to by index.

use vstd::prelude::*;
use std::marker::PhantomData;

verus! {

/// An append-only table of `T`s.
#[derive(Debug)]
pub struct Table<T>(Vec<T>);

/// A reference to an entry of a `Table<T>`: its index.
#[derive(Debug)]
pub struct Ref<T>(usize, PhantomData<T>);

impl<T> Clone for Ref<T> {
    fn clone(&self) -> (r: Self)
        ensures
            r == *self,
    {
        Ref(self.0, self.1)
    }
}

impl<T> Copy for Ref<T> {
}

impl<T> Ref<T> {
    /// The index that the reference refers to.
    pub closed spec fn index(self) -> usize {
        self.0
    }

    pub fn new(i: usize) -> (r: Ref<T>)
        ensures
            r.index() == i,
    {
        Ref(i, PhantomData)
    }
}

impl<T> View for Table<T> {
    type V = Seq<T>;

    closed spec fn view(&self) -> Seq<T> {
        self.0@
    }
}

impl<T> Table<T> {
    pub fn new() -> (table: Table<T>)
        ensures
            table@ == Seq::<T>::empty(),
    {
        Table(Vec::new())
    }

    /// Appends `t` and returns the reference to it.
    pub fn append(&mut self, t: T) -> (r: Ref<T>)
        ensures
            final(self)@ == old(self)@.push(t),
            r.index() == old(self)@.len(),
            final(self)@[r.index() as int] == t,
    {
        let r = Ref::new(self.0.len());
        self.0.push(t);
        r
    }

    /// Resolves `t` to a reference into the table by appending it.
    pub fn resolve(&mut self, t: T) -> (r: Ref<T>)
        ensures
            final(self)@ == old(self)@.push(t),
            r.index() == old(self)@.len(),
    {
        self.append(t)
    }

    /// The number of entries.
    pub fn len(&self) -> (len: usize)
        ensures
            len == self@.len(),
    {
        self.0.len()
    }
}

impl<T> Default for Table<T> {
    fn default() -> (table: Self)
        ensures
            table@ == Seq::<T>::empty(),
    {
        Table::new()
    }
}

} // verus!
