//! A forward reader over an owned sequence, with one saved position.
use vstd::prelude::*;

verus! {

/// A forward reader over an owned sequence, handing out copies of its items,
/// with one saved position to go back to.
pub struct Viewer<T: Clone> {
    data: Vec<T>,
    position: usize,
    mark: usize,
}

impl<T: Clone> Viewer<T> {
    /// The items being read.
    pub closed spec fn items(&self) -> Seq<T> {
        self.data@
    }

    /// The index of the next item to hand out.
    pub closed spec fn cursor(&self) -> nat {
        self.position as nat
    }

    /// The position that `rewind` returns to.
    pub closed spec fn saved(&self) -> nat {
        self.mark as nat
    }

    pub fn new(data: Vec<T>) -> (r: Self)
        ensures
            r.items() == data@,
            r.cursor() == 0,
            r.saved() == 0,
    {
        Self { data: data, position: 0, mark: 0 }
    }

    /// Hands out a copy of the item under the cursor and moves past it, or
    /// `None` once every item has been handed out.
    pub fn next(&mut self) -> (r: Option<T>)
        ensures
            final(self).items() == old(self).items(),
            final(self).saved() == old(self).saved(),
            old(self).cursor() < old(self).items().len() ==> {
                &&& r is Some
                &&& cloned(old(self).items()[old(self).cursor() as int], r->0)
                &&& final(self).cursor() == old(self).cursor() + 1
            },
            old(self).cursor() >= old(self).items().len() ==> {
                &&& r is None
                &&& final(self).cursor() == old(self).cursor()
            },
    {
        if self.position < self.data.len() {
            let item = self.data[self.position].clone();
            self.position = self.position + 1;
            Some(item)
        } else {
            None
        }
    }

    /// Saves the current position, replacing the one saved before.
    pub fn mark(&mut self)
        ensures
            final(self).items() == old(self).items(),
            final(self).cursor() == old(self).cursor(),
            final(self).saved() == old(self).cursor(),
    {
        self.mark = self.position;
    }

    /// Goes back to the saved position (the start if none was saved).
    pub fn rewind(&mut self)
        ensures
            final(self).items() == old(self).items(),
            final(self).cursor() == old(self).saved(),
            final(self).saved() == old(self).saved(),
    {
        self.position = self.mark;
    }
}

} // verus!
