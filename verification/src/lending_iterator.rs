//! Iterators whose items borrow from the iterator itself.

use vstd::prelude::*;

verus! {

/// An iterator that lends each item: the item may borrow from the iterator, so
/// only one item is out at a time.
pub trait LendingIterator {
    type Item<'a> where Self: 'a;

    /// The iterator is in a state from which `next` may be called. Unless an
    /// iterator says otherwise, it always is.
    open spec fn wf(&self) -> bool {
        true
    }

    /// How many items are still to come. Unless an iterator says how many,
    /// nothing is known of the number.
    open spec fn remaining(&self) -> nat {
        arbitrary()
    }

    /// The next item, or `None` when there is none left.
    fn next(&mut self) -> (item: Option<Self::Item<'_>>)
        requires
            old(self).wf(),
        ensures
            final(self).wf(),
            item.is_some() <==> old(self).remaining() > 0,
            item.is_some() ==> final(self).remaining() == old(self).remaining() - 1,
            item.is_none() ==> final(self).remaining() == 0,
    ;
}

/// Two lending iterators run side by side.
pub struct ZipLending<I: LendingIterator, J: LendingIterator> {
    iter_fst: I,
    iter_snd: J,
}

impl<I: LendingIterator, J: LendingIterator> ZipLending<I, J> {
    /// Pairs the items of one lending iterator with those of another. The
    /// pairing ends with the shorter of the two.
    pub fn zip_lending(iter: I, other_iter: J) -> (zipped: Self)
        ensures
            zipped.first() == iter,
            zipped.second() == other_iter,
    {
        ZipLending { iter_fst: iter, iter_snd: other_iter }
    }

    /// The iterator that gives the first of each pair.
    pub closed spec fn first(&self) -> I {
        self.iter_fst
    }

    /// The iterator that gives the second of each pair.
    pub closed spec fn second(&self) -> J {
        self.iter_snd
    }
}

impl<I: LendingIterator + 'static, J: LendingIterator + 'static> LendingIterator for ZipLending<
    I,
    J,
> {
    type Item<'a> = (I::Item<'a>, J::Item<'a>);

    open spec fn wf(&self) -> bool {
        self.first().wf() && self.second().wf()
    }

    /// As many pairs are to come as the shorter of the two has items.
    open spec fn remaining(&self) -> nat {
        if self.first().remaining() <= self.second().remaining() {
            self.first().remaining()
        } else {
            self.second().remaining()
        }
    }

    /// The next pair. Both iterators are moved on, also where only one of them
    /// has an item left.
    fn next(&mut self) -> (item: Option<(I::Item<'_>, J::Item<'_>)>)
        ensures
            final(self).first().remaining() == if old(self).first().remaining() > 0 {
                old(self).first().remaining() - 1
            } else {
                0
            },
            final(self).second().remaining() == if old(self).second().remaining() > 0 {
                old(self).second().remaining() - 1
            } else {
                0
            },
    {
        let fst = self.iter_fst.next();
        let snd = self.iter_snd.next();
        match fst {
            Some(fst) => match snd {
                Some(snd) => Some((fst, snd)),
                None => None,
            },
            None => None,
        }
    }
}

/// A lending iterator with its items numbered.
pub struct Enumerate<I: LendingIterator> {
    iter: I,
    count: usize,
}

impl<I: LendingIterator> Enumerate<I> {
    /// Numbers the items of a lending iterator, from zero.
    pub fn enumerate(iter: I) -> (numbered: Self)
        ensures
            numbered.inner() == iter,
            numbered.position() == 0,
    {
        Enumerate { iter, count: 0 }
    }

    /// The iterator whose items are numbered.
    pub closed spec fn inner(&self) -> I {
        self.iter
    }

    /// The number that the next item gets.
    pub closed spec fn position(&self) -> nat {
        self.count as nat
    }
}

impl<I: LendingIterator + 'static> LendingIterator for Enumerate<I> {
    type Item<'a> = (usize, I::Item<'a>);

    /// The inner iterator is well formed, and the numbers of the items that are
    /// still to come fit.
    open spec fn wf(&self) -> bool {
        self.inner().wf() && self.position() + self.inner().remaining() <= usize::MAX
    }

    open spec fn remaining(&self) -> nat {
        self.inner().remaining()
    }

    /// The next item with its number.
    fn next(&mut self) -> (item: Option<(usize, I::Item<'_>)>)
        ensures
            item matches Some((number, _)) ==> number == old(self).position(),
            final(self).position() == if item.is_some() {
                old(self).position() + 1
            } else {
                old(self).position()
            },
    {
        let count: usize = self.count;
        match self.iter.next() {
            Some(item) => {
                self.count = count + 1;
                Some((count, item))
            },
            None => None,
        }
    }
}

} // verus!
