//! A collection that holds a bounded number of items and gives up the oldest
//! one when a new item arrives at a full list.

use std::collections::VecDeque;
use std::fmt::Debug;
use vstd::prelude::*;
use vstd::std_specs::cmp::PartialEqSpec;

verus! {

/// A list of at most `capacity` items, oldest first.
pub struct LimitedList<T> where T: Eq + Clone + Debug {
    list: VecDeque<T>,
    capacity: usize,
}

/// `i` is the place of the first item of `s` that equals `item`.
pub open spec fn is_first_match<T: PartialEq>(s: Seq<T>, item: &T, i: int) -> bool {
    &&& 0 <= i < s.len()
    &&& s[i].eq_spec(item)
    &&& forall|j: int| 0 <= j < i ==> !(#[trigger] s[j]).eq_spec(item)
}

/// No item of `s` equals `item`.
pub open spec fn no_match<T: PartialEq>(s: Seq<T>, item: &T) -> bool {
    forall|j: int| 0 <= j < s.len() ==> !(#[trigger] s[j]).eq_spec(item)
}

/// `s` without the first item that equals `item`; `s` itself where no item
/// equals it.
pub open spec fn without_first<T: PartialEq>(s: Seq<T>, item: &T) -> Seq<T>
    decreases s.len(),
{
    if s.len() == 0 {
        s
    } else if s[0].eq_spec(item) {
        s.drop_first()
    } else {
        seq![s[0]] + without_first(s.drop_first(), item)
    }
}

/// Removing the first equal item removes the item at the place of the
/// first match.
pub proof fn lemma_without_first_found<T: PartialEq>(s: Seq<T>, item: &T, i: int)
    requires
        is_first_match(s, item, i),
    ensures
        without_first(s, item) == s.remove(i),
    decreases i,
{
    if i == 0 {
        assert(s.drop_first() =~= s.remove(0));
    } else {
        let rest = s.drop_first();
        assert(!s[0].eq_spec(item));
        assert forall|j: int| 0 <= j < i - 1 implies !(#[trigger] rest[j]).eq_spec(item) by {
            assert(rest[j] == s[j + 1]);
        }
        assert(rest[i - 1] == s[i]);
        lemma_without_first_found(rest, item, i - 1);
        assert(seq![s[0]] + rest.remove(i - 1) =~= s.remove(i));
    }
}

/// Removing an item that is not there changes nothing.
pub proof fn lemma_without_first_missing<T: PartialEq>(s: Seq<T>, item: &T)
    requires
        no_match(s, item),
    ensures
        without_first(s, item) == s,
    decreases s.len(),
{
    if s.len() > 0 {
        let rest = s.drop_first();
        assert(!s[0].eq_spec(item));
        assert forall|j: int| 0 <= j < rest.len() implies !(#[trigger] rest[j]).eq_spec(item) by {
            assert(rest[j] == s[j + 1]);
        }
        lemma_without_first_missing(rest, item);
        assert(seq![s[0]] + rest =~= s);
    }
}

/// What `s` holds once `item` has been added under the limit `capacity`:
/// a list with room takes the item at its end, a full one first gives up its
/// oldest item, and a list that may hold nothing stays empty.
pub open spec fn added<T>(s: Seq<T>, capacity: int, item: T) -> Seq<T> {
    if capacity == 0 {
        s
    } else if s.len() == capacity {
        s.subrange(1, s.len() as int).push(item)
    } else {
        s.push(item)
    }
}

impl<T> LimitedList<T> where T: Eq + Clone + Debug {
    /// The items, oldest first.
    pub closed spec fn view(&self) -> Seq<T> {
        self.list@
    }

    /// The number of items that the list may hold.
    pub closed spec fn capacity(&self) -> int {
        self.capacity as int
    }

    /// The list never holds more than its capacity.
    pub closed spec fn wf(&self) -> bool {
        self.list@.len() <= self.capacity
    }

    /// A well-formed list holds at most as many items as it may.
    pub proof fn lemma_bounded(&self)
        requires
            self.wf(),
        ensures
            self@.len() <= self.capacity(),
    {
    }

    /// An empty list that will hold up to `capacity` items.
    pub fn new(capacity: usize) -> (r: Self)
        ensures
            r.wf(),
            r@ == Seq::<T>::empty(),
            r.capacity() == capacity,
    {
        Self { list: VecDeque::new(), capacity }
    }

    /// Adds `item` as the newest; a full list gives up its oldest item first.
    pub fn add(&mut self, item: T)
        requires
            old(self).wf(),
        ensures
            final(self).wf(),
            final(self).capacity() == old(self).capacity(),
            final(self)@ == added(old(self)@, old(self).capacity(), item),
    {
        if self.capacity == 0 {
            return ;
        }
        if self.list.len() == self.capacity {
            self.list.pop_front();
        }
        self.list.push_back(item);
    }

    /// The items, oldest first.
    pub fn all(&self) -> (r: Vec<&T>)
        ensures
            r@.len() == self@.len(),
            forall|i: int| 0 <= i < r@.len() ==> *(#[trigger] r@[i]) == self@[i],
    {
        let mut out: Vec<&T> = Vec::new();
        let n: usize = self.list.len();
        let mut i: usize = 0;
        while i < n
            invariant
                n == self.list@.len(),
                0 <= i <= n,
                out@.len() == i,
                forall|k: int| 0 <= k < i ==> *(#[trigger] out@[k]) == self.list@[k],
            decreases n - i,
        {
            out.push(&self.list[i]);
            i += 1;
        }
        out
    }

    /// Removes the first item that equals `item`; a list without such an
    /// item is left as it was.
    pub fn del(&mut self, item: &T)
        requires
            old(self).wf(),
        ensures
            final(self).wf(),
            final(self).capacity() == old(self).capacity(),
            final(self)@.len() <= old(self)@.len(),
            T::obeys_eq_spec() ==> final(self)@ == without_first(old(self)@, item),
    {
        let n: usize = self.list.len();
        let mut i: usize = 0;
        while i < n
            invariant
                n == self.list@.len(),
                0 <= i <= n,
                self.list@ == old(self).list@,
                self.capacity == old(self).capacity,
                self.list@.len() <= self.capacity,
                T::obeys_eq_spec() ==> forall|j: int|
                    0 <= j < i ==> !(#[trigger] self.list@[j]).eq_spec(item),
            decreases n - i,
        {
            if self.list[i] == *item {
                self.list.remove(i);
                proof {
                    if T::obeys_eq_spec() {
                        lemma_without_first_found(old(self).list@, item, i as int);
                    }
                }
                return ;
            }
            i += 1;
        }
        proof {
            if T::obeys_eq_spec() {
                lemma_without_first_missing(old(self).list@, item);
            }
        }
    }

    /// Whether the list holds as many items as it may.
    pub fn is_full(&self) -> (r: bool)
        ensures
            r == (self@.len() == self.capacity()),
    {
        self.list.len() == self.capacity
    }
}

} // verus!
