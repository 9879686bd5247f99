//! A bounded collection whose items also leave on their own once a fixed
//! time has passed since they were added.
//!
//! Eviction by capacity and expiry by time are independent: whichever comes
//! first removes the item, and the other then finds nothing to remove.

use crate::limited_list::added;
use std::collections::VecDeque;
use std::fmt::Debug;
use vstd::prelude::*;
use vstd::std_specs::cmp::PartialEqSpec;

verus! {

/// How long an item stays unless it is evicted or removed first, in seconds.
pub const TIMEOUT_SECONDS: i64 = 1800;

/// An item together with the moment at which it expires.
pub struct Entry<T> {
    pub item: T,
    pub expires_at: i64,
}

/// A list of at most `capacity` items, oldest first, each with its expiry.
pub struct LimitedListWithTimeout<T> where T: Eq + Clone + Debug {
    list: VecDeque<Entry<T>>,
    capacity: usize,
}

/// The moment at which an item added at `now` expires. The latest moment
/// that can be held stands for every later one.
pub open spec fn expiry_of(now: i64) -> i64 {
    if now > i64::MAX - TIMEOUT_SECONDS {
        i64::MAX
    } else {
        (now + TIMEOUT_SECONDS) as i64
    }
}

/// The entries of `s` that have not expired at `now`.
pub open spec fn alive<T>(s: Seq<Entry<T>>, now: i64) -> Seq<Entry<T>> {
    s.filter(|e: Entry<T>| e.expires_at > now)
}

/// `i` is the place of the first entry of `s` whose item equals `item`.
pub open spec fn is_first_entry<T: PartialEq>(s: Seq<Entry<T>>, item: &T, i: int) -> bool {
    &&& 0 <= i < s.len()
    &&& s[i].item.eq_spec(item)
    &&& forall|j: int| 0 <= j < i ==> !(#[trigger] s[j]).item.eq_spec(item)
}

/// No entry of `s` holds an item that equals `item`.
pub open spec fn no_entry<T: PartialEq>(s: Seq<Entry<T>>, item: &T) -> bool {
    forall|j: int| 0 <= j < s.len() ==> !(#[trigger] s[j]).item.eq_spec(item)
}

/// `s` without the first entry whose item equals `item`; `s` itself where
/// no entry holds such an item.
pub open spec fn without_first_entry<T: PartialEq>(s: Seq<Entry<T>>, item: &T) -> Seq<Entry<T>>
    decreases s.len(),
{
    if s.len() == 0 {
        s
    } else if s[0].item.eq_spec(item) {
        s.drop_first()
    } else {
        seq![s[0]] + without_first_entry(s.drop_first(), item)
    }
}

/// Removing the first entry of an item removes the entry at the place of
/// the first match.
pub proof fn lemma_without_entry_found<T: PartialEq>(s: Seq<Entry<T>>, item: &T, i: int)
    requires
        is_first_entry(s, item, i),
    ensures
        without_first_entry(s, item) == s.remove(i),
    decreases i,
{
    if i == 0 {
        assert(s.drop_first() =~= s.remove(0));
    } else {
        let rest = s.drop_first();
        assert(!s[0].item.eq_spec(item));
        assert forall|j: int| 0 <= j < i - 1 implies !(#[trigger] rest[j]).item.eq_spec(item) by {
            assert(rest[j] == s[j + 1]);
        }
        assert(rest[i - 1] == s[i]);
        lemma_without_entry_found(rest, item, i - 1);
        assert(seq![s[0]] + rest.remove(i - 1) =~= s.remove(i));
    }
}

/// Removing an item that no entry holds changes nothing.
pub proof fn lemma_without_entry_missing<T: PartialEq>(s: Seq<Entry<T>>, item: &T)
    requires
        no_entry(s, item),
    ensures
        without_first_entry(s, item) == s,
    decreases s.len(),
{
    if s.len() > 0 {
        let rest = s.drop_first();
        assert(!s[0].item.eq_spec(item));
        assert forall|j: int| 0 <= j < rest.len() implies !(#[trigger] rest[j]).item.eq_spec(
            item,
        ) by {
            assert(rest[j] == s[j + 1]);
        }
        lemma_without_entry_missing(rest, item);
        assert(seq![s[0]] + rest =~= s);
    }
}

/// Filtering one more entry: it is kept exactly if it has not expired.
proof fn lemma_alive_push<T>(s: Seq<Entry<T>>, e: Entry<T>, now: i64)
    ensures
        alive(s.push(e), now) == if e.expires_at > now {
            alive(s, now).push(e)
        } else {
            alive(s, now)
        },
{
    reveal(Seq::filter);
    assert(s.push(e).drop_last() =~= s);
}

/// After expiry nothing that is left has expired, everything that had not
/// expired is still there, and nothing was added.
pub proof fn lemma_alive<T>(s: Seq<Entry<T>>, now: i64)
    ensures
        alive(s, now).len() <= s.len(),
        forall|i: int| 0 <= i < alive(s, now).len() ==> (#[trigger] alive(s, now)[i]).expires_at > now,
        forall|i: int|
            0 <= i < s.len() && s[i].expires_at > now ==> alive(s, now).contains(#[trigger] s[i]),
        forall|i: int| 0 <= i < alive(s, now).len() ==> s.contains(#[trigger] alive(s, now)[i]),
    decreases s.len(),
{
    reveal(Seq::filter);
    if s.len() > 0 {
        let init = s.drop_last();
        lemma_alive(init, now);
        let f = alive(s, now);
        let g = alive(init, now);
        assert forall|i: int| 0 <= i < s.len() && s[i].expires_at > now implies f.contains(
            #[trigger] s[i],
        ) by {
            if i < s.len() - 1 {
                assert(init[i] == s[i]);
                let k = choose|k: int| 0 <= k < g.len() && g[k] == init[i];
                assert(f[k] == s[i]);
            } else {
                assert(f[f.len() - 1] == s[i]);
            }
        }
        assert forall|i: int| 0 <= i < f.len() implies s.contains(#[trigger] f[i]) by {
            if i < g.len() {
                let k = choose|k: int| 0 <= k < init.len() && init[k] == g[i];
                assert(s[k] == f[i]);
            } else {
                assert(s[s.len() - 1] == f[i]);
            }
        }
    }
}

impl<T> LimitedListWithTimeout<T> where T: Eq + Clone + Debug {
    /// The entries, oldest first.
    pub closed spec fn view(&self) -> Seq<Entry<T>> {
        self.list@
    }

    /// The number of items that the list may hold.
    pub closed spec fn capacity(&self) -> int {
        self.capacity as int
    }

    /// The list never holds more than its capacity.
    pub closed spec fn wf(&self) -> bool {
        self.list@.len() <= self.capacity
    }

    /// A well-formed list holds at most as many items as it may.
    pub proof fn lemma_bounded(&self)
        requires
            self.wf(),
        ensures
            self@.len() <= self.capacity(),
    {
    }

    /// An empty list that will hold up to `limit` items.
    pub fn new(limit: usize) -> (r: Self)
        ensures
            r.wf(),
            r@ == Seq::<Entry<T>>::empty(),
            r.capacity() == limit,
    {
        Self { list: VecDeque::new(), capacity: limit }
    }

    /// Adds `item` at the moment `now` as the newest; a full list gives up
    /// its oldest item first. The item expires `TIMEOUT_SECONDS` later.
    pub fn add(&mut self, item: T, now: i64)
        requires
            old(self).wf(),
        ensures
            final(self).wf(),
            final(self).capacity() == old(self).capacity(),
            final(self)@ == added(
                old(self)@,
                old(self).capacity(),
                (Entry { item: item, expires_at: expiry_of(now) }),
            ),
    {
        if self.capacity == 0 {
            return ;
        }
        if self.list.len() == self.capacity {
            self.list.pop_front();
        }
        let expires_at: i64 = if now > i64::MAX - TIMEOUT_SECONDS {
            i64::MAX
        } else {
            now + TIMEOUT_SECONDS
        };
        self.list.push_back(Entry { item: item, expires_at: expires_at });
    }

    /// Removes every entry that has expired at `now`. Entries that were
    /// evicted or removed before are simply not there any more.
    pub fn expire(&mut self, now: i64)
        requires
            old(self).wf(),
        ensures
            final(self).wf(),
            final(self).capacity() == old(self).capacity(),
            final(self)@ == alive(old(self)@, now),
    {
        let n: usize = self.list.len();
        let mut i: usize = 0;
        proof {
            reveal(Seq::filter);
            assert(old(self).list@.subrange(0, 0) =~= Seq::<Entry<T>>::empty());
            assert(self.list@ =~= old(self).list@.subrange(0, n as int) + alive(
                old(self).list@.subrange(0, 0),
                now,
            ));
            lemma_alive(old(self).list@.subrange(0, 0), now);
        }
        while i < n
            invariant
                n == old(self).list@.len(),
                n <= self.capacity,
                self.capacity == old(self).capacity,
                0 <= i <= n,
                alive(old(self).list@.subrange(0, i as int), now).len() <= i,
                self.list@ == old(self).list@.subrange(i as int, n as int) + alive(
                    old(self).list@.subrange(0, i as int),
                    now,
                ),
            decreases n - i,
        {
            let ghost before = self.list@;
            let ghost kept = alive(old(self).list@.subrange(0, i as int), now);
            match self.list.pop_front() {
                Some(entry) => {
                    proof {
                        assert(entry == old(self).list@[i as int]);
                        lemma_alive_push(old(self).list@.subrange(0, i as int), entry, now);
                        assert(old(self).list@.subrange(0, i + 1) =~= old(self).list@.subrange(
                            0,
                            i as int,
                        ).push(entry));
                        assert(before.subrange(1, before.len() as int) =~= old(
                            self,
                        ).list@.subrange(i + 1, n as int) + kept);
                    }
                    if entry.expires_at > now {
                        self.list.push_back(entry);
                        assert(self.list@ =~= old(self).list@.subrange(i + 1, n as int)
                            + kept.push(entry));
                    }
                },
                None => {},
            }
            i += 1;
        }
        proof {
            assert(old(self).list@.subrange(0, n as int) =~= old(self).list@);
            assert(self.list@ =~= alive(old(self).list@, now));
        }
    }

    /// The items, oldest first.
    pub fn all(&self) -> (r: Vec<&T>)
        ensures
            r@.len() == self@.len(),
            forall|i: int| 0 <= i < r@.len() ==> *(#[trigger] r@[i]) == self@[i].item,
    {
        let mut out: Vec<&T> = Vec::new();
        let n: usize = self.list.len();
        let mut i: usize = 0;
        while i < n
            invariant
                n == self.list@.len(),
                0 <= i <= n,
                out@.len() == i,
                forall|k: int| 0 <= k < i ==> *(#[trigger] out@[k]) == self.list@[k].item,
            decreases n - i,
        {
            out.push(&self.list[i].item);
            i += 1;
        }
        out
    }

    /// Removes the first entry whose item equals `item`; a list without
    /// such an entry is left as it was.
    pub fn del(&mut self, item: &T)
        requires
            old(self).wf(),
        ensures
            final(self).wf(),
            final(self).capacity() == old(self).capacity(),
            final(self)@.len() <= old(self)@.len(),
            T::obeys_eq_spec() ==> final(self)@ == without_first_entry(old(self)@, item),
    {
        let n: usize = self.list.len();
        let mut i: usize = 0;
        while i < n
            invariant
                n == self.list@.len(),
                0 <= i <= n,
                self.list@ == old(self).list@,
                self.capacity == old(self).capacity,
                self.list@.len() <= self.capacity,
                T::obeys_eq_spec() ==> forall|j: int|
                    0 <= j < i ==> !(#[trigger] self.list@[j]).item.eq_spec(item),
            decreases n - i,
        {
            if self.list[i].item == *item {
                self.list.remove(i);
                proof {
                    if T::obeys_eq_spec() {
                        lemma_without_entry_found(old(self).list@, item, i as int);
                    }
                }
                return ;
            }
            i += 1;
        }
        proof {
            if T::obeys_eq_spec() {
                lemma_without_entry_missing(old(self).list@, item);
            }
        }
    }

    /// Whether the list holds as many items as it may.
    pub fn is_full(&self) -> (r: bool)
        ensures
            r == (self@.len() == self.capacity()),
    {
        self.list.len() == self.capacity
    }
}

} // verus!
