//! The two retention rules that every in-memory log of this crate obeys: a
//! cap on the number of entries, enforced first-in first-out when an entry is
//! appended, and a time to live, enforced by a periodic eviction pass. The
//! rules are independent; an entry leaves by whichever applies first.

use vstd::prelude::*;

verus! {

/// The largest number of entries a log keeps.
pub const MAX_ENTRIES: usize = 1000;

/// How long an entry is kept, in milliseconds: one hour.
pub const TTL_MILLIS: u64 = 3_600_000;

/// An entry that records when it was made, in milliseconds on some clock.
pub trait Stamped: DeepView {
    /// The time of creation, read from the entry's model.
    spec fn stamp_of(entry: Self::V) -> i64;

    /// The time of creation.
    fn stamp(&self) -> (at: i64)
        ensures
            at == Self::stamp_of(self.deep_view()),
    ;
}

/// An entry made at `stamp` has reached the age `ttl` at time `now`. An entry
/// stamped later than `now` has no age yet and is never expired.
pub open spec fn is_expired(stamp: i64, now: i64, ttl: u64) -> bool {
    now - stamp >= ttl
}

/// What remains of `entries` once the count cap `cap` is applied after an
/// append: when the cap is exceeded the oldest entry, at the head, is dropped.
pub open spec fn capped<E>(entries: Seq<E>, cap: nat) -> Seq<E> {
    if entries.len() > cap {
        entries.drop_first()
    } else {
        entries
    }
}

/// What remains of `entries` after an eviction pass at time `now`: exactly
/// the entries that are not expired, in the order they had.
pub open spec fn unexpired<T: Stamped>(entries: Seq<T::V>, now: i64, ttl: u64) -> Seq<T::V> {
    entries.filter(|e: T::V| !is_expired(T::stamp_of(e), now, ttl))
}

/// Executable form of [`is_expired`].
pub fn expired(stamp: i64, now: i64, ttl: u64) -> (gone: bool)
    ensures
        gone == is_expired(stamp, now, ttl),
{
    (now as i128) - (stamp as i128) >= (ttl as i128)
}

/// Appends `entry` at the tail and then applies the count cap.
pub fn push_capped<T: DeepView>(entries: &mut Vec<T>, entry: T, cap: usize)
    ensures
        final(entries).deep_view() == capped(
            old(entries).deep_view().push(entry.deep_view()),
            cap as nat,
        ),
{
    entries.push(entry);
    assert(entries.deep_view() =~= old(entries).deep_view().push(entry.deep_view()));
    if entries.len() > cap {
        let ghost before = entries.deep_view();
        entries.remove(0);
        assert(entries.deep_view() =~= before.drop_first());
    }
}

/// Removes every expired entry, keeping the others in order. Every entry
/// is moved twice at most: once onto a stack, from the newest down, and,
/// where it stays, once back.
pub fn retain_unexpired<T: Stamped>(entries: &mut Vec<T>, now: i64, ttl: u64)
    ensures
        final(entries).deep_view() == unexpired::<T>(old(entries).deep_view(), now, ttl),
{
    let ghost all = entries.deep_view();
    let ghost keep = |e: T::V| !is_expired(T::stamp_of(e), now, ttl);
    let mut stack: Vec<T> = Vec::new();
    assert(entries.deep_view().take(entries.len() as int) =~= all);
    while entries.len() > 0
        invariant
            entries.len() + stack.len() == all.len(),
            entries.deep_view() == all.take(entries.len() as int),
            forall|j: int|
                0 <= j < stack.len() ==> #[trigger] stack.deep_view()[j] == all[all.len() - 1 - j],
        decreases entries.len(),
    {
        let ghost lower = stack.deep_view();
        let ghost above = entries.deep_view();
        let entry = entries.pop().unwrap();
        assert(entry.deep_view() == above[above.len() - 1]);
        assert(entries.deep_view() =~= all.take(entries.len() as int));
        stack.push(entry);
        assert(stack.deep_view() =~= lower.push(entry.deep_view()));
    }
    proof {
        reveal(Seq::filter);
        assert(all.take(0) =~= Seq::<T::V>::empty());
        assert(entries.deep_view() =~= all.take(0).filter(keep));
    }
    while stack.len() > 0
        invariant
            stack.len() <= all.len(),
            keep == |e: T::V| !is_expired(T::stamp_of(e), now, ttl),
            forall|j: int|
                0 <= j < stack.len() ==> #[trigger] stack.deep_view()[j] == all[all.len() - 1 - j],
            entries.deep_view() == all.take(all.len() - stack.len()).filter(keep),
        decreases stack.len(),
    {
        let ghost seen = all.len() - stack.len();
        let ghost lower = stack.deep_view();
        let ghost kept = entries.deep_view();
        let entry = stack.pop().unwrap();
        proof {
            assert(entry.deep_view() == lower[lower.len() - 1]);
            assert(entry.deep_view() == all[seen]);
            assert(all.take(seen + 1) =~= all.take(seen).push(all[seen]));
            all.take(seen).lemma_filter_push(all[seen], keep);
            assert forall|j: int| 0 <= j < stack.len() implies #[trigger] stack.deep_view()[j]
                == all[all.len() - 1 - j] by {
                assert(stack.deep_view()[j] == lower[j]);
            }
        }
        if !expired(entry.stamp(), now, ttl) {
            entries.push(entry);
            assert(entries.deep_view() =~= kept.push(entry.deep_view()));
        }
    }
    assert(all.take(all.len() as int) =~= all);
}

/// A log under both retention rules: entries in the order in which they
/// came, oldest first, never more of them than [`MAX_ENTRIES`].
pub struct Retained<T> {
    entries: Vec<T>,
}

impl<T: DeepView> View for Retained<T> {
    type V = Seq<T::V>;

    closed spec fn view(&self) -> Seq<T::V> {
        self.entries.deep_view()
    }
}

impl<T> Retained<T> {
    #[verifier::type_invariant]
    spec fn within_cap(self) -> bool {
        self.entries.len() <= MAX_ENTRIES
    }
}

impl<T: Stamped> Retained<T> {
    /// An empty log.
    pub fn new() -> (log: Self)
        ensures
            log@ == Seq::<T::V>::empty(),
    {
        let log = Retained { entries: Vec::new() };
        assert(log.entries.deep_view() =~= Seq::empty());
        log
    }

    /// Adds `entry` at the tail. Where that takes the log over its cap, the
    /// oldest entry is dropped from the head, whatever its age.
    pub fn append(&mut self, entry: T)
        ensures
            final(self)@ == capped(old(self)@.push(entry.deep_view()), MAX_ENTRIES as nat),
            final(self)@.len() <= MAX_ENTRIES,
    {
        proof {
            use_type_invariant(&*self);
        }
        let mut entries: Vec<T> = Vec::new();
        std::mem::swap(&mut entries, &mut self.entries);
        assert(entries.len() == entries.deep_view().len());
        push_capped(&mut entries, entry, MAX_ENTRIES);
        assert(entries.len() == entries.deep_view().len());
        std::mem::swap(&mut entries, &mut self.entries);
    }

    /// Removes every entry that has reached the age `ttl` at time `now`,
    /// however few entries there are, and keeps the others in order.
    pub fn evict_expired(&mut self, now: i64, ttl: u64)
        ensures
            final(self)@ == unexpired::<T>(old(self)@, now, ttl),
            final(self)@.len() <= old(self)@.len() <= MAX_ENTRIES,
    {
        proof {
            use_type_invariant(&*self);
            old(self)@.lemma_filter_len(|e: T::V| !is_expired(T::stamp_of(e), now, ttl));
        }
        let mut entries: Vec<T> = Vec::new();
        std::mem::swap(&mut entries, &mut self.entries);
        assert(entries.len() == entries.deep_view().len());
        retain_unexpired(&mut entries, now, ttl);
        assert(entries.len() == entries.deep_view().len());
        std::mem::swap(&mut entries, &mut self.entries);
    }

    /// Forgets every entry.
    pub fn clear(&mut self)
        ensures
            final(self)@ == Seq::<T::V>::empty(),
    {
        let mut entries: Vec<T> = Vec::new();
        assert(entries.deep_view() =~= Seq::empty());
        std::mem::swap(&mut entries, &mut self.entries);
    }

    /// The entries, oldest first.
    pub fn entries(&self) -> (entries: &Vec<T>)
        ensures
            entries.deep_view() == self@,
            entries.len() <= MAX_ENTRIES,
    {
        proof {
            use_type_invariant(self);
        }
        &self.entries
    }

    /// The number of entries held.
    pub fn len(&self) -> (n: usize)
        ensures
            n == self@.len(),
            n <= MAX_ENTRIES,
    {
        proof {
            use_type_invariant(self);
        }
        assert(self.entries.len() == self.entries.deep_view().len());
        self.entries.len()
    }
}

/// What a log holds after `items` were appended to `store` one after
/// another, each append applying the count cap.
pub open spec fn appended<E>(store: Seq<E>, items: Seq<E>, cap: nat) -> Seq<E>
    decreases items.len(),
{
    if items.len() == 0 {
        store
    } else {
        capped(appended(store, items.drop_last(), cap).push(items.last()), cap)
    }
}

/// The newest `n` entries of `entries`, or all of them where there are no
/// more than `n`.
pub open spec fn newest<E>(entries: Seq<E>, n: nat) -> Seq<E> {
    if entries.len() <= n {
        entries
    } else {
        entries.skip(entries.len() - n)
    }
}

/// Appending any number of entries to a log within its cap leaves exactly
/// the newest entries of all that were ever in it, as many as the cap
/// allows, in the order in which they came. After 1001 appends to an empty
/// log with cap 1000 the first entry is gone and the other 1000 remain.
pub proof fn law_cap_keeps_newest<E>(store: Seq<E>, items: Seq<E>, cap: nat)
    requires
        store.len() <= cap,
    ensures
        appended(store, items, cap) == newest(store + items, cap),
        appended(store, items, cap).len() <= cap,
    decreases items.len(),
{
    if items.len() == 0 {
        assert(store + items =~= store);
    } else {
        let init = items.drop_last();
        let last = items.last();
        law_cap_keeps_newest(store, init, cap);
        let all = store + items;
        let prior = store + init;
        assert(all =~= prior.push(last));
        let held = newest(prior, cap);
        if prior.len() < cap {
            assert(capped(held.push(last), cap) =~= newest(all, cap));
        } else {
            assert(held.len() == cap);
            assert(capped(held.push(last), cap) =~= newest(all, cap));
        }
    }
}

/// An eviction pass keeps exactly the entries that are not expired: an
/// expired entry is absent afterwards however few entries there are, and an
/// entry that is not expired is present afterwards even if it is the only
/// one.
pub proof fn law_eviction_by_age<T: Stamped>(entries: Seq<T::V>, now: i64, ttl: u64)
    ensures
        forall|e: T::V| #[trigger]
            unexpired::<T>(entries, now, ttl).contains(e) <==> entries.contains(e) && !is_expired(
                T::stamp_of(e),
                now,
                ttl,
            ),
{
    let keep = |e: T::V| !is_expired(T::stamp_of(e), now, ttl);
    let kept = entries.filter(keep);
    assert forall|e: T::V| #[trigger] kept.contains(e) <==> entries.contains(e) && keep(e) by {
        if kept.contains(e) {
            let i = choose|i: int| 0 <= i < kept.len() && kept[i] == e;
            entries.lemma_filter_pred(keep, i);
            entries.lemma_filter_contains_rev(keep, e);
        }
        if entries.contains(e) && keep(e) {
            let i = choose|i: int| 0 <= i < entries.len() && entries[i] == e;
            entries.lemma_filter_contains(keep, i);
        }
    }
}

} // verus!
