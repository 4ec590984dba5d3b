//! A small mapping from names to text values, used for the header fields of
//! logged and forwarded messages. Inserting under a name that is already
//! present replaces the value, as it does in a hash map.

use vstd::prelude::*;

verus! {

/// Header fields by name, in the order in which their names first came. No
/// name is held twice.
#[derive(Debug)]
pub struct Fields {
    entries: Vec<(String, String)>,
}

/// No two pairs of `pairs` share a name.
pub open spec fn distinct_names(pairs: Seq<(Seq<char>, Seq<char>)>) -> bool {
    forall|i: int, j: int|
        0 <= i < pairs.len() && 0 <= j < pairs.len() && i != j ==> (#[trigger] pairs[i]).0 != (
        #[trigger] pairs[j]).0
}

/// `pairs` holds a pair named `name`.
pub open spec fn names(pairs: Seq<(Seq<char>, Seq<char>)>, name: Seq<char>) -> bool {
    exists|i: int| 0 <= i < pairs.len() && (#[trigger] pairs[i]).0 == name
}

/// `i` is the position of the first pair of `pairs` named `name`.
pub open spec fn is_first(pairs: Seq<(Seq<char>, Seq<char>)>, name: Seq<char>, i: int) -> bool {
    &&& 0 <= i < pairs.len()
    &&& pairs[i].0 == name
    &&& forall|j: int| 0 <= j < i ==> (#[trigger] pairs[j]).0 != name
}

/// The mapping that a list of pairs stands for: each name that occurs maps
/// to the value of its first pair.
pub open spec fn mapping(pairs: Seq<(Seq<char>, Seq<char>)>) -> Map<Seq<char>, Seq<char>> {
    Map::new(
        |name: Seq<char>| names(pairs, name),
        |name: Seq<char>| pairs[choose|i: int| is_first(pairs, name, i)].1,
    )
}

/// A name that occurs has a first pair, and `mapping` reads its value there.
pub proof fn lemma_mapping_at(pairs: Seq<(Seq<char>, Seq<char>)>, name: Seq<char>, i: int)
    requires
        is_first(pairs, name, i),
    ensures
        mapping(pairs).contains_key(name),
        mapping(pairs)[name] == pairs[i].1,
{
    let chosen = choose|k: int| is_first(pairs, name, k);
    assert(is_first(pairs, name, chosen));
    if chosen < i {
        assert(pairs[chosen].0 != name);
    }
    if i < chosen {
        assert(pairs[i].0 != name);
    }
}

/// Every name that occurs in `pairs` has a first position.
proof fn lemma_first_exists(pairs: Seq<(Seq<char>, Seq<char>)>, name: Seq<char>) -> (i: int)
    requires
        names(pairs, name),
    ensures
        is_first(pairs, name, i),
    decreases pairs.len(),
{
    let k = choose|k: int| 0 <= k < pairs.len() && (#[trigger] pairs[k]).0 == name;
    if pairs[0].0 == name {
        0
    } else {
        let rest = pairs.drop_first();
        assert(rest[k - 1] == pairs[k]);
        let r = lemma_first_exists(rest, name);
        assert forall|j: int| 0 <= j < r + 1 implies (#[trigger] pairs[j]).0 != name by {
            if j > 0 {
                assert(rest[j - 1] == pairs[j]);
            }
        }
        assert(rest[r] == pairs[r + 1]);
        r + 1
    }
}

impl View for Fields {
    type V = Map<Seq<char>, Seq<char>>;

    closed spec fn view(&self) -> Map<Seq<char>, Seq<char>> {
        mapping(self.entries.deep_view())
    }
}

impl DeepView for Fields {
    type V = Map<Seq<char>, Seq<char>>;

    open spec fn deep_view(&self) -> Map<Seq<char>, Seq<char>> {
        self@
    }
}

impl Fields {
    #[verifier::type_invariant]
    spec fn names_are_distinct(self) -> bool {
        distinct_names(self.entries.deep_view())
    }

    /// The empty mapping.
    pub fn new() -> (fields: Self)
        ensures
            fields@ == Map::<Seq<char>, Seq<char>>::empty(),
    {
        let entries: Vec<(String, String)> = Vec::new();
        assert(entries.deep_view() =~= Seq::empty());
        let fields = Fields { entries };
        assert(fields@ =~= Map::empty());
        fields
    }

    /// Sets the value under `name`, replacing the one that was there.
    pub fn insert(&mut self, name: String, value: String)
        ensures
            final(self)@ == old(self)@.insert(name@, value@),
    {
        proof {
            use_type_invariant(&*self);
        }
        let ghost before = self.entries.deep_view();
        let mut entries: Vec<(String, String)> = Vec::new();
        assert(entries.deep_view() =~= Seq::empty());
        std::mem::swap(&mut entries, &mut self.entries);
        let mut i: usize = 0;
        let mut found = false;
        while i < entries.len() && !found
            invariant
                i <= entries.len(),
                entries.deep_view() == before,
                found ==> i < entries.len() && before[i as int].0 == name@,
                forall|j: int| 0 <= j < i ==> (#[trigger] before[j]).0 != name@,
            decreases entries.len() - i, (if found { 0int } else { 1int }),
        {
            if entries[i].0 == name {
                found = true;
            } else {
                i += 1;
            }
        }
        if found {
            entries.set(i, (name, value));
            proof {
                assert(entries.deep_view() =~= before.update(i as int, (name@, value@)));
                lemma_replace_first(before, i as int, name@, value@);
            }
        } else {
            entries.push((name, value));
            proof {
                assert(entries.deep_view() =~= before.push((name@, value@)));
                lemma_push_new(before, name@, value@);
            }
        }
        std::mem::swap(&mut entries, &mut self.entries);
    }

    /// The value under `name`, if there is one.
    pub fn get(&self, name: &String) -> (value: Option<&String>)
        ensures
            match value {
                Some(v) => self@.contains_key(name@) && self@[name@] == v@,
                None => !self@.contains_key(name@),
            },
    {
        let ghost pairs = self.entries.deep_view();
        let mut i: usize = 0;
        while i < self.entries.len()
            invariant
                i <= self.entries.len(),
                pairs == self.entries.deep_view(),
                forall|j: int| 0 <= j < i ==> (#[trigger] pairs[j]).0 != name@,
            decreases self.entries.len() - i,
        {
            if self.entries[i].0 == *name {
                proof {
                    assert(pairs[i as int].0 == name@);
                    lemma_mapping_at(pairs, name@, i as int);
                }
                return Some(&self.entries[i].1);
            }
            i += 1;
        }
        None
    }

    /// The number of names held.
    pub fn len(&self) -> (n: usize)
        ensures
            self@.dom().finite(),
            n == self@.dom().len(),
    {
        proof {
            use_type_invariant(self);
            lemma_distinct_count(self.entries.deep_view());
        }
        self.entries.len()
    }

    /// A copy of the fields as a list of pairs with distinct names, which
    /// stands for the same mapping.
    pub fn pairs(&self) -> (pairs: Vec<(String, String)>)
        ensures
            mapping(pairs.deep_view()) == self@,
            distinct_names(pairs.deep_view()),
    {
        proof {
            use_type_invariant(self);
        }
        let mut pairs: Vec<(String, String)> = Vec::new();
        let mut i: usize = 0;
        while i < self.entries.len()
            invariant
                i <= self.entries.len(),
                pairs.deep_view() =~= self.entries.deep_view().take(i as int),
            decreases self.entries.len() - i,
        {
            let entry = &self.entries[i];
            let ghost before = pairs.deep_view();
            pairs.push((entry.0.clone(), entry.1.clone()));
            assert(pairs.deep_view() =~= before.push(self.entries.deep_view()[i as int]));
            i += 1;
        }
        assert(self.entries.deep_view().take(i as int) =~= self.entries.deep_view());
        pairs
    }
}

impl Clone for Fields {
    fn clone(&self) -> (copy: Self)
        ensures
            copy@ == self@,
    {
        Fields { entries: self.pairs() }
    }
}

/// Replacing the value of the first pair named `name` is an insertion into
/// the mapping.
proof fn lemma_replace_first(
    pairs: Seq<(Seq<char>, Seq<char>)>,
    i: int,
    name: Seq<char>,
    value: Seq<char>,
)
    requires
        is_first(pairs, name, i),
    ensures
        mapping(pairs.update(i, (name, value))) == mapping(pairs).insert(name, value),
        distinct_names(pairs) ==> distinct_names(pairs.update(i, (name, value))),
{
    let after = pairs.update(i, (name, value));
    assert forall|k: Seq<char>| #[trigger] names(after, k) == (names(pairs, k) || k == name) by {
        if names(after, k) {
            let j = choose|j: int| 0 <= j < after.len() && (#[trigger] after[j]).0 == k;
            assert(pairs[j].0 == k || k == name);
        }
        if names(pairs, k) {
            let j = choose|j: int| 0 <= j < pairs.len() && (#[trigger] pairs[j]).0 == k;
            assert(after[j].0 == k);
        }
        if k == name {
            assert(after[i].0 == k);
        }
    }
    assert forall|k: Seq<char>| names(after, k) implies #[trigger] mapping(after)[k] == mapping(
        pairs,
    ).insert(name, value)[k] by {
        if k == name {
            assert(is_first(after, name, i));
            lemma_mapping_at(after, name, i);
        } else {
            let f = lemma_first_exists(pairs, k);
            assert(is_first(after, k, f));
            lemma_mapping_at(after, k, f);
            lemma_mapping_at(pairs, k, f);
        }
    }
    assert(mapping(after) =~= mapping(pairs).insert(name, value));
}

/// Appending a pair under a name that does not occur yet is an insertion
/// into the mapping.
proof fn lemma_push_new(pairs: Seq<(Seq<char>, Seq<char>)>, name: Seq<char>, value: Seq<char>)
    requires
        forall|j: int| 0 <= j < pairs.len() ==> (#[trigger] pairs[j]).0 != name,
    ensures
        mapping(pairs.push((name, value))) == mapping(pairs).insert(name, value),
        distinct_names(pairs) ==> distinct_names(pairs.push((name, value))),
{
    let after = pairs.push((name, value));
    assert forall|k: Seq<char>| #[trigger] names(after, k) == (names(pairs, k) || k == name) by {
        if names(after, k) {
            let j = choose|j: int| 0 <= j < after.len() && (#[trigger] after[j]).0 == k;
            if j < pairs.len() {
                assert(pairs[j].0 == k);
            }
        }
        if names(pairs, k) {
            let j = choose|j: int| 0 <= j < pairs.len() && (#[trigger] pairs[j]).0 == k;
            assert(after[j].0 == k);
        }
        if k == name {
            assert(after[pairs.len() as int].0 == k);
        }
    }
    assert forall|k: Seq<char>| names(after, k) implies #[trigger] mapping(after)[k] == mapping(
        pairs,
    ).insert(name, value)[k] by {
        if k == name {
            assert(is_first(after, name, pairs.len() as int));
            lemma_mapping_at(after, name, pairs.len() as int);
        } else {
            let f = lemma_first_exists(pairs, k);
            assert(is_first(after, k, f));
            lemma_mapping_at(after, k, f);
            lemma_mapping_at(pairs, k, f);
        }
    }
    assert(mapping(after) =~= mapping(pairs).insert(name, value));
}

/// A list of pairs with distinct names stands for a mapping with as many
/// names as the list has pairs.
proof fn lemma_distinct_count(pairs: Seq<(Seq<char>, Seq<char>)>)
    requires
        distinct_names(pairs),
    ensures
        mapping(pairs).dom().finite(),
        mapping(pairs).dom().len() == pairs.len(),
    decreases pairs.len(),
{
    if pairs.len() == 0 {
        assert(mapping(pairs).dom() =~= Set::empty());
    } else {
        let init = pairs.drop_last();
        let last = pairs.last();
        assert(distinct_names(init)) by {
            assert forall|i: int, j: int|
                0 <= i < init.len() && 0 <= j < init.len() && i != j implies (#[trigger] init[i]).0
                != (#[trigger] init[j]).0 by {
                assert(init[i] == pairs[i] && init[j] == pairs[j]);
            }
        }
        lemma_distinct_count(init);
        assert forall|j: int| 0 <= j < init.len() implies (#[trigger] init[j]).0 != last.0 by {
            assert(init[j] == pairs[j]);
            assert(pairs[pairs.len() - 1] == last);
        }
        assert(pairs =~= init.push(last));
        lemma_push_new(init, last.0, last.1);
        assert(!mapping(init).dom().contains(last.0)) by {
            if names(init, last.0) {
                let j = choose|j: int| 0 <= j < init.len() && (#[trigger] init[j]).0 == last.0;
                assert(false);
            }
        }
        assert(mapping(pairs).dom() =~= mapping(init).dom().insert(last.0));
    }
}

} // verus!
