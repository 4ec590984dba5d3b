//! Context fragments that the target reports out of band, kept by the
//! identifier of the request they belong to, in the order in which they
//! came. Fragments are never taken out again: the store grows for as long
//! as the engine runs, and fragments outlive the log entry they belong to.

use crate::logs::{LogEntry, LogEntryView};
use vstd::prelude::*;

verus! {

/// Every report received so far.
pub struct ContextStore {
    reports: Vec<(String, String)>,
}

/// The fragments reported under `id` among `reports`, in order.
pub open spec fn fragments_of(reports: Seq<(Seq<char>, Seq<char>)>, id: Seq<char>) -> Seq<
    Seq<char>,
>
    decreases reports.len(),
{
    if reports.len() == 0 {
        Seq::empty()
    } else {
        let before = fragments_of(reports.drop_last(), id);
        if reports.last().0 == id {
            before.push(reports.last().1)
        } else {
            before
        }
    }
}

/// The mapping that a list of reports stands for: each identifier that was
/// reported on maps to its fragments, in order. No identifier maps to an
/// empty sequence.
pub open spec fn contexts_of(reports: Seq<(Seq<char>, Seq<char>)>) -> Map<
    Seq<char>,
    Seq<Seq<char>>,
> {
    Map::new(
        |id: Seq<char>| fragments_of(reports, id).len() > 0,
        |id: Seq<char>| fragments_of(reports, id),
    )
}

/// The fragments that `contexts` holds for `id`; none where it holds no
/// entry.
pub open spec fn fragments(contexts: Map<Seq<char>, Seq<Seq<char>>>, id: Seq<char>) -> Seq<
    Seq<char>,
> {
    if contexts.contains_key(id) {
        contexts[id]
    } else {
        Seq::empty()
    }
}

/// `entry` as it is read: with the fragments reported under its request
/// identifier laid over it, or untouched where there are none.
pub open spec fn overlaid(
    contexts: Map<Seq<char>, Seq<Seq<char>>>,
    entry: LogEntryView,
) -> LogEntryView {
    if contexts.contains_key(entry.request_id) {
        LogEntryView { contexts: Some(contexts[entry.request_id]), ..entry }
    } else {
        entry
    }
}

/// Every entry of `entries` as it is read.
pub open spec fn merged(
    contexts: Map<Seq<char>, Seq<Seq<char>>>,
    entries: Seq<LogEntryView>,
) -> Seq<LogEntryView> {
    entries.map_values(|entry: LogEntryView| overlaid(contexts, entry))
}

impl View for ContextStore {
    type V = Map<Seq<char>, Seq<Seq<char>>>;

    closed spec fn view(&self) -> Map<Seq<char>, Seq<Seq<char>>> {
        contexts_of(self.reports.deep_view())
    }
}

impl ContextStore {
    /// A store without reports.
    pub fn new() -> (store: Self)
        ensures
            store@ == Map::<Seq<char>, Seq<Seq<char>>>::empty(),
    {
        let store = ContextStore { reports: Vec::new() };
        assert(store.reports.deep_view() =~= Seq::empty());
        assert(store@ =~= Map::empty());
        store
    }

    /// Adds `fragment` to the end of the sequence kept under `request_id`,
    /// starting the sequence where there is none. A fragment that was
    /// reported before is stored again.
    pub fn append(&mut self, request_id: String, fragment: String)
        ensures
            final(self)@ == old(self)@.insert(
                request_id@,
                fragments(old(self)@, request_id@).push(fragment@),
            ),
    {
        let ghost before = self.reports.deep_view();
        self.reports.push((request_id, fragment));
        proof {
            let after = self.reports.deep_view();
            assert(after =~= before.push((request_id@, fragment@)));
            assert(after.drop_last() =~= before);
            assert forall|id: Seq<char>| #[trigger]
                fragments_of(after, id) == if id == request_id@ {
                    fragments_of(before, id).push(fragment@)
                } else {
                    fragments_of(before, id)
                } by {}
            assert(fragments(contexts_of(before), request_id@) =~= fragments_of(
                before,
                request_id@,
            ));
            assert(contexts_of(after) =~= contexts_of(before).insert(
                request_id@,
                fragments(contexts_of(before), request_id@).push(fragment@),
            ));
        }
    }

    /// A copy of the fragments kept under `request_id`, if there are any.
    pub fn get(&self, request_id: &String) -> (found: Option<Vec<String>>)
        ensures
            match found {
                Some(list) => self@.contains_key(request_id@) && list.deep_view()
                    == self@[request_id@],
                None => !self@.contains_key(request_id@),
            },
    {
        let ghost all = self.reports.deep_view();
        let mut list: Vec<String> = Vec::new();
        let mut i: usize = 0;
        assert(all.take(0) =~= Seq::empty());
        assert(list.deep_view() =~= Seq::empty());
        while i < self.reports.len()
            invariant
                i <= self.reports.len(),
                all == self.reports.deep_view(),
                list.deep_view() == fragments_of(all.take(i as int), request_id@),
            decreases self.reports.len() - i,
        {
            assert(all.take(i + 1).drop_last() =~= all.take(i as int));
            if self.reports[i].0 == *request_id {
                let ghost before = list.deep_view();
                list.push(self.reports[i].1.clone());
                assert(list.deep_view() =~= before.push(all[i as int].1));
            }
            i += 1;
        }
        assert(all.take(i as int) =~= all);
        if list.len() == 0 {
            None
        } else {
            Some(list)
        }
    }

    /// Copies `entries` as they are read: each entry whose request
    /// identifier was reported on carries a copy of its fragments; an entry
    /// that was never reported on is copied as it is, with no context set.
    pub fn merge_into(&self, entries: &Vec<LogEntry>) -> (read: Vec<LogEntry>)
        ensures
            read.deep_view() == merged(self@, entries.deep_view()),
    {
        let mut read: Vec<LogEntry> = Vec::new();
        let mut i: usize = 0;
        while i < entries.len()
            invariant
                i <= entries.len(),
                read.deep_view() =~= merged(self@, entries.deep_view()).take(i as int),
            decreases entries.len() - i,
        {
            let ghost before = read.deep_view();
            let mut entry = entries[i].clone();
            match self.get(&entry.request_id) {
                Some(list) => {
                    entry.contexts = Some(list);
                },
                None => {},
            }
            assert(entry.deep_view() == overlaid(self@, entries.deep_view()[i as int]));
            read.push(entry);
            assert(read.deep_view() =~= before.push(merged(self@, entries.deep_view())[i as int]));
            i += 1;
        }
        assert(merged(self@, entries.deep_view()).take(i as int) =~= merged(
            self@,
            entries.deep_view(),
        ));
        read
    }
}

/// Two fragments reported one after the other under one identifier are read
/// back in that order, after whatever was reported under it before, on
/// every entry with that identifier; reports under another identifier do
/// not touch the entry, and an entry that was never reported on is read
/// with no context set.
pub proof fn law_reports_are_read_back(
    contexts: Map<Seq<char>, Seq<Seq<char>>>,
    id: Seq<char>,
    first: Seq<char>,
    second: Seq<char>,
    entry: LogEntryView,
)
    ensures
        ({
            let once = contexts.insert(id, fragments(contexts, id).push(first));
            let twice = once.insert(id, fragments(once, id).push(second));
            &&& entry.request_id == id ==> overlaid(twice, entry).contexts == Some(
                fragments(contexts, id) + seq![first, second],
            )
            &&& entry.request_id != id ==> overlaid(twice, entry) == overlaid(contexts, entry)
            &&& !contexts.contains_key(entry.request_id) ==> overlaid(contexts, entry) == entry
        }),
{
    let once = contexts.insert(id, fragments(contexts, id).push(first));
    let twice = once.insert(id, fragments(once, id).push(second));
    assert(fragments(contexts, id).push(first).push(second) =~= fragments(contexts, id) + seq![
        first,
        second,
    ]);
}

} // verus!
