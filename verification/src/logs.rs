//! The record of completed transactions: one entry for each request that
//! was forwarded and answered, kept under the retention rules.

use crate::fields::Fields;
use crate::retention::{capped, unexpired, Retained, Stamped, MAX_ENTRIES};
use crate::text::{copy_option, copy_texts};
use vstd::prelude::*;

verus! {

/// What the target answered.
#[derive(Debug)]
pub struct ResponseLog {
    pub status: u16,
    pub headers: Fields,
    pub body: Option<String>,
}

/// The model of a [`ResponseLog`].
pub struct ResponseLogView {
    pub status: u16,
    pub headers: Map<Seq<char>, Seq<char>>,
    pub body: Option<Seq<char>>,
}

impl DeepView for ResponseLog {
    type V = ResponseLogView;

    open spec fn deep_view(&self) -> ResponseLogView {
        ResponseLogView {
            status: self.status,
            headers: self.headers@,
            body: self.body.deep_view(),
        }
    }
}

impl Clone for ResponseLog {
    fn clone(&self) -> (copy: Self)
        ensures
            copy.deep_view() == self.deep_view(),
    {
        ResponseLog {
            status: self.status,
            headers: self.headers.clone(),
            body: copy_option(&self.body),
        }
    }
}

/// One completed transaction. The context fragments are not part of what is
/// stored: they are laid over a copy of the entry when the log is read.
#[derive(Debug)]
pub struct LogEntry {
    pub request_id: String,
    pub method: String,
    pub url: String,
    pub headers: Fields,
    pub body: Option<String>,
    /// When the request came in, in milliseconds since the Unix epoch.
    pub timestamp: i64,
    pub response: Option<ResponseLog>,
    pub contexts: Option<Vec<String>>,
}

/// The model of a [`LogEntry`].
pub struct LogEntryView {
    pub request_id: Seq<char>,
    pub method: Seq<char>,
    pub url: Seq<char>,
    pub headers: Map<Seq<char>, Seq<char>>,
    pub body: Option<Seq<char>>,
    pub timestamp: i64,
    pub response: Option<ResponseLogView>,
    pub contexts: Option<Seq<Seq<char>>>,
}

impl DeepView for LogEntry {
    type V = LogEntryView;

    open spec fn deep_view(&self) -> LogEntryView {
        LogEntryView {
            request_id: self.request_id@,
            method: self.method@,
            url: self.url@,
            headers: self.headers@,
            body: self.body.deep_view(),
            timestamp: self.timestamp,
            response: self.response.deep_view(),
            contexts: self.contexts.deep_view(),
        }
    }
}

impl Clone for LogEntry {
    fn clone(&self) -> (copy: Self)
        ensures
            copy.deep_view() == self.deep_view(),
    {
        LogEntry {
            request_id: self.request_id.clone(),
            method: self.method.clone(),
            url: self.url.clone(),
            headers: self.headers.clone(),
            body: copy_option(&self.body),
            timestamp: self.timestamp,
            response: match &self.response {
                Some(response) => Some(response.clone()),
                None => None,
            },
            contexts: match &self.contexts {
                Some(contexts) => Some(copy_texts(contexts)),
                None => None,
            },
        }
    }
}

impl Stamped for LogEntry {
    open spec fn stamp_of(entry: LogEntryView) -> i64 {
        entry.timestamp
    }

    fn stamp(&self) -> (at: i64) {
        self.timestamp
    }
}

/// A copy of a list of entries.
pub fn copy_entries(entries: &Vec<LogEntry>) -> (copy: Vec<LogEntry>)
    ensures
        copy.deep_view() == entries.deep_view(),
{
    let mut copy: Vec<LogEntry> = Vec::new();
    let mut i: usize = 0;
    while i < entries.len()
        invariant
            i <= entries.len(),
            copy.deep_view() =~= entries.deep_view().take(i as int),
        decreases entries.len() - i,
    {
        let ghost before = copy.deep_view();
        copy.push(entries[i].clone());
        assert(copy.deep_view() =~= before.push(entries.deep_view()[i as int]));
        i += 1;
    }
    assert(entries.deep_view().take(i as int) =~= entries.deep_view());
    copy
}

/// The bounded, aging store of log entries, oldest first. It never holds
/// more than 1000 entries.
pub struct LogStore {
    entries: Retained<LogEntry>,
}

impl View for LogStore {
    type V = Seq<LogEntryView>;

    closed spec fn view(&self) -> Seq<LogEntryView> {
        self.entries@
    }
}

impl LogStore {
    /// An empty store.
    pub fn new() -> (store: Self)
        ensures
            store@ == Seq::<LogEntryView>::empty(),
    {
        LogStore { entries: Retained::new() }
    }

    /// Adds `entry` at the tail. Where that takes the store over its cap of
    /// 1000 entries, the oldest entry is dropped from the head, whatever
    /// its age.
    pub fn append(&mut self, entry: LogEntry)
        ensures
            final(self)@ == capped(old(self)@.push(entry.deep_view()), MAX_ENTRIES as nat),
            final(self)@.len() <= MAX_ENTRIES,
    {
        self.entries.append(entry);
    }

    /// Removes every entry that has reached the age `ttl` at time `now`,
    /// whatever the number of entries, and keeps the others in order.
    pub fn evict_expired(&mut self, now: i64, ttl: u64)
        ensures
            final(self)@ == unexpired::<LogEntry>(old(self)@, now, ttl),
            final(self)@.len() <= old(self)@.len() <= MAX_ENTRIES,
    {
        self.entries.evict_expired(now, ttl);
    }

    /// A full copy of the entries, oldest first. Entries appended later do
    /// not show in it.
    pub fn snapshot(&self) -> (entries: Vec<LogEntry>)
        ensures
            entries.deep_view() == self@,
            entries.len() <= MAX_ENTRIES,
    {
        let held = self.entries.entries();
        let entries = copy_entries(held);
        assert(entries.len() == entries.deep_view().len());
        assert(held.len() == held.deep_view().len());
        entries
    }

    /// The number of entries held.
    pub fn len(&self) -> (n: usize)
        ensures
            n == self@.len(),
            n <= MAX_ENTRIES,
    {
        self.entries.len()
    }
}

} // verus!
