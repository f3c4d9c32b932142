use vstd::prelude::*;

use crate::messages::Entry;

verus! {

/// One record of the replicated log. Indices start at 1 and are dense.
#[derive(Debug)]
pub struct LogEntry {
    pub(crate) index: u64,
    pub(crate) term: u64,
    pub(crate) bytes: Vec<u8>,
    pub(crate) acks: u32,
}

/// What a log entry holds, as mathematical values.
pub struct EntryModel {
    pub index: u64,
    pub term: u64,
    pub bytes: Seq<u8>,
    pub acks: u32,
}

impl View for LogEntry {
    type V = EntryModel;

    open(crate) spec fn view(&self) -> EntryModel {
        EntryModel { index: self.index, term: self.term, bytes: self.bytes@, acks: self.acks }
    }
}

impl LogEntry {
    pub fn get_index(&self) -> (r: u64)
        ensures
            r == self@.index,
    {
        self.index
    }

    pub fn get_term(&self) -> (r: u64)
        ensures
            r == self@.term,
    {
        self.term
    }

    pub fn get_acks(&self) -> (r: u32)
        ensures
            r == self@.acks,
    {
        self.acks
    }

    pub fn get_bytes_as_vec(&self) -> (r: Vec<u8>)
        ensures
            r@ == self@.bytes,
    {
        let r = self.bytes.clone();
        assert(r@ =~= self.bytes@);
        r
    }
}

/// The ordered entries of a replica together with its commit index.
pub struct ReplicatedLog {
    pub(crate) entries: Vec<LogEntry>,
    pub(crate) commit_index: Option<u64>,
}

/// What a replicated log holds, as mathematical values.
pub struct LogModel {
    pub entries: Seq<EntryModel>,
    pub commit_index: Option<u64>,
}

impl View for ReplicatedLog {
    type V = LogModel;

    open(crate) spec fn view(&self) -> LogModel {
        LogModel {
            entries: self.entries@.map_values(|e: LogEntry| e@),
            commit_index: self.commit_index,
        }
    }
}

/// Entries are numbered 1, 2, ... in order, and one more still fits in a `u64`.
pub open spec fn log_wf(l: LogModel) -> bool {
    &&& l.entries.len() < u64::MAX
    &&& forall|i: int| 0 <= i < l.entries.len() ==> (#[trigger] l.entries[i]).index == i + 1
}

/// The index of the last entry, 0 for an empty log.
pub open spec fn last_index(l: LogModel) -> int {
    l.entries.len() as int
}

/// The term of the last entry, 0 for an empty log.
pub open spec fn last_term(l: LogModel) -> u64 {
    if l.entries.len() == 0 {
        0
    } else {
        l.entries.last().term
    }
}

/// The term of the entry at `index`, if there is one.
pub open spec fn term_at(l: LogModel, index: int) -> Option<u64> {
    if 1 <= index <= l.entries.len() {
        Some(l.entries[index - 1].term)
    } else {
        None
    }
}

/// A log that ends in `(last_log_index, last_log_term)` is at least as up to date as `l`.
pub open spec fn at_least_as_up_to_date(l: LogModel, last_log_index: u64, last_log_term: u64) -> bool {
    last_log_term > last_term(l) || (last_log_term == last_term(l) && last_log_index
        >= last_index(l))
}

/// The commit index raised to `target`, never lowered; 0 stands for no commit.
pub open spec fn raised(commit: Option<u64>, target: int) -> Option<u64> {
    match commit {
        Some(c) => if target > c { Some(target as u64) } else { commit },
        None => if target >= 1 { Some(target as u64) } else { None },
    }
}

/// The consistency check of `AppendEntries`: the entry before the new one agrees.
pub open spec fn prefix_matches(l: LogModel, prev: Option<u64>, prev_term: Option<u64>) -> bool {
    match prev {
        None => true,
        Some(p) => term_at(l, p as int) is Some && prev_term == term_at(l, p as int),
    }
}

/// Where an `AppendEntries` places its entry: right after the previous index.
pub open spec fn slot_of(prev: Option<u64>) -> int {
    match prev {
        None => 0,
        Some(p) => p as int,
    }
}

/// The entries after a consistent `AppendEntries`: an entry that agrees in term with
/// the one already at its place changes nothing; otherwise the suffix from that place
/// is dropped and the entry appended.
pub open spec fn entries_after(l: LogModel, prev: Option<u64>, entry: Option<(u64, Seq<u8>)>) -> Seq<
    EntryModel,
> {
    let s = slot_of(prev);
    match entry {
        None => l.entries,
        Some(e) => if s < l.entries.len() && l.entries[s].term == e.0 {
            l.entries
        } else {
            l.entries.subrange(0, s).push(
                EntryModel { index: (s + 1) as u64, term: e.0, bytes: e.1, acks: 1 },
            )
        },
    }
}

/// The log after a consistent `AppendEntries`; the commit index follows the leader's,
/// bounded by the last index, and never goes down.
pub open spec fn log_after_append(
    l: LogModel,
    prev: Option<u64>,
    entry: Option<(u64, Seq<u8>)>,
    leader_commit: Option<u64>,
) -> LogModel {
    let es = entries_after(l, prev, entry);
    let target = match leader_commit {
        None => 0,
        Some(c) => if c <= es.len() { c as int } else { es.len() as int },
    };
    LogModel { entries: es, commit_index: raised(l.commit_index, target) }
}

/// The `(term, bytes)` that an optional wire entry carries.
pub open spec fn entry_content(entry: Option<Entry>) -> Option<(u64, Seq<u8>)> {
    match entry {
        None => None,
        Some(e) => Some((e.term, e.command@)),
    }
}

impl ReplicatedLog {
    pub fn new() -> (r: ReplicatedLog)
        ensures
            r@.entries.len() == 0,
            r@.commit_index is None,
            log_wf(r@),
    {
        ReplicatedLog { entries: Vec::new(), commit_index: None }
    }

    pub fn total_log_entries(&self) -> (r: usize)
        ensures
            r == self@.entries.len(),
    {
        self.entries.len()
    }

    pub fn get_commit_index(&self) -> (r: Option<u64>)
        ensures
            r == self@.commit_index,
    {
        self.commit_index
    }

    pub fn last_log_index(&self) -> (r: u64)
        requires
            log_wf(self@),
        ensures
            r == last_index(self@),
    {
        self.entries.len() as u64
    }

    pub fn last_log_term(&self) -> (r: u64)
        ensures
            r == last_term(self@),
    {
        if self.entries.len() == 0 {
            0
        } else {
            self.entries[self.entries.len() - 1].term
        }
    }

    /// The entry at `index` (1-based), if there is one.
    pub fn get_log_entry_at(&self, index: u64) -> (r: Option<&LogEntry>)
        ensures
            r is Some <==> 1 <= index <= self@.entries.len(),
            r is Some ==> r->0@ == self@.entries[index - 1],
    {
        if index >= 1 && index <= self.entries.len() as u64 {
            Some(&self.entries[(index - 1) as usize])
        } else {
            None
        }
    }

    /// The term of the entry at `index` (1-based), if there is one.
    pub fn get_log_term_at(&self, index: u64) -> (r: Option<u64>)
        ensures
            r == term_at(self@, index as int),
    {
        if index >= 1 && index <= self.entries.len() as u64 {
            Some(self.entries[(index - 1) as usize].term)
        } else {
            None
        }
    }

    /// Appends a new entry of `term` holding `bytes`, counted as acknowledged by its
    /// holder; returns its index.
    pub fn append_command(&mut self, bytes: Vec<u8>, term: u64) -> (r: u64)
        requires
            log_wf(old(self)@),
            old(self)@.entries.len() + 1 < u64::MAX,
        ensures
            log_wf(final(self)@),
            r == old(self)@.entries.len() + 1,
            final(self)@.entries == old(self)@.entries.push(
                EntryModel { index: r, term, bytes: bytes@, acks: 1 },
            ),
            final(self)@.commit_index == old(self)@.commit_index,
    {
        let index = self.entries.len() as u64 + 1;
        let entry = LogEntry { index, term, bytes, acks: 1 };
        self.entries.push(entry);
        assert(self@.entries =~= old(self)@.entries.push(
            EntryModel { index, term, bytes: entry@.bytes, acks: 1 },
        ));
        index
    }

    /// Counts one more acknowledgement of the entry at `index`.
    pub fn acknowledge(&mut self, index: u64)
        requires
            log_wf(old(self)@),
            1 <= index <= old(self)@.entries.len(),
        ensures
            log_wf(final(self)@),
            final(self)@.commit_index == old(self)@.commit_index,
            final(self)@.entries == old(self)@.entries.update(
                index - 1,
                EntryModel {
                    acks: if old(self)@.entries[index - 1].acks < u32::MAX {
                        (old(self)@.entries[index - 1].acks + 1) as u32
                    } else {
                        u32::MAX
                    },
                    ..old(self)@.entries[index - 1]
                },
            ),
    {
        let n = self.entries.len();
        assert(n == self@.entries.len());
        let i = (index - 1) as usize;
        let acks = self.entries[i].acks;
        assert(old(self)@.entries[i as int] == old(self).entries@[i as int]@);
        if acks < u32::MAX {
            self.entries[i].acks = acks + 1;
        }
        let ghost expected = old(self)@.entries.update(
            index - 1,
            EntryModel {
                acks: if acks < u32::MAX {
                    (acks + 1) as u32
                } else {
                    u32::MAX
                },
                ..old(self)@.entries[index - 1]
            },
        );
        assert forall|j: int| 0 <= j < self@.entries.len() implies self@.entries[j] == expected[j] by {
            assert(self@.entries[j] == self.entries@[j]@);
            assert(old(self)@.entries[j] == old(self).entries@[j]@);
        }
        assert(self@.entries =~= expected);
    }

    /// The leader's commit rule: the entry at `index` becomes committed once `quorum`
    /// replicas hold it and it is of `current_term`; the commit index never goes down.
    pub fn commit_if_replicated(&mut self, index: u64, quorum: u32, current_term: u64) -> (r: bool)
        requires
            log_wf(old(self)@),
            1 <= index <= old(self)@.entries.len(),
        ensures
            log_wf(final(self)@),
            final(self)@.entries == old(self)@.entries,
            r == (old(self)@.entries[index - 1].acks >= quorum && old(self)@.entries[index
                - 1].term == current_term),
            final(self)@.commit_index == if r {
                raised(old(self)@.commit_index, index as int)
            } else {
                old(self)@.commit_index
            },
    {
        let n = self.entries.len();
        assert(n == self@.entries.len());
        let i = (index - 1) as usize;
        assert(old(self)@.entries[i as int] == old(self).entries@[i as int]@);
        if self.entries[i].acks >= quorum && self.entries[i].term == current_term {
            self.commit_index = Self::raise(self.commit_index, index);
            true
        } else {
            false
        }
    }

    fn raise(commit: Option<u64>, target: u64) -> (r: Option<u64>)
        ensures
            r == raised(commit, target as int),
    {
        match commit {
            Some(c) => if target > c {
                Some(target)
            } else {
                commit
            },
            None => if target >= 1 {
                Some(target)
            } else {
                None
            },
        }
    }

    /// Whether an `AppendEntries` with this previous index and term passes the
    /// consistency check.
    pub fn matches_previous(&self, prev: Option<u64>, prev_term: Option<u64>) -> (r: bool)
        ensures
            r == prefix_matches(self@, prev, prev_term),
    {
        match prev {
            None => true,
            Some(p) => {
                let t = self.get_log_term_at(p);
                t.is_some() && t == prev_term
            },
        }
    }

    /// Applies a consistent `AppendEntries` on a follower.
    pub fn append_entries(
        &mut self,
        prev: Option<u64>,
        entry: Option<Entry>,
        leader_commit: Option<u64>,
    )
        requires
            log_wf(old(self)@),
            slot_of(prev) <= old(self)@.entries.len(),
            old(self)@.entries.len() + 1 < u64::MAX,
        ensures
            log_wf(final(self)@),
            final(self)@ == log_after_append(old(self)@, prev, entry_content(entry), leader_commit),
    {
        let s: usize = match prev {
            None => 0,
            Some(p) => p as usize,
        };
        match entry {
            None => {},
            Some(e) => {
                let same = s < self.entries.len() && self.entries[s].term == e.term;
                if !same {
                    self.entries.truncate(s);
                    let ghost kept = self@.entries;
                    assert(kept =~= old(self)@.entries.subrange(0, s as int));
                    let le = LogEntry { index: s as u64 + 1, term: e.term, bytes: e.command, acks: 1 };
                    self.entries.push(le);
                    assert(self@.entries =~= kept.push(le@));
                }
            },
        }
        let len = self.entries.len() as u64;
        let target = match leader_commit {
            None => 0,
            Some(c) => if c <= len {
                c
            } else {
                len
            },
        };
        self.commit_index = Self::raise(self.commit_index, target);
    }
}

} // verus!
