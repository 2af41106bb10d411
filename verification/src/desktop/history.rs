//! Transfer history: terminal transfers reported by the frontend, newest
//! first, at most [`HISTORY_CAP`] of them, one per transfer ID.
//!
//! The program loads the stored list once at start-up and writes the
//! snapshot back after every change; in between, memory is authoritative.

use vstd::prelude::*;

verus! {

/// Maximum number of entries to retain, discarding the oldest first.
pub const HISTORY_CAP: usize = 200;

/// One transfer history entry.
#[derive(Debug)]
pub struct HistoryEntry {
    /// Transfer task ID.
    pub transfer_id: String,
    /// Direction: "send" or "recv".
    pub direction: String,
    /// Peer name.
    pub peer_name: String,
    /// Terminal status: completed, cancelled, interrupted, or rejected.
    pub status: String,
    /// Number of completed files.
    pub files_done: u32,
    /// Approximate byte count at the terminal state.
    pub bytes: u64,
    /// Completion time in Unix milliseconds.
    pub at: u64,
    /// Last persisted path, used by "Show in Folder" for received transfers.
    pub last_path: Option<String>,
}

/// The contents of a [`HistoryEntry`].
pub struct HistoryEntryView {
    pub transfer_id: Seq<char>,
    pub direction: Seq<char>,
    pub peer_name: Seq<char>,
    pub status: Seq<char>,
    pub files_done: u32,
    pub bytes: u64,
    pub at: u64,
    pub last_path: Option<Seq<char>>,
}

impl View for HistoryEntry {
    type V = HistoryEntryView;

    open spec fn view(&self) -> HistoryEntryView {
        HistoryEntryView {
            transfer_id: self.transfer_id@,
            direction: self.direction@,
            peer_name: self.peer_name@,
            status: self.status@,
            files_done: self.files_done,
            bytes: self.bytes,
            at: self.at,
            last_path: crate::protocol::opt_view(self.last_path),
        }
    }
}

impl HistoryEntry {
    /// A copy of this entry.
    pub fn duplicate(&self) -> (r: HistoryEntry)
        ensures
            r@ == self@,
    {
        HistoryEntry {
            transfer_id: self.transfer_id.clone(),
            direction: self.direction.clone(),
            peer_name: self.peer_name.clone(),
            status: self.status.clone(),
            files_done: self.files_done,
            bytes: self.bytes,
            at: self.at,
            last_path: crate::protocol::clone_opt(&self.last_path),
        }
    }
}

/// In-memory history, newest first.
pub struct HistoryStore {
    entries: Vec<HistoryEntry>,
}

impl View for HistoryStore {
    type V = Seq<HistoryEntryView>;

    closed spec fn view(&self) -> Seq<HistoryEntryView> {
        self.entries@.map_values(|e: HistoryEntry| e@)
    }
}

/// The entries whose transfer ID is not `id`, in order.
pub open spec fn without_id(s: Seq<HistoryEntryView>, id: Seq<char>) -> Seq<HistoryEntryView>
    decreases s.len(),
{
    if s.len() == 0 {
        s
    } else {
        let rest = without_id(s.drop_last(), id);
        if s.last().transfer_id == id {
            rest
        } else {
            rest.push(s.last())
        }
    }
}

/// Adding an entry: any entry with the same transfer ID goes, the new one
/// comes first, and only the newest [`HISTORY_CAP`] are kept.
pub open spec fn append_spec(s: Seq<HistoryEntryView>, e: HistoryEntryView) -> Seq<
    HistoryEntryView,
> {
    let t = seq![e] + without_id(s, e.transfer_id);
    if t.len() <= HISTORY_CAP {
        t
    } else {
        t.take(HISTORY_CAP as int)
    }
}

/// The contents of a list of entries.
pub open spec fn entries_view(v: Seq<HistoryEntry>) -> Seq<HistoryEntryView> {
    v.map_values(|e: HistoryEntry| e@)
}

proof fn lemma_without_id(s: Seq<HistoryEntryView>, id: Seq<char>)
    ensures
        without_id(s, id).len() <= s.len(),
        forall|j: int|
            0 <= j < without_id(s, id).len() ==> (#[trigger] without_id(s, id)[j]).transfer_id
                != id && s.contains(without_id(s, id)[j]),
        forall|j: int|
            0 <= j < s.len() && (#[trigger] s[j]).transfer_id != id ==> without_id(s, id).contains(
                s[j],
            ),
    decreases s.len(),
{
    if s.len() > 0 {
        let d = s.drop_last();
        lemma_without_id(d, id);
        let w = without_id(s, id);
        let wd = without_id(d, id);
        assert forall|j: int| 0 <= j < w.len() implies (#[trigger] w[j]).transfer_id != id
            && s.contains(w[j]) by {
            if j < wd.len() {
                assert(w[j] == wd[j]);
                let k = choose|k: int| 0 <= k < d.len() && d[k] == wd[j];
                assert(s[k] == d[k]);
            } else {
                assert(w[j] == s.last());
                assert(s[s.len() - 1] == s.last());
            }
        }
        assert forall|j: int| 0 <= j < s.len() && (#[trigger] s[j]).transfer_id != id implies w.contains(
            s[j],
        ) by {
            if j < s.len() - 1 {
                assert(s[j] == d[j]);
                let k = choose|k: int| 0 <= k < wd.len() && wd[k] == d[j];
                assert(w[k] == wd[k]);
            } else {
                assert(w[w.len() - 1] == s.last());
            }
        }
    }
}

impl HistoryStore {
    /// A store holding the loaded entries, newest first.
    pub fn new(entries: Vec<HistoryEntry>) -> (r: HistoryStore)
        ensures
            r@ == entries_view(entries@),
    {
        HistoryStore { entries }
    }

    /// Returns a snapshot of all entries, newest first.
    pub fn snapshot(&self) -> (r: Vec<HistoryEntry>)
        ensures
            entries_view(r@) == self@,
    {
        let mut out: Vec<HistoryEntry> = Vec::new();
        let mut i: usize = 0;
        while i < self.entries.len()
            invariant
                i <= self.entries.len(),
                entries_view(out@) == entries_view(self.entries@.take(i as int)),
            decreases self.entries.len() - i,
        {
            let ghost before = out@;
            out.push(self.entries[i].duplicate());
            proof {
                assert(entries_view(out@) =~= entries_view(before).push(self.entries@[i as int]@));
                assert(self.entries@.take(i + 1) =~= self.entries@.take(i as int).push(
                    self.entries@[i as int],
                ));
                assert(entries_view(self.entries@.take(i + 1)) =~= entries_view(
                    self.entries@.take(i as int),
                ).push(self.entries@[i as int]@));
            }
            i = i + 1;
        }
        assert(self.entries@.take(self.entries.len() as int) =~= self.entries@);
        out
    }

    /// Drops every entry with transfer ID `id`.
    fn retain_other(&mut self, id: &str)
        ensures
            final(self)@ == without_id(old(self)@, id@),
    {
        let ghost s = old(self)@;
        let mut old_entries: Vec<HistoryEntry> = Vec::new();
        std::mem::swap(&mut old_entries, &mut self.entries);
        assert(entries_view(old_entries@) == s);
        let mut kept: Vec<HistoryEntry> = Vec::new();
        let mut i: usize = 0;
        let n = old_entries.len();
        while i < n
            invariant
                n == old_entries.len(),
                i <= n,
                entries_view(old_entries@) == s,
                entries_view(kept@) == without_id(s.take(i as int), id@),
            decreases n - i,
        {
            proof {
                assert(s.take(i + 1).drop_last() =~= s.take(i as int));
                assert(s.take(i + 1).last() == s[i as int]);
                assert(s[i as int] == old_entries@[i as int]@);
            }
            if !crate::text::str_eq(old_entries[i].transfer_id.as_str(), id) {
                let ghost before = kept@;
                kept.push(old_entries[i].duplicate());
                assert(entries_view(kept@) =~= entries_view(before).push(s[i as int]));
            }
            i = i + 1;
        }
        assert(s.take(n as int) =~= s);
        self.entries = kept;
    }

    /// Adds an entry, replacing any entry with the same transfer ID.
    pub fn append(&mut self, entry: HistoryEntry)
        ensures
            final(self)@ == append_spec(old(self)@, entry@),
    {
        self.retain_other(entry.transfer_id.as_str());
        let ghost w = self@;
        let ghost e = entry@;
        self.entries.insert(0, entry);
        assert(self@ =~= seq![e] + w);
        if self.entries.len() > HISTORY_CAP {
            self.entries.truncate(HISTORY_CAP);
            assert(self@ =~= (seq![e] + w).take(HISTORY_CAP as int));
        }
    }

    /// Removes the entries of one transfer.
    pub fn remove(&mut self, transfer_id: &str)
        ensures
            final(self)@ == without_id(old(self)@, transfer_id@),
    {
        self.retain_other(transfer_id);
    }

    /// Clears all history.
    pub fn clear(&mut self)
        ensures
            final(self)@ == Seq::<HistoryEntryView>::empty(),
    {
        self.entries = Vec::new();
        assert(self@ =~= Seq::<HistoryEntryView>::empty());
    }
}

/// After an entry is added, it is the newest, it is the only one of its
/// transfer, every other entry was there before, and the history holds at
/// most [`HISTORY_CAP`] entries.
pub proof fn appended_entry_is_newest_and_unique(s: Seq<HistoryEntryView>, e: HistoryEntryView)
    ensures
        append_spec(s, e).len() > 0,
        append_spec(s, e)[0] == e,
        append_spec(s, e).len() <= HISTORY_CAP,
        forall|j: int|
            1 <= j < append_spec(s, e).len() ==> (#[trigger] append_spec(s, e)[j]).transfer_id
                != e.transfer_id && s.contains(append_spec(s, e)[j]),
{
    lemma_without_id(s, e.transfer_id);
    let w = without_id(s, e.transfer_id);
    let t = seq![e] + w;
    assert forall|j: int| 1 <= j < append_spec(s, e).len() implies (
    #[trigger] append_spec(s, e)[j]).transfer_id != e.transfer_id && s.contains(
        append_spec(s, e)[j],
    ) by {
        assert(append_spec(s, e)[j] == t[j]);
        assert(t[j] == w[j - 1]);
    }
}

/// Whether no two entries share a transfer ID.
pub open spec fn unique_ids(s: Seq<HistoryEntryView>) -> bool {
    forall|i: int, j: int|
        0 <= i < j < s.len() ==> (#[trigger] s[i]).transfer_id != (#[trigger] s[j]).transfer_id
}

proof fn lemma_without_id_unique(s: Seq<HistoryEntryView>, id: Seq<char>)
    requires
        unique_ids(s),
    ensures
        unique_ids(without_id(s, id)),
    decreases s.len(),
{
    if s.len() > 0 {
        let d = s.drop_last();
        assert(unique_ids(d)) by {
            assert forall|i: int, j: int| 0 <= i < j < d.len() implies (#[trigger] d[i]).transfer_id
                != (#[trigger] d[j]).transfer_id by {
                assert(d[i] == s[i] && d[j] == s[j]);
            }
        }
        lemma_without_id_unique(d, id);
        lemma_without_id(d, id);
        let wd = without_id(d, id);
        let w = without_id(s, id);
        if s.last().transfer_id != id {
            assert forall|i: int, j: int| 0 <= i < j < w.len() implies (#[trigger] w[i]).transfer_id
                != (#[trigger] w[j]).transfer_id by {
                if j < wd.len() {
                    assert(w[i] == wd[i] && w[j] == wd[j]);
                } else {
                    assert(w[j] == s.last());
                    assert(w[i] == wd[i]);
                    let k = choose|k: int| 0 <= k < d.len() && d[k] == wd[i];
                    assert(s[k] == d[k]);
                    assert(s[s.len() - 1] == s.last());
                }
            }
        }
    }
}

/// The history holds one entry per transfer: appending to a history whose
/// transfer IDs are unique keeps them unique.
pub proof fn appending_keeps_ids_unique(s: Seq<HistoryEntryView>, e: HistoryEntryView)
    requires
        unique_ids(s),
    ensures
        unique_ids(append_spec(s, e)),
{
    lemma_without_id(s, e.transfer_id);
    lemma_without_id_unique(s, e.transfer_id);
    let w = without_id(s, e.transfer_id);
    let t = seq![e] + w;
    assert(unique_ids(t)) by {
        assert forall|i: int, j: int| 0 <= i < j < t.len() implies (#[trigger] t[i]).transfer_id
            != (#[trigger] t[j]).transfer_id by {
            assert(t[j] == w[j - 1]);
            if i > 0 {
                assert(t[i] == w[i - 1]);
            }
        }
    }
    let r = append_spec(s, e);
    assert forall|i: int, j: int| 0 <= i < j < r.len() implies (#[trigger] r[i]).transfer_id
        != (#[trigger] r[j]).transfer_id by {
        assert(r[i] == t[i] && r[j] == t[j]);
    }
}

/// Removing a transfer's entries leaves none of them, and keeps every other entry.
pub proof fn removed_transfer_is_gone(s: Seq<HistoryEntryView>, id: Seq<char>, j: int)
    requires
        0 <= j < s.len(),
    ensures
        forall|k: int| 0 <= k < without_id(s, id).len() ==> (#[trigger] without_id(s, id)[k]).transfer_id != id,
        s[j].transfer_id != id ==> without_id(s, id).contains(s[j]),
{
    lemma_without_id(s, id);
}

} // verus!
