//! The receiver's table of accepted transfer tasks.
//!
//! A control session registers a task when the user accepts an offer (or when
//! a resume negotiation rebuilds it); the sender's data connection then claims
//! it. At most one data session may own a task, so two writers never share a
//! `.part` file. Pause, resume and cancel update the task's control state;
//! a cancelled task leaves the table. Tasks whose sender never opens a data
//! connection expire after a time to live.

use vstd::prelude::*;

use super::{ConflictPolicy, ControlState, TransferError};
use crate::discovery::registry::elapsed;
use crate::protocol::{duplicate_files, files_view, FileMeta, FileMetaView, PeerInfo, PeerInfoView};

verus! {

/// An accepted task waiting for, or running, its data transfer.
#[derive(Debug)]
pub struct PendingTransfer {
    /// Transfer task ID.
    pub transfer_id: String,
    /// Sender information, used to verify the data connection.
    pub peer: PeerInfo,
    /// File manifest.
    pub files: Vec<FileMeta>,
    /// Accepted file indexes.
    pub accepted: Vec<u32>,
    /// Destination directory.
    pub save_dir: String,
    /// Filename conflict policy.
    pub conflict: ConflictPolicy,
    /// Control state set by pause, resume and cancel.
    pub control: ControlState,
    /// Whether a data session owns the task.
    pub active: bool,
    /// Registration time, in monotonic milliseconds.
    pub registered_at: u64,
}

/// The contents of a [`PendingTransfer`].
pub struct PendingView {
    pub transfer_id: Seq<char>,
    pub peer: PeerInfoView,
    pub files: Seq<FileMetaView>,
    pub accepted: Seq<u32>,
    pub save_dir: Seq<char>,
    pub conflict: ConflictPolicy,
    pub control: ControlState,
    pub active: bool,
    pub registered_at: u64,
}

impl View for PendingTransfer {
    type V = PendingView;

    open spec fn view(&self) -> PendingView {
        PendingView {
            transfer_id: self.transfer_id@,
            peer: self.peer@,
            files: files_view(self.files@),
            accepted: self.accepted@,
            save_dir: self.save_dir@,
            conflict: self.conflict,
            control: self.control,
            active: self.active,
            registered_at: self.registered_at,
        }
    }
}

impl PendingTransfer {
    /// A copy of the task entry.
    pub fn duplicate(&self) -> (r: PendingTransfer)
        ensures
            r@ == self@,
    {
        let accepted = self.accepted.clone();
        assert(accepted@ =~= self.accepted@);
        PendingTransfer {
            transfer_id: self.transfer_id.clone(),
            peer: self.peer.duplicate(),
            files: duplicate_files(&self.files),
            accepted,
            save_dir: self.save_dir.clone(),
            conflict: self.conflict,
            control: self.control,
            active: self.active,
            registered_at: self.registered_at,
        }
    }
}

/// What a data session needs of its task.
#[derive(Debug)]
pub struct DataSessionPlan {
    /// File manifest.
    pub files: Vec<FileMeta>,
    /// Accepted file indexes.
    pub accepted: Vec<u32>,
    /// Destination directory.
    pub save_dir: String,
    /// Filename conflict policy.
    pub conflict: ConflictPolicy,
}

/// Table of accepted tasks, keyed by transfer ID.
pub struct PendingTable {
    tasks: Vec<PendingTransfer>,
}

impl View for PendingTable {
    type V = Seq<PendingView>;

    closed spec fn view(&self) -> Seq<PendingView> {
        self.tasks@.map_values(|t: PendingTransfer| t@)
    }
}

// ---------------------------------------------------------------------------
// Specification
// ---------------------------------------------------------------------------

/// The index of the task with ID `id`, or -1.
pub open spec fn tidx(s: Seq<PendingView>, id: Seq<char>) -> int
    decreases s.len(),
{
    if s.len() == 0 {
        -1
    } else {
        let k = tidx(s.drop_last(), id);
        if k >= 0 {
            k
        } else if s.last().transfer_id == id {
            s.len() - 1
        } else {
            -1
        }
    }
}

/// One task per ID.
pub open spec fn wf_spec(s: Seq<PendingView>) -> bool {
    forall|a: int, b: int|
        0 <= a < b < s.len() ==> (#[trigger] s[a]).transfer_id != (#[trigger] s[b]).transfer_id
}

/// Registration: refused (table unchanged) when the ID is taken.
pub open spec fn register_spec(s: Seq<PendingView>, t: PendingView) -> (bool, Seq<PendingView>) {
    if tidx(s, t.transfer_id) >= 0 {
        (false, s)
    } else {
        (true, s.push(t))
    }
}

/// A task with its control state replaced.
pub open spec fn with_control(t: PendingView, c: ControlState) -> PendingView {
    PendingView { control: c, ..t }
}

/// A task claimed by a data session.
pub open spec fn claimed(t: PendingView) -> PendingView {
    PendingView { active: true, ..t }
}

/// Setting the control state: `false` (table unchanged) when the task is unknown.
pub open spec fn set_control_spec(s: Seq<PendingView>, id: Seq<char>, c: ControlState) -> (
    bool,
    Seq<PendingView>,
) {
    let i = tidx(s, id);
    if i >= 0 {
        (true, s.update(i, with_control(s[i], c)))
    } else {
        (false, s)
    }
}

/// Cancelling: the task leaves the table.
pub open spec fn cancel_spec(s: Seq<PendingView>, id: Seq<char>) -> (bool, Seq<PendingView>) {
    let i = tidx(s, id);
    if i >= 0 {
        (true, s.remove(i))
    } else {
        (false, s)
    }
}

/// Why a data connection for `id` from `fp` is refused, if it is.
pub enum ClaimRefusal {
    Unknown,
    WrongPeer,
    Busy,
}

/// The outcome of a data connection for task `id` from the certificate `fp`.
pub open spec fn claim_spec(s: Seq<PendingView>, id: Seq<char>, fp: Seq<char>) -> Result<
    Seq<PendingView>,
    ClaimRefusal,
> {
    let i = tidx(s, id);
    if i < 0 {
        Err(ClaimRefusal::Unknown)
    } else if s[i].peer.fingerprint != fp {
        Err(ClaimRefusal::WrongPeer)
    } else if s[i].active {
        Err(ClaimRefusal::Busy)
    } else {
        Ok(s.update(i, claimed(s[i])))
    }
}

/// Whether a task has expired: never claimed and older than the time to live.
pub open spec fn expired(t: PendingView, now: u64, ttl: u64) -> bool {
    !t.active && elapsed(t.registered_at, now) > ttl
}

/// The tasks that survive a sweep, in order.
pub open spec fn sweep_survivors(s: Seq<PendingView>, now: u64, ttl: u64) -> Seq<PendingView>
    decreases s.len(),
{
    if s.len() == 0 {
        s
    } else {
        let rest = sweep_survivors(s.drop_last(), now, ttl);
        if expired(s.last(), now, ttl) {
            rest
        } else {
            rest.push(s.last())
        }
    }
}

/// The IDs of the tasks a sweep removes, in order.
pub open spec fn sweep_removed(s: Seq<PendingView>, now: u64, ttl: u64) -> Seq<Seq<char>>
    decreases s.len(),
{
    if s.len() == 0 {
        Seq::empty()
    } else {
        let rest = sweep_removed(s.drop_last(), now, ttl);
        if expired(s.last(), now, ttl) {
            rest.push(s.last().transfer_id)
        } else {
            rest
        }
    }
}

proof fn lemma_tidx(s: Seq<PendingView>, id: Seq<char>)
    ensures
        -1 <= tidx(s, id) < s.len(),
        tidx(s, id) == -1 <==> forall|j: int| 0 <= j < s.len() ==> (#[trigger] s[j]).transfer_id != id,
        tidx(s, id) >= 0 ==> s[tidx(s, id)].transfer_id == id && forall|j: int|
            0 <= j < tidx(s, id) ==> (#[trigger] s[j]).transfer_id != id,
    decreases s.len(),
{
    if s.len() > 0 {
        lemma_tidx(s.drop_last(), id);
        assert forall|j: int| 0 <= j < s.len() - 1 implies s[j] == s.drop_last()[j] by {}
    }
}

proof fn lemma_tidx_unique(s: Seq<PendingView>, id: Seq<char>, j: int)
    requires
        wf_spec(s),
        0 <= j < s.len(),
        s[j].transfer_id == id,
    ensures
        tidx(s, id) == j,
{
    lemma_tidx(s, id);
    let i = tidx(s, id);
    if i != j {
        if i < j {
            assert(s[i].transfer_id != s[j].transfer_id);
        } else {
            assert(s[j].transfer_id != id);
        }
    }
}

/// A change that keeps every ID in place keeps the table well formed.
proof fn lemma_update_wf(s: Seq<PendingView>, i: int, t: PendingView)
    requires
        wf_spec(s),
        0 <= i < s.len(),
        t.transfer_id == s[i].transfer_id,
    ensures
        wf_spec(s.update(i, t)),
{
    let u = s.update(i, t);
    assert forall|a: int, b: int| 0 <= a < b < u.len() implies (#[trigger] u[a]).transfer_id != (
    #[trigger] u[b]).transfer_id by {
        assert(u[a].transfer_id == s[a].transfer_id);
        assert(u[b].transfer_id == s[b].transfer_id);
    }
}

proof fn lemma_remove_wf(s: Seq<PendingView>, i: int)
    requires
        wf_spec(s),
        0 <= i < s.len(),
    ensures
        wf_spec(s.remove(i)),
{
    let r = s.remove(i);
    assert forall|a: int, b: int| 0 <= a < b < r.len() implies (#[trigger] r[a]).transfer_id != (
    #[trigger] r[b]).transfer_id by {
        let a0 = if a < i { a } else { a + 1 };
        let b0 = if b < i { b } else { b + 1 };
        assert(r[a] == s[a0] && r[b] == s[b0]);
    }
}

proof fn lemma_push_wf(s: Seq<PendingView>, t: PendingView)
    requires
        wf_spec(s),
        tidx(s, t.transfer_id) == -1,
    ensures
        wf_spec(s.push(t)),
{
    lemma_tidx(s, t.transfer_id);
    let u = s.push(t);
    assert forall|a: int, b: int| 0 <= a < b < u.len() implies (#[trigger] u[a]).transfer_id != (
    #[trigger] u[b]).transfer_id by {
        assert(u[a] == s[a]);
        if b < s.len() {
            assert(u[b] == s[b]);
        }
    }
}

/// Survivors of a sweep are exactly the tasks of the table that have not expired.
proof fn lemma_sweep(s: Seq<PendingView>, now: u64, ttl: u64)
    ensures
        forall|j: int|
            0 <= j < sweep_survivors(s, now, ttl).len() ==> s.contains(
                #[trigger] sweep_survivors(s, now, ttl)[j],
            ) && !expired(sweep_survivors(s, now, ttl)[j], now, ttl),
        forall|j: int|
            0 <= j < s.len() && !expired(s[j], now, ttl) ==> sweep_survivors(s, now, ttl).contains(
                #[trigger] s[j],
            ),
    decreases s.len(),
{
    if s.len() > 0 {
        let d = s.drop_last();
        lemma_sweep(d, now, ttl);
        let l = sweep_survivors(s, now, ttl);
        let ld = sweep_survivors(d, now, ttl);
        assert forall|j: int| 0 <= j < l.len() implies s.contains(#[trigger] l[j]) && !expired(
            l[j],
            now,
            ttl,
        ) by {
            if j < ld.len() {
                assert(l[j] == ld[j]);
                let k = choose|k: int| 0 <= k < d.len() && d[k] == ld[j];
                assert(s[k] == d[k]);
            } else {
                assert(l[j] == s.last());
                assert(s[s.len() - 1] == s.last());
            }
        }
        assert forall|j: int| 0 <= j < s.len() && !expired(s[j], now, ttl) implies l.contains(
            #[trigger] s[j],
        ) by {
            if j < s.len() - 1 {
                assert(s[j] == d[j]);
                let k = choose|k: int| 0 <= k < ld.len() && ld[k] == d[j];
                assert(l[k] == ld[k]);
            } else {
                assert(l[l.len() - 1] == s.last());
            }
        }
    }
}

proof fn lemma_sweep_wf(s: Seq<PendingView>, now: u64, ttl: u64)
    requires
        wf_spec(s),
    ensures
        wf_spec(sweep_survivors(s, now, ttl)),
    decreases s.len(),
{
    if s.len() > 0 {
        let d = s.drop_last();
        assert(wf_spec(d)) by {
            assert forall|a: int, b: int| 0 <= a < b < d.len() implies (
            #[trigger] d[a]).transfer_id != (#[trigger] d[b]).transfer_id by {
                assert(d[a] == s[a] && d[b] == s[b]);
            }
        }
        lemma_sweep_wf(d, now, ttl);
        lemma_sweep(d, now, ttl);
        let l = sweep_survivors(s, now, ttl);
        let ld = sweep_survivors(d, now, ttl);
        let x = s.last();
        assert(s[s.len() - 1] == x);
        assert forall|a: int, b: int| 0 <= a < b < l.len() implies (#[trigger] l[a]).transfer_id
            != (#[trigger] l[b]).transfer_id by {
            if b < ld.len() {
                assert(l[a] == ld[a] && l[b] == ld[b]);
            } else {
                assert(l[a] == ld[a]);
                assert(l[b] == x);
                let k = choose|k: int| 0 <= k < d.len() && d[k] == ld[a];
                assert(s[k] == d[k]);
            }
        }
    }
}

// ---------------------------------------------------------------------------
// Operations
// ---------------------------------------------------------------------------

impl PendingTable {
    /// One task per ID.
    pub closed spec fn wf(&self) -> bool {
        wf_spec(self@)
    }

    proof fn lemma_view(&self)
        ensures
            self@.len() == self.tasks@.len(),
            forall|j: int| 0 <= j < self.tasks@.len() ==> #[trigger] self@[j] == self.tasks@[j]@,
    {
    }

    /// An empty table.
    pub fn new() -> (r: PendingTable)
        ensures
            r.wf(),
            r@ == Seq::<PendingView>::empty(),
    {
        let r = PendingTable { tasks: Vec::new() };
        assert(r@ =~= Seq::<PendingView>::empty());
        r
    }

    /// The index of the task `id`.
    fn find(&self, id: &str) -> (r: Option<usize>)
        ensures
            match r {
                Some(i) => i as int == tidx(self@, id@) && i < self@.len(),
                None => tidx(self@, id@) == -1,
            },
    {
        proof {
            self.lemma_view();
            lemma_tidx(self@, id@);
        }
        let mut i: usize = 0;
        while i < self.tasks.len()
            invariant
                i <= self.tasks.len(),
                self@.len() == self.tasks.len(),
                forall|j: int| 0 <= j < self.tasks@.len() ==> #[trigger] self@[j] == self.tasks@[j]@,
                forall|j: int| 0 <= j < i ==> (#[trigger] self@[j]).transfer_id != id@,
            decreases self.tasks.len() - i,
        {
            if crate::text::str_eq(self.tasks[i].transfer_id.as_str(), id) {
                proof {
                    lemma_tidx(self@, id@);
                    let p = tidx(self@, id@);
                    if p == -1 {
                        assert(self@[i as int].transfer_id != id@);
                    } else if p < i {
                        assert(self@[p].transfer_id != id@);
                    } else if p > i {
                        assert(self@[i as int].transfer_id != id@);
                    }
                }
                return Some(i);
            }
            i = i + 1;
        }
        None
    }

    /// Whether a task with this ID is waiting or running.
    pub fn contains(&self, id: &str) -> (r: bool)
        ensures
            r == (tidx(self@, id@) >= 0),
    {
        self.find(id).is_some()
    }

    /// The control state of task `id`, if it exists.
    pub fn control_of(&self, id: &str) -> (r: Option<ControlState>)
        ensures
            match r {
                Some(c) => tidx(self@, id@) >= 0 && c == self@[tidx(self@, id@)].control,
                None => tidx(self@, id@) == -1,
            },
    {
        match self.find(id) {
            Some(i) => {
                proof {
                    self.lemma_view();
                }
                Some(self.tasks[i].control)
            },
            None => None,
        }
    }

    /// Registers an accepted task; refuses (and changes nothing) when its ID is taken,
    /// so a second request cannot replace the control channel of a live task.
    pub fn register(&mut self, task: PendingTransfer) -> (r: bool)
        requires
            old(self).wf(),
        ensures
            final(self).wf(),
            (r, final(self)@) == register_spec(old(self)@, task@),
    {
        if self.find(task.transfer_id.as_str()).is_some() {
            return false;
        }
        proof {
            lemma_push_wf(self@, task@);
        }
        let ghost before = self@;
        self.tasks.push(task);
        proof {
            assert(self@ =~= before.push(task@));
        }
        true
    }

    /// Sets the control state of task `id`; `false` when there is no such task.
    ///
    /// The state is stored even before a data session starts, so a pause that
    /// arrives early still applies.
    pub fn set_control(&mut self, id: &str, state: ControlState) -> (r: bool)
        requires
            old(self).wf(),
        ensures
            final(self).wf(),
            (r, final(self)@) == set_control_spec(old(self)@, id@, state),
    {
        match self.find(id) {
            Some(i) => {
                proof {
                    self.lemma_view();
                    lemma_update_wf(self@, i as int, with_control(self@[i as int], state));
                }
                let ghost before = self@;
                self.tasks[i].control = state;
                proof {
                    assert(self@ =~= before.update(i as int, with_control(before[i as int], state)));
                }
                true
            },
            None => false,
        }
    }

    /// Cancels task `id`: it leaves the table, and is handed back with the
    /// terminal `Cancelled` state so its data session and peer can be told.
    pub fn cancel(&mut self, id: &str) -> (r: Option<PendingTransfer>)
        requires
            old(self).wf(),
        ensures
            final(self).wf(),
            (r is Some, final(self)@) == cancel_spec(old(self)@, id@),
            r matches Some(t) ==> t@ == with_control(old(self)@[tidx(old(self)@, id@)], ControlState::Cancelled),
            tidx(final(self)@, id@) == -1,
    {
        proof {
            cancelled_task_is_gone(self@, id@, ControlState::Cancelled, Seq::empty());
        }
        match self.find(id) {
            Some(i) => {
                proof {
                    self.lemma_view();
                    lemma_remove_wf(self@, i as int);
                }
                let ghost before = self@;
                let mut t = self.tasks.remove(i);
                proof {
                    assert(self@ =~= before.remove(i as int));
                }
                t.control = ControlState::Cancelled;
                Some(t)
            },
            None => None,
        }
    }

    /// Ends the data session of task `id`, removing the task.
    pub fn finish(&mut self, id: &str) -> (r: bool)
        requires
            old(self).wf(),
        ensures
            final(self).wf(),
            (r, final(self)@) == cancel_spec(old(self)@, id@),
    {
        match self.find(id) {
            Some(i) => {
                proof {
                    self.lemma_view();
                    lemma_remove_wf(self@, i as int);
                }
                let ghost before = self@;
                self.tasks.remove(i);
                proof {
                    assert(self@ =~= before.remove(i as int));
                }
                true
            },
            None => false,
        }
    }

    /// Claims task `id` for a data connection whose certificate has fingerprint
    /// `conn_fp`, and hands out what the session needs.
    ///
    /// Refused for an unknown task, for a connection from another device than
    /// the requester, and for a task that already has a data session (whose
    /// entry then stays as it is).
    pub fn claim(&mut self, id: &str, conn_fp: &str) -> (r: Result<DataSessionPlan, TransferError>)
        requires
            old(self).wf(),
        ensures
            final(self).wf(),
            match claim_spec(old(self)@, id@, conn_fp@) {
                Ok(t) => r is Ok && final(self)@ == t,
                Err(ClaimRefusal::Unknown) => final(self)@ == old(self)@ && (r matches Err(
                    TransferError::UnknownTransfer(x),
                ) && x@ == id@),
                Err(ClaimRefusal::WrongPeer) => final(self)@ == old(self)@ && (r matches Err(e)
                    && e is PeerMismatch),
                Err(ClaimRefusal::Busy) => final(self)@ == old(self)@ && (r matches Err(
                    TransferError::DuplicateDataSession(x),
                ) && x@ == id@),
            },
            r matches Ok(p) ==> ({
                let t = old(self)@[tidx(old(self)@, id@)];
                &&& files_view(p.files@) == t.files
                &&& p.accepted@ == t.accepted
                &&& p.save_dir@ == t.save_dir
                &&& p.conflict == t.conflict
            }),
    {
        let i = match self.find(id) {
            Some(i) => i,
            None => {
                return Err(TransferError::UnknownTransfer(crate::text::to_string(id)));
            },
        };
        proof {
            self.lemma_view();
        }
        if !crate::text::str_eq(self.tasks[i].peer.fingerprint.as_str(), conn_fp) {
            return Err(TransferError::PeerMismatch);
        }
        if self.tasks[i].active {
            return Err(TransferError::DuplicateDataSession(crate::text::to_string(id)));
        }
        let plan = DataSessionPlan {
            files: duplicate_files(&self.tasks[i].files),
            accepted: self.tasks[i].accepted.clone(),
            save_dir: self.tasks[i].save_dir.clone(),
            conflict: self.tasks[i].conflict,
        };
        proof {
            lemma_update_wf(self@, i as int, claimed(self@[i as int]));
        }
        let ghost before = self@;
        self.tasks[i].active = true;
        proof {
            assert(self@ =~= before.update(i as int, claimed(before[i as int])));
        }
        Ok(plan)
    }

    /// Removes the tasks that were never claimed and are older than `ttl`,
    /// returning their IDs so their resume metadata can be deleted.
    pub fn sweep(&mut self, now: u64, ttl: u64) -> (r: Vec<String>)
        requires
            old(self).wf(),
        ensures
            final(self).wf(),
            final(self)@ == sweep_survivors(old(self)@, now, ttl),
            r@.map_values(|x: String| x@) == sweep_removed(old(self)@, now, ttl),
    {
        let ghost s = self@;
        proof {
            lemma_sweep_wf(s, now, ttl);
            self.lemma_view();
        }
        let mut kept: Vec<PendingTransfer> = Vec::new();
        let mut removed: Vec<String> = Vec::new();
        let n = self.tasks.len();
        let mut i: usize = 0;
        while i < n
            invariant
                n == self.tasks.len(),
                n == s.len(),
                i <= n,
                s == self@,
                forall|j: int| 0 <= j < self.tasks@.len() ==> #[trigger] s[j] == self.tasks@[j]@,
                kept@.map_values(|t: PendingTransfer| t@) == sweep_survivors(s.take(i as int), now, ttl),
                removed@.map_values(|x: String| x@) == sweep_removed(s.take(i as int), now, ttl),
            decreases n - i,
        {
            proof {
                assert(s.take(i + 1).drop_last() =~= s.take(i as int));
                assert(s.take(i + 1).last() == s[i as int]);
            }
            let t = &self.tasks[i];
            let gap: u64 = if now >= t.registered_at {
                now - t.registered_at
            } else {
                0
            };
            if !t.active && gap > ttl {
                let ghost before = removed@;
                removed.push(t.transfer_id.clone());
                proof {
                    assert(removed@.map_values(|x: String| x@) =~= before.map_values(|x: String| x@).push(t@.transfer_id));
                }
            } else {
                let ghost before = kept@;
                kept.push(t.duplicate());
                proof {
                    assert(kept@.map_values(|t: PendingTransfer| t@) =~= before.map_values(|t: PendingTransfer| t@).push(t@));
                }
            }
            i = i + 1;
        }
        proof {
            assert(s.take(n as int) =~= s);
        }
        self.tasks = kept;
        removed
    }
}

// ---------------------------------------------------------------------------
// Laws
// ---------------------------------------------------------------------------

/// An accepted task can be claimed by the device that requested it, exactly
/// once: a second data connection for it, from the same device, is refused as
/// a duplicate session and leaves the table as it was.
pub proof fn accepted_task_is_claimed_once(s: Seq<PendingView>, t: PendingView)
    requires
        wf_spec(s),
        !t.active,
        register_spec(s, t).0,
    ensures
        ({
            let s1 = register_spec(s, t).1;
            &&& claim_spec(s1, t.transfer_id, t.peer.fingerprint) is Ok
            &&& claim_spec(
                claim_spec(s1, t.transfer_id, t.peer.fingerprint)->Ok_0,
                t.transfer_id,
                t.peer.fingerprint,
            ) == Err::<Seq<PendingView>, ClaimRefusal>(ClaimRefusal::Busy)
        }),
{
    let s1 = s.push(t);
    lemma_push_wf(s, t);
    lemma_tidx_unique(s1, t.transfer_id, s.len() as int);
    let s2 = s1.update(s.len() as int, claimed(t));
    lemma_update_wf(s1, s.len() as int, claimed(t));
    lemma_tidx_unique(s2, t.transfer_id, s.len() as int);
}

/// A task of another device cannot be claimed, and the attempt changes nothing.
pub proof fn foreign_claim_is_refused(s: Seq<PendingView>, id: Seq<char>, fp: Seq<char>)
    requires
        wf_spec(s),
        tidx(s, id) >= 0,
        s[tidx(s, id)].peer.fingerprint != fp,
    ensures
        claim_spec(s, id, fp) == Err::<Seq<PendingView>, ClaimRefusal>(ClaimRefusal::WrongPeer),
{
}

/// A second request with a taken ID is refused and changes nothing.
pub proof fn duplicate_registration_is_refused(s: Seq<PendingView>, t: PendingView)
    requires
        tidx(s, t.transfer_id) >= 0,
    ensures
        register_spec(s, t) == (false, s),
{
}

/// After a cancellation the task is gone: later pause or resume commands find
/// nothing, and no data connection can claim it.
pub proof fn cancelled_task_is_gone(
    s: Seq<PendingView>,
    id: Seq<char>,
    c: ControlState,
    fp: Seq<char>,
)
    requires
        wf_spec(s),
    ensures
        ({
            let s1 = cancel_spec(s, id).1;
            &&& tidx(s1, id) == -1
            &&& set_control_spec(s1, id, c) == (false, s1)
            &&& claim_spec(s1, id, fp) == Err::<Seq<PendingView>, ClaimRefusal>(
                ClaimRefusal::Unknown,
            )
        }),
{
    lemma_tidx(s, id);
    let i = tidx(s, id);
    if i >= 0 {
        let s1 = s.remove(i);
        lemma_remove_wf(s, i);
        lemma_tidx(s1, id);
        if tidx(s1, id) >= 0 {
            let j = tidx(s1, id);
            let j0 = if j < i { j } else { j + 1 };
            assert(s1[j] == s[j0]);
            assert(s[j0].transfer_id == s[i].transfer_id);
        }
    }
}

/// A sweep removes only tasks that no data session has claimed and that are
/// older than the time to live; every other task stays.
pub proof fn sweep_spares_live_tasks(s: Seq<PendingView>, now: u64, ttl: u64, j: int)
    requires
        0 <= j < s.len(),
    ensures
        !expired(s[j], now, ttl) ==> sweep_survivors(s, now, ttl).contains(s[j]),
        forall|k: int|
            0 <= k < sweep_survivors(s, now, ttl).len() ==> !expired(
                #[trigger] sweep_survivors(s, now, ttl)[k],
                now,
                ttl,
            ),
{
    lemma_sweep(s, now, ttl);
}

} // verus!
