//! The pairing-PIN gate of the receiver.
//!
//! When a PIN is set, every transfer request and text message must carry it.
//! Brute force is limited per TLS certificate fingerprint: five failures within
//! one minute reject that source for the rest of the window, even with a
//! later correct PIN, while other devices are unaffected. A success clears the
//! source. The table of failing sources is bounded; when it is full, an
//! untracked source that fails is rejected without being recorded.

use vstd::prelude::*;

use crate::config::{PIN_MAX_FAILURES, PIN_TRACK_CAP, PIN_WINDOW_MS};
use crate::discovery::registry::elapsed;

verus! {

/// Failure record of one source.
#[derive(Debug)]
pub struct PinFailure {
    /// Certificate fingerprint of the source.
    pub fingerprint: String,
    /// Start of the current failure window, in monotonic milliseconds.
    pub window_start: u64,
    /// Failures counted in this window.
    pub failures: u32,
}

/// The contents of a [`PinFailure`].
pub struct PinFailureView {
    pub fingerprint: Seq<char>,
    pub window_start: u64,
    pub failures: u32,
}

impl View for PinFailure {
    type V = PinFailureView;

    open spec fn view(&self) -> PinFailureView {
        PinFailureView {
            fingerprint: self.fingerprint@,
            window_start: self.window_start,
            failures: self.failures,
        }
    }
}

/// Per-source PIN failure table.
pub struct PinGate {
    entries: Vec<PinFailure>,
}

impl View for PinGate {
    type V = Seq<PinFailureView>;

    closed spec fn view(&self) -> Seq<PinFailureView> {
        self.entries@.map_values(|e: PinFailure| e@)
    }
}

/// The records whose window is still open at `now`, in order.
pub open spec fn live(s: Seq<PinFailureView>, now: u64) -> Seq<PinFailureView>
    decreases s.len(),
{
    if s.len() == 0 {
        s
    } else {
        let rest = live(s.drop_last(), now);
        if elapsed(s.last().window_start, now) <= PIN_WINDOW_MS {
            rest.push(s.last())
        } else {
            rest
        }
    }
}

/// The index of the record of `fp`, or -1.
pub open spec fn idx(s: Seq<PinFailureView>, fp: Seq<char>) -> int
    decreases s.len(),
{
    if s.len() == 0 {
        -1
    } else {
        let k = idx(s.drop_last(), fp);
        if k >= 0 {
            k
        } else if s.last().fingerprint == fp {
            s.len() - 1
        } else {
            -1
        }
    }
}

/// A well-formed table: one record per source, bounded in size, counts in `1..=5`.
pub open spec fn wf_spec(s: Seq<PinFailureView>) -> bool {
    &&& s.len() <= PIN_TRACK_CAP
    &&& forall|a: int, b: int|
        0 <= a < b < s.len() ==> (#[trigger] s[a]).fingerprint != (#[trigger] s[b]).fingerprint
    &&& forall|a: int|
        0 <= a < s.len() ==> 1 <= (#[trigger] s[a]).failures <= PIN_MAX_FAILURES
}

/// The decision on one attempt and the table after it.
///
/// `expected` is the configured PIN (`None`: protection off), `provided` the
/// PIN in the request.
pub open spec fn gate_spec(
    s: Seq<PinFailureView>,
    expected: Option<Seq<char>>,
    fp: Seq<char>,
    provided: Option<Seq<char>>,
    now: u64,
) -> (bool, Seq<PinFailureView>) {
    match expected {
        None => (true, s),
        Some(e) => {
            let l = live(s, now);
            let i = idx(l, fp);
            if i >= 0 && l[i].failures >= PIN_MAX_FAILURES {
                (false, l)
            } else if provided == Some(e) {
                (true, if i >= 0 { l.remove(i) } else { l })
            } else if i < 0 && l.len() >= PIN_TRACK_CAP {
                (false, l)
            } else if i >= 0 {
                (
                    false,
                    l.update(
                        i,
                        PinFailureView {
                            fingerprint: fp,
                            window_start: l[i].window_start,
                            failures: (l[i].failures + 1) as u32,
                        },
                    ),
                )
            } else {
                (false, l.push(PinFailureView { fingerprint: fp, window_start: now, failures: 1 }))
            }
        },
    }
}

/// The characters of an optional string.
pub open spec fn opt_chars(o: Option<String>) -> Option<Seq<char>> {
    crate::protocol::opt_view(o)
}

proof fn lemma_idx(s: Seq<PinFailureView>, fp: Seq<char>)
    ensures
        -1 <= idx(s, fp) < s.len(),
        idx(s, fp) == -1 <==> forall|j: int| 0 <= j < s.len() ==> (#[trigger] s[j]).fingerprint != fp,
        idx(s, fp) >= 0 ==> s[idx(s, fp)].fingerprint == fp && forall|j: int|
            0 <= j < idx(s, fp) ==> (#[trigger] s[j]).fingerprint != fp,
    decreases s.len(),
{
    if s.len() > 0 {
        lemma_idx(s.drop_last(), fp);
        assert forall|j: int| 0 <= j < s.len() - 1 implies s[j] == s.drop_last()[j] by {}
    }
}

/// With distinct fingerprints, the record of `fp` is the only one that has it.
proof fn lemma_idx_unique(s: Seq<PinFailureView>, fp: Seq<char>, j: int)
    requires
        wf_spec(s),
        0 <= j < s.len(),
        s[j].fingerprint == fp,
    ensures
        idx(s, fp) == j,
{
    lemma_idx(s, fp);
    let i = idx(s, fp);
    if i != j {
        if i < j {
            assert(s[i].fingerprint != s[j].fingerprint);
        } else {
            assert(s[j].fingerprint != fp);
        }
    }
}

/// `live` keeps exactly the open records, in order: every kept record comes
/// from the table and is open, and every open record is kept.
proof fn lemma_live(s: Seq<PinFailureView>, now: u64)
    ensures
        live(s, now).len() <= s.len(),
        forall|j: int|
            0 <= j < live(s, now).len() ==> s.contains(#[trigger] live(s, now)[j]) && elapsed(
                live(s, now)[j].window_start,
                now,
            ) <= PIN_WINDOW_MS,
        forall|j: int|
            0 <= j < s.len() && elapsed(s[j].window_start, now) <= PIN_WINDOW_MS ==> live(
                s,
                now,
            ).contains(#[trigger] s[j]),
    decreases s.len(),
{
    if s.len() > 0 {
        let d = s.drop_last();
        lemma_live(d, now);
        let l = live(s, now);
        let ld = live(d, now);
        assert forall|j: int| 0 <= j < l.len() implies s.contains(#[trigger] l[j]) && elapsed(
            l[j].window_start,
            now,
        ) <= PIN_WINDOW_MS by {
            if j < ld.len() {
                assert(l[j] == ld[j]);
                let k = choose|k: int| 0 <= k < d.len() && d[k] == ld[j];
                assert(s[k] == d[k]);
            } else {
                assert(l[j] == s.last());
                assert(s[s.len() - 1] == s.last());
            }
        }
        assert forall|j: int|
            0 <= j < s.len() && elapsed(s[j].window_start, now) <= PIN_WINDOW_MS implies l.contains(
            #[trigger] s[j],
        ) by {
            if j < s.len() - 1 {
                assert(s[j] == d[j]);
                let k = choose|k: int| 0 <= k < ld.len() && ld[k] == d[j];
                assert(l[k] == ld[k]);
            } else {
                assert(l[l.len() - 1] == s.last());
            }
        }
    }
}

/// Every record of `live(s)` with a given fingerprint is the record of that
/// fingerprint in `s`.
proof fn lemma_live_wf(s: Seq<PinFailureView>, now: u64)
    requires
        wf_spec(s),
    ensures
        wf_spec(live(s, now)),
        forall|fp: Seq<char>|
            #![trigger idx(live(s, now), fp)]
            idx(live(s, now), fp) >= 0 ==> idx(s, fp) >= 0 && live(s, now)[idx(live(s, now), fp)]
                == s[idx(s, fp)],
        forall|fp: Seq<char>|
            #![trigger idx(live(s, now), fp)]
            idx(s, fp) >= 0 && elapsed(s[idx(s, fp)].window_start, now) <= PIN_WINDOW_MS ==> idx(
                live(s, now),
                fp,
            ) >= 0,
    decreases s.len(),
{
    if s.len() > 0 {
        let d = s.drop_last();
        assert(wf_spec(d)) by {
            assert forall|a: int, b: int| 0 <= a < b < d.len() implies (#[trigger] d[a]).fingerprint
                != (#[trigger] d[b]).fingerprint by {
                assert(d[a] == s[a] && d[b] == s[b]);
            }
            assert forall|a: int| 0 <= a < d.len() implies 1 <= (#[trigger] d[a]).failures
                <= PIN_MAX_FAILURES by {
                assert(d[a] == s[a]);
            }
        }
        lemma_live_wf(d, now);
        lemma_live(d, now);
        lemma_live(s, now);
        let l = live(s, now);
        let ld = live(d, now);
        let x = s.last();
        assert(s[s.len() - 1] == x);
        // The last record's fingerprint occurs nowhere earlier.
        assert forall|j: int| 0 <= j < ld.len() implies (#[trigger] ld[j]).fingerprint
            != x.fingerprint by {
            let k = choose|k: int| 0 <= k < d.len() && d[k] == ld[j];
            assert(s[k] == d[k]);
        }
        assert forall|a: int, b: int| 0 <= a < b < l.len() implies (#[trigger] l[a]).fingerprint
            != (#[trigger] l[b]).fingerprint by {
            if b < ld.len() {
                assert(l[a] == ld[a] && l[b] == ld[b]);
            } else {
                assert(l[a] == ld[a]);
                assert(l[b] == x);
            }
        }
        assert forall|a: int| 0 <= a < l.len() implies 1 <= (#[trigger] l[a]).failures
            <= PIN_MAX_FAILURES by {
            let k = choose|k: int| 0 <= k < s.len() && s[k] == l[a];
        }
        assert forall|fp: Seq<char>| #![trigger idx(live(s, now), fp)] idx(l, fp) >= 0 implies idx(
            s,
            fp,
        ) >= 0 && l[idx(l, fp)] == s[idx(s, fp)] by {
            lemma_idx(l, fp);
            lemma_idx(s, fp);
            lemma_idx(ld, fp);
            lemma_idx(d, fp);
            let i = idx(l, fp);
            let k = choose|k: int| 0 <= k < s.len() && s[k] == l[i];
            lemma_idx_unique(s, fp, k);
        }
        assert forall|fp: Seq<char>| #![trigger idx(live(s, now), fp)] idx(s, fp) >= 0 && elapsed(
            s[idx(s, fp)].window_start,
            now,
        ) <= PIN_WINDOW_MS implies idx(l, fp) >= 0 by {
            lemma_idx(l, fp);
            lemma_idx(s, fp);
            let i = idx(s, fp);
            assert(l.contains(s[i]));
            let k = choose|k: int| 0 <= k < l.len() && l[k] == s[i];
            assert(l[k].fingerprint == fp);
        }
    }
}

/// Removing a record keeps the table well formed.
proof fn lemma_remove_wf(s: Seq<PinFailureView>, i: int)
    requires
        wf_spec(s),
        0 <= i < s.len(),
    ensures
        wf_spec(s.remove(i)),
{
    let r = s.remove(i);
    assert forall|a: int, b: int| 0 <= a < b < r.len() implies (#[trigger] r[a]).fingerprint
        != (#[trigger] r[b]).fingerprint by {
        let a0 = if a < i { a } else { a + 1 };
        let b0 = if b < i { b } else { b + 1 };
        assert(r[a] == s[a0] && r[b] == s[b0]);
    }
    assert forall|a: int| 0 <= a < r.len() implies 1 <= (#[trigger] r[a]).failures
        <= PIN_MAX_FAILURES by {
        let a0 = if a < i { a } else { a + 1 };
        assert(r[a] == s[a0]);
    }
}

impl PinGate {
    /// The well-formedness of the table.
    pub closed spec fn wf(&self) -> bool {
        wf_spec(self@)
    }

    proof fn lemma_view(&self)
        ensures
            self@.len() == self.entries@.len(),
            forall|j: int| 0 <= j < self.entries@.len() ==> #[trigger] self@[j] == self.entries@[j]@,
    {
    }

    /// An empty table.
    pub fn new() -> (r: PinGate)
        ensures
            r.wf(),
            r@ == Seq::<PinFailureView>::empty(),
    {
        let r = PinGate { entries: Vec::new() };
        assert(r@ =~= Seq::<PinFailureView>::empty());
        r
    }

    /// Drops the records whose window has closed at `now`.
    fn expire(&mut self, now: u64)
        ensures
            final(self)@ == live(old(self)@, now),
    {
        let ghost s = old(self)@;
        let mut kept: Vec<PinFailure> = Vec::new();
        let mut i: usize = 0;
        let n = self.entries.len();
        while i < n
            invariant
                n == self.entries.len(),
                i <= n,
                s == self@,
                kept@.map_values(|e: PinFailure| e@) == live(s.take(i as int), now),
            decreases n - i,
        {
            proof {
                self.lemma_view();
                assert(s.take(i + 1).drop_last() =~= s.take(i as int));
                assert(s.take(i + 1).last() == s[i as int]);
            }
            let e = &self.entries[i];
            let start = e.window_start;
            let gap: u64 = if now >= start {
                now - start
            } else {
                0
            };
            if gap <= PIN_WINDOW_MS {
                kept.push(
                    PinFailure {
                        fingerprint: e.fingerprint.clone(),
                        window_start: e.window_start,
                        failures: e.failures,
                    },
                );
                assert(kept@.map_values(|e: PinFailure| e@) =~= live(s.take(i + 1), now));
            } else {
                assert(kept@.map_values(|e: PinFailure| e@) =~= live(s.take(i + 1), now));
            }
            i = i + 1;
        }
        assert(s.take(n as int) =~= s);
        self.entries = kept;
    }

    /// The index of the record of `fp`.
    fn find(&self, fp: &str) -> (r: Option<usize>)
        ensures
            match r {
                Some(i) => i as int == idx(self@, fp@) && i < self@.len(),
                None => idx(self@, fp@) == -1,
            },
    {
        proof {
            self.lemma_view();
            lemma_idx(self@, fp@);
        }
        let mut i: usize = 0;
        while i < self.entries.len()
            invariant
                i <= self.entries.len(),
                self@.len() == self.entries.len(),
                forall|j: int| 0 <= j < self.entries@.len() ==> #[trigger] self@[j] == self.entries@[j]@,
                forall|j: int| 0 <= j < i ==> (#[trigger] self@[j]).fingerprint != fp@,
            decreases self.entries.len() - i,
        {
            if crate::text::str_eq(self.entries[i].fingerprint.as_str(), fp) {
                proof {
                    lemma_idx(self@, fp@);
                    let p = idx(self@, fp@);
                    if p == -1 {
                        assert(self@[i as int].fingerprint != fp@);
                    } else if p < i {
                        assert(self@[p].fingerprint != fp@);
                    } else if p > i {
                        assert(self@[i as int].fingerprint != fp@);
                    }
                }
                return Some(i);
            }
            i = i + 1;
        }
        None
    }

    /// Validates the PIN of a request from the source `peer_fp` at time `now`.
    ///
    /// `expected` is the configured PIN; `None` disables protection and
    /// accepts everything without touching the table.
    pub fn check(
        &mut self,
        expected: &Option<String>,
        peer_fp: &str,
        provided: &Option<String>,
        now: u64,
    ) -> (ok: bool)
        requires
            old(self).wf(),
        ensures
            final(self).wf(),
            (ok, final(self)@) == gate_spec(
                old(self)@,
                opt_chars(*expected),
                peer_fp@,
                opt_chars(*provided),
                now,
            ),
    {
        let e = match expected {
            None => {
                return true;
            },
            Some(e) => e,
        };
        let ghost s = old(self)@;
        proof {
            lemma_live_wf(s, now);
        }
        self.expire(now);
        let ghost l = self@;
        let found = self.find(peer_fp);
        proof {
            lemma_idx(l, peer_fp@);
        }
        if let Some(i) = found {
            proof {
                self.lemma_view();
            }
            if self.entries[i].failures >= PIN_MAX_FAILURES {
                return false;
            }
        }
        let matches = match provided {
            Some(p) => *p == *e,
            None => false,
        };
        if matches {
            if let Some(i) = found {
                proof {
                    self.lemma_view();
                    lemma_remove_wf(l, i as int);
                }
                self.entries.remove(i);
                proof {
                    assert(self@ =~= l.remove(i as int));
                }
            }
            return true;
        }
        match found {
            None => {
                if self.entries.len() >= PIN_TRACK_CAP {
                    return false;
                }
                self.entries.push(
                    PinFailure {
                        fingerprint: crate::text::to_string(peer_fp),
                        window_start: now,
                        failures: 1,
                    },
                );
                proof {
                    let t = l.push(PinFailureView { fingerprint: peer_fp@, window_start: now, failures: 1 });
                    assert(self@ =~= t);
                    assert forall|a: int, b: int| 0 <= a < b < t.len() implies (
                    #[trigger] t[a]).fingerprint != (#[trigger] t[b]).fingerprint by {
                        if b == t.len() - 1 {
                            assert(t[a] == l[a]);
                        } else {
                            assert(t[a] == l[a] && t[b] == l[b]);
                        }
                    }
                    assert forall|a: int| 0 <= a < t.len() implies 1 <= (#[trigger] t[a]).failures
                        <= PIN_MAX_FAILURES by {
                        if a < l.len() {
                            assert(t[a] == l[a]);
                        }
                    }
                }
                false
            },
            Some(i) => {
                proof {
                    self.lemma_view();
                }
                let old_entry = &self.entries[i];
                let bumped = PinFailure {
                    fingerprint: old_entry.fingerprint.clone(),
                    window_start: old_entry.window_start,
                    failures: old_entry.failures + 1,
                };
                self.entries.set(i, bumped);
                proof {
                    let t = l.update(
                        i as int,
                        PinFailureView {
                            fingerprint: peer_fp@,
                            window_start: l[i as int].window_start,
                            failures: (l[i as int].failures + 1) as u32,
                        },
                    );
                    assert(self@ =~= t);
                    assert forall|a: int, b: int| 0 <= a < b < t.len() implies (
                    #[trigger] t[a]).fingerprint != (#[trigger] t[b]).fingerprint by {
                        assert(t[a].fingerprint == l[a].fingerprint);
                        assert(t[b].fingerprint == l[b].fingerprint);
                    }
                    assert forall|a: int| 0 <= a < t.len() implies 1 <= (#[trigger] t[a]).failures
                        <= PIN_MAX_FAILURES by {
                        if a != i {
                            assert(t[a] == l[a]);
                        }
                    }
                }
                false
            },
        }
    }
}

// ---------------------------------------------------------------------------
// Laws
// ---------------------------------------------------------------------------

/// Pushing a record with a new fingerprint, or changing the count of an
/// existing one, keeps the table well formed.
proof fn lemma_grow_wf(l: Seq<PinFailureView>, fp: Seq<char>, now: u64)
    requires
        wf_spec(l),
        idx(l, fp) == -1,
        l.len() < PIN_TRACK_CAP,
    ensures
        wf_spec(l.push(PinFailureView { fingerprint: fp, window_start: now, failures: 1 })),
{
    lemma_idx(l, fp);
    let t = l.push(PinFailureView { fingerprint: fp, window_start: now, failures: 1 });
    assert forall|a: int, b: int| 0 <= a < b < t.len() implies (#[trigger] t[a]).fingerprint != (
    #[trigger] t[b]).fingerprint by {
        assert(t[a] == l[a]);
        if b < l.len() {
            assert(t[b] == l[b]);
        }
    }
    assert forall|a: int| 0 <= a < t.len() implies 1 <= (#[trigger] t[a]).failures
        <= PIN_MAX_FAILURES by {
        if a < l.len() {
            assert(t[a] == l[a]);
        }
    }
}

proof fn lemma_bump_wf(l: Seq<PinFailureView>, i: int)
    requires
        wf_spec(l),
        0 <= i < l.len(),
        l[i].failures < PIN_MAX_FAILURES,
    ensures
        wf_spec(
            l.update(
                i,
                PinFailureView {
                    fingerprint: l[i].fingerprint,
                    window_start: l[i].window_start,
                    failures: (l[i].failures + 1) as u32,
                },
            ),
        ),
{
    let t = l.update(
        i,
        PinFailureView {
            fingerprint: l[i].fingerprint,
            window_start: l[i].window_start,
            failures: (l[i].failures + 1) as u32,
        },
    );
    assert forall|a: int, b: int| 0 <= a < b < t.len() implies (#[trigger] t[a]).fingerprint != (
    #[trigger] t[b]).fingerprint by {
        assert(t[a].fingerprint == l[a].fingerprint);
        assert(t[b].fingerprint == l[b].fingerprint);
    }
    assert forall|a: int| 0 <= a < t.len() implies 1 <= (#[trigger] t[a]).failures
        <= PIN_MAX_FAILURES by {
        if a != i {
            assert(t[a] == l[a]);
        }
    }
}

/// The failure table stays well formed, and so bounded by its cap, whatever
/// attempt comes in.
pub proof fn gate_keeps_table_bounded(
    s: Seq<PinFailureView>,
    expected: Option<Seq<char>>,
    fp: Seq<char>,
    provided: Option<Seq<char>>,
    now: u64,
)
    requires
        wf_spec(s),
    ensures
        wf_spec(gate_spec(s, expected, fp, provided, now).1),
        gate_spec(s, expected, fp, provided, now).1.len() <= PIN_TRACK_CAP,
{
    if let Some(e) = expected {
        lemma_live_wf(s, now);
        let l = live(s, now);
        lemma_idx(l, fp);
        let i = idx(l, fp);
        if i >= 0 && l[i].failures >= PIN_MAX_FAILURES {
        } else if provided == Some(e) {
            if i >= 0 {
                lemma_remove_wf(l, i);
            }
        } else if i < 0 && l.len() >= PIN_TRACK_CAP {
        } else if i >= 0 {
            lemma_bump_wf(l, i);
            assert(l[i].fingerprint == fp);
        } else {
            lemma_grow_wf(l, fp, now);
        }
    }
}

/// With PIN protection off, every request passes and nothing is recorded.
pub proof fn no_pin_accepts_everything(
    s: Seq<PinFailureView>,
    fp: Seq<char>,
    provided: Option<Seq<char>>,
    now: u64,
)
    ensures
        gate_spec(s, None, fp, provided, now) == (true, s),
{
}

/// A source with five failures in its open window is rejected, even when it
/// now sends the correct PIN.
pub proof fn locked_source_is_rejected(
    s: Seq<PinFailureView>,
    expected: Seq<char>,
    fp: Seq<char>,
    provided: Option<Seq<char>>,
    now: u64,
)
    requires
        wf_spec(s),
        idx(s, fp) >= 0,
        s[idx(s, fp)].failures >= PIN_MAX_FAILURES,
        elapsed(s[idx(s, fp)].window_start, now) <= PIN_WINDOW_MS,
    ensures
        gate_spec(s, Some(expected), fp, provided, now).0 == false,
{
    lemma_live_wf(s, now);
    let l = live(s, now);
    assert(idx(l, fp) >= 0);
}

/// The correct PIN from a source that is not locked out passes, and clears
/// that source's failures.
pub proof fn correct_pin_passes_and_clears(
    s: Seq<PinFailureView>,
    expected: Seq<char>,
    fp: Seq<char>,
    now: u64,
)
    requires
        wf_spec(s),
        !(idx(s, fp) >= 0 && s[idx(s, fp)].failures >= PIN_MAX_FAILURES && elapsed(
            s[idx(s, fp)].window_start,
            now,
        ) <= PIN_WINDOW_MS),
    ensures
        gate_spec(s, Some(expected), fp, Some(expected), now).0 == true,
        idx(gate_spec(s, Some(expected), fp, Some(expected), now).1, fp) == -1,
{
    lemma_live_wf(s, now);
    lemma_live(s, now);
    let l = live(s, now);
    lemma_idx(l, fp);
    let i = idx(l, fp);
    if i >= 0 {
        let k = choose|k: int| 0 <= k < s.len() && s[k] == l[i];
        lemma_live(s, now);
        lemma_idx_unique(s, fp, k);
        assert(l[i].failures < PIN_MAX_FAILURES);
        let t = l.remove(i);
        lemma_remove_wf(l, i);
        lemma_idx(t, fp);
        if idx(t, fp) >= 0 {
            let j = idx(t, fp);
            let j0 = if j < i { j } else { j + 1 };
            assert(t[j] == l[j0]);
            assert(l[j0].fingerprint == l[i].fingerprint);
        }
    }
}

/// An attempt from one source never changes the record of another source,
/// beyond dropping records whose window has closed.
pub proof fn other_sources_unaffected(
    s: Seq<PinFailureView>,
    expected: Seq<char>,
    fp: Seq<char>,
    provided: Option<Seq<char>>,
    now: u64,
    other: Seq<char>,
)
    requires
        wf_spec(s),
        other != fp,
    ensures
        ({
            let t = gate_spec(s, Some(expected), fp, provided, now).1;
            let l = live(s, now);
            &&& (idx(t, other) >= 0 <==> idx(l, other) >= 0)
            &&& idx(t, other) >= 0 ==> t[idx(t, other)] == l[idx(l, other)]
        }),
{
    lemma_live_wf(s, now);
    let l = live(s, now);
    let t = gate_spec(s, Some(expected), fp, provided, now).1;
    gate_keeps_table_bounded(s, Some(expected), fp, provided, now);
    lemma_idx(l, fp);
    lemma_idx(l, other);
    lemma_idx(t, other);
    let i = idx(l, fp);
    // Position of each record of `l` in `t`, and back.
    if idx(l, other) >= 0 {
        let j = idx(l, other);
        assert(j != i);
        let j2 = if t == l.remove(i) && i >= 0 && j > i { j - 1 } else { j };
        if t == l {
            lemma_idx_unique(t, other, j);
        } else if i >= 0 && t == l.remove(i) {
            assert(t[j2] == l[j]);
            lemma_idx_unique(t, other, j2);
        } else {
            assert(t[j] == l[j]);
            lemma_idx_unique(t, other, j);
        }
    }
    if idx(t, other) >= 0 {
        let j = idx(t, other);
        if t == l {
        } else if i >= 0 && t == l.remove(i) {
            let j0 = if j < i { j } else { j + 1 };
            assert(t[j] == l[j0]);
            lemma_idx_unique(l, other, j0);
        } else if j < l.len() {
            assert(t[j] == l[j]);
            lemma_idx_unique(l, other, j);
        } else {
            assert(t[j].fingerprint == fp);
        }
    }
}

/// One wrong attempt on an open record adds one failure and keeps its window.
proof fn lemma_failure_step(
    s: Seq<PinFailureView>,
    expected: Seq<char>,
    fp: Seq<char>,
    wrong: Seq<char>,
    now: u64,
    start: u64,
    k: u32,
)
    requires
        wf_spec(s),
        wrong != expected,
        idx(s, fp) >= 0,
        s[idx(s, fp)] == (PinFailureView { fingerprint: fp, window_start: start, failures: k }),
        k < PIN_MAX_FAILURES,
        elapsed(start, now) <= PIN_WINDOW_MS,
    ensures
        ({
            let t = gate_spec(s, Some(expected), fp, Some(wrong), now).1;
            &&& wf_spec(t)
            &&& idx(t, fp) >= 0
            &&& t[idx(t, fp)] == (PinFailureView {
                fingerprint: fp,
                window_start: start,
                failures: (k + 1) as u32,
            })
        }),
{
    lemma_live_wf(s, now);
    let l = live(s, now);
    lemma_idx(s, fp);
    lemma_idx(l, fp);
    let i = idx(l, fp);
    assert(i >= 0);
    assert(l[i] == s[idx(s, fp)]);
    assert(Some(wrong) != Some(expected));
    gate_keeps_table_bounded(s, Some(expected), fp, Some(wrong), now);
    let t = gate_spec(s, Some(expected), fp, Some(wrong), now).1;
    assert(t == l.update(
        i,
        PinFailureView {
            fingerprint: fp,
            window_start: l[i].window_start,
            failures: (l[i].failures + 1) as u32,
        },
    ));
    assert(t[i].fingerprint == fp);
    lemma_idx_unique(t, fp, i);
}

/// The first wrong attempt of an untracked source opens its window with one failure.
proof fn lemma_first_failure(
    s: Seq<PinFailureView>,
    expected: Seq<char>,
    fp: Seq<char>,
    wrong: Seq<char>,
    now: u64,
)
    requires
        wf_spec(s),
        wrong != expected,
        idx(live(s, now), fp) == -1,
        live(s, now).len() < PIN_TRACK_CAP,
    ensures
        ({
            let t = gate_spec(s, Some(expected), fp, Some(wrong), now).1;
            &&& wf_spec(t)
            &&& idx(t, fp) >= 0
            &&& t[idx(t, fp)] == (PinFailureView {
                fingerprint: fp,
                window_start: now,
                failures: 1,
            })
        }),
{
    lemma_live_wf(s, now);
    let l = live(s, now);
    gate_keeps_table_bounded(s, Some(expected), fp, Some(wrong), now);
    let t = gate_spec(s, Some(expected), fp, Some(wrong), now).1;
    assert(t[l.len() as int].fingerprint == fp);
    lemma_idx_unique(t, fp, l.len() as int);
}

/// The table after wrong PINs from `fp` at each of `times`, in order.
pub open spec fn after_wrong_attempts(
    s: Seq<PinFailureView>,
    expected: Seq<char>,
    fp: Seq<char>,
    wrong: Seq<char>,
    times: Seq<u64>,
) -> Seq<PinFailureView>
    decreases times.len(),
{
    if times.len() == 0 {
        s
    } else {
        gate_spec(
            after_wrong_attempts(s, expected, fp, wrong, times.drop_last()),
            Some(expected),
            fp,
            Some(wrong),
            times.last(),
        ).1
    }
}

/// Wrong attempts inside a record's window add up in that record.
proof fn lemma_wrong_attempts(
    s: Seq<PinFailureView>,
    expected: Seq<char>,
    fp: Seq<char>,
    wrong: Seq<char>,
    times: Seq<u64>,
    start: u64,
    k: u32,
)
    requires
        wf_spec(s),
        wrong != expected,
        idx(s, fp) >= 0,
        s[idx(s, fp)] == (PinFailureView { fingerprint: fp, window_start: start, failures: k }),
        k + times.len() <= PIN_MAX_FAILURES,
        forall|j: int| 0 <= j < times.len() ==> elapsed(start, #[trigger] times[j]) <= PIN_WINDOW_MS,
    ensures
        ({
            let t = after_wrong_attempts(s, expected, fp, wrong, times);
            &&& wf_spec(t)
            &&& idx(t, fp) >= 0
            &&& t[idx(t, fp)] == (PinFailureView {
                fingerprint: fp,
                window_start: start,
                failures: (k + times.len()) as u32,
            })
        }),
    decreases times.len(),
{
    if times.len() > 0 {
        let d = times.drop_last();
        assert forall|j: int| 0 <= j < d.len() implies elapsed(start, #[trigger] d[j])
            <= PIN_WINDOW_MS by {
            assert(d[j] == times[j]);
        }
        lemma_wrong_attempts(s, expected, fp, wrong, d, start, k);
        let before = after_wrong_attempts(s, expected, fp, wrong, d);
        assert(times.last() == times[times.len() - 1]);
        lemma_failure_step(before, expected, fp, wrong, times.last(), start, (k + d.len()) as u32);
    }
}

/// A source already tracked keeps counting: with `k` failures in a window
/// that opened at `start`, another `5 - k` wrong PINs inside that window
/// lock it out, and until the window closes it is rejected even with the
/// correct PIN.
pub proof fn failures_lock_out_tracked_source(
    s: Seq<PinFailureView>,
    expected: Seq<char>,
    fp: Seq<char>,
    wrong: Seq<char>,
    times: Seq<u64>,
    later: u64,
)
    requires
        wf_spec(s),
        wrong != expected,
        idx(s, fp) >= 0,
        times.len() == PIN_MAX_FAILURES - s[idx(s, fp)].failures,
        forall|j: int|
            0 <= j < times.len() ==> elapsed(s[idx(s, fp)].window_start, #[trigger] times[j])
                <= PIN_WINDOW_MS,
        elapsed(s[idx(s, fp)].window_start, later) <= PIN_WINDOW_MS,
    ensures
        gate_spec(
            after_wrong_attempts(s, expected, fp, wrong, times),
            Some(expected),
            fp,
            Some(expected),
            later,
        ).0 == false,
{
    let r = s[idx(s, fp)];
    lemma_idx(s, fp);
    assert(r.fingerprint == fp);
    assert(r == (PinFailureView { fingerprint: fp, window_start: r.window_start, failures: r.failures }));
    lemma_wrong_attempts(s, expected, fp, wrong, times, r.window_start, r.failures);
    let t = after_wrong_attempts(s, expected, fp, wrong, times);
    locked_source_is_rejected(t, expected, fp, Some(expected), later);
}

/// Five wrong PINs from one source within a minute lock that source out: a
/// sixth attempt inside the same minute is rejected even with the correct
/// PIN. (The source must have room in the table; a source that the full
/// table cannot track is rejected on every wrong attempt instead.)
pub proof fn five_failures_lock_out_source(
    s: Seq<PinFailureView>,
    expected: Seq<char>,
    fp: Seq<char>,
    wrong: Seq<char>,
    t: Seq<u64>,
)
    requires
        wf_spec(s),
        wrong != expected,
        t.len() == 6,
        forall|a: int, b: int| 0 <= a < b < 6 ==> t[a] <= t[b],
        t[5] - t[0] <= PIN_WINDOW_MS,
        idx(live(s, t[0]), fp) == -1,
        live(s, t[0]).len() < PIN_TRACK_CAP,
    ensures
        ({
            let s1 = gate_spec(s, Some(expected), fp, Some(wrong), t[0]).1;
            let s2 = gate_spec(s1, Some(expected), fp, Some(wrong), t[1]).1;
            let s3 = gate_spec(s2, Some(expected), fp, Some(wrong), t[2]).1;
            let s4 = gate_spec(s3, Some(expected), fp, Some(wrong), t[3]).1;
            let s5 = gate_spec(s4, Some(expected), fp, Some(wrong), t[4]).1;
            gate_spec(s5, Some(expected), fp, Some(expected), t[5]).0 == false
        }),
{
    let t0 = t[0];
    assert(t[0] <= t[1] && t[0] <= t[2] && t[0] <= t[3] && t[0] <= t[4] && t[0] <= t[5]);
    assert(t[1] <= t[5] && t[2] <= t[5] && t[3] <= t[5] && t[4] <= t[5]);
    lemma_first_failure(s, expected, fp, wrong, t0);
    let s1 = gate_spec(s, Some(expected), fp, Some(wrong), t[0]).1;
    lemma_failure_step(s1, expected, fp, wrong, t[1], t0, 1);
    let s2 = gate_spec(s1, Some(expected), fp, Some(wrong), t[1]).1;
    lemma_failure_step(s2, expected, fp, wrong, t[2], t0, 2);
    let s3 = gate_spec(s2, Some(expected), fp, Some(wrong), t[2]).1;
    lemma_failure_step(s3, expected, fp, wrong, t[3], t0, 3);
    let s4 = gate_spec(s3, Some(expected), fp, Some(wrong), t[3]).1;
    lemma_failure_step(s4, expected, fp, wrong, t[4], t0, 4);
    let s5 = gate_spec(s4, Some(expected), fp, Some(wrong), t[4]).1;
    locked_source_is_rejected(s5, expected, fp, Some(expected), t[5]);
}

} // verus!
