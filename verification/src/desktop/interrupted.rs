//! The registry of interrupted sends: for each failed send that can be
//! retried or resumed in one step, the parameters it was started with,
//! keyed by transfer ID.

use vstd::prelude::*;

use super::shell::{settle_registry, settle_registry_spec, RegistryAction};
use crate::transfer::TransferError;
use crate::text::{str_eq, strings_view};

verus! {

/// Sender-side parameters of an interrupted send.
#[derive(Debug)]
pub struct InterruptedSend {
    /// Target peer fingerprint.
    pub fingerprint: String,
    /// Original source paths.
    pub paths: Vec<String>,
    /// Ignore-rule snapshot taken when sending; a resume reuses it so that
    /// rule changes in between cannot change the manifest.
    pub ignore_rules: String,
    /// Clipboard-image marker, kept so that a retry still shows inline.
    pub inline_image: bool,
}

/// The contents of an [`InterruptedSend`].
pub struct InterruptedView {
    pub fingerprint: Seq<char>,
    pub paths: Seq<Seq<char>>,
    pub ignore_rules: Seq<char>,
    pub inline_image: bool,
}

impl View for InterruptedSend {
    type V = InterruptedView;

    open spec fn view(&self) -> InterruptedView {
        InterruptedView {
            fingerprint: self.fingerprint@,
            paths: strings_view(self.paths@),
            ignore_rules: self.ignore_rules@,
            inline_image: self.inline_image,
        }
    }
}

/// The map a list of entries stands for: a later entry for a transfer ID
/// overrides an earlier one.
pub open spec fn entries_map(s: Seq<(String, InterruptedSend)>) -> Map<Seq<char>, InterruptedView>
    decreases s.len(),
{
    if s.len() == 0 {
        Map::empty()
    } else {
        entries_map(s.drop_last()).insert(s.last().0@, s.last().1@)
    }
}

/// The entries whose transfer ID is not `k`, in order.
pub open spec fn without_key(s: Seq<(String, InterruptedSend)>, k: Seq<char>) -> Seq<
    (String, InterruptedSend),
>
    decreases s.len(),
{
    if s.len() == 0 {
        Seq::empty()
    } else if s.last().0@ == k {
        without_key(s.drop_last(), k)
    } else {
        without_key(s.drop_last(), k).push(s.last())
    }
}

/// The registry after a settled send's action for task `id`: forgetting
/// removes its entry, registering records `send` under it, keeping leaves
/// the registry as it is. No other transfer ID is touched.
pub open spec fn registry_after(
    m: Map<Seq<char>, InterruptedView>,
    action: RegistryAction,
    id: Seq<char>,
    send: InterruptedView,
) -> Map<Seq<char>, InterruptedView> {
    match action {
        RegistryAction::Forget => m.remove(id),
        RegistryAction::Register => m.insert(id, send),
        RegistryAction::Keep => m,
    }
}

proof fn lemma_without_key(s: Seq<(String, InterruptedSend)>, k: Seq<char>)
    ensures
        entries_map(without_key(s, k)) == entries_map(s).remove(k),
    decreases s.len(),
{
    if s.len() == 0 {
        assert(entries_map(s).remove(k) =~= Map::empty());
    } else {
        let p = s.drop_last();
        lemma_without_key(p, k);
        let x = s.last();
        if x.0@ == k {
            assert(entries_map(s).remove(k) =~= entries_map(p).remove(k));
        } else {
            let w = without_key(p, k);
            assert(w.push(x).drop_last() =~= w);
            assert(entries_map(s).remove(k) =~= entries_map(p).remove(k).insert(x.0@, x.1@));
        }
    }
}

proof fn lemma_lookup(s: Seq<(String, InterruptedSend)>, i: int, k: Seq<char>)
    requires
        0 <= i < s.len(),
        s[i].0@ == k,
        forall|j: int| i < j < s.len() ==> (#[trigger] s[j]).0@ != k,
    ensures
        entries_map(s).contains_key(k),
        entries_map(s)[k] == s[i].1@,
    decreases s.len(),
{
    if i < s.len() - 1 {
        let p = s.drop_last();
        assert forall|j: int| i < j < p.len() implies (#[trigger] p[j]).0@ != k by {
            assert(p[j] == s[j]);
        }
        assert(p[i] == s[i]);
        lemma_lookup(p, i, k);
        assert(s.last() == s[s.len() - 1]);
    }
}

proof fn lemma_absent(s: Seq<(String, InterruptedSend)>, k: Seq<char>)
    requires
        forall|j: int| 0 <= j < s.len() ==> (#[trigger] s[j]).0@ != k,
    ensures
        !entries_map(s).contains_key(k),
    decreases s.len(),
{
    if s.len() > 0 {
        let p = s.drop_last();
        assert forall|j: int| 0 <= j < p.len() implies (#[trigger] p[j]).0@ != k by {
            assert(p[j] == s[j]);
        }
        lemma_absent(p, k);
        assert(s.last() == s[s.len() - 1]);
    }
}

/// Interrupted sends by transfer ID.
#[derive(Debug)]
pub struct InterruptedSends {
    entries: Vec<(String, InterruptedSend)>,
}

impl View for InterruptedSends {
    type V = Map<Seq<char>, InterruptedView>;

    closed spec fn view(&self) -> Map<Seq<char>, InterruptedView> {
        entries_map(self.entries@)
    }
}

impl InterruptedSends {
    /// An empty registry.
    pub fn new() -> (r: InterruptedSends)
        ensures
            r@ == Map::<Seq<char>, InterruptedView>::empty(),
    {
        InterruptedSends { entries: Vec::new() }
    }

    /// The parameters recorded for task `id`, if any: what a one-step retry
    /// or resume starts from.
    pub fn get(&self, id: &str) -> (r: Option<&InterruptedSend>)
        ensures
            match r {
                Some(x) => self@.contains_key(id@) && x@ == self@[id@],
                None => !self@.contains_key(id@),
            },
    {
        let mut i: usize = self.entries.len();
        while i > 0
            invariant
                i <= self.entries@.len(),
                forall|j: int| i <= j < self.entries@.len() ==> (#[trigger] self.entries@[j]).0@ != id@,
            decreases i,
        {
            i = i - 1;
            if str_eq(self.entries[i].0.as_str(), id) {
                proof {
                    lemma_lookup(self.entries@, i as int, id@);
                }
                return Some(&self.entries[i].1);
            }
        }
        proof {
            lemma_absent(self.entries@, id@);
        }
        None
    }

    /// Removes the entry of task `id`, if there is one.
    fn remove_key(&mut self, id: &str)
        ensures
            final(self)@ == old(self)@.remove(id@),
    {
        let ghost orig = self.entries@;
        let mut rest: Vec<(String, InterruptedSend)> = Vec::new();
        std::mem::swap(&mut rest, &mut self.entries);
        let mut kept: Vec<(String, InterruptedSend)> = Vec::new();
        let ghost n = orig.len();
        while rest.len() > 0
            invariant
                rest@.len() <= n,
                n == orig.len(),
                rest@ == orig.skip(n - rest@.len()),
                kept@ == without_key(orig.take(n - rest@.len()), id@),
            decreases rest.len(),
        {
            let ghost done = n - rest@.len();
            let e = rest.remove(0);
            proof {
                assert(orig.take(done + 1).drop_last() =~= orig.take(done));
                assert(orig.take(done + 1).last() == orig[done]);
                assert(rest@ =~= orig.skip(done + 1));
            }
            if !str_eq(e.0.as_str(), id) {
                kept.push(e);
            }
        }
        proof {
            assert(orig.take(n as int) =~= orig);
            lemma_without_key(orig, id@);
        }
        self.entries = kept;
    }

    /// Applies a settled send's registry action for task `id`: forgetting
    /// removes its entry, registering records `send` (replacing an earlier
    /// entry), keeping changes nothing. Other tasks' entries stay as they were.
    pub fn apply(&mut self, action: RegistryAction, id: &str, send: InterruptedSend)
        ensures
            final(self)@ == registry_after(old(self)@, action, id@, send@),
    {
        match action {
            RegistryAction::Forget => self.remove_key(id),
            RegistryAction::Register => {
                self.remove_key(id);
                let ghost before = self.entries@;
                self.entries.push((crate::text::to_string(id), send));
                proof {
                    assert(self.entries@.drop_last() =~= before);
                }
            },
            RegistryAction::Keep => {},
        }
    }

    /// Records how a send of task `id`, started with `send`, ended: success
    /// and cancellation forget the task, a failed fresh send is registered
    /// for retry or resume, and a failed resume or an empty manifest leaves
    /// the registry as it is.
    pub fn settle(
        &mut self,
        id: &str,
        send: InterruptedSend,
        result: &Result<(), TransferError>,
        is_resume: bool,
    )
        ensures
            final(self)@ == registry_after(
                old(self)@,
                settle_registry_spec(*result, is_resume),
                id@,
                send@,
            ),
    {
        let action = settle_registry(result, is_resume);
        self.apply(action, id, send);
    }
}

} // verus!
