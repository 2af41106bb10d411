//! Receiver rules: task IDs, `.part` and resume-metadata naming, the
//! control-session decisions, resume negotiation and data-stream checks.
//!
//! The receiving program listens on TCP, terminates TLS, reads frames and
//! touches files; at each step it hands what it read to these functions and
//! does what they answer.

use vstd::prelude::*;

use super::paths::{join_spec, path_exists, path_join, sanitize_rel_path, sanitize_spec};
use super::pending::{
    cancel_spec, set_control_spec, tidx, DataSessionPlan, PendingTable, PendingTransfer,
    PendingView,
};
use super::pin::{gate_spec, PinFailureView, PinGate};
use super::{
    code_of, detail_of, ended_event, message_of, ConflictPolicy, ControlState, TransferError,
    TransferEvent, PART_SUFFIX,
};
use crate::protocol::{
    duplicate_files, files_view, opt_view, ControlMessage, FileMeta, FileMetaView, PeerInfo,
    PeerInfoView, ResumeFileState, ResumeFileStateView, check_version, kind_name, major_spec,
    ProtocolError,
};
use crate::identity::{is_uuid_text, new_transfer_id};
use crate::text::{dec_digits, is_ascii_alnum, push_char, push_decimal, push_str, to_string};

verus! {

// ---------------------------------------------------------------------------
// Names
// ---------------------------------------------------------------------------

/// A character allowed in a transfer ID: UUID-compatible ASCII.
pub open spec fn id_char(c: char) -> bool {
    is_ascii_alnum(c) || c == '-'
}

/// A transfer ID that is safe inside file names: 1 to 64 ASCII letters, digits or `-`.
pub open spec fn is_safe_transfer_id_spec(id: Seq<char>) -> bool {
    &&& 0 < id.len() <= 64
    &&& forall|i: int| 0 <= i < id.len() ==> id_char(#[trigger] id[i])
}

/// Whether every character is ASCII.
pub open spec fn is_ascii(s: Seq<char>) -> bool {
    forall|i: int| 0 <= i < s.len() ==> (#[trigger] s[i] as u32) < 128
}

/// Returns whether a transfer ID is safe for file names.
pub fn is_safe_transfer_id(id: &str) -> (r: bool)
    ensures
        r == is_safe_transfer_id_spec(id@),
{
    let n = id.unicode_len();
    if n == 0 || n > 64 {
        return false;
    }
    let mut i: usize = 0;
    while i < n
        invariant
            n == id@.len(),
            i <= n,
            forall|j: int| 0 <= j < i ==> id_char(#[trigger] id@[j]),
        decreases n - i,
    {
        let c = id.get_char(i);
        let ok = ('0' <= c && c <= '9') || ('a' <= c && c <= 'z') || ('A' <= c && c <= 'Z') || c
            == '-';
        if !ok {
            assert(!id_char(id@[i as int]));
            return false;
        }
        i = i + 1;
    }
    true
}

/// The `.part` path of a target: the target followed by `.`, the first eight
/// characters of the transfer ID and [`PART_SUFFIX`].
pub open spec fn part_path_spec(target: Seq<char>, tid: Seq<char>) -> Seq<char> {
    let k = if tid.len() < 8 { tid.len() } else { 8 };
    target + seq!['.'] + tid.take(k as int) + PART_SUFFIX@
}

/// Builds a `.part` path carrying a prefix of the task ID, so tasks do not collide.
///
/// Naming depends only on the target and the transfer ID, which resume relies
/// on. The ID must be ASCII, as [`is_safe_transfer_id`] guarantees, so its
/// eight-byte prefix is eight characters.
pub fn part_path_of(target: &str, transfer_id: &str) -> (r: String)
    requires
        is_ascii(transfer_id@),
    ensures
        r@ == part_path_spec(target@, transfer_id@),
{
    let n = transfer_id.unicode_len();
    let k = if n < 8 {
        n
    } else {
        8
    };
    let mut s = to_string(target);
    push_char(&mut s, '.');
    let mut i: usize = 0;
    while i < k
        invariant
            k <= n,
            n == transfer_id@.len(),
            i <= k,
            s@ == target@ + seq!['.'] + transfer_id@.take(i as int),
        decreases k - i,
    {
        push_char(&mut s, transfer_id.get_char(i));
        i = i + 1;
        assert(s@ =~= target@ + seq!['.'] + transfer_id@.take(i as int));
    }
    push_str(&mut s, PART_SUFFIX);
    s
}

/// The resume-metadata file of a task inside `dir`.
pub open spec fn resume_meta_path_spec(dir: Seq<char>, tid: Seq<char>) -> Seq<char> {
    join_spec(dir, tid + ".resume.json"@)
}

/// Returns the resume metadata path; callers validate the ID with [`is_safe_transfer_id`] first.
pub fn resume_meta_path(dir: &str, transfer_id: &str) -> (r: String)
    ensures
        r@ == resume_meta_path_spec(dir@, transfer_id@),
{
    let mut name = to_string(transfer_id);
    push_str(&mut name, ".resume.json");
    path_join(dir, name.as_str())
}

/// The `.part` path of a manifest entry saved under `save_dir`, or `None`
/// when its relative path is unsafe.
pub open spec fn entry_part_path(save_dir: Seq<char>, rel: Seq<char>, tid: Seq<char>) -> Option<
    Seq<char>,
> {
    match sanitize_spec(rel, false) {
        Some(p) => Some(part_path_spec(join_spec(save_dir, p), tid)),
        None => None,
    }
}

/// The final target of a manifest entry saved under `save_dir`, or `None`
/// when its relative path is unsafe.
pub open spec fn entry_target(save_dir: Seq<char>, rel: Seq<char>) -> Option<Seq<char>> {
    match sanitize_spec(rel, false) {
        Some(p) => Some(join_spec(save_dir, p)),
        None => None,
    }
}

/// Where a manifest entry is written under `save_dir`; `Err(InvalidPath)` for an unsafe path.
pub fn target_of(save_dir: &str, rel_path: &str) -> (r: Result<String, TransferError>)
    ensures
        match entry_target(save_dir@, rel_path@) {
            Some(t) => r matches Ok(x) && x@ == t,
            None => r matches Err(TransferError::InvalidPath { path }) && path@ == rel_path@,
        },
{
    match sanitize_rel_path(rel_path) {
        Ok(rel) => Ok(path_join(save_dir, rel.as_str())),
        Err(e) => Err(e),
    }
}

/// The `.part` path that a manifest entry is received into, or `None` for an unsafe path.
pub fn entry_part_path_of(save_dir: &str, rel_path: &str, transfer_id: &str) -> (r: Option<String>)
    requires
        is_ascii(transfer_id@),
    ensures
        crate::protocol::opt_view(r) == entry_part_path(save_dir@, rel_path@, transfer_id@),
{
    match sanitize_rel_path(rel_path) {
        Ok(rel) => {
            let target = path_join(save_dir, rel.as_str());
            Some(part_path_of(target.as_str(), transfer_id))
        },
        Err(_) => None,
    }
}

/// The index of the last `c` in `s`, or -1.
pub open spec fn last_index(s: Seq<char>, c: char) -> int
    decreases s.len(),
{
    if s.len() == 0 {
        -1
    } else if s.last() == c {
        s.len() - 1
    } else {
        last_index(s.drop_last(), c)
    }
}

/// A file name with `mark` inserted before its extension, the way a file
/// stem and extension split: at the last `.`, unless that dot starts the
/// name (a hidden file) or the name is `..`.
pub open spec fn marked_name(name: Seq<char>, mark: Seq<char>) -> Seq<char> {
    let d = last_index(name, '.');
    if d <= 0 || name == ".."@ {
        name + mark
    } else {
        name.take(d) + mark + name.skip(d)
    }
}

/// A file name with ` (n)` inserted before its extension.
pub open spec fn numbered_name(name: Seq<char>, n: nat) -> Seq<char> {
    marked_name(name, " ("@ + dec_digits(n) + ")"@)
}

/// The last resort for a path whose numbered alternatives are all taken:
/// `-` and a fresh ID inserted before the file's extension.
pub open spec fn fallback_candidate_spec(path: Seq<char>, id: Seq<char>) -> Seq<char> {
    let k = last_index(path, '/') + 1;
    path.take(k) + marked_name(path.skip(k), seq!['-'] + id)
}

/// The `n`-th alternative of a path whose file already exists, such as
/// `dir/file (1).txt` for `dir/file.txt`.
pub open spec fn dedup_candidate_spec(path: Seq<char>, n: nat) -> Seq<char> {
    let k = last_index(path, '/') + 1;
    path.take(k) + numbered_name(path.skip(k), n)
}

/// Renaming on a conflict never lands on the existing file: every numbered
/// alternative of a path is longer than the path itself.
pub proof fn numbered_candidate_differs(path: Seq<char>, n: nat)
    ensures
        dedup_candidate_spec(path, n).len() > path.len(),
        dedup_candidate_spec(path, n) != path,
{
    reveal_strlit(" (");
    reveal_strlit(")");
    let k = last_index(path, '/') + 1;
    lemma_last_index(path, '/');
    let name = path.skip(k);
    let d = last_index(name, '.');
    lemma_last_index(name, '.');
    let mark = " ("@ + dec_digits(n) + ")"@;
    assert(mark.len() >= 3);
    assert(numbered_name(name, n).len() == name.len() + mark.len());
    assert(path.take(k).len() + name.len() == path.len());
}

pub(crate) proof fn lemma_last_index(s: Seq<char>, c: char)
    ensures
        -1 <= last_index(s, c) < s.len(),
        last_index(s, c) >= 0 ==> s[last_index(s, c)] == c,
        forall|j: int| last_index(s, c) < j < s.len() ==> s[j] != c,
    decreases s.len(),
{
    if s.len() > 0 {
        lemma_last_index(s.drop_last(), c);
        assert forall|j: int| 0 <= j < s.len() - 1 implies s[j] == s.drop_last()[j] by {}
    }
}

/// The index of the last `c` in `v`.
fn find_last(v: &Vec<char>, c: char) -> (r: Option<usize>)
    ensures
        match r {
            Some(i) => i as int == last_index(v@, c) && i < v@.len(),
            None => last_index(v@, c) == -1,
        },
{
    proof {
        lemma_last_index(v@, c);
    }
    let mut i: usize = v.len();
    proof {
        assert(v@.take(v.len() as int) =~= v@);
    }
    while i > 0
        invariant
            i <= v.len(),
            last_index(v@, c) == last_index(v@.take(i as int), c),
        decreases i,
    {
        proof {
            assert(v@.take(i as int).drop_last() =~= v@.take(i - 1));
        }
        if v[i - 1] == c {
            return Some(i - 1);
        }
        i = i - 1;
    }
    None
}

/// Splits a path after its last `/` into a directory part and a file name.
fn split_last(path: &str) -> (r: (Vec<char>, Vec<char>))
    ensures
        r.0@ == path@.take(last_index(path@, '/') + 1),
        r.1@ == path@.skip(last_index(path@, '/') + 1),
{
    let chars = crate::text::chars_of(path);
    proof {
        lemma_last_index(path@, '/');
    }
    let k: usize = match find_last(&chars, '/') {
        Some(i) => {
            assert(i < chars.len());
            i + 1
        },
        None => 0,
    };
    let mut dir: Vec<char> = Vec::new();
    let mut name: Vec<char> = Vec::new();
    let mut i: usize = 0;
    while i < chars.len()
        invariant
            chars@ == path@,
            k <= chars.len(),
            i <= chars.len(),
            i <= k ==> dir@ == path@.take(i as int) && name@.len() == 0,
            i > k ==> dir@ == path@.take(k as int) && name@ == path@.skip(k as int).take(i - k),
        decreases chars.len() - i,
    {
        if i < k {
            dir.push(chars[i]);
            assert(dir@ =~= path@.take(i + 1));
        } else {
            name.push(chars[i]);
            assert(name@ =~= path@.skip(k as int).take(i + 1 - k));
        }
        i = i + 1;
    }
    proof {
        if i <= k {
            assert(path@.skip(k as int) =~= Seq::<char>::empty());
            assert(name@ =~= path@.skip(k as int));
        } else {
            assert(path@.skip(k as int).take(i - k) =~= path@.skip(k as int));
        }
    }
    (dir, name)
}

/// Appends `v[from..to]` to `out`.
fn push_range(out: &mut String, v: &Vec<char>, from: usize, to: usize)
    requires
        from <= to <= v.len(),
    ensures
        final(out)@ == old(out)@ + v@.subrange(from as int, to as int),
{
    let ghost head = out@;
    let mut j: usize = from;
    while j < to
        invariant
            from <= j <= to <= v.len(),
            out@ == head + v@.subrange(from as int, j as int),
        decreases to - j,
    {
        push_char(out, v[j]);
        j = j + 1;
        assert(out@ =~= head + v@.subrange(from as int, j as int));
    }
}

/// Appends a file name with `mark` before its extension to `out`.
fn push_marked(out: &mut String, name: &Vec<char>, mark: &str)
    ensures
        final(out)@ == old(out)@ + marked_name(name@, mark@),
{
    let is_dotdot = name.len() == 2 && name[0] == '.' && name[1] == '.';
    proof {
        reveal_strlit("..");
        if is_dotdot {
            assert(name@ =~= ".."@);
        }
        if name@ == ".."@ {
            assert(name@[0] == '.' && name@[1] == '.');
        }
    }
    let ghost head = out@;
    let dot = find_last(name, '.');
    match dot {
        Some(d) if d > 0 && !is_dotdot => {
            push_range(out, name, 0, d);
            push_str(out, mark);
            push_range(out, name, d, name.len());
            assert(name@.subrange(0, d as int) =~= name@.take(d as int));
            assert(name@.subrange(d as int, name@.len() as int) =~= name@.skip(d as int));
            assert(out@ =~= head + marked_name(name@, mark@));
        },
        _ => {
            push_range(out, name, 0, name.len());
            push_str(out, mark);
            assert(name@.subrange(0, name@.len() as int) =~= name@);
            assert(out@ =~= head + marked_name(name@, mark@));
        },
    }
}

/// Appends the numbered form of a file name to `out`.
fn push_numbered(out: &mut String, name: &Vec<char>, n: u32)
    ensures
        final(out)@ == old(out)@ + numbered_name(name@, n as nat),
{
    proof {
        reveal_strlit(" (");
        reveal_strlit(")");
    }
    let mut mark = to_string(" (");
    push_decimal(&mut mark, n as u64);
    push_str(&mut mark, ")");
    assert(mark@ =~= " ("@ + dec_digits(n as nat) + ")"@);
    push_marked(out, name, mark.as_str());
}

/// The `n`-th alternative name for a target that already exists, such as
/// `file (1).txt`; the program tries `n = 1, 2, ...` until a name is free.
pub fn dedup_candidate(path: &str, n: u32) -> (r: String)
    ensures
        r@ == dedup_candidate_spec(path@, n as nat),
{
    let (dir, name) = split_last(path);
    let mut out = crate::text::string_of(&dir);
    push_numbered(&mut out, &name, n);
    out
}

/// The last-resort name for a target whose numbered alternatives are all
/// taken, such as `file-<id>.txt`.
pub fn fallback_candidate(path: &str, id: &str) -> (r: String)
    ensures
        r@ == fallback_candidate_spec(path@, id@),
{
    let (dir, name) = split_last(path);
    let mut out = crate::text::string_of(&dir);
    let mut mark = to_string("-");
    push_str(&mut mark, id);
    proof {
        reveal_strlit("-");
        assert(mark@ =~= seq!['-'] + id@);
    }
    push_marked(&mut out, &name, mark.as_str());
    out
}

/// The index of the first `false` in `t`, or -1 when there is none.
pub open spec fn first_free(t: Seq<bool>) -> int
    decreases t.len(),
{
    if t.len() == 0 {
        -1
    } else if !t[0] {
        0
    } else {
        let k = first_free(t.drop_first());
        if k < 0 {
            -1
        } else {
            k + 1
        }
    }
}

/// The name a received file takes, given which names are taken: `taken[0]`
/// says whether the target itself exists and `taken[n]` whether its `n`-th
/// numbered alternative does. The target is kept when it is free, else the
/// free alternative with the least number is chosen; `None` when every name
/// asked about is taken.
pub open spec fn dedup_choice_spec(path: Seq<char>, taken: Seq<bool>) -> Option<Seq<char>> {
    let k = first_free(taken);
    if k < 0 {
        None
    } else if k == 0 {
        Some(path)
    } else {
        Some(dedup_candidate_spec(path, k as nat))
    }
}

proof fn lemma_first_free(t: Seq<bool>, i: int)
    requires
        0 <= i <= t.len(),
        forall|j: int| 0 <= j < i ==> t[j],
        i < t.len() ==> !t[i],
    ensures
        first_free(t) == if i < t.len() {
            i
        } else {
            -1
        },
    decreases i,
{
    if i > 0 {
        let d = t.drop_first();
        assert forall|j: int| 0 <= j < i - 1 implies d[j] by {
            assert(d[j] == t[j + 1]);
        }
        if i < t.len() {
            assert(d[i - 1] == t[i]);
        }
        lemma_first_free(d, i - 1);
        assert(t[0]);
    }
}

/// Chooses the name for a received file from the answers `taken` (see
/// [`dedup_choice_spec`]): the target when it is free, else the free
/// numbered alternative with the least number.
pub fn dedup_choice(path: &str, taken: &Vec<bool>) -> (r: Option<String>)
    requires
        taken@.len() <= u32::MAX as int + 1,
    ensures
        opt_view(r) == dedup_choice_spec(path@, taken@),
{
    let mut i: usize = 0;
    while i < taken.len()
        invariant
            i <= taken@.len(),
            taken@.len() <= u32::MAX as int + 1,
            forall|j: int| 0 <= j < i ==> taken@[j],
        decreases taken.len() - i,
    {
        if !taken[i] {
            proof {
                lemma_first_free(taken@, i as int);
            }
            if i == 0 {
                return Some(to_string(path));
            }
            return Some(dedup_candidate(path, i as u32));
        }
        i = i + 1;
    }
    proof {
        lemma_first_free(taken@, i as int);
    }
    None
}

/// A name for a received file that does not overwrite an existing one: the
/// target itself when nothing is there, else its first free numbered
/// alternative (`file (1).txt`, `file (2).txt`, ...), and when every number
/// is taken a name with a fresh ID.
///
/// The file system answers which names exist; this asks about the target
/// and then about its numbered alternatives in turn until one is free, and
/// [`dedup_choice`] decides on the answers. Whatever they were, the result
/// is the choice for some such run of answers, or the fresh-ID name when all
/// the numbers were taken.
pub fn dedup_path(path: &str) -> (r: String)
    ensures
        exists|taken: Seq<bool>|
            {
                &&& 1 <= taken.len() <= u32::MAX as int + 1
                &&& forall|j: int| 0 <= j < taken.len() - 1 ==> taken[j]
                &&& match #[trigger] dedup_choice_spec(path@, taken) {
                    Some(c) => r@ == c,
                    None => taken.len() == u32::MAX as int + 1 && exists|id: Seq<char>|
                        is_uuid_text(id) && r@ == #[trigger] fallback_candidate_spec(path@, id),
                }
            },
{
    let mut taken: Vec<bool> = Vec::new();
    taken.push(path_exists(path));
    while taken[taken.len() - 1] && taken.len() <= u32::MAX as usize
        invariant
            1 <= taken@.len() <= u32::MAX as int + 1,
            forall|j: int| 0 <= j < taken@.len() - 1 ==> taken@[j],
        decreases u32::MAX as int + 1 - taken@.len(),
    {
        let n = taken.len() as u32;
        let candidate = dedup_candidate(path, n);
        taken.push(path_exists(candidate.as_str()));
    }
    let ghost t = taken@;
    match dedup_choice(path, &taken) {
        Some(name) => {
            assert(dedup_choice_spec(path@, t) == Some(name@));
            name
        },
        None => {
            proof {
                if !t[t.len() - 1] {
                    lemma_first_free(t, t.len() - 1);
                }
            }
            let id = new_transfer_id();
            let r = fallback_candidate(path, id.as_str());
            assert(is_uuid_text(id@) && r@ == fallback_candidate_spec(path@, id@));
            assert(dedup_choice_spec(path@, t) is None);
            r
        },
    }
}

// ---------------------------------------------------------------------------
// Transfer requests
// ---------------------------------------------------------------------------

/// Resume metadata, persisted when a transfer is accepted and removed when it
/// completes or is cancelled; an unexpected disconnect keeps it.
#[derive(Debug)]
pub struct ResumeMeta {
    /// Sender fingerprint; only the original sender may resume.
    pub peer_fingerprint: String,
    /// Complete file manifest.
    pub files: Vec<FileMeta>,
    /// Accepted file indexes.
    pub accepted: Vec<u32>,
    /// Fully persisted file indexes, skipped on resume.
    pub completed: Vec<u32>,
    /// Destination directory.
    pub save_dir: String,
    /// Filename conflict policy retained for resume.
    pub conflict: ConflictPolicy,
}

impl ResumeMeta {
    /// Records that a file was fully persisted; returns whether anything
    /// changed, that is, whether the metadata must be written again.
    pub fn mark_completed(&mut self, file_id: u32) -> (changed: bool)
        ensures
            changed == !old(self).completed@.contains(file_id),
            final(self).completed@ == if changed {
                old(self).completed@.push(file_id)
            } else {
                old(self).completed@
            },
            final(self).peer_fingerprint@ == old(self).peer_fingerprint@,
            files_view(final(self).files@) == files_view(old(self).files@),
            final(self).accepted@ == old(self).accepted@,
            final(self).save_dir@ == old(self).save_dir@,
            final(self).conflict == old(self).conflict,
    {
        if contains_id(&self.completed, file_id) {
            return false;
        }
        self.completed.push(file_id);
        true
    }
}

/// Whether `v` holds `id`.
pub fn contains_id(v: &Vec<u32>, id: u32) -> (r: bool)
    ensures
        r == v@.contains(id),
{
    let mut i: usize = 0;
    while i < v.len()
        invariant
            i <= v.len(),
            forall|j: int| 0 <= j < i ==> v@[j] != id,
        decreases v.len() - i,
    {
        if v[i] == id {
            assert(v@[i as int] == id);
            return true;
        }
        i = i + 1;
    }
    false
}

/// The receiver's decision on a transfer request.
#[derive(Debug)]
pub enum OfferDecision {
    /// Accepts the selected files, into the default directory when `save_dir` is `None`.
    Accept {
        /// Accepted file indexes.
        accepted_files: Vec<u32>,
        /// Destination directory for this transfer.
        save_dir: Option<String>,
        /// Filename conflict policy.
        conflict: ConflictPolicy,
    },
    /// Rejects the transfer.
    Reject {
        /// Optional reason returned to the sender.
        reason: Option<String>,
    },
}

/// What became of the question put to the user about a request.
#[derive(Debug)]
pub enum RequestOutcome {
    /// Nobody could be asked: the decision channel is closed.
    Unavailable,
    /// No decision arrived within the offer timeout, or the answer was dropped.
    TimedOut,
    /// The user decided.
    Decided(OfferDecision),
}

/// The contents of a `TransferResponse`: task ID, accepted files, reason,
/// whether a PIN is required, and reason code.
pub type ResponseView = (Seq<char>, Seq<u32>, Option<Seq<char>>, bool, Option<Seq<char>>);

/// The contents of a message when it is a `TransferResponse`.
pub open spec fn response_view(m: ControlMessage) -> Option<ResponseView> {
    match m {
        ControlMessage::TransferResponse {
            transfer_id,
            accepted_files,
            reason,
            pin_required,
            reason_code,
        } => Some(
            (
                transfer_id@,
                accepted_files@,
                opt_view(reason),
                pin_required,
                opt_view(reason_code),
            ),
        ),
        _ => None,
    }
}

/// A refusal with a reason text and a reason code.
pub open spec fn refusal(tid: Seq<char>, reason: Seq<char>, code: Seq<char>) -> ResponseView {
    (tid, Seq::empty(), Some(reason), false, Some(code))
}

/// The accepted IDs that name a file of the manifest, in the order given.
pub open spec fn valid_ids(accepted: Seq<u32>, files: Seq<FileMetaView>) -> Seq<u32>
    decreases accepted.len(),
{
    if accepted.len() == 0 {
        accepted
    } else {
        let rest = valid_ids(accepted.drop_last(), files);
        let id = accepted.last();
        if exists|k: int| 0 <= k < files.len() && #[trigger] files[k].file_id == id {
            rest.push(id)
        } else {
            rest
        }
    }
}

/// The task registered for an accepted request.
pub open spec fn accepted_task(
    tid: Seq<char>,
    peer: PeerInfoView,
    files: Seq<FileMetaView>,
    valid: Seq<u32>,
    dir: Seq<char>,
    conflict: ConflictPolicy,
    now: u64,
) -> PendingView {
    PendingView {
        transfer_id: tid,
        peer,
        files,
        accepted: valid,
        save_dir: dir,
        conflict,
        control: ControlState::Running,
        active: false,
        registered_at: now,
    }
}

/// The answer to a transfer request, and the task table after it.
pub open spec fn answer_spec(
    table: Seq<PendingView>,
    peer: PeerInfoView,
    tid: Seq<char>,
    files: Seq<FileMetaView>,
    outcome: RequestOutcome,
    default_dir: Seq<char>,
    now: u64,
) -> (ResponseView, Seq<PendingView>) {
    if !is_safe_transfer_id_spec(tid) {
        (refusal(tid, "invalid transfer task ID"@, "bad_transfer_id"@), table)
    } else {
        match outcome {
            RequestOutcome::Unavailable => (
                refusal(tid, "receiver unavailable"@, "receiver_unavailable"@),
                table,
            ),
            RequestOutcome::TimedOut => (
                refusal(tid, "receiver decision timed out"@, "decision_timeout"@),
                table,
            ),
            RequestOutcome::Decided(OfferDecision::Reject { reason }) => (
                (tid, Seq::empty(), opt_view(reason), false, Some("declined"@)),
                table,
            ),
            RequestOutcome::Decided(OfferDecision::Accept { accepted_files, save_dir, conflict }) => {
                let valid = valid_ids(accepted_files@, files);
                let dir = match save_dir {
                    Some(d) => d@,
                    None => default_dir,
                };
                if valid.len() == 0 {
                    (refusal(tid, "no valid files selected"@, "no_valid_files"@), table)
                } else if tidx(table, tid) >= 0 {
                    (refusal(tid, "a task with this ID is already active"@, "duplicate_task"@), table)
                } else {
                    (
                        (tid, valid, None, false, None),
                        table.push(accepted_task(tid, peer, files, valid, dir, conflict, now)),
                    )
                }
            },
        }
    }
}

proof fn lemma_valid_ids(accepted: Seq<u32>, files: Seq<FileMetaView>)
    ensures
        forall|j: int|
            0 <= j < valid_ids(accepted, files).len() ==> accepted.contains(
                #[trigger] valid_ids(accepted, files)[j],
            ) && exists|k: int|
                0 <= k < files.len() && files[k].file_id == valid_ids(accepted, files)[j],
    decreases accepted.len(),
{
    if accepted.len() > 0 {
        let d = accepted.drop_last();
        lemma_valid_ids(d, files);
        let rest = valid_ids(d, files);
        let v = valid_ids(accepted, files);
        assert forall|j: int| 0 <= j < v.len() implies accepted.contains(#[trigger] v[j])
            && exists|k: int| 0 <= k < files.len() && files[k].file_id == v[j] by {
            if j < rest.len() {
                assert(v[j] == rest[j]);
                let m = choose|m: int| 0 <= m < d.len() && d[m] == rest[j];
                assert(accepted[m] == d[m]);
            } else {
                assert(v[j] == accepted.last());
                assert(accepted[accepted.len() - 1] == accepted.last());
            }
        }
    }
}

/// Accepting an offer registers exactly one task, saved where the user
/// chose: in `save_dir` when the decision names one, else in the default
/// directory. The task is registered exactly when the answer accepts some
/// files; it holds the requesting peer, the manifest, the accepted IDs the
/// answer names (each chosen by the user and naming a manifest file) and the
/// conflict policy, and waits for its data session. The tasks already
/// registered stay as they were.
pub proof fn accepted_offer_saves_where_chosen(
    table: Seq<PendingView>,
    peer: PeerInfoView,
    tid: Seq<char>,
    files: Seq<FileMetaView>,
    accepted_files: Vec<u32>,
    save_dir: Option<String>,
    conflict: ConflictPolicy,
    default_dir: Seq<char>,
    now: u64,
)
    ensures
        ({
            let outcome = RequestOutcome::Decided(
                OfferDecision::Accept { accepted_files, save_dir, conflict },
            );
            let (resp, t) = answer_spec(table, peer, tid, files, outcome, default_dir, now);
            &&& t == table || (t.len() == table.len() + 1 && t.drop_last() == table)
            &&& t.len() > table.len() <==> resp.1.len() > 0
            &&& forall|j: int|
                0 <= j < resp.1.len() ==> accepted_files@.contains(#[trigger] resp.1[j])
                    && exists|k: int| 0 <= k < files.len() && files[k].file_id == resp.1[j]
            &&& t.len() > table.len() ==> {
                let n = t.last();
                &&& n.transfer_id == tid
                &&& n.peer == peer
                &&& n.files == files
                &&& n.accepted == resp.1
                &&& n.conflict == conflict
                &&& (save_dir matches Some(d) ==> n.save_dir == d@)
                &&& (save_dir is None ==> n.save_dir == default_dir)
                &&& n.control == ControlState::Running
                &&& !n.active
                &&& n.registered_at == now
            }
        }),
{
    lemma_valid_ids(accepted_files@, files);
    let outcome = RequestOutcome::Decided(OfferDecision::Accept { accepted_files, save_dir, conflict });
    let (resp, t) = answer_spec(table, peer, tid, files, outcome, default_dir, now);
    let valid = valid_ids(accepted_files@, files);
    if t != table {
        assert(t.drop_last() =~= table);
    }
    assert(resp.1.len() == 0 || resp.1 == valid);
    assert forall|j: int| 0 <= j < resp.1.len() implies accepted_files@.contains(
        #[trigger] resp.1[j],
    ) && exists|k: int| 0 <= k < files.len() && files[k].file_id == resp.1[j] by {
        assert(resp.1[j] == valid[j]);
        assert(accepted_files@.contains(valid[j]));
        let k = choose|k: int| 0 <= k < files.len() && files[k].file_id == valid[j];
        assert(files[k].file_id == resp.1[j]);
    }
}

/// A `TransferResponse` refusing the request.
fn refuse(transfer_id: String, reason: &str, code: &str) -> (r: ControlMessage)
    ensures
        response_view(r) == Some(refusal(transfer_id@, reason@, code@)),
{
    let accepted_files: Vec<u32> = Vec::new();
    assert(accepted_files@ =~= Seq::<u32>::empty());
    ControlMessage::TransferResponse {
        transfer_id,
        accepted_files,
        reason: Some(to_string(reason)),
        pin_required: false,
        reason_code: Some(to_string(code)),
    }
}

/// Keeps the accepted IDs that name a file of the manifest.
pub fn filter_valid(accepted: &Vec<u32>, files: &Vec<FileMeta>) -> (r: Vec<u32>)
    ensures
        r@ == valid_ids(accepted@, files_view(files@)),
{
    let ghost fv = files_view(files@);
    let mut out: Vec<u32> = Vec::new();
    let mut i: usize = 0;
    while i < accepted.len()
        invariant
            i <= accepted.len(),
            fv == files_view(files@),
            out@ == valid_ids(accepted@.take(i as int), fv),
        decreases accepted.len() - i,
    {
        let id = accepted[i];
        proof {
            assert(accepted@.take(i + 1).drop_last() =~= accepted@.take(i as int));
            assert(accepted@.take(i + 1).last() == id);
        }
        let mut found = false;
        let mut k: usize = 0;
        while k < files.len()
            invariant
                k <= files.len(),
                fv == files_view(files@),
                fv.len() == files@.len(),
                !found ==> forall|j: int| 0 <= j < k ==> (#[trigger] fv[j]).file_id != id,
                found ==> exists|j: int| 0 <= j < fv.len() && (#[trigger] fv[j]).file_id == id,
            decreases files.len() - k,
        {
            if files[k].file_id == id {
                assert(fv[k as int].file_id == id);
                found = true;
            }
            k = k + 1;
        }
        if found {
            out.push(id);
        }
        i = i + 1;
    }
    assert(accepted@.take(accepted.len() as int) =~= accepted@);
    out
}

/// Answers a transfer request once the user's decision (or its absence) is known.
///
/// An unsafe task ID is refused before anything else; the program checks it
/// with [`is_safe_transfer_id`] before asking the user at all. An acceptance
/// keeps only the selected IDs that name a manifest file, falls back to
/// `default_dir`, registers the task, and hands back the resume metadata to
/// persist; a task ID that is already waiting or running is refused.
pub fn answer_request(
    table: &mut PendingTable,
    peer: &PeerInfo,
    transfer_id: String,
    files: Vec<FileMeta>,
    outcome: RequestOutcome,
    default_dir: &str,
    now: u64,
) -> (r: (ControlMessage, Option<ResumeMeta>))
    requires
        old(table).wf(),
    ensures
        final(table).wf(),
        ({
            let (resp, t) = answer_spec(
                old(table)@,
                peer@,
                transfer_id@,
                files_view(files@),
                outcome,
                default_dir@,
                now,
            );
            &&& response_view(r.0) == Some(resp)
            &&& final(table)@ == t
        }),
        r.1 is Some <==> final(table)@ != old(table)@,
        r.1 matches Some(m) ==> ({
            let t = final(table)@.last();
            &&& m.peer_fingerprint@ == peer@.fingerprint
            &&& files_view(m.files@) == files_view(files@)
            &&& m.accepted@ == t.accepted
            &&& m.completed@.len() == 0
            &&& m.save_dir@ == t.save_dir
            &&& m.conflict == t.conflict
        }),
{
    if !is_safe_transfer_id(transfer_id.as_str()) {
        return (refuse(transfer_id, "invalid transfer task ID", "bad_transfer_id"), None);
    }
    match outcome {
        RequestOutcome::Unavailable => (
            refuse(transfer_id, "receiver unavailable", "receiver_unavailable"),
            None,
        ),
        RequestOutcome::TimedOut => (
            refuse(transfer_id, "receiver decision timed out", "decision_timeout"),
            None,
        ),
        RequestOutcome::Decided(OfferDecision::Reject { reason }) => {
            let accepted_files: Vec<u32> = Vec::new();
            assert(accepted_files@ =~= Seq::<u32>::empty());
            (
                ControlMessage::TransferResponse {
                    transfer_id,
                    accepted_files,
                    reason,
                    pin_required: false,
                    reason_code: Some(to_string("declined")),
                },
                None,
            )
        },
        RequestOutcome::Decided(OfferDecision::Accept { accepted_files, save_dir, conflict }) => {
            let valid = filter_valid(&accepted_files, &files);
            let dir = match save_dir {
                Some(d) => d,
                None => to_string(default_dir),
            };
            if valid.len() == 0 {
                return (refuse(transfer_id, "no valid files selected", "no_valid_files"), None);
            }
            if table.contains(transfer_id.as_str()) {
                return (
                    refuse(transfer_id, "a task with this ID is already active", "duplicate_task"),
                    None,
                );
            }
            let meta = ResumeMeta {
                peer_fingerprint: peer.fingerprint.clone(),
                files: duplicate_files(&files),
                accepted: valid.clone(),
                completed: Vec::new(),
                save_dir: dir.clone(),
                conflict,
            };
            let task = PendingTransfer {
                transfer_id: transfer_id.clone(),
                peer: peer.duplicate(),
                files,
                accepted: valid.clone(),
                save_dir: dir,
                conflict,
                control: ControlState::Running,
                active: false,
                registered_at: now,
            };
            let ghost before = table@;
            let ok = table.register(task);
            proof {
                assert(ok);
                assert(final(table)@.len() == before.len() + 1);
            }
            (
                ControlMessage::TransferResponse {
                    transfer_id,
                    accepted_files: valid,
                    reason: None,
                    pin_required: false,
                    reason_code: None,
                },
                Some(meta),
            )
        },
    }
}

// ---------------------------------------------------------------------------
// Resume negotiation
// ---------------------------------------------------------------------------

/// The resume states of the first `files.len()` manifest entries: accepted,
/// not yet completed, with a safe path; `lens[k]` is the length of entry
/// `k`'s `.part` file (missing lengths count as zero), reset to zero when it
/// exceeds the declared size.
pub open spec fn resume_entries(
    files: Seq<FileMetaView>,
    accepted: Seq<u32>,
    completed: Seq<u32>,
    lens: Seq<u64>,
) -> Seq<ResumeFileStateView>
    decreases files.len(),
{
    if files.len() == 0 {
        Seq::empty()
    } else {
        let k = files.len() - 1;
        let rest = resume_entries(files.drop_last(), accepted, completed, lens);
        let f = files[k];
        if accepted.contains(f.file_id) && !completed.contains(f.file_id) && sanitize_spec(
            f.rel_path,
            false,
        ) is Some {
            let got: u64 = if k < lens.len() {
                lens[k]
            } else {
                0
            };
            rest.push(
                ResumeFileStateView {
                    file_id: f.file_id,
                    rel_path: f.rel_path,
                    size: f.size,
                    received: if got > f.size {
                        0
                    } else {
                        got
                    },
                },
            )
        } else {
            rest
        }
    }
}

/// The file IDs of a list of resume states.
pub open spec fn state_ids(v: Seq<ResumeFileStateView>) -> Seq<u32> {
    v.map_values(|x: ResumeFileStateView| x.file_id)
}

/// The answer to a resume query, and the task table after it.
///
/// Invalid IDs, tasks still waiting or running, missing metadata, another
/// requester than the original sender, and tasks with nothing left all give
/// an empty list, which the sender reads as "resume unavailable". Otherwise
/// the task is registered again, so the sender's next data connection finds it.
pub open spec fn resume_spec(
    table: Seq<PendingView>,
    peer: PeerInfoView,
    tid: Seq<char>,
    meta: Option<ResumeMeta>,
    lens: Seq<u64>,
    now: u64,
) -> (Seq<ResumeFileStateView>, Seq<PendingView>) {
    if !is_safe_transfer_id_spec(tid) || tidx(table, tid) >= 0 {
        (Seq::empty(), table)
    } else {
        match meta {
            None => (Seq::empty(), table),
            Some(m) => if m.peer_fingerprint@ != peer.fingerprint {
                (Seq::empty(), table)
            } else {
                let states = resume_entries(files_view(m.files@), m.accepted@, m.completed@, lens);
                if states.len() == 0 {
                    (Seq::empty(), table)
                } else {
                    (
                        states,
                        table.push(
                            accepted_task(
                                tid,
                                peer,
                                files_view(m.files@),
                                state_ids(states),
                                m.save_dir@,
                                m.conflict,
                                now,
                            ),
                        ),
                    )
                }
            },
        }
    }
}

/// Only the original sender may resume a task: a resume query from any other
/// device is answered with nothing, and registers nothing.
pub proof fn only_the_sender_may_resume(
    table: Seq<PendingView>,
    peer: PeerInfoView,
    tid: Seq<char>,
    meta: ResumeMeta,
    lens: Seq<u64>,
    now: u64,
)
    requires
        meta.peer_fingerprint@ != peer.fingerprint,
    ensures
        resume_spec(table, peer, tid, Some(meta), lens, now) == (Seq::<ResumeFileStateView>::empty(), table),
{
}

/// A resume asks only for accepted files that were not completed yet, and
/// never claims more bytes of a file than its size.
pub proof fn resume_skips_completed_files(
    files: Seq<FileMetaView>,
    accepted: Seq<u32>,
    completed: Seq<u32>,
    lens: Seq<u64>,
)
    ensures
        forall|i: int|
            0 <= i < resume_entries(files, accepted, completed, lens).len() ==> {
                let st = #[trigger] resume_entries(files, accepted, completed, lens)[i];
                &&& accepted.contains(st.file_id)
                &&& !completed.contains(st.file_id)
                &&& st.received <= st.size
            },
    decreases files.len(),
{
    if files.len() > 0 {
        resume_skips_completed_files(files.drop_last(), accepted, completed, lens);
        let rest = resume_entries(files.drop_last(), accepted, completed, lens);
        let all = resume_entries(files, accepted, completed, lens);
        assert forall|i: int| 0 <= i < all.len() implies {
            let st = #[trigger] all[i];
            &&& accepted.contains(st.file_id)
            &&& !completed.contains(st.file_id)
            &&& st.received <= st.size
        } by {
            if i < rest.len() {
                assert(all[i] == rest[i]);
            }
        }
    }
}

/// The contents of a list of resume states.
pub open spec fn states_view(v: Seq<ResumeFileState>) -> Seq<ResumeFileStateView> {
    v.map_values(|x: ResumeFileState| x@)
}

/// Builds the resume states of a manifest, given the `.part` lengths the
/// program measured (aligned with `meta.files`, zero where no file exists).
fn build_resume_states(meta: &ResumeMeta, lens: &Vec<u64>) -> (r: (Vec<ResumeFileState>, Vec<u32>))
    ensures
        states_view(r.0@) == resume_entries(
            files_view(meta.files@),
            meta.accepted@,
            meta.completed@,
            lens@,
        ),
        r.1@ == state_ids(states_view(r.0@)),
{
    let ghost fv = files_view(meta.files@);
    let mut out: Vec<ResumeFileState> = Vec::new();
    let mut ids: Vec<u32> = Vec::new();
    let mut k: usize = 0;
    while k < meta.files.len()
        invariant
            k <= meta.files.len(),
            fv == files_view(meta.files@),
            states_view(out@) == resume_entries(
                fv.take(k as int),
                meta.accepted@,
                meta.completed@,
                lens@,
            ),
            ids@ == state_ids(states_view(out@)),
        decreases meta.files.len() - k,
    {
        let f = &meta.files[k];
        proof {
            assert(fv.take(k + 1).drop_last() =~= fv.take(k as int));
            assert(fv.take(k + 1)[k as int] == f@);
        }
        let wanted = contains_id(&meta.accepted, f.file_id) && !contains_id(
            &meta.completed,
            f.file_id,
        );
        if wanted && sanitize_rel_path(f.rel_path.as_str()).is_ok() {
            let got: u64 = if k < lens.len() {
                lens[k]
            } else {
                0
            };
            let st = ResumeFileState {
                file_id: f.file_id,
                rel_path: f.rel_path.clone(),
                size: f.size,
                received: if got > f.size {
                    0
                } else {
                    got
                },
            };
            let ghost before = out@;
            let ghost before_ids = ids@;
            out.push(st);
            ids.push(f.file_id);
            proof {
                assert(states_view(out@) =~= states_view(before).push(out@.last()@));
                assert(state_ids(states_view(out@)) =~= state_ids(states_view(before)).push(
                    f.file_id,
                ));
            }
        }
        k = k + 1;
    }
    proof {
        assert(fv.take(meta.files.len() as int) =~= fv);
    }
    (out, ids)
}

/// Answers a resume query for `transfer_id` from `peer`.
///
/// `meta` is the task's stored resume metadata, if the program could load
/// it, and `part_lens[k]` the current length of the `.part` file of
/// `meta.files[k]` (see [`entry_part_path_of`]).
pub fn resume_states(
    table: &mut PendingTable,
    peer: &PeerInfo,
    transfer_id: &str,
    meta: Option<ResumeMeta>,
    part_lens: &Vec<u64>,
    now: u64,
) -> (r: Vec<ResumeFileState>)
    requires
        old(table).wf(),
    ensures
        final(table).wf(),
        (states_view(r@), final(table)@) == resume_spec(
            old(table)@,
            peer@,
            transfer_id@,
            meta,
            part_lens@,
            now,
        ),
{
    if !is_safe_transfer_id(transfer_id) || table.contains(transfer_id) {
        let r: Vec<ResumeFileState> = Vec::new();
        assert(states_view(r@) =~= Seq::<ResumeFileStateView>::empty());
        return r;
    }
    let m = match meta {
        None => {
            let r: Vec<ResumeFileState> = Vec::new();
            assert(states_view(r@) =~= Seq::<ResumeFileStateView>::empty());
            return r;
        },
        Some(m) => m,
    };
    if !crate::text::str_eq(m.peer_fingerprint.as_str(), peer.fingerprint.as_str()) {
        let r: Vec<ResumeFileState> = Vec::new();
        assert(states_view(r@) =~= Seq::<ResumeFileStateView>::empty());
        return r;
    }
    let (states, ids) = build_resume_states(&m, part_lens);
    if states.len() == 0 {
        assert(states_view(states@) =~= Seq::<ResumeFileStateView>::empty());
        return states;
    }
    let task = PendingTransfer {
        transfer_id: to_string(transfer_id),
        peer: peer.duplicate(),
        files: m.files,
        accepted: ids,
        save_dir: m.save_dir,
        conflict: m.conflict,
        control: ControlState::Running,
        active: false,
        registered_at: now,
    };
    let ok = table.register(task);
    assert(ok);
    states
}

// ---------------------------------------------------------------------------
// Control sessions
// ---------------------------------------------------------------------------

/// What the receiver keeps across sessions: accepted tasks and PIN failures.
pub struct ReceiverState {
    /// Accepted tasks, waiting for or running their data session.
    pub pending: PendingTable,
    /// Per-source PIN failures.
    pub pins: PinGate,
}

/// What the program does after a control frame.
#[derive(Debug)]
pub enum ControlAction {
    /// Send this frame to the peer.
    Reply(ControlMessage),
    /// Ask the user about the offer, then answer with [`answer_request`].
    Offer {
        /// Transfer task ID.
        transfer_id: String,
        /// File manifest.
        files: Vec<FileMeta>,
        /// Total size in bytes.
        total_size: u64,
    },
    /// Deliver the text to the user, then reply `TextAck`.
    DeliverText {
        /// Byte-exact text content.
        text: String,
    },
    /// Load the task's resume metadata, measure its `.part` files, and reply
    /// `ResumeInfo` with what [`resume_states`] answers.
    AnswerResume {
        /// Transfer task ID.
        transfer_id: String,
    },
    /// Send the local avatar (see [`avatar_reply`]).
    SendAvatar,
    /// Report a pause or resume by the peer to the user.
    Notify(TransferEvent),
    /// The peer cancelled the task: stop its data session, without echoing
    /// the cancellation back.
    Stop {
        /// Transfer task ID.
        transfer_id: String,
    },
    /// Nothing to do for this frame.
    Nothing,
    /// The peer said goodbye: the session ends.
    End,
}

impl ReceiverState {
    /// Both tables are well formed.
    pub open spec fn wf(&self) -> bool {
        self.pending.wf() && self.pins.wf()
    }

    /// A receiver with no tasks and no PIN failures.
    pub fn new() -> (r: ReceiverState)
        ensures
            r.wf(),
            r.pending@ == Seq::<PendingView>::empty(),
            r.pins@ == Seq::<PinFailureView>::empty(),
    {
        ReceiverState { pending: PendingTable::new(), pins: PinGate::new() }
    }

    /// Handles one control frame from `peer`, whose identity the TLS
    /// certificate proved; `pin` is the configured pairing PIN.
    ///
    /// The PIN is the first gate: a request or text without the right PIN
    /// never reaches the user.
    pub fn on_control_message(
        &mut self,
        peer: &PeerInfo,
        msg: ControlMessage,
        pin: &Option<String>,
        now: u64,
    ) -> (r: ControlAction)
        requires
            old(self).wf(),
        ensures
            final(self).wf(),
            match msg {
                ControlMessage::TransferRequest { transfer_id, files, total_size, pin: p } => {
                    let (ok, t) = gate_spec(
                        old(self).pins@,
                        opt_view(*pin),
                        peer@.fingerprint,
                        opt_view(p),
                        now,
                    );
                    &&& final(self).pins@ == t
                    &&& final(self).pending@ == old(self).pending@
                    &&& ok ==> (r matches ControlAction::Offer { transfer_id: x, files: f, total_size: z }
                        && x@ == transfer_id@ && files_view(f@) == files_view(files@) && z
                        == total_size)
                    &&& !ok ==> (r matches ControlAction::Reply(m) && response_view(m) == Some(
                        (
                            transfer_id@,
                            Seq::<u32>::empty(),
                            Some("a valid pairing PIN is required"@),
                            true,
                            Some("pin_required"@),
                        ),
                    ))
                },
                ControlMessage::Text { text, pin: p } => {
                    let (ok, t) = gate_spec(
                        old(self).pins@,
                        opt_view(*pin),
                        peer@.fingerprint,
                        opt_view(p),
                        now,
                    );
                    &&& final(self).pins@ == t
                    &&& final(self).pending@ == old(self).pending@
                    &&& ok ==> (r matches ControlAction::DeliverText { text: x } && x@ == text@)
                    &&& !ok ==> (r matches ControlAction::Reply(ControlMessage::TextRejected {
                        pin_required: true,
                    }))
                },
                ControlMessage::ResumeQuery { transfer_id } => {
                    &&& final(self).pins@ == old(self).pins@
                    &&& final(self).pending@ == old(self).pending@
                    &&& r matches ControlAction::AnswerResume { transfer_id: x } && x@ == transfer_id@
                },
                ControlMessage::AvatarRequest => {
                    &&& final(self).pins@ == old(self).pins@
                    &&& final(self).pending@ == old(self).pending@
                    &&& r is SendAvatar
                },
                ControlMessage::Pause { transfer_id } => {
                    let (found, t) = set_control_spec(
                        old(self).pending@,
                        transfer_id@,
                        ControlState::Paused,
                    );
                    &&& final(self).pins@ == old(self).pins@
                    &&& final(self).pending@ == t
                    &&& found ==> (r matches ControlAction::Notify(TransferEvent::Paused {
                        transfer_id: x,
                    }) && x@ == transfer_id@)
                    &&& !found ==> r is Nothing
                },
                ControlMessage::Resume { transfer_id } => {
                    let (found, t) = set_control_spec(
                        old(self).pending@,
                        transfer_id@,
                        ControlState::Running,
                    );
                    &&& final(self).pins@ == old(self).pins@
                    &&& final(self).pending@ == t
                    &&& found ==> (r matches ControlAction::Notify(TransferEvent::Resumed {
                        transfer_id: x,
                    }) && x@ == transfer_id@)
                    &&& !found ==> r is Nothing
                },
                ControlMessage::Cancel { transfer_id } => {
                    let (found, t) = cancel_spec(old(self).pending@, transfer_id@);
                    &&& final(self).pins@ == old(self).pins@
                    &&& final(self).pending@ == t
                    &&& found ==> (r matches ControlAction::Stop { transfer_id: x } && x@
                        == transfer_id@)
                    &&& !found ==> r is Nothing
                },
                ControlMessage::Bye => {
                    &&& final(self).pins@ == old(self).pins@
                    &&& final(self).pending@ == old(self).pending@
                    &&& r is End
                },
                _ => {
                    &&& final(self).pins@ == old(self).pins@
                    &&& final(self).pending@ == old(self).pending@
                    &&& r is Nothing
                },
            },
    {
        match msg {
            ControlMessage::TransferRequest { transfer_id, files, total_size, pin: p } => {
                if self.pins.check(pin, peer.fingerprint.as_str(), &p, now) {
                    ControlAction::Offer { transfer_id, files, total_size }
                } else {
                    let accepted_files: Vec<u32> = Vec::new();
                    assert(accepted_files@ =~= Seq::<u32>::empty());
                    ControlAction::Reply(
                        ControlMessage::TransferResponse {
                            transfer_id,
                            accepted_files,
                            reason: Some(to_string("a valid pairing PIN is required")),
                            pin_required: true,
                            reason_code: Some(to_string("pin_required")),
                        },
                    )
                }
            },
            ControlMessage::Text { text, pin: p } => {
                if self.pins.check(pin, peer.fingerprint.as_str(), &p, now) {
                    ControlAction::DeliverText { text }
                } else {
                    ControlAction::Reply(ControlMessage::TextRejected { pin_required: true })
                }
            },
            ControlMessage::ResumeQuery { transfer_id } => ControlAction::AnswerResume {
                transfer_id,
            },
            ControlMessage::AvatarRequest => ControlAction::SendAvatar,
            ControlMessage::Pause { transfer_id } => {
                if self.pending.set_control(transfer_id.as_str(), ControlState::Paused) {
                    ControlAction::Notify(TransferEvent::Paused { transfer_id })
                } else {
                    ControlAction::Nothing
                }
            },
            ControlMessage::Resume { transfer_id } => {
                if self.pending.set_control(transfer_id.as_str(), ControlState::Running) {
                    ControlAction::Notify(TransferEvent::Resumed { transfer_id })
                } else {
                    ControlAction::Nothing
                }
            },
            ControlMessage::Cancel { transfer_id } => {
                if self.pending.cancel(transfer_id.as_str()).is_some() {
                    ControlAction::Stop { transfer_id }
                } else {
                    ControlAction::Nothing
                }
            },
            ControlMessage::Bye => ControlAction::End,
            _ => ControlAction::Nothing,
        }
    }

    /// Pauses a task locally; returns the frame to forward to the sender, or
    /// `None` when there is no such task.
    pub fn pause(&mut self, transfer_id: &str) -> (r: Option<ControlMessage>)
        requires
            old(self).wf(),
        ensures
            final(self).wf(),
            final(self).pins@ == old(self).pins@,
            (r is Some, final(self).pending@) == set_control_spec(
                old(self).pending@,
                transfer_id@,
                ControlState::Paused,
            ),
            r matches Some(m) ==> (m matches ControlMessage::Pause { transfer_id: x } && x@
                == transfer_id@),
    {
        if self.pending.set_control(transfer_id, ControlState::Paused) {
            Some(ControlMessage::Pause { transfer_id: to_string(transfer_id) })
        } else {
            None
        }
    }

    /// Resumes a task locally; returns the frame to forward to the sender, or
    /// `None` when there is no such task.
    pub fn resume(&mut self, transfer_id: &str) -> (r: Option<ControlMessage>)
        requires
            old(self).wf(),
        ensures
            final(self).wf(),
            final(self).pins@ == old(self).pins@,
            (r is Some, final(self).pending@) == set_control_spec(
                old(self).pending@,
                transfer_id@,
                ControlState::Running,
            ),
            r matches Some(m) ==> (m matches ControlMessage::Resume { transfer_id: x } && x@
                == transfer_id@),
    {
        if self.pending.set_control(transfer_id, ControlState::Running) {
            Some(ControlMessage::Resume { transfer_id: to_string(transfer_id) })
        } else {
            None
        }
    }

    /// Cancels a task locally; returns the frame to forward to the sender, or
    /// `None` when there is no such task. The data session then deletes its
    /// `.part` files.
    pub fn cancel(&mut self, transfer_id: &str) -> (r: Option<ControlMessage>)
        requires
            old(self).wf(),
        ensures
            final(self).wf(),
            final(self).pins@ == old(self).pins@,
            (r is Some, final(self).pending@) == cancel_spec(old(self).pending@, transfer_id@),
            r matches Some(m) ==> (m matches ControlMessage::Cancel { transfer_id: x } && x@
                == transfer_id@),
            tidx(final(self).pending@, transfer_id@) == -1,
            cancel_spec(final(self).pending@, transfer_id@) == (false, final(self).pending@),
    {
        if self.pending.cancel(transfer_id).is_some() {
            Some(ControlMessage::Cancel { transfer_id: to_string(transfer_id) })
        } else {
            None
        }
    }
}

/// The avatar response: the hash and length, followed by the bytes when
/// there are any. An unset avatar answers an empty hash and size zero.
pub fn avatar_reply(avatar: &Option<(String, Vec<u8>)>) -> (r: (ControlMessage, Option<Vec<u8>>))
    ensures
        match avatar {
            Some((h, img)) => (r.0 matches ControlMessage::AvatarResponse { hash, size } && hash@
                == h@ && size == img@.len()) && (if img@.len() == 0 {
                r.1 is None
            } else {
                r.1 matches Some(b) && b@ == img@
            }),
            None => (r.0 matches ControlMessage::AvatarResponse { hash, size } && hash@.len() == 0
                && size == 0) && r.1 is None,
        },
{
    match avatar {
        Some((h, img)) => {
            let msg = ControlMessage::AvatarResponse { hash: h.clone(), size: img.len() as u64 };
            if img.len() == 0 {
                (msg, None)
            } else {
                (msg, Some(img.clone()))
            }
        },
        None => {
            let h = String::new();
            (ControlMessage::AvatarResponse { hash: h, size: 0 }, None)
        },
    }
}

// ---------------------------------------------------------------------------
// Data sessions
// ---------------------------------------------------------------------------

/// The kind of session a connection opens with its first frame.
#[derive(Debug)]
pub enum SessionKind {
    /// A control session with this peer.
    Control(PeerInfo),
    /// A data session for this transfer task.
    Data(String),
}

/// Dispatches a connection on its first frame.
///
/// `Hello` must carry a compatible protocol version and the fingerprint of
/// the TLS client certificate; `DataHello` names its task; anything else is a
/// protocol error.
pub fn classify_first_frame(msg: ControlMessage, conn_fp: &str) -> (r: Result<
    SessionKind,
    TransferError,
>)
    ensures
        match msg {
            ControlMessage::Hello { version, info } => if major_spec(version@) != major_spec(
                crate::PROTOCOL_VERSION@,
            ) {
                r matches Err(TransferError::Protocol(ProtocolError::VersionMismatch { peer, .. }))
                    && peer@ == version@
            } else if info@.fingerprint != conn_fp@ {
                r matches Err(e) && e is PeerMismatch
            } else {
                r matches Ok(SessionKind::Control(i)) && i@ == info@
            },
            ControlMessage::DataHello { transfer_id } => r matches Ok(SessionKind::Data(t)) && t@
                == transfer_id@,
            _ => r matches Err(TransferError::Protocol(ProtocolError::Unexpected { expected, got }))
                && expected@ == "hello | data_hello"@ && got@ == kind_name(msg)@,
        },
{
    let kind = msg.kind();
    match msg {
        ControlMessage::Hello { version, info } => {
            match check_version(version.as_str()) {
                Ok(()) => {},
                Err(e) => {
                    return Err(TransferError::Protocol(e));
                },
            }
            if !crate::text::str_eq(info.fingerprint.as_str(), conn_fp) {
                return Err(TransferError::PeerMismatch);
            }
            Ok(SessionKind::Control(info))
        },
        ControlMessage::DataHello { transfer_id } => Ok(SessionKind::Data(transfer_id)),
        _ => Err(
            TransferError::Protocol(
                ProtocolError::Unexpected {
                    expected: to_string("hello | data_hello"),
                    got: to_string(kind),
                },
            ),
        ),
    }
}

/// The next step of a data stream.
#[derive(Debug)]
pub enum DataStep {
    /// A file follows, from byte `offset` on.
    File {
        /// File index.
        file_id: u32,
        /// First byte sent.
        offset: u64,
    },
    /// All files have been sent.
    Done,
}

/// Reads the frame that opens the next step of a data stream.
pub fn next_data_step(msg: &ControlMessage) -> (r: Result<DataStep, TransferError>)
    ensures
        match *msg {
            ControlMessage::FileHeader { file_id, offset } => r matches Ok(
                DataStep::File { file_id: f, offset: o },
            ) && f == file_id && o == offset,
            ControlMessage::DataDone => r matches Ok(DataStep::Done),
            _ => r matches Err(TransferError::Protocol(ProtocolError::Unexpected { expected, got }))
                && expected@ == "file_header | data_done"@ && got@ == kind_name(*msg)@,
        },
{
    match msg {
        ControlMessage::FileHeader { file_id, offset } => Ok(
            DataStep::File { file_id: *file_id, offset: *offset },
        ),
        ControlMessage::DataDone => Ok(DataStep::Done),
        _ => Err(
            TransferError::Protocol(
                ProtocolError::Unexpected {
                    expected: to_string("file_header | data_done"),
                    got: to_string(msg.kind()),
                },
            ),
        ),
    }
}

/// The manifest entry a `FileHeader` names; `BadFileId` unless the file is
/// in the manifest and was accepted.
pub fn header_entry(plan: &DataSessionPlan, file_id: u32) -> (r: Result<FileMeta, TransferError>)
    ensures
        match r {
            Ok(f) => plan.accepted@.contains(file_id) && f.file_id == file_id && exists|k: int|
                0 <= k < plan.files@.len() && plan.files@[k]@ == f@ && forall|j: int|
                    0 <= j < k ==> (#[trigger] plan.files@[j]).file_id != file_id,
            Err(e) => e == TransferError::BadFileId(file_id) && (!plan.accepted@.contains(file_id)
                || forall|j: int| 0 <= j < plan.files@.len() ==> (#[trigger] plan.files@[j]).file_id
                != file_id),
        },
{
    let mut k: usize = 0;
    while k < plan.files.len()
        invariant
            k <= plan.files.len(),
            forall|j: int| 0 <= j < k ==> (#[trigger] plan.files@[j]).file_id != file_id,
        decreases plan.files.len() - k,
    {
        if plan.files[k].file_id == file_id {
            if !contains_id(&plan.accepted, file_id) {
                return Err(TransferError::BadFileId(file_id));
            }
            return Ok(plan.files[k].duplicate());
        }
        k = k + 1;
    }
    Err(TransferError::BadFileId(file_id))
}

/// Checks a resume offset against the current `.part` length (`None` when
/// the file is missing). A new file (offset zero) is always fine; otherwise
/// the lengths must agree, or the stream would be misaligned.
pub fn check_resume_offset(offset: u64, part_len: Option<u64>) -> (r: Result<(), TransferError>)
    ensures
        r is Ok <==> (offset == 0 || part_len == Some(offset)),
        r matches Err(e) ==> e == (TransferError::ResumeOffsetMismatch {
            offset,
            part_len: match part_len {
                Some(l) => l,
                None => 0,
            },
        }),
{
    if offset == 0 {
        return Ok(());
    }
    match part_len {
        Some(l) if l == offset => Ok(()),
        Some(l) => Err(TransferError::ResumeOffsetMismatch { offset, part_len: l }),
        None => Err(TransferError::ResumeOffsetMismatch { offset, part_len: 0 }),
    }
}

/// Verifies the `FileFooter` after a file body: it must be a footer, for the
/// same file, with the whole-file hash that the receiver computed.
pub fn check_footer(meta: &FileMeta, footer: &ControlMessage, received_hash: &str) -> (r: Result<
    (),
    TransferError,
>)
    ensures
        match *footer {
            ControlMessage::FileFooter { file_id, hash } => if file_id == meta.file_id && hash@
                == received_hash@ {
                r is Ok
            } else {
                r matches Err(TransferError::HashMismatch { rel_path }) && rel_path@
                    == meta.rel_path@
            },
            _ => r matches Err(TransferError::Protocol(ProtocolError::Unexpected { expected, got }))
                && expected@ == "file_footer"@ && got@ == kind_name(*footer)@,
        },
{
    match footer {
        ControlMessage::FileFooter { file_id, hash } => {
            if *file_id != meta.file_id || !crate::text::str_eq(hash.as_str(), received_hash) {
                Err(TransferError::HashMismatch { rel_path: meta.rel_path.clone() })
            } else {
                Ok(())
            }
        },
        _ => Err(
            TransferError::Protocol(
                ProtocolError::Unexpected {
                    expected: to_string("file_footer"),
                    got: to_string(footer.kind()),
                },
            ),
        ),
    }
}

/// Whether a failed file loses its `.part` file: an explicit cancellation
/// and a hash mismatch discard it; every other failure keeps it for resume.
pub fn discards_part(err: &TransferError) -> (r: bool)
    ensures
        r == (*err is Cancelled || *err is HashMismatch),
{
    match err {
        TransferError::Cancelled | TransferError::HashMismatch { .. } => true,
        _ => false,
    }
}

/// Ends the data session of a task: the task leaves the table, and the
/// program reports the returned event. The second value says whether the
/// resume metadata goes too: after completion and cancellation it does,
/// after an unexpected interruption it stays for a later resume.
pub fn finish_session(
    table: &mut PendingTable,
    transfer_id: String,
    result: &Result<(), TransferError>,
) -> (r: (TransferEvent, bool))
    requires
        old(table).wf(),
    ensures
        final(table).wf(),
        final(table)@ == cancel_spec(old(table)@, transfer_id@).1,
        match *result {
            Ok(()) => r.0 matches TransferEvent::Completed { transfer_id: t } && t@
                == transfer_id@ && r.1,
            Err(e) => r.1 == (e is Cancelled) && (e is Cancelled ==> (r.0 matches TransferEvent::Cancelled {
                transfer_id: t,
            } && t@ == transfer_id@)) && (!(e is Cancelled) ==> (r.0 matches TransferEvent::Interrupted {
                transfer_id: t,
                reason,
                code,
                detail,
            } && t@ == transfer_id@ && reason@ == message_of(e) && code == code_of(e) && opt_view(
                detail,
            ) == detail_of(e))),
        },
{
    table.finish(transfer_id.as_str());
    match result {
        Ok(()) => (TransferEvent::Completed { transfer_id }, true),
        Err(e) => {
            let cancelled = match e {
                TransferError::Cancelled => true,
                _ => false,
            };
            (ended_event(transfer_id, e), cancelled)
        },
    }
}

// ---------------------------------------------------------------------------
// Configuration
// ---------------------------------------------------------------------------

/// Receiver service configuration.
#[derive(Debug)]
pub struct ReceiverOptions {
    /// Default download directory; each transfer may choose another one.
    pub download_dir: String,
    /// Local avatar bytes returned to avatar requests.
    pub avatar_image: Option<Vec<u8>>,
    /// Resume metadata directory, one file per accepted task.
    pub resume_dir: String,
    /// Optional pairing PIN.
    pub pin: Option<String>,
}

/// The avatar the receiver serves: the image paired with its BLAKE3 hash,
/// computed once so that hash and bytes always answer together.
pub fn avatar_data(image: Option<Vec<u8>>) -> (r: Option<(String, Vec<u8>)>)
    ensures
        match image {
            Some(img) => r matches Some((h, b)) && h@ == crate::identity::blake3_hex_spec(img@)
                && b@ == img@,
            None => r is None,
        },
{
    match image {
        Some(img) => {
            let h = crate::identity::blake3_hex(img.as_slice());
            Some((h, img))
        },
        None => None,
    }
}

/// The configured PIN that applies: an empty PIN disables protection.
pub fn effective_pin(pin: Option<String>) -> (r: Option<String>)
    ensures
        opt_view(r) == match pin {
            Some(p) => if p@.len() > 0 {
                Some(p@)
            } else {
                None
            },
            None => None,
        },
{
    match pin {
        Some(p) => if p.unicode_len() > 0 {
            Some(p)
        } else {
            None
        },
        None => None,
    }
}

} // verus!
