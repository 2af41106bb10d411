//! Clipboard file lists and the simulated copy behind the copy-and-send hotkey.
//!
//! File references on the clipboard use platform formats (macOS
//! `public.file-url`, Windows `CF_HDROP`); the program reads them, asks the
//! file system which still exist, and hands both to [`read_file_paths`]. On platforms without such a format, as
//! on Linux, [`read_raw`] finds no file list and [`write_raw`] reports
//! failure. A simulated copy presses Cmd+C or Ctrl+C and confirms the copy
//! through the clipboard sequence number ([`copy_start`], [`copy_poll`]);
//! where key presses cannot be synthesized, [`copy_selection`] answers
//! `Unsupported`.

use vstd::prelude::*;

use super::locale::Text;
use crate::text::strings_view;

verus! {

/// Reads the file paths on the clipboard where the platform has no file-list
/// format: there are none.
pub fn read_raw() -> (r: Vec<String>)
    ensures
        r@.len() == 0,
{
    Vec::new()
}

/// Writes file references to the clipboard where the platform has no
/// file-list format: unsupported.
pub fn write_raw(paths: &Vec<String>) -> (r: bool)
    ensures
        !r,
{
    false
}

/// The items of `items` whose flag is set, in order.
pub open spec fn keep_spec(items: Seq<Seq<char>>, flags: Seq<bool>) -> Seq<Seq<char>>
    decreases items.len(),
{
    if items.len() == 0 {
        Seq::empty()
    } else {
        let rest = keep_spec(items.drop_last(), flags.take(items.len() - 1));
        if flags[items.len() - 1] {
            rest.push(items.last())
        } else {
            rest
        }
    }
}

/// The file paths the clipboard held, as the platform read them (`raw`),
/// without those that no longer exist: the clipboard may keep references to
/// files deleted after they were copied. `exists[i]` is the file system's
/// answer for `raw[i]`; the paths that exist are kept, in order.
pub fn read_file_paths(raw: &Vec<String>, exists: &Vec<bool>) -> (r: Vec<String>)
    requires
        exists@.len() == raw@.len(),
    ensures
        strings_view(r@) == keep_spec(strings_view(raw@), exists@),
{
    let mut out: Vec<String> = Vec::new();
    let mut i: usize = 0;
    while i < raw.len()
        invariant
            i <= raw.len(),
            exists@.len() == raw@.len(),
            strings_view(out@) == keep_spec(strings_view(raw@).take(i as int), exists@.take(i as int)),
        decreases raw.len() - i,
    {
        proof {
            let ps = strings_view(raw@);
            let t = ps.take(i + 1);
            assert(t.drop_last() =~= ps.take(i as int));
            assert(exists@.take(i + 1).take(i as int) =~= exists@.take(i as int));
            assert(t.last() == raw@[i as int]@);
        }
        if exists[i] {
            let ghost before = out@;
            out.push(raw[i].clone());
            proof {
                assert(strings_view(out@) =~= strings_view(before).push(raw@[i as int]@));
            }
        }
        i = i + 1;
    }
    proof {
        assert(strings_view(raw@).take(raw@.len() as int) =~= strings_view(raw@));
        assert(exists@.take(raw@.len() as int) =~= exists@);
    }
    out
}

/// Writes pasteable file references to the clipboard, replacing its
/// contents; `false` when there is nothing to write or the write fails.
pub fn write_file_paths(paths: &Vec<String>) -> (r: bool)
    ensures
        !r,
{
    if paths.len() == 0 {
        return false;
    }
    write_raw(paths)
}

/// Result of a simulated copy.
#[derive(Debug, Clone, Copy, PartialEq, Eq, Structural)]
pub enum CopyOutcome {
    /// The clipboard changed and can be sent.
    Copied,
    /// The foreground application copied nothing.
    NothingCopied,
    /// The macOS accessibility permission is missing.
    PermissionNeeded,
    /// Simulated key presses are unsupported on this platform.
    Unsupported,
}

/// Whether input synthesis may run; it asks no permission where it is supported.
pub fn ensure_permission() -> (r: bool)
    ensures
        r,
{
    true
}

/// One permission check where key presses need the accessibility
/// permission (macOS): `trusted` is whether the process holds it, `prompted`
/// whether this process has already shown the system prompt. Returns
/// whether key presses may run and whether to show the prompt now; the
/// prompt is shown at most once per process, on the first check that finds
/// the permission missing.
pub fn permission_check(trusted: bool, prompted: &mut bool) -> (r: (bool, bool))
    ensures
        r.0 == trusted,
        r.1 == (!trusted && !*old(prompted)),
        *final(prompted) == (*old(prompted) || !trusted),
{
    if trusted {
        return (true, false);
    }
    let prompt = !*prompted;
    *prompted = true;
    (false, prompt)
}

/// Simulates a system copy where key presses cannot be synthesized:
/// unsupported.
pub fn copy_selection() -> (r: CopyOutcome)
    ensures
        r == CopyOutcome::Unsupported,
{
    CopyOutcome::Unsupported
}

/// How often the clipboard sequence number is polled after a simulated
/// copy, in milliseconds.
pub const COPY_POLL_INTERVAL_MS: u64 = 30;

/// How long a simulated copy is waited for, in milliseconds; slow
/// applications such as remote desktops take a while to copy.
pub const COPY_POLL_TIMEOUT_MS: u64 = 600;

/// How a simulated copy starts where key presses can be synthesized: without
/// the accessibility permission it stops as `PermissionNeeded`; a key press
/// that could not be synthesized counts as nothing copied; otherwise (`None`)
/// the copy is waited for, polling the clipboard sequence number.
pub fn copy_start(permitted: bool, keystroke_sent: bool) -> (r: Option<CopyOutcome>)
    ensures
        !permitted ==> r == Some(CopyOutcome::PermissionNeeded),
        permitted && !keystroke_sent ==> r == Some(CopyOutcome::NothingCopied),
        permitted && keystroke_sent ==> r is None,
{
    if !permitted {
        Some(CopyOutcome::PermissionNeeded)
    } else if !keystroke_sent {
        Some(CopyOutcome::NothingCopied)
    } else {
        None
    }
}

/// One poll while a simulated copy is waited for: a clipboard sequence
/// number other than the one read before the key press means the copy
/// happened; an unchanged one once the deadline has passed means nothing was
/// copied, so stale clipboard contents are never sent; otherwise (`None`)
/// the wait goes on.
pub fn copy_poll(before: i64, now: i64, deadline_passed: bool) -> (r: Option<CopyOutcome>)
    ensures
        now != before ==> r == Some(CopyOutcome::Copied),
        now == before && deadline_passed ==> r == Some(CopyOutcome::NothingCopied),
        now == before && !deadline_passed ==> r is None,
{
    if now != before {
        Some(CopyOutcome::Copied)
    } else if deadline_passed {
        Some(CopyOutcome::NothingCopied)
    } else {
        None
    }
}

/// The notification for a copy-and-send attempt; `None` when the copy
/// worked and the clipboard is sent instead. Stale clipboard contents are
/// never sent when nothing was copied.
pub fn copy_outcome_notice(outcome: CopyOutcome) -> (r: Option<Text<'static>>)
    ensures
        outcome == CopyOutcome::Copied ==> r is None,
        outcome == CopyOutcome::NothingCopied ==> r matches Some(Text::CopySendNothing),
        outcome == CopyOutcome::PermissionNeeded ==> r matches Some(Text::CopySendPermission),
        outcome == CopyOutcome::Unsupported ==> r matches Some(Text::CopySendUnsupported),
{
    match outcome {
        CopyOutcome::Copied => None,
        CopyOutcome::NothingCopied => Some(Text::CopySendNothing),
        CopyOutcome::PermissionNeeded => Some(Text::CopySendPermission),
        CopyOutcome::Unsupported => Some(Text::CopySendUnsupported),
    }
}

} // verus!
