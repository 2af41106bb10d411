//! The command-line tool's rules: default directories, reading a target,
//! the offer prompt, and the lines it prints for transfer events.

use vstd::prelude::*;

use crate::discovery::addrs::{addr_text, addr_text_spec, IpAddr};
use crate::format::{human_bytes, human_bytes_spec, trim, trim_spec};
use crate::protocol::{opt_view, FileMeta, PeerInfo};
use crate::text::{dec_digits, push_decimal, push_str, starts_with, to_string};
use crate::transfer::paths::{join_spec, path_join};
use crate::transfer::receiver::OfferDecision;
use crate::transfer::{ConflictPolicy, TransferEvent};

verus! {

/// The user's home directory: `HOME`, else `USERPROFILE`, else `.`.
pub open spec fn home_spec(home: Option<Seq<char>>, profile: Option<Seq<char>>) -> Seq<char> {
    match home {
        Some(h) => h,
        None => match profile {
            Some(p) => p,
            None => "."@,
        },
    }
}

/// The user's home directory, from the `HOME` and `USERPROFILE` values the program read.
pub fn home_dir(home: Option<String>, profile: Option<String>) -> (r: String)
    ensures
        r@ == home_spec(opt_view(home), opt_view(profile)),
{
    match home {
        Some(h) => h,
        None => match profile {
            Some(p) => p,
            None => to_string("."),
        },
    }
}

/// The default identity data directory: `~/.deskmate`.
pub fn default_data_dir(home: Option<String>, profile: Option<String>) -> (r: String)
    ensures
        r@ == join_spec(home_spec(opt_view(home), opt_view(profile)), ".deskmate"@),
{
    let h = home_dir(home, profile);
    path_join(h.as_str(), ".deskmate")
}

/// The default download directory: `~/Downloads/deskmate`.
pub fn default_download_dir(home: Option<String>, profile: Option<String>) -> (r: String)
    ensures
        r@ == join_spec(
            join_spec(home_spec(opt_view(home), opt_view(profile)), "Downloads"@),
            "deskmate"@,
        ),
{
    let h = home_dir(home, profile);
    let d = path_join(h.as_str(), "Downloads");
    path_join(d.as_str(), "deskmate")
}

/// Candidate addresses as the first one with the port, plus how many more:
/// `192.168.1.2:42424 (+1)`; `-` when there is none.
pub fn addrs_label(addrs: &Vec<IpAddr>, port: u16) -> (r: String)
    ensures
        addrs@.len() == 0 ==> r@ == "-"@,
        addrs@.len() == 1 ==> r@ == addr_text_spec(addrs@[0]) + seq![':'] + dec_digits(port as nat),
        addrs@.len() > 1 ==> r@ == addr_text_spec(addrs@[0]) + seq![':'] + dec_digits(port as nat)
            + " (+"@ + dec_digits((addrs@.len() - 1) as nat) + ")"@,
{
    if addrs.len() == 0 {
        return to_string("-");
    }
    let mut s = addr_text(&addrs[0]);
    crate::text::push_char(&mut s, ':');
    push_decimal(&mut s, port as u64);
    if addrs.len() > 1 {
        push_str(&mut s, " (+");
        push_decimal(&mut s, (addrs.len() - 1) as u64);
        push_str(&mut s, ")");
    }
    s
}

/// Whether a discovered peer is the one a target names: by display name,
/// by fingerprint prefix, or by the text of one of its addresses.
pub fn target_hit(info: &PeerInfo, addrs: &Vec<IpAddr>, target: &str) -> (r: bool)
    ensures
        r == (info.name@ == target@ || (target@.len() <= info.fingerprint@.len()
            && info.fingerprint@.take(target@.len() as int) == target@) || exists|k: int|
            0 <= k < addrs@.len() && addr_text_spec(#[trigger] addrs@[k]) == target@),
{
    if crate::text::str_eq(info.name.as_str(), target) {
        return true;
    }
    if starts_with(info.fingerprint.as_str(), target) {
        return true;
    }
    let mut i: usize = 0;
    while i < addrs.len()
        invariant
            i <= addrs.len(),
            forall|k: int| 0 <= k < i ==> addr_text_spec(#[trigger] addrs@[k]) != target@,
        decreases addrs.len() - i,
    {
        let t = addr_text(&addrs[i]);
        if crate::text::str_eq(t.as_str(), target) {
            return true;
        }
        i = i + 1;
    }
    false
}

/// The names joined with `, `.
pub open spec fn joined_names(names: Seq<String>) -> Seq<char>
    decreases names.len(),
{
    if names.len() == 0 {
        Seq::empty()
    } else if names.len() == 1 {
        names[0]@
    } else {
        joined_names(names.drop_last()) + ", "@ + names.last()@
    }
}

/// The error when no peer matched within the eight-second search.
pub fn not_found_message(target: &str, names: &Vec<String>) -> (r: String)
    ensures
        r@ == "peer \""@ + target@ + "\" was not found within 8s; currently visible: "@ + (if names@.len()
            == 0 {
            "(none)"@
        } else {
            joined_names(names@)
        }),
{
    let mut s = to_string("peer \"");
    push_str(&mut s, target);
    push_str(&mut s, "\" was not found within 8s; currently visible: ");
    if names.len() == 0 {
        push_str(&mut s, "(none)");
        return s;
    }
    let ghost head = s@;
    let mut i: usize = 0;
    while i < names.len()
        invariant
            i <= names.len(),
            s@ == head + joined_names(names@.take(i as int)),
        decreases names.len() - i,
    {
        proof {
            assert(names@.take(i + 1).drop_last() =~= names@.take(i as int));
        }
        if i > 0 {
            push_str(&mut s, ", ");
        }
        push_str(&mut s, names[i].as_str());
        proof {
            if i == 0 {
                assert(joined_names(names@.take(1)) == names@[0]@);
            }
            assert(s@ =~= head + joined_names(names@.take(i + 1)));
        }
        i = i + 1;
    }
    assert(names@.take(names.len() as int) =~= names@);
    s
}

/// Whether a prompt answer accepts: `y`, `Y` or `yes`, ignoring surrounding white space.
pub fn is_yes(line: &str) -> (r: bool)
    ensures
        r == (trim_spec(line@) == "y"@ || trim_spec(line@) == "Y"@ || trim_spec(line@) == "yes"@),
{
    let t = trim(line);
    crate::text::str_eq(t.as_str(), "y") || crate::text::str_eq(t.as_str(), "Y")
        || crate::text::str_eq(t.as_str(), "yes")
}

/// The receiver's answer on the command line: accept every file into the
/// default directory, renaming on conflicts, or reject.
pub fn listen_decision(accept: bool, files: &Vec<FileMeta>) -> (r: OfferDecision)
    ensures
        accept ==> (r matches OfferDecision::Accept { accepted_files, save_dir, conflict }
            && accepted_files@ == crate::desktop::shell::ids_of(files@) && save_dir is None
            && conflict == ConflictPolicy::Rename),
        !accept ==> (r matches OfferDecision::Reject { reason } && opt_view(reason) == Some(
            "rejected by receiver"@,
        )),
{
    if accept {
        OfferDecision::Accept {
            accepted_files: crate::desktop::shell::file_ids(files),
            save_dir: None,
            conflict: ConflictPolicy::Rename,
        }
    } else {
        OfferDecision::Reject { reason: Some(to_string("rejected by receiver")) }
    }
}

/// The lines that present an incoming offer: who sends, each file with
/// its size, and the count and total.
pub fn offer_lines(peer: &PeerInfo, files: &Vec<FileMeta>, total: u64) -> (r: Vec<String>)
    ensures
        r@.len() == files@.len() + 2,
        r@[0]@ == "\n📥 Transfer request from "@ + peer.name@ + " ("@ + peer.platform@ + "):"@,
        forall|k: int|
            0 <= k < files@.len() ==> (#[trigger] r@[k + 1])@ == "   "@ + files@[k].rel_path@
                + " ("@ + human_bytes_spec(files@[k].size) + ")"@,
        r@[files@.len() + 1int]@ == "   "@ + dec_digits(files@.len() as nat) + " file(s), "@
            + human_bytes_spec(total) + " total"@,
{
    let mut out: Vec<String> = Vec::new();
    let mut head = to_string("\n📥 Transfer request from ");
    push_str(&mut head, peer.name.as_str());
    push_str(&mut head, " (");
    push_str(&mut head, peer.platform.as_str());
    push_str(&mut head, "):");
    out.push(head);
    let mut i: usize = 0;
    while i < files.len()
        invariant
            i <= files.len(),
            out@.len() == i + 1,
            out@[0]@ == "\n📥 Transfer request from "@ + peer.name@ + " ("@ + peer.platform@
                + "):"@,
            forall|k: int|
                0 <= k < i ==> (#[trigger] out@[k + 1])@ == "   "@ + files@[k].rel_path@ + " ("@
                    + human_bytes_spec(files@[k].size) + ")"@,
        decreases files.len() - i,
    {
        let mut line = to_string("   ");
        push_str(&mut line, files[i].rel_path.as_str());
        push_str(&mut line, " (");
        let hb = human_bytes(files[i].size);
        push_str(&mut line, hb.as_str());
        push_str(&mut line, ")");
        out.push(line);
        i = i + 1;
    }
    let mut last = to_string("   ");
    push_decimal(&mut last, files.len() as u64);
    push_str(&mut last, " file(s), ");
    let hb = human_bytes(total);
    push_str(&mut last, hb.as_str());
    push_str(&mut last, " total");
    out.push(last);
    out
}

/// The lines printed for a transfer event; a progress update prints none
/// (it redraws the progress bar instead).
pub fn event_lines(event: &TransferEvent) -> (r: Vec<String>)
    ensures
        match *event {
            TransferEvent::Progress { .. } => r@.len() == 0,
            TransferEvent::FileCompleted { path, .. } => r@.len() == 1 && r@[0]@ == "  ✓ "@
                + path@,
            TransferEvent::Completed { .. } => r@.len() == 1 && r@[0]@ == "✅ Transfer completed"@,
            TransferEvent::Cancelled { .. } => r@.len() == 1 && r@[0]@
                == "✖ Transfer cancelled; incomplete files were deleted"@,
            TransferEvent::Interrupted { reason, .. } => r@.len() == 1 && r@[0]@
                == "⚠ Transfer interrupted: "@ + reason@
                + " (incomplete data retained for resuming)"@,
            TransferEvent::Paused { .. } => r@.len() == 1 && r@[0]@
                == "⏸ The peer paused the transfer"@,
            TransferEvent::Resumed { .. } => r@.len() == 1 && r@[0]@
                == "▶ The peer resumed the transfer"@,
            TransferEvent::TextReceived { from, text } => r@.len() == 2 && r@[0]@
                == "📋 Text from "@ + from.name@ + " (verified byte for byte):"@ && r@[1]@ == text@,
        },
{
    let mut v: Vec<String> = Vec::new();
    match event {
        TransferEvent::Progress { .. } => {},
        TransferEvent::FileCompleted { path, .. } => {
            let mut s = to_string("  ✓ ");
            push_str(&mut s, path.as_str());
            v.push(s);
        },
        TransferEvent::Completed { .. } => {
            v.push(to_string("✅ Transfer completed"));
        },
        TransferEvent::Cancelled { .. } => {
            v.push(to_string("✖ Transfer cancelled; incomplete files were deleted"));
        },
        TransferEvent::Interrupted { reason, .. } => {
            let mut s = to_string("⚠ Transfer interrupted: ");
            push_str(&mut s, reason.as_str());
            push_str(&mut s, " (incomplete data retained for resuming)");
            v.push(s);
        },
        TransferEvent::Paused { .. } => {
            v.push(to_string("⏸ The peer paused the transfer"));
        },
        TransferEvent::Resumed { .. } => {
            v.push(to_string("▶ The peer resumed the transfer"));
        },
        TransferEvent::TextReceived { from, text } => {
            let mut s = to_string("📋 Text from ");
            push_str(&mut s, from.name.as_str());
            push_str(&mut s, " (verified byte for byte):");
            v.push(s);
            v.push(text.clone());
        },
    }
    v
}

} // verus!
