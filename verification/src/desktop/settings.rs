//! Application settings of the desktop shell.
//!
//! Only the listening port needs a restart, because the socket is bound at
//! start-up; every other setting applies at once. The program stores the
//! settings as `settings.json` in the data directory.

use vstd::prelude::*;

use super::dto::ErrDto;
use crate::format::{is_blank, is_blank_spec};
use crate::protocol::{clone_opt, opt_view};
use crate::transfer::paths::{join_spec, path_join};
use crate::transfer::ConflictPolicy;
use crate::transfer::ignore_rules::rules_compile;
use crate::text::to_string;

verus! {

/// Default ignore rules written on first launch: IDE and AI tool
/// directories, dependency and build outputs, secret files, and operating
/// system clutter. Users may edit or clear them; a cleared value stays empty.
///
/// The `.vscode` exceptions need `**/` prefixes: slash-containing patterns
/// anchor to the manifest root (whose first segment is the selected
/// directory), and pruning `.vscode/` outright would void the negations.
pub const DEFAULT_IGNORE_RULES: &'static str = ".idea/
**/.vscode/*
!**/.vscode/settings.json
!**/.vscode/tasks.json
!**/.vscode/launch.json
!**/.vscode/extensions.json

.codex/
.cursor/

node_modules/
target/
dist/
build/
.venv/
vendor/
__pycache__/
.cache/
.pytest_cache/

.env
.env.local
.env.*.local
*.pem
*.key

.DS_Store
Thumbs.db";

/// Local custom-avatar JPEG file name in the data directory.
pub const AVATAR_FILE: &'static str = "avatar.jpg";

/// Settings value of `avatar` that selects a custom image instead of an emoji.
pub const AVATAR_CUSTOM: &'static str = "custom";

/// Default send-clipboard hotkey.
pub const DEFAULT_SEND_CLIPBOARD_HOTKEY: &'static str = "CmdOrCtrl+Shift+D";

/// Default copy-and-send hotkey.
pub const DEFAULT_COPY_SEND_HOTKEY: &'static str = "CmdOrCtrl+Shift+X";

/// Application-level file-name conflict policy.
#[derive(Debug, Clone, Copy, PartialEq, Eq, Structural)]
pub enum ConflictPolicySetting {
    /// Renames automatically, for example `file.txt` to `file (1).txt`.
    Rename,
    /// Overwrites the existing file.
    Overwrite,
    /// Asks in each incoming-offer dialog.
    Ask,
}

impl Default for ConflictPolicySetting {
    fn default() -> (r: ConflictPolicySetting)
        ensures
            r == ConflictPolicySetting::Rename,
    {
        ConflictPolicySetting::Rename
    }
}

impl ConflictPolicySetting {
    /// The policy applied without a user in the loop: `Ask` falls back to
    /// the safer automatic rename.
    pub fn unattended(self) -> (r: ConflictPolicy)
        ensures
            r == (if self == ConflictPolicySetting::Overwrite {
                ConflictPolicy::Overwrite
            } else {
                ConflictPolicy::Rename
            }),
    {
        match self {
            ConflictPolicySetting::Overwrite => ConflictPolicy::Overwrite,
            _ => ConflictPolicy::Rename,
        }
    }
}

/// Received-content kinds eligible for automatic clipboard copy.
#[derive(Debug, Clone, Copy, PartialEq, Eq, Structural)]
pub enum AutoCopyKind {
    /// Text messages, written as plain text.
    Text,
    /// Inline clipboard screenshots, written as bitmap images.
    Image,
    /// Received files, written as pasteable file references.
    File,
    /// Received directories, written as pasteable file references.
    Dir,
}

/// Trusted device whose transfers are accepted without confirmation.
#[derive(Debug)]
pub struct TrustedDevice {
    /// Certificate fingerprint used as the device identity.
    pub fingerprint: String,
    /// Display name captured when trusted; later renames do not affect trust.
    pub name: String,
}

/// User settings.
#[derive(Debug)]
pub struct Settings {
    /// Custom display name; `None` follows the host name.
    pub display_name: Option<String>,
    /// Default download directory.
    pub download_dir: String,
    /// TCP listening port; zero selects a random port.
    pub tcp_port: u16,
    /// File-name conflict policy.
    pub conflict_policy: ConflictPolicySetting,
    /// Avatar: an emoji, [`AVATAR_CUSTOM`], or `None` for the initial style.
    pub avatar: Option<String>,
    /// Passive mode discovers peers without advertising this device.
    pub passive: bool,
    /// Launch at system start-up.
    pub autostart: bool,
    /// Trusted-device allowlist for automatic acceptance.
    pub trusted: Vec<TrustedDevice>,
    /// Optional pairing PIN required for incoming files and text.
    pub pin: Option<String>,
    /// Retired master switch, kept only to migrate stored settings (see
    /// [`Settings::migrate_auto_copy`]).
    pub auto_copy_text: bool,
    /// Received-content kinds copied to the clipboard; empty disables auto copy.
    pub auto_copy_kinds: Vec<AutoCopyKind>,
    /// Global send-clipboard hotkey; `None` disables it.
    pub send_clipboard_hotkey: Option<String>,
    /// Global copy-and-send hotkey.
    pub copy_send_hotkey: Option<String>,
    /// Gitignore-style transfer rules, one per line.
    pub ignore_rules: String,
    /// Interface language, "zh" or "en"; empty until first-run detection.
    pub language: String,
}

/// The default download directory under a home directory: `Downloads/Deskmate`.
pub open spec fn download_dir_spec(home: Option<Seq<char>>, profile: Option<Seq<char>>) -> Seq<
    char,
> {
    let base = match home {
        Some(h) => h,
        None => match profile {
            Some(p) => p,
            None => "."@,
        },
    };
    join_spec(join_spec(base, "Downloads"@), "Deskmate"@)
}

/// The default download directory, from the `HOME` and `USERPROFILE`
/// values that the program read (in that order of preference; `.` when
/// neither is set).
pub fn default_download_dir(home: Option<String>, profile: Option<String>) -> (r: String)
    ensures
        r@ == download_dir_spec(opt_view(home), opt_view(profile)),
{
    let base = match home {
        Some(h) => h,
        None => match profile {
            Some(p) => p,
            None => to_string("."),
        },
    };
    let d = path_join(base.as_str(), "Downloads");
    path_join(d.as_str(), "Deskmate")
}

/// The kind list after the retired master switch is folded in: kept when the
/// switch was on, cleared when it was off.
pub open spec fn migrated_kinds(switch: bool, kinds: Seq<AutoCopyKind>) -> Seq<AutoCopyKind> {
    if switch {
        kinds
    } else {
        Seq::empty()
    }
}

/// The master switch folds into the kind list exactly once: migration turns
/// the switch on, so migrating again changes nothing.
pub proof fn auto_copy_migrates_once(switch: bool, kinds: Seq<AutoCopyKind>)
    ensures
        migrated_kinds(true, migrated_kinds(switch, kinds)) == migrated_kinds(switch, kinds),
{
}

impl Settings {
    /// The settings of a fresh install, with its default download directory.
    pub fn defaults(download_dir: String) -> (r: Settings)
        ensures
            r.display_name is None,
            r.download_dir@ == download_dir@,
            r.tcp_port == crate::DEFAULT_TCP_PORT,
            r.conflict_policy == ConflictPolicySetting::Rename,
            r.avatar is None,
            !r.passive,
            !r.autostart,
            r.trusted@.len() == 0,
            r.pin is None,
            !r.auto_copy_text,
            r.auto_copy_kinds@ == seq![AutoCopyKind::Text],
            opt_view(r.send_clipboard_hotkey) == Some(DEFAULT_SEND_CLIPBOARD_HOTKEY@),
            opt_view(r.copy_send_hotkey) == Some(DEFAULT_COPY_SEND_HOTKEY@),
            r.ignore_rules@ == DEFAULT_IGNORE_RULES@,
            r.language@.len() == 0,
    {
        let kinds = vec![AutoCopyKind::Text];
        assert(kinds@ =~= seq![AutoCopyKind::Text]);
        Settings {
            display_name: None,
            download_dir,
            tcp_port: crate::DEFAULT_TCP_PORT,
            conflict_policy: ConflictPolicySetting::Rename,
            avatar: None,
            passive: false,
            autostart: false,
            trusted: Vec::new(),
            pin: None,
            auto_copy_text: false,
            auto_copy_kinds: kinds,
            send_clipboard_hotkey: Some(to_string(DEFAULT_SEND_CLIPBOARD_HOTKEY)),
            copy_send_hotkey: Some(to_string(DEFAULT_COPY_SEND_HOTKEY)),
            ignore_rules: to_string(DEFAULT_IGNORE_RULES),
            language: String::new(),
        }
    }

    /// Folds the retired auto-copy master switch into the kind list.
    ///
    /// A stored `false` (also the fresh-install default) clears the kinds, so
    /// an upgrade never turns on copying that was off; afterwards the flag
    /// stays `true` and the kind list alone controls the feature.
    pub fn migrate_auto_copy(&mut self)
        ensures
            final(self).auto_copy_text,
            final(self).auto_copy_kinds@ == migrated_kinds(
                old(self).auto_copy_text,
                old(self).auto_copy_kinds@,
            ),
            final(self).display_name == old(self).display_name,
            final(self).download_dir == old(self).download_dir,
            final(self).tcp_port == old(self).tcp_port,
            final(self).conflict_policy == old(self).conflict_policy,
            final(self).avatar == old(self).avatar,
            final(self).passive == old(self).passive,
            final(self).autostart == old(self).autostart,
            final(self).trusted == old(self).trusted,
            final(self).pin == old(self).pin,
            final(self).send_clipboard_hotkey == old(self).send_clipboard_hotkey,
            final(self).copy_send_hotkey == old(self).copy_send_hotkey,
            final(self).ignore_rules == old(self).ignore_rules,
            final(self).language == old(self).language,
    {
        if !self.auto_copy_text {
            self.auto_copy_kinds.clear();
            self.auto_copy_text = true;
        }
    }

    /// Whether the device with fingerprint `fp` is on the trusted list.
    pub fn is_trusted(&self, fp: &str) -> (r: bool)
        ensures
            r == exists|k: int|
                0 <= k < self.trusted@.len() && (#[trigger] self.trusted@[k]).fingerprint@ == fp@,
    {
        let mut i: usize = 0;
        while i < self.trusted.len()
            invariant
                i <= self.trusted.len(),
                forall|k: int| 0 <= k < i ==> (#[trigger] self.trusted@[k]).fingerprint@ != fp@,
            decreases self.trusted.len() - i,
        {
            if crate::text::str_eq(self.trusted[i].fingerprint.as_str(), fp) {
                return true;
            }
            i = i + 1;
        }
        false
    }

    /// Whether the avatar setting selects the custom image.
    pub fn wants_custom_avatar(&self) -> (r: bool)
        ensures
            r == (opt_view(self.avatar) == Some(AVATAR_CUSTOM@)),
    {
        match &self.avatar {
            Some(a) => crate::text::str_eq(a.as_str(), AVATAR_CUSTOM),
            None => false,
        }
    }
}

/// What saving new settings changes beyond storing them.
#[derive(Debug)]
pub struct SettingsUpdate {
    /// The send-clipboard hotkey changed and must be registered again.
    pub send_hotkey_changed: bool,
    /// The copy-and-send hotkey changed and must be registered again.
    pub copy_hotkey_changed: bool,
    /// The pairing PIN to apply; an empty PIN disables protection.
    pub pin: Option<String>,
    /// The language changed, so the tray menu is rebuilt.
    pub language_changed: bool,
}

/// Whether two optional strings differ.
fn opt_differs(a: &Option<String>, b: &Option<String>) -> (r: bool)
    ensures
        r == (opt_view(*a) != opt_view(*b)),
{
    !crate::protocol::opt_eq(a, b)
}

/// Checks new settings against the current ones and says what to apply.
///
/// Non-blank ignore rules must compile (the compiler's verdict decides),
/// and the two hotkeys must not be the same key. The program creates the
/// download directory before, and stores the settings after, this check.
pub fn plan_settings_update(old: &Settings, new: &Settings) -> (r: Result<SettingsUpdate, ErrDto>)
    ensures
        !is_blank_spec(new.ignore_rules@) && !rules_compile(new.ignore_rules@) ==> (r matches Err(
            e,
        ) && e.code == "ignore_rules_invalid" && e.detail is Some),
        (is_blank_spec(new.ignore_rules@) || rules_compile(new.ignore_rules@)) && (
        new.send_clipboard_hotkey is Some && opt_view(new.send_clipboard_hotkey) == opt_view(
            new.copy_send_hotkey,
        )) ==> (r matches Err(e) && e.code == "hotkey_conflict" && e.detail is None),
        (is_blank_spec(new.ignore_rules@) || rules_compile(new.ignore_rules@)) && !(
        new.send_clipboard_hotkey is Some && opt_view(new.send_clipboard_hotkey) == opt_view(
            new.copy_send_hotkey,
        )) ==> r is Ok,
        r matches Ok(u) ==> ({
            &&& u.send_hotkey_changed == (opt_view(old.send_clipboard_hotkey) != opt_view(
                new.send_clipboard_hotkey,
            ))
            &&& u.copy_hotkey_changed == (opt_view(old.copy_send_hotkey) != opt_view(
                new.copy_send_hotkey,
            ))
            &&& opt_view(u.pin) == match new.pin {
                Some(p) => if p@.len() > 0 {
                    Some(p@)
                } else {
                    None
                },
                None => None,
            }
            &&& u.language_changed == (old.language@ != new.language@)
            &&& !(new.send_clipboard_hotkey is Some && opt_view(new.send_clipboard_hotkey)
                == opt_view(new.copy_send_hotkey))
        }),
{
    if !is_blank(new.ignore_rules.as_str()) {
        match crate::transfer::ignore_rules::IgnoreRules::parse(new.ignore_rules.as_str()) {
            Ok(_) => {},
            Err(e) => {
                return Err(ErrDto::with("ignore_rules_invalid", e));
            },
        }
    }
    if new.send_clipboard_hotkey.is_some() && crate::protocol::opt_eq(
        &new.send_clipboard_hotkey,
        &new.copy_send_hotkey,
    ) {
        return Err(ErrDto::new("hotkey_conflict"));
    }
    let pin = match &new.pin {
        Some(p) => if p.unicode_len() > 0 {
            Some(p.clone())
        } else {
            None
        },
        None => None,
    };
    Ok(
        SettingsUpdate {
            send_hotkey_changed: opt_differs(&old.send_clipboard_hotkey, &new.send_clipboard_hotkey),
            copy_hotkey_changed: opt_differs(&old.copy_send_hotkey, &new.copy_send_hotkey),
            pin,
            language_changed: !crate::text::str_eq(old.language.as_str(), new.language.as_str()),
        },
    )
}

/// The display name to advertise: the configured one unless it is blank,
/// else the current (host) name.
pub fn display_name_choice(configured: &Option<String>, current: String) -> (r: String)
    ensures
        r@ == match *configured {
            Some(n) => if !is_blank_spec(n@) {
                n@
            } else {
                current@
            },
            None => current@,
        },
{
    match configured {
        Some(n) => if !is_blank(n.as_str()) {
            n.clone()
        } else {
            current
        },
        None => current,
    }
}

/// The avatar to advertise: `img:<hash>` of the custom image when there is
/// one, else the configured emoji (never the `custom` marker itself).
pub fn advertised_avatar(setting: &Option<String>, image: Option<&[u8]>) -> (r: Option<String>)
    ensures
        opt_view(r) == match image {
            Some(img) => Some("img:"@ + crate::identity::blake3_hex_spec(img@)),
            None => match *setting {
                Some(a) => if a@ != AVATAR_CUSTOM@ {
                    Some(a@)
                } else {
                    None
                },
                None => None,
            },
        },
{
    match image {
        Some(img) => {
            let mut s = to_string("img:");
            let h = crate::identity::blake3_hex(img);
            crate::text::push_str(&mut s, h.as_str());
            Some(s)
        },
        None => match setting {
            Some(a) => if !crate::text::str_eq(a.as_str(), AVATAR_CUSTOM) {
                Some(a.clone())
            } else {
                None
            },
            None => None,
        },
    }
}

} // verus!
