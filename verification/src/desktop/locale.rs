//! Bilingual desktop-shell text for tray menus and system notifications.
//!
//! The language comes from the settings once first-run detection has stored
//! it; before that, the `LC_ALL`/`LANG` environment value decides.

use vstd::prelude::*;

use crate::text::{dec_digits, push_decimal, push_str, to_string};

verus! {

/// Supported interface languages.
#[derive(Debug, Clone, Copy, PartialEq, Eq, Structural)]
pub enum Lang {
    /// Chinese.
    Zh,
    /// English.
    En,
}

/// Whether a locale value names Chinese: it starts with `zh` in any case.
pub open spec fn is_zh_locale(env: Seq<char>) -> bool {
    env.len() >= 2 && (env[0] == 'z' || env[0] == 'Z') && (env[1] == 'h' || env[1] == 'H')
}

impl Lang {
    /// Parses a settings value, falling back to the locale when it is unknown.
    ///
    /// `env_lang` is the value of `LC_ALL`, else `LANG`, else empty, as the
    /// program read it; only its case-insensitive `zh` prefix matters.
    pub fn from_settings(value: &str, env_lang: &str) -> (r: Lang)
        ensures
            value@ == "zh"@ ==> r == Lang::Zh,
            value@ == "en"@ ==> r == Lang::En,
            value@ != "zh"@ && value@ != "en"@ ==> r == (if is_zh_locale(env_lang@) {
                Lang::Zh
            } else {
                Lang::En
            }),
    {
        proof {
            reveal_strlit("zh");
            reveal_strlit("en");
            assert("zh"@[0] != "en"@[0]);
            assert("zh"@ != "en"@);
        }
        if crate::text::str_eq(value, "zh") {
            Lang::Zh
        } else if crate::text::str_eq(value, "en") {
            Lang::En
        } else {
            Self::system_fallback(env_lang)
        }
    }

    /// The language a locale value implies.
    fn system_fallback(env_lang: &str) -> (r: Lang)
        ensures
            r == (if is_zh_locale(env_lang@) {
                Lang::Zh
            } else {
                Lang::En
            }),
    {
        let n = env_lang.unicode_len();
        if n >= 2 {
            let a = env_lang.get_char(0);
            let b = env_lang.get_char(1);
            if (a == 'z' || a == 'Z') && (b == 'h' || b == 'H') {
                return Lang::Zh;
            }
        }
        Lang::En
    }
}

/// A desktop-shell string awaiting localization; parameters ride on the variant.
#[derive(Debug)]
pub enum Text<'a> {
    /// Tray menu: show the main window.
    TrayShow,
    /// Tray menu: open settings.
    TraySettings,
    /// Tray menu: quit.
    TrayQuit,
    /// Notification: transfer completed.
    TransferCompleted,
    /// Notification: transfer cancelled.
    TransferCancelled,
    /// Notification: transfer interrupted unexpectedly.
    TransferInterrupted,
    /// Notification: transfer failed before or during handshake.
    TransferFailed,
    /// Notification: peer rejected the transfer.
    TransferRejected,
    /// Notification: the send manifest was empty.
    NothingToSend,
    /// Notification: copy-and-send found nothing copied.
    CopySendNothing,
    /// Notification: copy-and-send needs the macOS accessibility permission.
    CopySendPermission,
    /// Notification: simulated copy is unsupported on this platform.
    CopySendUnsupported,
    /// Text-received notification title, marking automatic clipboard copies.
    IncomingMessage {
        /// Sender display name.
        name: &'a str,
        /// Whether the text was copied to the clipboard.
        copied: bool,
    },
    /// Notification: a peer asks to send files.
    OfferIncoming {
        /// Sender display name.
        name: &'a str,
        /// File count.
        n: usize,
        /// Human-readable total size.
        size: &'a str,
    },
    /// Notification: automatically receiving files from a trusted peer.
    AutoReceiving {
        /// Sender display name.
        name: &'a str,
        /// File count.
        n: usize,
        /// Human-readable total size.
        size: &'a str,
    },
}

/// English file count with pluralization.
pub open spec fn files_en_spec(n: nat) -> Seq<char> {
    if n == 1 {
        "1 file"@
    } else {
        dec_digits(n) + " files"@
    }
}

/// The title of a text-received notification.
pub open spec fn incoming_title(name: Seq<char>, copied: bool, lang: Lang) -> Seq<char> {
    let zh = lang == Lang::Zh;
    let title = if zh { name + " 发来文本"@ } else { "Text from "@ + name };
    if copied {
        title + if zh { " · 已复制"@ } else { " · copied"@ }
    } else {
        title
    }
}

/// The text in a language.
pub open spec fn localize_spec(t: Text, lang: Lang) -> Seq<char> {
    let zh = lang == Lang::Zh;
    match t {
        Text::TrayShow => if zh { "显示"@ } else { "Show"@ },
        Text::TraySettings => if zh { "设置"@ } else { "Settings"@ },
        Text::TrayQuit => if zh { "退出"@ } else { "Quit"@ },
        Text::TransferCompleted => if zh { "文件传输完成"@ } else { "Transfer completed"@ },
        Text::TransferCancelled => if zh { "传输已取消"@ } else { "Transfer cancelled"@ },
        Text::TransferInterrupted => if zh {
            "传输意外中断, 未完成部分已保留"@
        } else {
            "Transfer interrupted, partial data kept for resume"@
        },
        Text::TransferFailed => if zh {
            "传输失败, 详情见应用内传输记录"@
        } else {
            "Transfer failed — see the in-app transfer list for details"@
        },
        Text::TransferRejected => if zh {
            "对方拒绝了本次传输"@
        } else {
            "Peer declined the transfer"@
        },
        Text::NothingToSend => if zh {
            "没有可发送的文件(可能已被忽略规则过滤)"@
        } else {
            "Nothing to send (files may be filtered by ignore rules)"@
        },
        Text::CopySendNothing => if zh {
            "未检测到可复制的选中内容, 已取消发送"@
        } else {
            "Nothing was copied — sending cancelled"@
        },
        Text::CopySendPermission => if zh {
            "需要辅助功能权限: 请在 系统设置 → 隐私与安全性 → 辅助功能 中勾选 Deskmate"@
        } else {
            "Accessibility permission required: enable Deskmate in System Settings → Privacy & Security → Accessibility"@
        },
        Text::CopySendUnsupported => if zh {
            "当前平台不支持模拟复制, 请先手动复制再用发送剪贴板快捷键"@
        } else {
            "Simulated copy is not supported on this platform; copy manually and use the send-clipboard hotkey"@
        },
        Text::IncomingMessage { name, copied } => incoming_title(name@, copied, lang),
        Text::OfferIncoming { name, n, size } => if zh {
            name@ + " 请求发送 "@ + dec_digits(n as nat) + " 个文件("@ + size@ + ")"@
        } else {
            name@ + " wants to send "@ + files_en_spec(n as nat) + " ("@ + size@ + ")"@
        },
        Text::AutoReceiving { name, n, size } => if zh {
            "正在自动接收 "@ + name@ + " 发来的 "@ + dec_digits(n as nat) + " 个文件("@ + size@
                + ")"@
        } else {
            "Automatically receiving "@ + files_en_spec(n as nat) + " from "@ + name@ + " ("@
                + size@ + ")"@
        },
    }
}

/// The position of a fixed text (one without parameters) in the
/// declaration, counting from 0; -1 for a text with parameters.
pub open spec fn fixed_text_number(t: Text) -> int {
    match t {
        Text::TrayShow => 0,
        Text::TraySettings => 1,
        Text::TrayQuit => 2,
        Text::TransferCompleted => 3,
        Text::TransferCancelled => 4,
        Text::TransferInterrupted => 5,
        Text::TransferFailed => 6,
        Text::TransferRejected => 7,
        Text::NothingToSend => 8,
        Text::CopySendNothing => 9,
        Text::CopySendPermission => 10,
        Text::CopySendUnsupported => 11,
        _ => -1,
    }
}

/// Every fixed text says something of its own: in each language, two fixed
/// texts read the same exactly when they are the same text, so no
/// notification can be mistaken for another (a cancellation for a
/// completion, say). The two languages never share a fixed text either.
pub proof fn fixed_texts_are_distinct(a: Text, b: Text, la: Lang, lb: Lang)
    requires
        fixed_text_number(a) >= 0,
        fixed_text_number(b) >= 0,
    ensures
        la == lb ==> (localize_spec(a, la) == localize_spec(b, lb) <==> fixed_text_number(a)
            == fixed_text_number(b)),
        la != lb ==> localize_spec(a, la) != localize_spec(b, lb),
{
    reveal_strlit(" (");
    reveal_strlit(" from ");
    reveal_strlit(" wants to send ");
    reveal_strlit(" 个文件(");
    reveal_strlit(" 发来的 ");
    reveal_strlit(" 请求发送 ");
    reveal_strlit(")");
    reveal_strlit("Accessibility permission required: enable Deskmate in System Settings → Privacy & Security → Accessibility");
    reveal_strlit("Automatically receiving ");
    reveal_strlit("Nothing to send (files may be filtered by ignore rules)");
    reveal_strlit("Nothing was copied — sending cancelled");
    reveal_strlit("Peer declined the transfer");
    reveal_strlit("Quit");
    reveal_strlit("Settings");
    reveal_strlit("Show");
    reveal_strlit("Simulated copy is not supported on this platform; copy manually and use the send-clipboard hotkey");
    reveal_strlit("Transfer cancelled");
    reveal_strlit("Transfer completed");
    reveal_strlit("Transfer failed — see the in-app transfer list for details");
    reveal_strlit("Transfer interrupted, partial data kept for resume");
    reveal_strlit("传输失败, 详情见应用内传输记录");
    reveal_strlit("传输已取消");
    reveal_strlit("传输意外中断, 未完成部分已保留");
    reveal_strlit("对方拒绝了本次传输");
    reveal_strlit("当前平台不支持模拟复制, 请先手动复制再用发送剪贴板快捷键");
    reveal_strlit("文件传输完成");
    reveal_strlit("显示");
    reveal_strlit("未检测到可复制的选中内容, 已取消发送");
    reveal_strlit("正在自动接收 ");
    reveal_strlit("没有可发送的文件(可能已被忽略规则过滤)");
    reveal_strlit("设置");
    reveal_strlit("退出");
    reveal_strlit("需要辅助功能权限: 请在 系统设置 → 隐私与安全性 → 辅助功能 中勾选 Deskmate");
    let (x, y) = (localize_spec(a, la), localize_spec(b, lb));
    if x == y {
        assert(x.len() == y.len());
        assert(x[0] == y[0]);
        assert(x[1] == y[1]);
        assert(x[10] == y[10]);
    }
}

/// `s` contains the word `w`.
pub open spec fn mentions(s: Seq<char>, w: Seq<char>) -> bool {
    exists|i: int| 0 <= i <= s.len() - w.len() && #[trigger] s.subrange(i, i + w.len()) == w
}

/// Each notice of a transfer's outcome names that outcome, in either
/// language: completed, cancelled, interrupted, failed, or declined.
pub proof fn outcome_notices_name_their_outcome(lang: Lang)
    ensures
        mentions(
            localize_spec(Text::TransferCompleted, lang),
            if lang == Lang::Zh {
                "完成"@
            } else {
                "completed"@
            },
        ),
        mentions(
            localize_spec(Text::TransferCancelled, lang),
            if lang == Lang::Zh {
                "取消"@
            } else {
                "cancelled"@
            },
        ),
        mentions(
            localize_spec(Text::TransferInterrupted, lang),
            if lang == Lang::Zh {
                "中断"@
            } else {
                "interrupted"@
            },
        ),
        mentions(
            localize_spec(Text::TransferFailed, lang),
            if lang == Lang::Zh {
                "失败"@
            } else {
                "failed"@
            },
        ),
        mentions(
            localize_spec(Text::TransferRejected, lang),
            if lang == Lang::Zh {
                "拒绝"@
            } else {
                "declined"@
            },
        ),
{
    reveal_strlit("完成");
    reveal_strlit("completed");
    reveal_strlit("文件传输完成");
    reveal_strlit("Transfer completed");
    reveal_strlit("取消");
    reveal_strlit("cancelled");
    reveal_strlit("传输已取消");
    reveal_strlit("Transfer cancelled");
    reveal_strlit("中断");
    reveal_strlit("interrupted");
    reveal_strlit("传输意外中断, 未完成部分已保留");
    reveal_strlit("Transfer interrupted, partial data kept for resume");
    reveal_strlit("失败");
    reveal_strlit("failed");
    reveal_strlit("传输失败, 详情见应用内传输记录");
    reveal_strlit("Transfer failed — see the in-app transfer list for details");
    reveal_strlit("拒绝");
    reveal_strlit("declined");
    reveal_strlit("对方拒绝了本次传输");
    reveal_strlit("Peer declined the transfer");
    if lang == Lang::Zh {
        assert("文件传输完成"@.subrange(4, 4 + "完成"@.len() as int) =~= "完成"@);
    } else {
        assert("Transfer completed"@.subrange(9, 9 + "completed"@.len() as int) =~= "completed"@);
    }
    if lang == Lang::Zh {
        assert("传输已取消"@.subrange(3, 3 + "取消"@.len() as int) =~= "取消"@);
    } else {
        assert("Transfer cancelled"@.subrange(9, 9 + "cancelled"@.len() as int) =~= "cancelled"@);
    }
    if lang == Lang::Zh {
        assert("传输意外中断, 未完成部分已保留"@.subrange(4, 4 + "中断"@.len() as int) =~= "中断"@);
    } else {
        assert("Transfer interrupted, partial data kept for resume"@.subrange(9, 9 + "interrupted"@.len() as int) =~= "interrupted"@);
    }
    if lang == Lang::Zh {
        assert("传输失败, 详情见应用内传输记录"@.subrange(2, 2 + "失败"@.len() as int) =~= "失败"@);
    } else {
        assert("Transfer failed — see the in-app transfer list for details"@.subrange(9, 9 + "failed"@.len() as int) =~= "failed"@);
    }
    if lang == Lang::Zh {
        assert("对方拒绝了本次传输"@.subrange(2, 2 + "拒绝"@.len() as int) =~= "拒绝"@);
    } else {
        assert("Peer declined the transfer"@.subrange(5, 5 + "declined"@.len() as int) =~= "declined"@);
    }
}

/// English file count with pluralization.
pub fn files_en(n: usize) -> (r: String)
    ensures
        r@ == files_en_spec(n as nat),
{
    if n == 1 {
        to_string("1 file")
    } else {
        let mut s = String::new();
        push_decimal(&mut s, n as u64);
        push_str(&mut s, " files");
        s
    }
}

/// One of two literals, by language.
fn pick(lang: Lang, zh: &'static str, en: &'static str) -> (r: String)
    ensures
        r@ == if lang == Lang::Zh { zh@ } else { en@ },
{
    match lang {
        Lang::Zh => to_string(zh),
        Lang::En => to_string(en),
    }
}

impl<'a> Text<'a> {
    /// Renders the text in the given language.
    pub fn localize(self, lang: Lang) -> (r: String)
        ensures
            r@ == localize_spec(self, lang),
    {
        let zh = lang == Lang::Zh;
        match self {
            Text::TrayShow => pick(lang, "显示", "Show"),
            Text::TraySettings => pick(lang, "设置", "Settings"),
            Text::TrayQuit => pick(lang, "退出", "Quit"),
            Text::TransferCompleted => pick(lang, "文件传输完成", "Transfer completed"),
            Text::TransferCancelled => pick(lang, "传输已取消", "Transfer cancelled"),
            Text::TransferInterrupted => pick(
                lang,
                "传输意外中断, 未完成部分已保留",
                "Transfer interrupted, partial data kept for resume",
            ),
            Text::TransferFailed => pick(
                lang,
                "传输失败, 详情见应用内传输记录",
                "Transfer failed — see the in-app transfer list for details",
            ),
            Text::TransferRejected => pick(lang, "对方拒绝了本次传输", "Peer declined the transfer"),
            Text::NothingToSend => pick(
                lang,
                "没有可发送的文件(可能已被忽略规则过滤)",
                "Nothing to send (files may be filtered by ignore rules)",
            ),
            Text::CopySendNothing => pick(
                lang,
                "未检测到可复制的选中内容, 已取消发送",
                "Nothing was copied — sending cancelled",
            ),
            Text::CopySendPermission => pick(
                lang,
                "需要辅助功能权限: 请在 系统设置 → 隐私与安全性 → 辅助功能 中勾选 Deskmate",
                "Accessibility permission required: enable Deskmate in System Settings → Privacy & Security → Accessibility",
            ),
            Text::CopySendUnsupported => pick(
                lang,
                "当前平台不支持模拟复制, 请先手动复制再用发送剪贴板快捷键",
                "Simulated copy is not supported on this platform; copy manually and use the send-clipboard hotkey",
            ),
            Text::IncomingMessage { name, copied } => {
                let mut title = if zh {
                    let mut t = to_string(name);
                    push_str(&mut t, " 发来文本");
                    t
                } else {
                    let mut t = to_string("Text from ");
                    push_str(&mut t, name);
                    t
                };
                if copied {
                    push_str(&mut title, if zh {
                        " · 已复制"
                    } else {
                        " · copied"
                    });
                }
                title
            },
            Text::OfferIncoming { name, n, size } => {
                let mut s = to_string(name);
                if zh {
                    push_str(&mut s, " 请求发送 ");
                    push_decimal(&mut s, n as u64);
                    push_str(&mut s, " 个文件(");
                } else {
                    push_str(&mut s, " wants to send ");
                    let f = files_en(n);
                    push_str(&mut s, f.as_str());
                    push_str(&mut s, " (");
                }
                push_str(&mut s, size);
                push_str(&mut s, ")");
                s
            },
            Text::AutoReceiving { name, n, size } => {
                if zh {
                    let mut s = to_string("正在自动接收 ");
                    push_str(&mut s, name);
                    push_str(&mut s, " 发来的 ");
                    push_decimal(&mut s, n as u64);
                    push_str(&mut s, " 个文件(");
                    push_str(&mut s, size);
                    push_str(&mut s, ")");
                    s
                } else {
                    let mut s = to_string("Automatically receiving ");
                    let f = files_en(n);
                    push_str(&mut s, f.as_str());
                    push_str(&mut s, " from ");
                    push_str(&mut s, name);
                    push_str(&mut s, " (");
                    push_str(&mut s, size);
                    push_str(&mut s, ")");
                    s
                }
            },
        }
    }
}

} // verus!
