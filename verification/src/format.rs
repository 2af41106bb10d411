//! Human-facing formatting shared by the desktop shell and the command line:
//! byte sizes, notification previews, progress bars, and whitespace trimming.

use vstd::prelude::*;

use crate::text::{dec_digits, lines_spec, push_char, push_decimal, push_str, to_string};

verus! {

// ---------------------------------------------------------------------------
// Byte sizes
// ---------------------------------------------------------------------------

/// `1024^k`.
pub open spec fn kib_pow(k: nat) -> nat
    decreases k,
{
    if k == 0 {
        1
    } else {
        1024 * kib_pow((k - 1) as nat)
    }
}

/// `n` as the nearest double: rounded to 53 significant bits, ties to even.
pub open spec fn as_double(n: nat) -> nat {
    let k = sig_shift(n);
    let unit = pow2(k);
    let q = n / unit;
    let r = n % unit;
    let half = unit / 2;
    let up = k > 0 && (r > half || (r == half && q % 2 == 1));
    (if up { q + 1 } else { q }) * unit
}

/// `2^k`.
pub open spec fn pow2(k: nat) -> nat
    decreases k,
{
    if k == 0 {
        1
    } else {
        2 * pow2((k - 1) as nat)
    }
}

/// How many low bits of `n` (below `2^64`) a double cannot hold: shifted
/// right by this much, `n` has at most 53 significant bits.
pub open spec fn sig_shift(n: nat) -> nat {
    sig_shift_from(n, 0)
}

/// The least `j >= k` (at most 11) with `n < 2^53 * 2^j`.
pub open spec fn sig_shift_from(n: nat, k: nat) -> nat
    decreases 11 - k,
{
    if k >= 11 || n < pow2(53) * pow2(k) {
        k
    } else {
        sig_shift_from(n, k + 1)
    }
}

/// The unit a size is shown in: the largest of B, KB, MB, GB, TB that the
/// value reaches.
pub open spec fn unit_of(x: nat) -> nat {
    if x < kib_pow(1) {
        0
    } else if x < kib_pow(2) {
        1
    } else if x < kib_pow(3) {
        2
    } else if x < kib_pow(4) {
        3
    } else {
        4
    }
}

/// The name of unit `u`.
pub open spec fn unit_name(u: nat) -> Seq<char> {
    if u == 1 {
        "KB"@
    } else if u == 2 {
        "MB"@
    } else if u == 3 {
        "GB"@
    } else {
        "TB"@
    }
}

/// Tenths of `x / d`, rounded to nearest with ties to even.
pub open spec fn tenths(x: nat, d: nat) -> nat {
    let q = (x * 10) / d;
    let r = (x * 10) % d;
    if 2 * r > d || (2 * r == d && q % 2 == 1) {
        q + 1
    } else {
        q
    }
}

/// A byte count for humans: `"<n> B"` below 1 KiB, else the value in the
/// largest unit it reaches with one decimal, for example `1536` as `"1.5 KB"`.
///
/// This is what the size's double-precision value gives when formatted
/// with `{:.1}`: the count is first rounded to a double, then divided
/// exactly by a power of 1024, and printed rounded to nearest, ties to even.
pub open spec fn human_bytes_spec(n: u64) -> Seq<char> {
    let x = as_double(n as nat);
    let u = unit_of(x);
    if u == 0 {
        dec_digits(n as nat) + " B"@
    } else {
        let t = tenths(x, kib_pow(u));
        dec_digits(t / 10) + seq!['.'] + dec_digits(t % 10) + seq![' '] + unit_name(u)
    }
}

proof fn lemma_pow_values()
    ensures
        kib_pow(1) == 1024,
        kib_pow(2) == 1048576,
        kib_pow(3) == 1073741824,
        kib_pow(4) == 1099511627776,
        pow2(53) == 9007199254740992,
{
    reveal_with_fuel(kib_pow, 5);
    reveal_with_fuel(pow2, 54);
}

/// The exact double value of `n`, rounded to 53 significant bits.
fn double_value(n: u64) -> (r: u128)
    ensures
        r == as_double(n as nat),
        r <= 18446744073709551616u128,
{
    proof {
        lemma_pow_values();
    }
    let mut k: u64 = 0;
    let mut unit: u64 = 1;
    let mut big: u128 = 9007199254740992;
    while k < 11 && (n as u128) >= big
        invariant
            k <= 11,
            unit == pow2(k as nat),
            big == pow2(53) * unit,
            pow2(53) == 9007199254740992,
            unit <= 2048,
            k < 11 ==> unit <= 1024,
            sig_shift(n as nat) == sig_shift_from(n as nat, k as nat),
        decreases 11 - k,
    {
        proof {
            reveal_with_fuel(pow2, 12);
            assert(pow2((k + 1) as nat) == 2 * pow2(k as nat));
            if k + 1 < 11 {
                assert(pow2(k as nat) <= 512) by {
                    lemma_pow2_small(k as nat);
                }
            }
        }
        k = k + 1;
        unit = unit * 2;
        big = big * 2;
    }
    proof {
        assert(sig_shift_from(n as nat, k as nat) == k);
        if k == 11 {
            reveal_with_fuel(pow2, 12);
            assert(unit == 2048);
        }
        assert((n as nat) < pow2(53) * pow2(k as nat));
    }
    let m = n / unit;
    let rem = n % unit;
    let half = unit / 2;
    let up = k > 0 && (rem > half || (rem == half && m % 2 == 1));
    let q: u128 = if up {
        m as u128 + 1
    } else {
        m as u128
    };
    proof {
        assert(m < 9007199254740992) by (nonlinear_arith)
            requires
                m == n / unit,
                (n as int) < 9007199254740992 * unit,
                unit >= 1,
        ;
        if k == 0 {
            reveal_with_fuel(pow2, 1);
            assert(unit == 1);
            assert(m == n) by (nonlinear_arith)
                requires
                    unit == 1,
                    m == n / unit,
            ;
            assert(q == m);
            assert(q * unit == n) by (nonlinear_arith)
                requires
                    unit == 1,
                    q == n,
            ;
        } else {
            assert((m + 1) * unit <= 9007199254740992 * unit) by (nonlinear_arith)
                requires
                    m + 1 <= 9007199254740992,
                    unit >= 1,
            ;
            assert(q * unit <= (m + 1) * unit) by (nonlinear_arith)
                requires
                    q <= m + 1,
                    unit >= 1,
            ;
            assert(9007199254740992 * unit <= 18446744073709551616u128);
        }
    }
    q * (unit as u128)
}

proof fn lemma_pow2_small(k: nat)
    requires
        k <= 9,
    ensures
        pow2(k) <= 512,
    decreases k,
{
    reveal_with_fuel(pow2, 11);
    if k > 0 {
        lemma_pow2_small((k - 1) as nat);
    }
}

/// Formats a byte count for humans, for example `1536` as `"1.5 KB"`.
pub fn human_bytes(n: u64) -> (r: String)
    ensures
        r@ == human_bytes_spec(n),
{
    proof {
        lemma_pow_values();
    }
    let x = double_value(n);
    let d: u128 = if x < 1024 {
        1
    } else if x < 1048576 {
        1024
    } else if x < 1073741824 {
        1048576
    } else if x < 1099511627776 {
        1073741824
    } else {
        1099511627776
    };
    if x < 1024 {
        let mut s = String::new();
        push_decimal(&mut s, n);
        push_str(&mut s, " B");
        return s;
    }
    let name = if x < 1048576 {
        "KB"
    } else if x < 1073741824 {
        "MB"
    } else if x < 1099511627776 {
        "GB"
    } else {
        "TB"
    };
    proof {
        reveal_strlit("KB");
        reveal_strlit("MB");
        reveal_strlit("GB");
        reveal_strlit("TB");
        assert(name@ == unit_name(unit_of(x as nat)));
        assert(d == kib_pow(unit_of(x as nat)));
    }
    let q = (x * 10) / d;
    let rem = (x * 10) % d;
    let t: u128 = if 2 * rem > d || (2 * rem == d && q % 2 == 1) {
        q + 1
    } else {
        q
    };
    proof {
        assert(t == tenths(x as nat, d as nat));
        assert(x <= 18446744073709551616u128);
        assert(t <= 184467440737095516160u128 / 1024 + 1) by (nonlinear_arith)
            requires
                q as int == (x as int * 10) / (d as int),
                d >= 1024,
                x <= 18446744073709551616u128,
                t <= q + 1,
        ;
    }
    let whole = (t / 10) as u64;
    let frac = (t % 10) as u64;
    let mut s = String::new();
    push_decimal(&mut s, whole);
    push_char(&mut s, '.');
    push_decimal(&mut s, frac);
    push_char(&mut s, ' ');
    push_str(&mut s, name);
    s
}

// ---------------------------------------------------------------------------
// Notification previews
// ---------------------------------------------------------------------------

/// A notification preview: the first 60 characters of the first line, with
/// `…` appended when that leaves anything of the text out.
pub open spec fn preview_spec(text: Seq<char>) -> Seq<char> {
    let lines = lines_spec(text);
    let first = if lines.len() > 0 { lines[0] } else { Seq::empty() };
    let p = if first.len() <= 60 { first } else { first.take(60) };
    if p.len() < text.len() {
        p.push('…')
    } else {
        p
    }
}

proof fn lemma_first_line_prefix(s: Seq<char>)
    ensures
        crate::text::scan_lines(s).0.len() > 0 ==> crate::text::scan_lines(s).0[0].len() <= s.len(),
        crate::text::scan_lines(s).1.len() <= s.len(),
        crate::text::scan_lines(s).0.len() > 0 ==> crate::text::scan_lines(s).0[0] == s.take(
            crate::text::scan_lines(s).0[0].len() as int,
        ),
        crate::text::scan_lines(s).0.len() == 0 ==> crate::text::scan_lines(s).1 == s,
    decreases s.len(),
{
    if s.len() > 0 {
        let d = s.drop_last();
        lemma_first_line_prefix(d);
        let (done, cur) = crate::text::scan_lines(d);
        if done.len() > 0 {
            assert(s.take(done[0].len() as int) =~= d.take(done[0].len() as int));
        } else if s.last() == '\n' {
            let first = crate::text::strip_cr(cur);
            assert(cur == d);
            assert(first == d || first == d.drop_last());
            if first == d {
                assert(s.take(d.len() as int) =~= d);
            } else {
                assert(s.take(d.len() - 1) =~= d.drop_last());
            }
        } else {
            assert(cur.push(s.last()) =~= s);
        }
    }
}

/// The first line of `text`: the characters before the first line break,
/// without a `\r` right before it.
fn first_line(text: &str) -> (r: Vec<char>)
    ensures
        r@ == (if lines_spec(text@).len() > 0 {
            lines_spec(text@)[0]
        } else {
            Seq::<char>::empty()
        }),
{
    let lines = crate::text::lines_of(text);
    if lines.len() > 0 {
        crate::text::chars_of(lines[0].as_str())
    } else {
        Vec::new()
    }
}

/// Builds a notification preview from the first 60 characters of the first line.
pub fn preview_of(text: &str) -> (r: String)
    ensures
        r@ == preview_spec(text@),
{
    let first = first_line(text);
    let k = if first.len() <= 60 {
        first.len()
    } else {
        60
    };
    let mut p = String::new();
    let mut i: usize = 0;
    while i < k
        invariant
            k <= first.len(),
            i <= k,
            p@ == first@.take(i as int),
        decreases k - i,
    {
        push_char(&mut p, first[i]);
        i = i + 1;
        assert(p@ =~= first@.take(i as int));
    }
    proof {
        if first.len() <= 60 {
            assert(first@.take(k as int) =~= first@);
        }
    }
    if k < text.unicode_len() {
        push_char(&mut p, '…');
    }
    p
}

// ---------------------------------------------------------------------------
// Whitespace
// ---------------------------------------------------------------------------

/// Unicode `White_Space`, as `char::is_whitespace` tests it.
pub open spec fn is_space(c: char) -> bool {
    ||| ('\u{9}' <= c && c <= '\u{d}')
    ||| c == ' '
    ||| c == '\u{85}'
    ||| c == '\u{a0}'
    ||| c == '\u{1680}'
    ||| ('\u{2000}' <= c && c <= '\u{200a}')
    ||| c == '\u{2028}'
    ||| c == '\u{2029}'
    ||| c == '\u{202f}'
    ||| c == '\u{205f}'
    ||| c == '\u{3000}'
}

/// Whether `c` is Unicode white space.
pub fn space_char(c: char) -> (r: bool)
    ensures
        r == is_space(c),
{
    ('\u{9}' <= c && c <= '\u{d}') || c == ' ' || c == '\u{85}' || c == '\u{a0}' || c
        == '\u{1680}' || ('\u{2000}' <= c && c <= '\u{200a}') || c == '\u{2028}' || c
        == '\u{2029}' || c == '\u{202f}' || c == '\u{205f}' || c == '\u{3000}'
}

/// Whether `s` is empty after trimming white space: it holds only white space.
pub open spec fn is_blank_spec(s: Seq<char>) -> bool {
    forall|i: int| 0 <= i < s.len() ==> is_space(#[trigger] s[i])
}

/// Whether `s.trim()` is empty.
pub fn is_blank(s: &str) -> (r: bool)
    ensures
        r == is_blank_spec(s@),
{
    let n = s.unicode_len();
    let mut i: usize = 0;
    while i < n
        invariant
            n == s@.len(),
            i <= n,
            forall|j: int| 0 <= j < i ==> is_space(#[trigger] s@[j]),
        decreases n - i,
    {
        if !space_char(s.get_char(i)) {
            return false;
        }
        i = i + 1;
    }
    true
}

/// The index of the first non-space character, or `s.len()`.
pub open spec fn trim_start_at(s: Seq<char>) -> int
    decreases s.len(),
{
    if s.len() == 0 {
        0
    } else if is_space(s[0]) {
        1 + trim_start_at(s.skip(1))
    } else {
        0
    }
}

/// `s` without leading and trailing white space.
pub open spec fn trim_spec(s: Seq<char>) -> Seq<char>
    decreases s.len(),
{
    if s.len() == 0 {
        s
    } else if is_space(s[0]) {
        trim_spec(s.skip(1))
    } else if is_space(s.last()) {
        trim_spec(s.drop_last())
    } else {
        s
    }
}

/// `s` without leading and trailing white space, as `str::trim` returns it.
pub fn trim(s: &str) -> (r: String)
    ensures
        r@ == trim_spec(s@),
{
    let n = s.unicode_len();
    let mut a: usize = 0;
    let mut b: usize = n;
    assert(s@.subrange(0, n as int) =~= s@);
    while a < b && (space_char(s.get_char(a)) || space_char(s.get_char(b - 1)))
        invariant
            n == s@.len(),
            a <= b <= n,
            trim_spec(s@) == trim_spec(s@.subrange(a as int, b as int)),
        decreases b - a,
    {
        let ghost sub = s@.subrange(a as int, b as int);
        if space_char(s.get_char(a)) {
            proof {
                assert(sub[0] == s@[a as int]);
                assert(sub.skip(1) =~= s@.subrange(a + 1, b as int));
            }
            a = a + 1;
        } else {
            proof {
                assert(sub[0] == s@[a as int]);
                assert(sub.last() == s@[b - 1]);
                assert(sub.drop_last() =~= s@.subrange(a as int, b - 1));
            }
            b = b - 1;
        }
    }
    proof {
        let sub = s@.subrange(a as int, b as int);
        if a < b {
            assert(sub[0] == s@[a as int]);
            assert(sub.last() == s@[b - 1]);
        }
        assert(trim_spec(sub) == sub);
    }
    let mut out = String::new();
    let mut i: usize = a;
    while i < b
        invariant
            n == s@.len(),
            a <= i <= b <= n,
            out@ == s@.subrange(a as int, i as int),
        decreases b - i,
    {
        push_char(&mut out, s.get_char(i));
        i = i + 1;
        assert(out@ =~= s@.subrange(a as int, i as int));
    }
    out
}

// ---------------------------------------------------------------------------
// Progress
// ---------------------------------------------------------------------------

/// Minimum interval between two forwarded progress updates of one task.
pub const PROGRESS_EMIT_INTERVAL_MS: u64 = 100;

/// Whether a progress update is forwarded: the first of its task, one at
/// least 100 ms after the last forwarded one, or the one that finishes a file
/// (so the display always reaches 100 percent).
pub fn progress_due(last: Option<u64>, now: u64, done: u64, size: u64) -> (r: bool)
    ensures
        r == (match last {
            None => true,
            Some(t) => crate::discovery::registry::elapsed(t, now) >= PROGRESS_EMIT_INTERVAL_MS,
        } || done >= size),
{
    let due = match last {
        None => true,
        Some(t) => (if now >= t {
            now - t
        } else {
            0
        }) >= PROGRESS_EMIT_INTERVAL_MS,
    };
    due || done >= size
}

/// `min(x * k, u64::MAX)`.
pub open spec fn sat_mul(x: u64, k: u64) -> int {
    if x * k > u64::MAX {
        u64::MAX as int
    } else {
        x * k
    }
}

/// A progress bar: the percentage, and 20 cells of `=` for the done part
/// followed by spaces. An empty file counts as size one.
pub open spec fn bar_spec(done: u64, size: u64) -> (int, Seq<char>) {
    let d = if size == 0 { 1 } else { size as int };
    let pct = sat_mul(done, 100) / d;
    let filled = sat_mul(done, 20) / d;
    let eq = if filled < 20 { filled } else { 20 };
    let sp = if filled < 20 { 20 - filled } else { 0 };
    (pct, Seq::new(eq as nat, |i: int| '=') + Seq::new(sp as nat, |i: int| ' '))
}

/// Renders the percentage and the 20-cell bar of a progress line.
pub fn render_bar(done: u64, size: u64) -> (r: (u64, String))
    ensures
        (r.0 as int, r.1@) == bar_spec(done, size),
{
    let d: u64 = if size == 0 {
        1
    } else {
        size
    };
    let p100: u64 = match done.checked_mul(100) {
        Some(v) => v,
        None => 18446744073709551615u64,
    };
    let p20: u64 = match done.checked_mul(20) {
        Some(v) => v,
        None => 18446744073709551615u64,
    };
    let pct = p100 / d;
    let filled = p20 / d;
    let eq: u64 = if filled < 20 {
        filled
    } else {
        20
    };
    let mut bar = String::new();
    let mut i: u64 = 0;
    while i < 20
        invariant
            eq <= 20,
            i <= 20,
            bar@ == (if i <= eq {
                Seq::new(i as nat, |j: int| '=')
            } else {
                Seq::new(eq as nat, |j: int| '=') + Seq::new((i - eq) as nat, |j: int| ' ')
            }),
        decreases 20 - i,
    {
        if i < eq {
            push_char(&mut bar, '=');
            assert(bar@ =~= Seq::new((i + 1) as nat, |j: int| '='));
        } else {
            push_char(&mut bar, ' ');
            assert(bar@ =~= Seq::new(eq as nat, |j: int| '=') + Seq::new((i + 1 - eq) as nat, |j: int| ' '));
        }
        i = i + 1;
    }
    proof {
        if eq == 20 {
            assert(bar@ =~= Seq::new(20 as nat, |j: int| '=') + Seq::new(0 as nat, |j: int| ' '));
        }
    }
    (pct, bar)
}

} // verus!
