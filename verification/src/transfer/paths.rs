//! Receiver-side path safety: turning a peer-supplied relative path into a
//! path that stays inside the destination directory, and the names derived
//! from it (`.part` files, resume metadata, conflict renames).
//!
//! Paths follow the Unix component rules of the engine's host: `/` separates
//! components (a `\` is treated as a separator too), a leading `/` is a root,
//! `..` is a parent reference, and empty and `.` components are dropped.

use vstd::prelude::*;

use crate::text::{chars_of, string_of, to_string};
use super::TransferError;

verus! {

/// Whether a path names an existing file or directory.
///
/// Trusted: `std::path::Path::exists`; the answer depends on the file system
/// and is not stated.
#[verifier::external_body]
pub(crate) fn path_exists(p: &str) -> (r: bool) {
    std::path::Path::new(p).exists()
}

// ---------------------------------------------------------------------------
// Specification
// ---------------------------------------------------------------------------

/// Backslashes count as separators.
pub open spec fn normalize_seps(s: Seq<char>) -> Seq<char> {
    s.map_values(|c: char| if c == '\\' { '/' } else { c })
}

/// The `/`-separated pieces of `s`, empty pieces included; there is always at least one.
pub open spec fn split_pieces(s: Seq<char>) -> Seq<Seq<char>>
    decreases s.len(),
{
    if s.len() == 0 {
        seq![Seq::<char>::empty()]
    } else {
        let p = split_pieces(s.drop_last());
        if s.last() == '/' {
            p.push(Seq::<char>::empty())
        } else {
            p.update(p.len() - 1, p.last().push(s.last()))
        }
    }
}

/// The piece `..`.
pub open spec fn dotdot() -> Seq<char> {
    seq!['.', '.']
}

/// A piece that contributes nothing: empty or `.`.
pub open spec fn skipped_piece(p: Seq<char>) -> bool {
    p.len() == 0 || p == seq!['.']
}

/// Some piece is `..`.
pub open spec fn has_dotdot(ps: Seq<Seq<char>>) -> bool
    decreases ps.len(),
{
    ps.len() > 0 && (has_dotdot(ps.drop_last()) || ps.last() == dotdot())
}

/// The number of pieces that are kept.
pub open spec fn kept_count(ps: Seq<Seq<char>>) -> nat
    decreases ps.len(),
{
    if ps.len() == 0 {
        0
    } else {
        kept_count(ps.drop_last()) + if skipped_piece(ps.last()) { 0nat } else { 1nat }
    }
}

/// Characters that Windows refuses in file names.
pub open spec fn win_forbidden(c: char) -> bool {
    c == '<' || c == '>' || c == ':' || c == '"' || c == '|' || c == '?' || c == '*'
        || (c as u32) < 0x20
}

/// Replaces each Windows-forbidden character with `_`.
pub open spec fn win_map(s: Seq<char>) -> Seq<char> {
    s.map_values(|c: char| if win_forbidden(c) { '_' } else { c })
}

/// `s` without its trailing dots and spaces.
pub open spec fn trim_dots_spaces(s: Seq<char>) -> Seq<char>
    decreases s.len(),
{
    if s.len() > 0 && (s.last() == '.' || s.last() == ' ') {
        trim_dots_spaces(s.drop_last())
    } else {
        s
    }
}

/// Trailing dots and spaces removed; a name made only of them becomes `_`.
pub open spec fn win_trim(s: Seq<char>) -> Seq<char> {
    let t = trim_dots_spaces(s);
    if t.len() == s.len() {
        s
    } else if t.len() == 0 {
        seq!['_']
    } else {
        t
    }
}

/// The index of the first `.` in `s`, or its length.
pub open spec fn first_dot(s: Seq<char>) -> nat
    decreases s.len(),
{
    if s.len() == 0 {
        0
    } else if s[0] == '.' {
        0
    } else {
        1 + first_dot(s.drop_first())
    }
}

/// The part of a name before its first `.`.
pub open spec fn stem_of(s: Seq<char>) -> Seq<char> {
    s.take(first_dot(s) as int)
}

/// `c` equals the ASCII upper-case letter `u`, ignoring case.
pub open spec fn ci_letter(c: char, u: char) -> bool {
    c == u || (c as u32) == (u as u32) + 32
}

/// `s` is the three letters `a`, `b`, `c`, ignoring ASCII case.
pub open spec fn ci_three(s: Seq<char>, a: char, b: char, c: char) -> bool {
    ci_letter(s[0], a) && ci_letter(s[1], b) && ci_letter(s[2], c)
}

/// A Windows reserved device name: CON, PRN, AUX, NUL, COM1-COM9, LPT1-LPT9, in any ASCII case.
pub open spec fn is_reserved_stem(s: Seq<char>) -> bool {
    (s.len() == 3 && (ci_three(s, 'C', 'O', 'N') || ci_three(s, 'P', 'R', 'N')
        || ci_three(s, 'A', 'U', 'X') || ci_three(s, 'N', 'U', 'L')))
    || (s.len() == 4 && (ci_three(s, 'C', 'O', 'M') || ci_three(s, 'L', 'P', 'T'))
        && '1' <= s[3] && s[3] <= '9')
}

/// The Windows-safe form of one name: forbidden characters replaced,
/// trailing dots and spaces removed, reserved device names prefixed with `_`.
pub open spec fn win_component(s: Seq<char>) -> Seq<char> {
    let t = win_trim(win_map(s));
    if is_reserved_stem(stem_of(t)) {
        seq!['_'] + t
    } else {
        t
    }
}

/// One sanitized component; names are kept as they are unless Windows rules apply.
pub open spec fn component_spec(s: Seq<char>, windows_rules: bool) -> Seq<char> {
    if windows_rules {
        win_component(s)
    } else {
        s
    }
}

/// The kept pieces, each sanitized, joined by `/`.
pub open spec fn assemble(ps: Seq<Seq<char>>, windows_rules: bool) -> Seq<char>
    decreases ps.len(),
{
    if ps.len() == 0 {
        Seq::empty()
    } else {
        let prev = assemble(ps.drop_last(), windows_rules);
        let p = ps.last();
        if skipped_piece(p) {
            prev
        } else if kept_count(ps.drop_last()) == 0 {
            component_spec(p, windows_rules)
        } else {
            prev + seq!['/'] + component_spec(p, windows_rules)
        }
    }
}

/// The sanitized form of a peer-supplied relative path, or `None` when it is
/// rooted, climbs with `..`, or names nothing.
pub open spec fn sanitize_spec(rel: Seq<char>, windows_rules: bool) -> Option<Seq<char>> {
    let norm = normalize_seps(rel);
    let ps = split_pieces(norm);
    if (norm.len() > 0 && norm[0] == '/') || has_dotdot(ps) || kept_count(ps) == 0 {
        None
    } else {
        Some(assemble(ps, windows_rules))
    }
}

/// A relative path that cannot leave the directory it is joined to: it is not
/// rooted, and every component is a real name (not empty, `.` or `..`).
pub open spec fn is_contained_path(p: Seq<char>) -> bool {
    &&& p.len() > 0
    &&& p[0] != '/'
    &&& forall|i: int| 0 <= i < p.len() ==> p[i] != '\\'
    &&& forall|k: int|
        0 <= k < split_pieces(p).len() ==> {
            let q = #[trigger] split_pieces(p)[k];
            q.len() > 0 && q != seq!['.'] && q != dotdot()
        }
}

/// A name that Windows stores as given: no forbidden characters, no trailing
/// dot or space, and not a reserved device name.
pub open spec fn is_windows_safe_name(s: Seq<char>) -> bool {
    &&& s.len() > 0
    &&& forall|i: int| 0 <= i < s.len() ==> !win_forbidden(#[trigger] s[i])
    &&& s.last() != '.' && s.last() != ' '
    &&& !is_reserved_stem(stem_of(s))
}

// ---------------------------------------------------------------------------
// Lemmas
// ---------------------------------------------------------------------------

proof fn lemma_assemble_empty(ps: Seq<Seq<char>>, windows_rules: bool)
    requires
        kept_count(ps) == 0,
    ensures
        assemble(ps, windows_rules) == Seq::<char>::empty(),
    decreases ps.len(),
{
    if ps.len() > 0 {
        lemma_assemble_empty(ps.drop_last(), windows_rules);
    }
}

proof fn lemma_split_nonempty(s: Seq<char>)
    ensures
        split_pieces(s).len() >= 1,
    decreases s.len(),
{
    if s.len() > 0 {
        lemma_split_nonempty(s.drop_last());
    }
}

/// Pieces never contain the separator.
proof fn lemma_pieces_have_no_sep(s: Seq<char>)
    ensures
        forall|k: int, j: int|
            0 <= k < split_pieces(s).len() && 0 <= j < split_pieces(s)[k].len()
                ==> split_pieces(s)[k][j] != '/',
    decreases s.len(),
{
    lemma_split_nonempty(s);
    if s.len() > 0 {
        lemma_pieces_have_no_sep(s.drop_last());
        lemma_split_nonempty(s.drop_last());
        let p = split_pieces(s.drop_last());
        if s.last() != '/' {
            assert forall|k: int, j: int|
                0 <= k < split_pieces(s).len() && 0 <= j < split_pieces(s)[k].len()
                    implies split_pieces(s)[k][j] != '/' by {
                if k == p.len() - 1 {
                    if j < p.last().len() {
                        assert(split_pieces(s)[k][j] == p.last()[j]);
                    }
                }
            }
        }
    }
}

/// Splitting `a/b`, where `b` holds no separator, adds `b` as one more piece.
proof fn lemma_split_join(a: Seq<char>, b: Seq<char>)
    requires
        forall|j: int| 0 <= j < b.len() ==> b[j] != '/',
    ensures
        split_pieces(a + seq!['/'] + b) == split_pieces(a).push(b),
    decreases b.len(),
{
    let x = a + seq!['/'] + b;
    if b.len() == 0 {
        assert(x.drop_last() =~= a);
        assert(x.last() == '/');
        assert(b =~= Seq::<char>::empty());
        assert(split_pieces(x) == split_pieces(x.drop_last()).push(Seq::<char>::empty()));
    } else {
        let b0 = b.drop_last();
        lemma_split_join(a, b0);
        assert(x.drop_last() =~= a + seq!['/'] + b0);
        assert(x.last() == b.last());
        assert(b.last() != '/');
        lemma_split_nonempty(a);
        let p = split_pieces(x.drop_last());
        assert(p == split_pieces(a).push(b0));
        assert(p.last() == b0);
        assert(b0.push(b.last()) =~= b);
        assert(split_pieces(x) == p.update(p.len() - 1, p.last().push(x.last())));
        assert(p.update(p.len() - 1, b) =~= split_pieces(a).push(b));
    }
}

/// A name without separators is a single piece.
proof fn lemma_split_single(b: Seq<char>)
    requires
        forall|j: int| 0 <= j < b.len() ==> b[j] != '/',
    ensures
        split_pieces(b) == seq![b],
    decreases b.len(),
{
    if b.len() > 0 {
        let b0 = b.drop_last();
        lemma_split_single(b0);
        assert(b.last() != '/');
        assert(b0.push(b.last()) =~= b);
        let p = split_pieces(b0);
        assert(p.len() == 1 && p.last() == b0);
        assert(split_pieces(b) == p.update(p.len() - 1, p.last().push(b.last())));
        assert(seq![b0].update(0, b) =~= seq![b]);
    } else {
        assert(b =~= Seq::<char>::empty());
    }
}

/// The first `.` of a text, or its length: nothing before it is a dot.
pub(crate) proof fn lemma_first_dot(s: Seq<char>)
    ensures
        first_dot(s) <= s.len(),
        forall|j: int| 0 <= j < first_dot(s) ==> s[j] != '.',
        first_dot(s) < s.len() ==> s[first_dot(s) as int] == '.',
    decreases s.len(),
{
    if s.len() > 0 && s[0] != '.' {
        lemma_first_dot(s.drop_first());
        assert forall|j: int| 0 <= j < first_dot(s) implies s[j] != '.' by {
            if j > 0 {
                assert(s[j] == s.drop_first()[j - 1]);
            }
        }
        if first_dot(s) < s.len() {
            assert(s[first_dot(s) as int] == s.drop_first()[first_dot(s) - 1]);
        }
    }
}

proof fn lemma_trim(s: Seq<char>)
    ensures
        trim_dots_spaces(s).len() <= s.len(),
        trim_dots_spaces(s) == s.take(trim_dots_spaces(s).len() as int),
        trim_dots_spaces(s).len() > 0 ==> trim_dots_spaces(s).last() != '.'
            && trim_dots_spaces(s).last() != ' ',
    decreases s.len(),
{
    if s.len() > 0 && (s.last() == '.' || s.last() == ' ') {
        lemma_trim(s.drop_last());
        let t = trim_dots_spaces(s.drop_last());
        assert(s.drop_last().take(t.len() as int) =~= s.take(t.len() as int));
    } else {
        assert(s.take(s.len() as int) =~= s);
    }
}

/// The Windows-safe form of a non-empty name is a safe name without separators
/// that is neither `.` nor `..`.
proof fn lemma_win_component_safe(s: Seq<char>)
    requires
        s.len() > 0,
    ensures
        is_windows_safe_name(win_component(s)),
        forall|j: int|
            0 <= j < win_component(s).len() ==> (win_component(s)[j] != '/' || exists|i: int|
                0 <= i < s.len() && s[i] == '/'),
        forall|j: int|
            0 <= j < win_component(s).len() ==> (win_component(s)[j] != '\\' || exists|i: int|
                0 <= i < s.len() && s[i] == '\\'),
{
    let m = win_map(s);
    let t = win_trim(m);
    lemma_trim(m);
    let tr = trim_dots_spaces(m);
    assert forall|i: int| 0 <= i < t.len() implies !win_forbidden(#[trigger] t[i]) by {
        if tr.len() == m.len() {
            assert(t[i] == m[i]);
        } else if tr.len() > 0 {
            assert(t[i] == m.take(tr.len() as int)[i]);
            assert(t[i] == m[i]);
        }
    }
    assert(t.len() > 0);
    if tr.len() == m.len() {
        assert(tr =~= m);
    }
    assert(t.last() != '.' && t.last() != ' ');
    lemma_first_dot(t);
    let w = win_component(s);
    if is_reserved_stem(stem_of(t)) {
        assert(w == seq!['_'] + t);
        lemma_first_dot(w);
        assert(w[0] == '_');
        // The stem of `_t` starts with `_`, which no reserved name does.
        assert(w.len() > 0 && w[0] != '.');
        assert(first_dot(w) >= 1);
        assert(stem_of(w)[0] == '_');
        assert(!is_reserved_stem(stem_of(w)));
        assert forall|i: int| 0 <= i < w.len() implies !win_forbidden(#[trigger] w[i]) by {
            if i > 0 {
                assert(w[i] == t[i - 1]);
            }
        }
        assert(w.last() == t.last());
    }
    assert forall|j: int|
        0 <= j < w.len() implies (w[j] != '/' || exists|i: int| 0 <= i < s.len() && s[i] == '/')
    by {
        if w[j] == '/' {
            let jj = if is_reserved_stem(stem_of(t)) { j - 1 } else { j };
            assert(t[jj] == '/');
            assert(t[jj] == m[jj]);
            assert(s[jj] == '/');
        }
    }
    assert forall|j: int|
        0 <= j < w.len() implies (w[j] != '\\' || exists|i: int| 0 <= i < s.len() && s[i] == '\\')
    by {
        if w[j] == '\\' {
            let jj = if is_reserved_stem(stem_of(t)) { j - 1 } else { j };
            assert(t[jj] == '\\');
            assert(t[jj] == m[jj]);
            assert(s[jj] == '\\');
        }
    }
}


proof fn lemma_pieces_have_no_backslash(s: Seq<char>)
    requires
        forall|i: int| 0 <= i < s.len() ==> s[i] != '\\',
    ensures
        forall|k: int, j: int|
            0 <= k < split_pieces(s).len() && 0 <= j < split_pieces(s)[k].len()
                ==> split_pieces(s)[k][j] != '\\',
    decreases s.len(),
{
    lemma_split_nonempty(s);
    if s.len() > 0 {
        lemma_pieces_have_no_backslash(s.drop_last());
        lemma_split_nonempty(s.drop_last());
        let p = split_pieces(s.drop_last());
        if s.last() != '/' {
            assert forall|k: int, j: int|
                0 <= k < split_pieces(s).len() && 0 <= j < split_pieces(s)[k].len()
                    implies split_pieces(s)[k][j] != '\\' by {
                if k == p.len() - 1 {
                    if j < p.last().len() {
                        assert(split_pieces(s)[k][j] == p.last()[j]);
                    }
                }
            }
        }
    }
}

/// A piece that is kept, with the rule set applied, is a proper component.
proof fn lemma_component_good(p: Seq<char>, windows_rules: bool)
    requires
        !skipped_piece(p),
        p != dotdot(),
        forall|j: int| 0 <= j < p.len() ==> p[j] != '/' && p[j] != '\\',
    ensures
        component_spec(p, windows_rules).len() > 0,
        component_spec(p, windows_rules) != seq!['.'],
        component_spec(p, windows_rules) != dotdot(),
        forall|j: int|
            0 <= j < component_spec(p, windows_rules).len() ==> component_spec(p, windows_rules)[j]
                != '/' && component_spec(p, windows_rules)[j] != '\\',
        windows_rules ==> is_windows_safe_name(component_spec(p, windows_rules)),
{
    if windows_rules {
        lemma_win_component_safe(p);
        let w = win_component(p);
        assert(w.last() != '.');
        assert(w != seq!['.']) by {
            if w == seq!['.'] {
                assert(w.last() == '.');
            }
        }
        assert(w != dotdot()) by {
            if w == dotdot() {
                assert(w.last() == '.');
            }
        }
    }
}

/// The assembled path of well-formed pieces is contained, and under Windows
/// rules each of its components is a Windows-safe name.
proof fn lemma_assemble_contained(ps: Seq<Seq<char>>, windows_rules: bool)
    requires
        forall|k: int, j: int|
            0 <= k < ps.len() && 0 <= j < ps[k].len() ==> ps[k][j] != '/' && ps[k][j] != '\\',
        !has_dotdot(ps),
        kept_count(ps) > 0,
    ensures
        is_contained_path(assemble(ps, windows_rules)),
        windows_rules ==> forall|k: int|
            0 <= k < split_pieces(assemble(ps, windows_rules)).len() ==> is_windows_safe_name(
                #[trigger] split_pieces(assemble(ps, windows_rules))[k],
            ),
    decreases ps.len(),
{
    let prev = ps.drop_last();
    let p = ps.last();
    assert(!has_dotdot(prev));
    if skipped_piece(p) {
        lemma_assemble_contained(prev, windows_rules);
    } else {
        assert(p != dotdot());
        lemma_component_good(p, windows_rules);
        let c = component_spec(p, windows_rules);
        if kept_count(prev) == 0 {
            assert(assemble(ps, windows_rules) == c);
            lemma_split_single(c);
            assert(split_pieces(c)[0] == c);
        } else {
            lemma_assemble_contained(prev, windows_rules);
            let a = assemble(prev, windows_rules);
            let x = a + seq!['/'] + c;
            assert(assemble(ps, windows_rules) == x);
            lemma_split_join(a, c);
            assert(x[0] == a[0]);
            assert forall|i: int| 0 <= i < x.len() implies x[i] != '\\' by {
                if i < a.len() {
                    assert(x[i] == a[i]);
                } else if i > a.len() {
                    assert(x[i] == c[i - a.len() - 1]);
                }
            }
            let sp = split_pieces(x);
            assert forall|k: int| 0 <= k < sp.len() implies ({
                let q = #[trigger] sp[k];
                q.len() > 0 && q != seq!['.'] && q != dotdot()
            }) by {
                if k < split_pieces(a).len() {
                    assert(sp[k] == split_pieces(a)[k]);
                }
            }
            if windows_rules {
                assert forall|k: int| 0 <= k < sp.len() implies is_windows_safe_name(
                    #[trigger] sp[k],
                ) by {
                    if k < split_pieces(a).len() {
                        assert(sp[k] == split_pieces(a)[k]);
                    }
                }
            }
        }
    }
}

/// Path containment: whatever a peer sends, a sanitized path is relative and
/// made only of real names, so joining it to the destination directory can
/// never reach outside that directory. Under Windows rules every component is
/// moreover a name Windows stores unchanged.
pub proof fn sanitized_path_is_contained(rel: Seq<char>, windows_rules: bool)
    ensures
        sanitize_spec(rel, windows_rules) matches Some(p) ==> {
            &&& is_contained_path(p)
            &&& windows_rules ==> forall|k: int|
                0 <= k < split_pieces(p).len() ==> is_windows_safe_name(
                    #[trigger] split_pieces(p)[k],
                )
        },
{
    let norm = normalize_seps(rel);
    let ps = split_pieces(norm);
    if sanitize_spec(rel, windows_rules) is Some {
        assert forall|i: int| 0 <= i < norm.len() implies norm[i] != '\\' by {}
        lemma_pieces_have_no_sep(norm);
        lemma_pieces_have_no_backslash(norm);
        lemma_assemble_contained(ps, windows_rules);
    }
}


proof fn lemma_kept_all(ps: Seq<Seq<char>>)
    requires
        forall|k: int| 0 <= k < ps.len() ==> !skipped_piece(#[trigger] ps[k]),
    ensures
        kept_count(ps) == ps.len(),
    decreases ps.len(),
{
    if ps.len() > 0 {
        let q = ps.drop_last();
        assert forall|k: int| 0 <= k < q.len() implies !skipped_piece(#[trigger] q[k]) by {
            assert(q[k] == ps[k]);
        }
        lemma_kept_all(q);
        assert(ps.last() == ps[ps.len() - 1]);
    }
}

proof fn lemma_has_dotdot(ps: Seq<Seq<char>>)
    requires
        has_dotdot(ps),
    ensures
        exists|k: int| 0 <= k < ps.len() && #[trigger] ps[k] == dotdot(),
    decreases ps.len(),
{
    let q = ps.drop_last();
    if has_dotdot(q) {
        lemma_has_dotdot(q);
        let k = choose|k: int| 0 <= k < q.len() && #[trigger] q[k] == dotdot();
        assert(ps[k] == q[k]);
    } else {
        assert(ps[ps.len() - 1] == ps.last());
    }
}

/// The Windows rules leave a Windows-safe name as it is.
proof fn lemma_win_component_fixed(q: Seq<char>)
    requires
        is_windows_safe_name(q),
    ensures
        win_component(q) == q,
{
    let m = win_map(q);
    assert(m =~= q);
    assert(trim_dots_spaces(q) == q);
    assert(win_trim(q) == q);
}

/// Splitting a path and assembling its pieces again gives the path back,
/// when every piece is kept and left unchanged by the component rules.
proof fn lemma_assemble_split(x: Seq<char>, windows_rules: bool)
    requires
        forall|k: int|
            0 <= k < split_pieces(x).len() ==> !skipped_piece(#[trigger] split_pieces(x)[k])
                && component_spec(split_pieces(x)[k], windows_rules) == split_pieces(x)[k],
    ensures
        assemble(split_pieces(x), windows_rules) == x,
    decreases x.len(),
{
    crate::transfer::receiver::lemma_last_index(x, '/');
    let i = crate::transfer::receiver::last_index(x, '/');
    if i < 0 {
        lemma_split_single(x);
        let ps = seq![x];
        assert(split_pieces(x)[0] == x);
        assert(ps.drop_last() =~= Seq::<Seq<char>>::empty());
        assert(ps.last() == x);
    } else {
        let a = x.take(i);
        let b = x.skip(i + 1);
        assert(x =~= a + seq!['/'] + b);
        assert forall|j: int| 0 <= j < b.len() implies b[j] != '/' by {
            assert(b[j] == x[i + 1 + j]);
        }
        lemma_split_join(a, b);
        let pa = split_pieces(a);
        let px = split_pieces(x);
        assert(px == pa.push(b));
        lemma_split_nonempty(a);
        assert forall|k: int|
            0 <= k < pa.len() implies !skipped_piece(#[trigger] pa[k]) && component_spec(
                pa[k],
                windows_rules,
            ) == pa[k] by {
            assert(px[k] == pa[k]);
        }
        lemma_assemble_split(a, windows_rules);
        lemma_kept_all(pa);
        assert(px.drop_last() =~= pa);
        assert(px.last() == px[pa.len() as int]);
        assert(px[pa.len() as int] == b);
    }
}

/// Sanitizing is idempotent: a sanitized path sanitizes to itself under the
/// same rules. The receiver derives the `.part` path from the negotiated
/// relative path, so a resume finds the same file as the first attempt.
pub proof fn sanitize_is_idempotent(rel: Seq<char>, windows_rules: bool)
    ensures
        sanitize_spec(rel, windows_rules) matches Some(p) ==> sanitize_spec(p, windows_rules)
            == Some(p),
{
    sanitized_path_is_contained(rel, windows_rules);
    if let Some(p) = sanitize_spec(rel, windows_rules) {
        assert(normalize_seps(p) =~= p);
        let ps = split_pieces(p);
        assert forall|k: int|
            0 <= k < ps.len() implies !skipped_piece(#[trigger] ps[k]) && component_spec(
                ps[k],
                windows_rules,
            ) == ps[k] by {
            if windows_rules {
                lemma_win_component_fixed(ps[k]);
            }
        }
        if has_dotdot(ps) {
            lemma_has_dotdot(ps);
        }
        lemma_split_nonempty(p);
        lemma_kept_all(ps);
        lemma_assemble_split(p, windows_rules);
    }
}

// ---------------------------------------------------------------------------
// Implementation
// ---------------------------------------------------------------------------

/// `c` equals the ASCII upper-case letter `u`, ignoring case.
fn ci_letter_exec(c: char, u: char) -> (r: bool)
    requires
        'A' <= u && u <= 'Z',
    ensures
        r == ci_letter(c, u),
{
    c == u || (c as u32) == (u as u32) + 32
}

/// The first `k` characters of `t` form a reserved device name.
fn is_reserved_prefix(t: &Vec<char>, k: usize) -> (r: bool)
    requires
        k <= t@.len(),
    ensures
        r == is_reserved_stem(t@.take(k as int)),
{
    let ghost s = t@.take(k as int);
    if k == 3 {
        let (a, b, c) = (t[0], t[1], t[2]);
        assert(s[0] == a && s[1] == b && s[2] == c);
        (ci_letter_exec(a, 'C') && ci_letter_exec(b, 'O') && ci_letter_exec(c, 'N'))
            || (ci_letter_exec(a, 'P') && ci_letter_exec(b, 'R') && ci_letter_exec(c, 'N'))
            || (ci_letter_exec(a, 'A') && ci_letter_exec(b, 'U') && ci_letter_exec(c, 'X'))
            || (ci_letter_exec(a, 'N') && ci_letter_exec(b, 'U') && ci_letter_exec(c, 'L'))
    } else if k == 4 {
        let (a, b, c, d) = (t[0], t[1], t[2], t[3]);
        assert(s[0] == a && s[1] == b && s[2] == c && s[3] == d);
        ((ci_letter_exec(a, 'C') && ci_letter_exec(b, 'O') && ci_letter_exec(c, 'M'))
            || (ci_letter_exec(a, 'L') && ci_letter_exec(b, 'P') && ci_letter_exec(c, 'T')))
            && '1' <= d && d <= '9'
    } else {
        false
    }
}

/// Whether a character is refused by Windows in file names.
fn win_forbidden_exec(c: char) -> (r: bool)
    ensures
        r == win_forbidden(c),
{
    c == '<' || c == '>' || c == ':' || c == '"' || c == '|' || c == '?' || c == '*'
        || (c as u32) < 0x20
}

/// The Windows-safe form of a name given as characters.
fn win_component_chars(name: &Vec<char>) -> (r: Vec<char>)
    ensures
        r@ == win_component(name@),
{
    // Replace forbidden characters.
    let mut m: Vec<char> = Vec::new();
    let mut i: usize = 0;
    while i < name.len()
        invariant
            i <= name.len(),
            m@ == win_map(name@.take(i as int)),
        decreases name.len() - i,
    {
        let c = name[i];
        let mapped = if win_forbidden_exec(c) { '_' } else { c };
        m.push(mapped);
        i = i + 1;
        assert(m@ =~= win_map(name@.take(i as int)));
    }
    assert(name@.take(name.len() as int) =~= name@);
    assert(m@.take(m.len() as int) =~= m@);
    // Locate the end of the name without trailing dots and spaces.
    let mut j: usize = m.len();
    while j > 0 && (m[j - 1] == '.' || m[j - 1] == ' ')
        invariant
            j <= m@.len(),
            trim_dots_spaces(m@) == trim_dots_spaces(m@.take(j as int)),
        decreases j,
    {
        assert(m@.take(j as int).drop_last() =~= m@.take(j - 1));
        j = j - 1;
    }
    assert(trim_dots_spaces(m@.take(j as int)) == m@.take(j as int));
    // Build the trimmed name.
    let t: Vec<char> = if j == m.len() {
        m
    } else if j == 0 {
        let mut u: Vec<char> = Vec::new();
        u.push('_');
        assert(u@ =~= seq!['_']);
        u
    } else {
        let mut u: Vec<char> = Vec::new();
        let mut k: usize = 0;
        while k < j
            invariant
                k <= j,
                j <= m@.len(),
                u@ == m@.take(k as int),
            decreases j - k,
        {
            u.push(m[k]);
            k = k + 1;
            assert(u@ =~= m@.take(k as int));
        }
        u
    };
    assert(t@ == win_trim(win_map(name@)));
    // Find the stem, the part before the first dot.
    let mut k: usize = 0;
    while k < t.len() && t[k] != '.'
        invariant
            k <= t@.len(),
            forall|x: int| 0 <= x < k ==> t@[x] != '.',
        decreases t.len() - k,
    {
        k = k + 1;
    }
    proof {
        lemma_first_dot(t@);
        let f = first_dot(t@);
        if f < k {
            assert(t@[f as int] == '.');
        }
        if k < f {
            assert(t@[k as int] != '.');
        }
        assert(f == k);
    }
    if is_reserved_prefix(&t, k) {
        let mut r: Vec<char> = Vec::new();
        r.push('_');
        let mut x: usize = 0;
        while x < t.len()
            invariant
                x <= t@.len(),
                r@ == seq!['_'] + t@.take(x as int),
            decreases t.len() - x,
        {
            r.push(t[x]);
            x = x + 1;
            assert(r@ =~= seq!['_'] + t@.take(x as int));
        }
        assert(t@.take(t.len() as int) =~= t@);
        r
    } else {
        t
    }
}

/// Sanitizes one path component for safe storage.
///
/// Names are kept as they are, unless `windows_rules` asks for the Windows
/// rules: the characters `< > : " | ? *` and control characters become `_`,
/// trailing dots and spaces are removed (a name made only of them becomes
/// `_`), and reserved device names such as `CON` or `lpt9`, with or without an
/// extension, get a leading `_`.
pub fn sanitize_component(name: &str, windows_rules: bool) -> (r: String)
    ensures
        r@ == component_spec(name@, windows_rules),
{
    if !windows_rules {
        return to_string(name);
    }
    let chars = chars_of(name);
    let out = win_component_chars(&chars);
    string_of(&out)
}

/// Appends `b` to `a`.
fn extend_chars(a: &mut Vec<char>, b: &Vec<char>)
    ensures
        final(a)@ == old(a)@ + b@,
{
    let mut i: usize = 0;
    while i < b.len()
        invariant
            i <= b.len(),
            a@ == old(a)@ + b@.take(i as int),
        decreases b.len() - i,
    {
        a.push(b[i]);
        i = i + 1;
        assert(a@ =~= old(a)@ + b@.take(i as int));
    }
    assert(b@.take(b.len() as int) =~= b@);
}

/// The piece is exactly `..`.
fn is_dotdot(p: &Vec<char>) -> (r: bool)
    ensures
        r == (p@ == dotdot()),
{
    let r = p.len() == 2 && p[0] == '.' && p[1] == '.';
    if r {
        assert(p@ =~= dotdot());
    }
    r
}

/// The piece contributes nothing.
fn is_skipped(p: &Vec<char>) -> (r: bool)
    ensures
        r == skipped_piece(p@),
{
    let r = p.len() == 0 || (p.len() == 1 && p[0] == '.');
    if p.len() == 1 && p[0] == '.' {
        assert(p@ =~= seq!['.']);
    }
    r
}

/// Folds one completed piece into the assembled path.
fn fold_piece(
    out: &mut Vec<char>,
    kept: &mut bool,
    bad: &mut bool,
    piece: &Vec<char>,
    windows_rules: bool,
    Ghost(done): Ghost<Seq<Seq<char>>>,
)
    requires
        old(out)@ == assemble(done, windows_rules),
        *old(kept) == (kept_count(done) > 0),
        *old(bad) == has_dotdot(done),
    ensures
        final(out)@ == assemble(done.push(piece@), windows_rules),
        *final(kept) == (kept_count(done.push(piece@)) > 0),
        *final(bad) == has_dotdot(done.push(piece@)),
{
    let ghost ps = done.push(piece@);
    assert(ps.drop_last() =~= done);
    if is_dotdot(piece) {
        *bad = true;
    }
    if !is_skipped(piece) {
        let comp: Vec<char> = if windows_rules {
            win_component_chars(piece)
        } else {
            let mut copy: Vec<char> = Vec::new();
            extend_chars(&mut copy, piece);
            assert(copy@ =~= piece@);
            copy
        };
        assert(comp@ == component_spec(piece@, windows_rules));
        let ghost prev = out@;
        if *kept {
            out.push('/');
        }
        extend_chars(out, &comp);
        *kept = true;
        proof {
            if kept_count(done) > 0 {
                assert(out@ =~= prev + seq!['/'] + comp@);
            } else {
                lemma_assemble_empty(done, windows_rules);
                assert(out@ =~= comp@);
            }
        }
    }
    assert(out@ =~= assemble(ps, windows_rules));
}

/// The platform-parameterized form of [`sanitize_rel_path`].
///
/// Backslashes are normalized to separators. Only real names are retained;
/// roots, `..` and paths that name nothing are refused with
/// [`TransferError::InvalidPath`] carrying the original text. Each component
/// is then sanitized by [`sanitize_component`]. The result is deterministic,
/// so resume `.part` paths stay aligned with the `rel_path` negotiated earlier.
pub fn sanitize_rel_path_for(rel: &str, windows_rules: bool) -> (r: Result<String, TransferError>)
    ensures
        match sanitize_spec(rel@, windows_rules) {
            Some(p) => r matches Ok(s) && s@ == p,
            None => r matches Err(TransferError::InvalidPath { path }) && path@ == rel@,
        },
{
    let raw = chars_of(rel);
    let ghost norm = normalize_seps(rel@);
    let mut out: Vec<char> = Vec::new();
    let mut cur: Vec<char> = Vec::new();
    let mut kept = false;
    let mut bad = false;
    let mut rooted = false;
    let mut i: usize = 0;
    proof {
        assert(norm.take(0) =~= Seq::<char>::empty());
        assert(split_pieces(norm.take(0)) =~= seq![Seq::<char>::empty()]);
        assert(split_pieces(norm.take(0)).drop_last() =~= Seq::<Seq<char>>::empty());
    }
    while i < raw.len()
        invariant
            raw@ == rel@,
            norm == normalize_seps(rel@),
            i <= raw@.len(),
            rooted == (i > 0 && norm[0] == '/'),
            cur@ == split_pieces(norm.take(i as int)).last(),
            out@ == assemble(split_pieces(norm.take(i as int)).drop_last(), windows_rules),
            kept == (kept_count(split_pieces(norm.take(i as int)).drop_last()) > 0),
            bad == has_dotdot(split_pieces(norm.take(i as int)).drop_last()),
        decreases raw.len() - i,
    {
        let c0 = raw[i];
        let c = if c0 == '\\' { '/' } else { c0 };
        assert(norm[i as int] == c);
        let ghost before = split_pieces(norm.take(i as int));
        proof {
            lemma_split_nonempty(norm.take(i as int));
            assert(norm.take(i + 1).drop_last() =~= norm.take(i as int));
            assert(norm.take(i + 1).last() == c);
        }
        if i == 0 && c == '/' {
            rooted = true;
        }
        if c == '/' {
            fold_piece(&mut out, &mut kept, &mut bad, &cur, windows_rules, Ghost(before.drop_last()));
            proof {
                assert(before.drop_last().push(cur@) =~= before);
                assert(split_pieces(norm.take(i + 1)) == before.push(Seq::<char>::empty()));
                assert(split_pieces(norm.take(i + 1)).drop_last() =~= before);
            }
            cur = Vec::new();
            assert(cur@ =~= Seq::<char>::empty());
        } else {
            cur.push(c);
            proof {
                let after = split_pieces(norm.take(i + 1));
                assert(after == before.update(before.len() - 1, before.last().push(c)));
                assert(after.drop_last() =~= before.drop_last());
            }
        }
        i = i + 1;
    }
    let ghost all = split_pieces(norm.take(i as int));
    proof {
        lemma_split_nonempty(norm.take(i as int));
        assert(norm.take(i as int) =~= norm);
        assert(all.drop_last().push(cur@) =~= all);
    }
    fold_piece(&mut out, &mut kept, &mut bad, &cur, windows_rules, Ghost(all.drop_last()));
    if rooted || bad || !kept {
        Err(TransferError::InvalidPath { path: to_string(rel) })
    } else {
        Ok(string_of(&out))
    }
}

/// Sanitizes a peer-provided relative path against traversal and invalid file names.
///
/// The engine's host follows Unix path rules, so names are kept as given;
/// see [`sanitize_rel_path_for`] for the rule set itself.
pub fn sanitize_rel_path(rel: &str) -> (r: Result<String, TransferError>)
    ensures
        match sanitize_spec(rel@, false) {
            Some(p) => r matches Ok(s) && s@ == p,
            None => r matches Err(TransferError::InvalidPath { path }) && path@ == rel@,
        },
{
    sanitize_rel_path_for(rel, false)
}

/// `base` joined with `name` as a path: a rooted `name` replaces `base`, an
/// empty `base` gives `name`, and otherwise one `/` separates them.
pub open spec fn join_spec(base: Seq<char>, name: Seq<char>) -> Seq<char> {
    if name.len() > 0 && name[0] == '/' {
        name
    } else if base.len() == 0 {
        name
    } else if base.last() == '/' {
        base + name
    } else {
        base + seq!['/'] + name
    }
}

/// Joins `name` onto the directory `base`, following Unix path rules.
pub fn path_join(base: &str, name: &str) -> (r: String)
    ensures
        r@ == join_spec(base@, name@),
{
    let n = name.unicode_len();
    if n > 0 && name.get_char(0) == '/' {
        return to_string(name);
    }
    let b = base.unicode_len();
    if b == 0 {
        return to_string(name);
    }
    let mut s = to_string(base);
    if base.get_char(b - 1) != '/' {
        crate::text::push_char(&mut s, '/');
    }
    crate::text::push_str(&mut s, name);
    s
}

} // verus!
