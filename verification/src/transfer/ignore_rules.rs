//! Transfer ignore rules in gitignore syntax, and the rules of collecting
//! the files to send.
//!
//! Matching uses manifest-relative paths with each selected item's parent as
//! the root, as a `.gitignore` at a repository root would: `*.log` matches
//! at any depth, `dir/` prunes a subtree, `!keep.log` re-includes a path, and
//! `#` starts a comment. Negations inside a pruned directory have no effect,
//! as in Git. The glob matching itself is the `ignore` crate's.

use vstd::prelude::*;

use ignore::gitignore::{Gitignore, GitignoreBuilder};

use super::TransferError;
use crate::format::is_space;
use crate::text::{lines_of, lines_spec, push_char, push_str, strings_view, to_string};

verus! {

#[verifier::external_type_specification]
#[verifier::external_body]
pub struct ExGitignore(Gitignore);

#[verifier::external_type_specification]
#[verifier::external_body]
pub struct ExGitignoreBuilder(GitignoreBuilder);

#[verifier::external_type_specification]
#[verifier::external_body]
pub struct ExIgnoreError(ignore::Error);

/// The rules a builder holds, in order, each as the text it was stored as
/// (see [`rule_text`]); comment and blank lines add none.
pub uninterp spec fn builder_rules(b: GitignoreBuilder) -> Seq<Seq<char>>;

/// The root path a builder matches relative to.
pub uninterp spec fn builder_root(b: GitignoreBuilder) -> Seq<char>;

/// The rules a compiled matcher was built from, in order.
pub uninterp spec fn matcher_rules(g: Gitignore) -> Seq<Seq<char>>;

/// The root path a compiled matcher matches relative to.
pub uninterp spec fn matcher_root(g: Gitignore) -> Seq<char>;

/// Whether the `ignore` crate accepts `line` as a gitignore line.
pub uninterp spec fn gitignore_line_accepted(line: Seq<char>) -> bool;

/// Whether the `ignore` crate compiles the held rules into a matcher.
pub uninterp spec fn gitignore_builds(rules: Seq<Seq<char>>) -> bool;

/// Whether gitignore rules, in order, matched relative to `root`, ignore the
/// path `rel` (a directory when `is_dir`), the last matching rule deciding
/// and a `!` rule re-including.
pub uninterp spec fn gitignore_ignores(
    root: Seq<char>,
    rules: Seq<Seq<char>>,
    rel: Seq<char>,
    is_dir: bool,
) -> bool;

/// `s` without trailing white space, as `str::trim_end` returns it.
pub open spec fn trim_end_spec(s: Seq<char>) -> Seq<char>
    decreases s.len(),
{
    if s.len() > 0 && is_space(s.last()) {
        trim_end_spec(s.drop_last())
    } else {
        s
    }
}

/// The text a gitignore line is stored as: trimmed of trailing white space,
/// unless it ends in an escaped space (`\ `).
pub open spec fn rule_text(line: Seq<char>) -> Seq<char> {
    if line.len() >= 2 && line[line.len() - 2] == '\\' && line.last() == ' ' {
        line
    } else {
        trim_end_spec(line)
    }
}

/// Whether a gitignore line adds a rule: it is no comment (`#` first) and is
/// not blank once trimmed.
pub open spec fn adds_rule(line: Seq<char>) -> bool {
    !(line.len() > 0 && line[0] == '#') && rule_text(line).len() > 0
}

/// The rules a sequence of gitignore lines adds, in order.
pub open spec fn rules_of(lines: Seq<Seq<char>>) -> Seq<Seq<char>>
    decreases lines.len(),
{
    if lines.len() == 0 {
        Seq::empty()
    } else {
        let prev = rules_of(lines.drop_last());
        if adds_rule(lines.last()) {
            prev.push(rule_text(lines.last()))
        } else {
            prev
        }
    }
}

/// The root transfer rules match relative to: empty, so a manifest-relative
/// path is matched as it is given, with no filesystem prefix.
pub const MATCH_ROOT: &'static str = "";

/// A builder whose paths match relative to `root`.
///
/// Trusted: `GitignoreBuilder::new(root)`, which starts with no globs, case
/// sensitive, and keeps `root` as its root (it strips a leading `./`, so the
/// root is stated only for one that does not start with `.`).
#[verifier::external_body]
fn new_builder(root: &str) -> (b: GitignoreBuilder)
    ensures
        builder_rules(b) == Seq::<Seq<char>>::empty(),
        !(root@.len() > 0 && root@[0] == '.') ==> builder_root(b) == root@,
{
    GitignoreBuilder::new(root)
}

/// Adds one rule line.
///
/// Trusted: `GitignoreBuilder::add_line(None, line)`. Its source returns
/// `Ok` at once, leaving the builder as it was, for a line that starts with
/// `#` or is blank once trimmed at the right; otherwise it stores the glob
/// under the line's trimmed text ([`rule_text`]), and whether the glob
/// parses depends on the line alone (the builder's options are fixed by
/// [`new_builder`]). A refused line leaves the builder as it was.
#[verifier::external_body]
fn add_rule_line(b: &mut GitignoreBuilder, line: &str) -> (r: Result<(), ignore::Error>)
    ensures
        r is Ok <==> gitignore_line_accepted(line@),
        !adds_rule(line@) ==> r is Ok,
        r is Ok ==> builder_rules(*final(b)) == if adds_rule(line@) {
            builder_rules(*old(b)).push(rule_text(line@))
        } else {
            builder_rules(*old(b))
        },
        r is Err ==> builder_rules(*final(b)) == builder_rules(*old(b)),
        builder_root(*final(b)) == builder_root(*old(b)),
{
    b.add_line(None, line).map(|_| ())
}

/// Compiles the rules added so far.
///
/// Trusted: `GitignoreBuilder::build`, which cannot fail without rules; the
/// matcher holds the builder's rules and its root, except that a builder
/// without globs gives the empty matcher, whose root is empty.
#[verifier::external_body]
fn build_matcher(b: &GitignoreBuilder) -> (r: Result<Gitignore, ignore::Error>)
    ensures
        r is Ok <==> gitignore_builds(builder_rules(*b)),
        builder_rules(*b).len() == 0 ==> r is Ok,
        r matches Ok(g) ==> matcher_rules(g) == builder_rules(*b),
        r matches Ok(g) ==> matcher_root(g) == builder_root(*b) || matcher_root(g).len() == 0,
{
    b.build()
}

/// The display text of an `ignore` error.
///
/// Trusted: `ignore::Error`'s `Display`; the text is not stated.
#[verifier::external_body]
fn ignore_error_text(e: &ignore::Error) -> (r: String) {
    e.to_string()
}

/// Whether the compiled rules ignore `rel`.
///
/// Trusted: `Gitignore::matched(rel, is_dir).is_ignore()`, which honors
/// negated rules; a matcher without rules matches nothing.
#[verifier::external_body]
fn matcher_ignores(g: &Gitignore, rel: &str, is_dir: bool) -> (r: bool)
    ensures
        r == gitignore_ignores(matcher_root(*g), matcher_rules(*g), rel@, is_dir),
        matcher_rules(*g).len() == 0 ==> !r,
{
    g.matched(rel, is_dir).is_ignore()
}

/// Compiled transfer ignore rules.
#[derive(Debug)]
pub struct IgnoreRules {
    matcher: Gitignore,
}

impl IgnoreRules {
    /// The rules match relative to [`MATCH_ROOT`].
    #[verifier::type_invariant]
    closed spec fn matches_from_root(self) -> bool {
        matcher_root(self.matcher) == MATCH_ROOT@
    }
}

impl View for IgnoreRules {
    type V = Seq<Seq<char>>;

    /// The rules, in order, each as its line's stored text.
    closed spec fn view(&self) -> Seq<Seq<char>> {
        matcher_rules(self.matcher)
    }
}

/// Whether every line of `lines` before index `n` is an accepted rule.
pub open spec fn accepted_before(lines: Seq<Seq<char>>, n: int) -> bool {
    forall|j: int| 0 <= j < n ==> gitignore_line_accepted(#[trigger] lines[j])
}

/// Whether rule text compiles: every line is accepted and the `ignore`
/// crate builds a matcher from the rules they add.
pub open spec fn rules_compile(text: Seq<char>) -> bool {
    let lines = lines_spec(text);
    accepted_before(lines, lines.len() as int) && gitignore_builds(rules_of(lines))
}

impl IgnoreRules {
    /// Compiles one rule per line; the first line that does not parse is
    /// reported as `"<line>: <error>"`.
    ///
    /// Whether a line parses, and the error text, are the `ignore` crate's.
    /// Comment and blank lines never fail and add no rule; text without rules
    /// gives rules that ignore nothing.
    pub fn parse(text: &str) -> (r: Result<IgnoreRules, String>)
        ensures
            r is Ok <==> rules_compile(text@),
            ({
                let lines = lines_spec(text@);
                match r {
                    Ok(rules) => accepted_before(lines, lines.len() as int) && gitignore_builds(
                        rules_of(lines),
                    ) && rules@ == rules_of(lines),
                    Err(msg) => (exists|i: int|
                        0 <= i < lines.len() && accepted_before(lines, i)
                            && !gitignore_line_accepted(#[trigger] lines[i]) && msg@.len()
                            >= lines[i].len() + 2 && msg@.take(lines[i].len() + 2int) == lines[i]
                            + seq![':', ' ']) || (accepted_before(lines, lines.len() as int)
                        && !gitignore_builds(rules_of(lines))),
                }
            }),
    {
        let lines = lines_of(text);
        proof {
            reveal_strlit("");
        }
        let mut builder = new_builder(MATCH_ROOT);
        let mut i: usize = 0;
        while i < lines.len()
            invariant
                i <= lines.len(),
                strings_view(lines@) == lines_spec(text@),
                builder_rules(builder) == rules_of(strings_view(lines@).take(i as int)),
                builder_root(builder) == MATCH_ROOT@,
                accepted_before(strings_view(lines@), i as int),
            decreases lines.len() - i,
        {
            let ghost before = builder_rules(builder);
            match add_rule_line(&mut builder, lines[i].as_str()) {
                Ok(()) => {},
                Err(e) => {
                    let mut msg = lines[i].clone();
                    push_str(&mut msg, ": ");
                    let ghost head = msg@;
                    let t = ignore_error_text(&e);
                    push_str(&mut msg, t.as_str());
                    proof {
                        reveal_strlit(": ");
                        let ls = strings_view(lines@);
                        assert(ls[i as int] == lines@[i as int]@);
                        assert(head =~= ls[i as int] + seq![':', ' ']);
                        assert(msg@.take(ls[i as int].len() + 2int) =~= head);
                        assert(!gitignore_line_accepted(ls[i as int]));
                    }
                    return Err(msg);
                },
            }
            proof {
                let ls = strings_view(lines@);
                assert(ls[i as int] == lines@[i as int]@);
                assert(ls.take(i + 1).drop_last() =~= ls.take(i as int));
                assert(ls.take(i + 1).last() == ls[i as int]);
            }
            i = i + 1;
        }
        proof {
            assert(strings_view(lines@).take(lines.len() as int) =~= strings_view(lines@));
        }
        match build_matcher(&builder) {
            Ok(matcher) => {
                proof {
                    assert(matcher_root(matcher) =~= MATCH_ROOT@);
                }
                Ok(IgnoreRules { matcher })
            },
            Err(e) => Err(ignore_error_text(&e)),
        }
    }

    /// Returns whether a manifest-relative path is ignored, honoring negated
    /// rules; rules without lines ignore nothing.
    pub fn is_ignored(&self, rel: &str, is_dir: bool) -> (r: bool)
        ensures
            r == gitignore_ignores(MATCH_ROOT@, self@, rel@, is_dir),
            self@.len() == 0 ==> !r,
    {
        proof {
            use_type_invariant(self);
        }
        matcher_ignores(&self.matcher, rel, is_dir)
    }
}

// ---------------------------------------------------------------------------
// Collecting files
// ---------------------------------------------------------------------------

/// The manifest-relative path of a directory entry: its parent's relative
/// path, `/`, and its name.
pub fn child_rel(rel_base: &str, name: &str) -> (r: String)
    ensures
        r@ == rel_base@ + seq!['/'] + name@,
{
    let mut s = to_string(rel_base);
    push_char(&mut s, '/');
    push_str(&mut s, name);
    s
}

/// What collecting does with one entry.
#[derive(Debug, Clone, Copy, PartialEq, Eq, Structural)]
pub enum WalkAction {
    /// Leave it out; for a directory, its whole subtree.
    Skip,
    /// Walk into the directory.
    Descend,
    /// Add the file to the manifest.
    Include,
}

/// Decides one entry: ignored entries are skipped (an ignored directory is
/// pruned, so negations inside it do not apply), directories are walked,
/// regular files are included, and other special entries are skipped.
/// Top-level selections count as regular unless they are directories.
pub fn walk_action(ignored: bool, is_dir: bool, is_file: bool) -> (r: WalkAction)
    ensures
        ignored ==> r == WalkAction::Skip,
        !ignored && is_dir ==> r == WalkAction::Descend,
        !ignored && !is_dir && is_file ==> r == WalkAction::Include,
        !ignored && !is_dir && !is_file ==> r == WalkAction::Skip,
{
    if ignored {
        WalkAction::Skip
    } else if is_dir {
        WalkAction::Descend
    } else if is_file {
        WalkAction::Include
    } else {
        WalkAction::Skip
    }
}

/// Ends a collection: an empty result is refused with `NoValidFiles`
/// instead of starting an empty transfer.
pub fn finish_collection<T>(out: Vec<T>) -> (r: Result<Vec<T>, TransferError>)
    ensures
        out@.len() == 0 ==> (r matches Err(e) && e is NoValidFiles),
        out@.len() > 0 ==> (r matches Ok(v) && v@ == out@),
{
    if out.len() == 0 {
        Err(TransferError::NoValidFiles)
    } else {
        Ok(out)
    }
}

} // verus!
