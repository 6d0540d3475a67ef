//! The build-context archiver's rule side: the compiled ignore rule set,
//! the ignore decision with its guarantees, and the per-entry decision of
//! the archive walk.
//!
//! Paths are modeled by their slash-separated segments, dropping empty and
//! `.` segments; a path is relative to the context root when both are
//! equally rooted and the root's segments are a prefix of the path's.
//!
//! Walking the directory tree, reading file contents and appending archive
//! entries are I/O performed by the unverified shell around this crate.
use vstd::prelude::*;

use crate::errors::ContextError;
use crate::running_docker_executor::{join_path, spec_is_absolute};
use crate::text::{lemma_split_slash_segments, spec_split_slash, split_slash, views_of};

verus! {

#[verifier::external_type_specification]
#[verifier::external_body]
pub struct ExGitignore(ignore::gitignore::Gitignore);

#[verifier::external_type_specification]
#[verifier::external_body]
pub struct ExGitignoreBuilder(ignore::gitignore::GitignoreBuilder);

#[verifier::external_type_specification]
#[verifier::external_body]
pub struct ExIgnoreError(ignore::Error);

/// Relies on `ignore::gitignore::GitignoreBuilder::new`: an empty rule set
/// whose globs will match relative to `root`.
#[verifier::external_body]
fn gitignore_builder_new(root: &String) -> ignore::gitignore::GitignoreBuilder {
    ignore::gitignore::GitignoreBuilder::new(root.as_str())
}

/// Relies on `ignore::gitignore::GitignoreBuilder::add`: reads the ignore
/// file at `path` into the builder, returning an error when the file could
/// not be read or holds bad globs. What was added depends on the disk.
#[verifier::external_body]
fn gitignore_builder_add(
    b: &mut ignore::gitignore::GitignoreBuilder,
    path: &String,
) -> Option<ignore::Error> {
    b.add(path.as_str())
}

/// Relies on `ignore::gitignore::GitignoreBuilder::build`: compiles the
/// globs added so far into a matcher.
#[verifier::external_body]
fn gitignore_builder_build(b: &ignore::gitignore::GitignoreBuilder) -> Result<
    ignore::gitignore::Gitignore,
    ignore::Error,
> {
    b.build()
}

/// Relies on `ignore::gitignore::Gitignore::global`: the matcher compiled
/// from the user's global ignore file, if any, and any error met reading
/// it. What it matches depends on the machine.
#[verifier::external_body]
fn gitignore_global() -> (ignore::gitignore::Gitignore, Option<ignore::Error>) {
    ignore::gitignore::Gitignore::global()
}

/// Relies on `ignore::gitignore::Gitignore::matched_path_or_any_parents`:
/// whether the relative path, or any of its parent directories, matches an
/// ignore glob. The method panics on a rooted path, so one is never passed.
#[verifier::external_body]
fn gitignore_matches(
    g: &ignore::gitignore::Gitignore,
    rel_path: &String,
    is_dir: bool,
) -> bool
    requires
        !(rel_path@.len() > 0 && rel_path@[0] == '/'),
{
    g.matched_path_or_any_parents(rel_path.as_str(), is_dir).is_ignore()
}

/// Relies on `ignore::Error`'s display rendering: the error's message.
#[verifier::external_body]
fn ignore_error_message(e: &ignore::Error) -> String {
    format!("{e}")
}

/// The segments of a path: its slash-separated pieces with `.` segments
/// dropped, as the component model of this crate.
pub open spec fn spec_path_segments(p: Seq<char>) -> Seq<Seq<char>> {
    spec_split_slash(p).filter(|c: Seq<char>| c != "."@)
}

/// Computes `spec_path_segments`.
pub fn path_segments(p: &str) -> (r: Vec<String>)
    ensures
        views_of(r@) == spec_path_segments(p@),
{
    let raw = split_slash(p);
    let dot = ".".to_owned();
    let ghost pred = |c: Seq<char>| c != "."@;
    let mut out: Vec<String> = Vec::new();
    let mut i: usize = 0;
    proof {
        reveal(Seq::filter);
        assert(views_of(raw@).take(0) =~= Seq::<Seq<char>>::empty());
        assert(views_of(out@) =~~= views_of(raw@).take(0).filter(pred));
    }
    while i < raw.len()
        invariant
            0 <= i <= raw@.len(),
            dot@ == "."@,
            pred == (|c: Seq<char>| c != "."@),
            views_of(out@) == views_of(raw@).take(i as int).filter(pred),
        decreases raw@.len() - i,
    {
        proof {
            reveal(Seq::filter);
            let prefix = views_of(raw@).take(i as int);
            let next = views_of(raw@).take(i + 1);
            assert(next.drop_last() =~= prefix);
            assert(next.last() == raw@[i as int]@);
        }
        if !(raw[i] == dot) {
            let ghost old_out = out@;
            out.push(raw[i].clone());
            proof {
                crate::text::lemma_views_of_push(old_out, out@[out@.len() - 1]);
                assert(views_of(out@) =~~= views_of(raw@).take(i as int).filter(pred).push(
                    raw@[i as int]@,
                ));
            }
        }
        i += 1;
    }
    proof {
        assert(views_of(raw@).take(raw@.len() as int) =~= views_of(raw@));
    }
    out
}

/// The segments of `path` relative to `base`: both must be rooted alike
/// and `base`'s segments must be a prefix of `path`'s; otherwise the path
/// cannot be expressed relative to the base.
pub open spec fn spec_rel_segments(path: Seq<char>, base: Seq<char>) -> Option<Seq<Seq<char>>> {
    if spec_is_absolute(path) != spec_is_absolute(base) {
        None
    } else {
        let ps = spec_path_segments(path);
        let bs = spec_path_segments(base);
        if bs.len() <= ps.len() && ps.take(bs.len() as int) == bs {
            Some(ps.skip(bs.len() as int))
        } else {
            None
        }
    }
}

/// Computes `spec_rel_segments`.
pub fn rel_segments(path: &str, base: &str) -> (r: Option<Vec<String>>)
    ensures
        r is Some <==> spec_rel_segments(path@, base@) is Some,
        r matches Some(v) ==> spec_rel_segments(path@, base@) == Some(views_of(v@)),
{
    let path_abs = path.unicode_len() > 0 && path.get_char(0) == '/';
    let base_abs = base.unicode_len() > 0 && base.get_char(0) == '/';
    if path_abs != base_abs {
        return None;
    }
    let ps = path_segments(path);
    let bs = path_segments(base);
    if bs.len() > ps.len() {
        proof {
            assert(spec_rel_segments(path@, base@) is None);
        }
        return None;
    }
    let mut i: usize = 0;
    while i < bs.len()
        invariant
            0 <= i <= bs@.len() <= ps@.len(),
            views_of(ps@) == spec_path_segments(path@),
            views_of(bs@) == spec_path_segments(base@),
            forall|j: int| 0 <= j < i ==> #[trigger] views_of(ps@)[j] == views_of(bs@)[j],
        decreases bs@.len() - i,
    {
        if !(ps[i] == bs[i]) {
            proof {
                assert(views_of(ps@)[i as int] != views_of(bs@)[i as int]);
                assert(views_of(ps@).take(views_of(bs@).len() as int)[i as int] == views_of(
                    ps@,
                )[i as int]);
            }
            return None;
        }
        i += 1;
    }
    proof {
        assert(views_of(ps@).take(views_of(bs@).len() as int) =~= views_of(bs@));
    }
    let mut rest: Vec<String> = Vec::new();
    let mut k: usize = bs.len();
    proof {
        assert(views_of(rest@) =~= views_of(ps@).subrange(bs@.len() as int, bs@.len() as int));
    }
    while k < ps.len()
        invariant
            bs@.len() <= k <= ps@.len(),
            views_of(ps@) == spec_path_segments(path@),
            views_of(bs@) == spec_path_segments(base@),
            views_of(rest@) == views_of(ps@).subrange(bs@.len() as int, k as int),
        decreases ps@.len() - k,
    {
        let ghost old_rest = rest@;
        rest.push(ps[k].clone());
        proof {
            crate::text::lemma_views_of_push(old_rest, rest@[rest@.len() - 1]);
            assert(views_of(rest@) =~= views_of(ps@).subrange(bs@.len() as int, k + 1));
        }
        k += 1;
    }
    proof {
        assert(views_of(ps@).subrange(bs@.len() as int, ps@.len() as int) =~= views_of(
            ps@,
        ).skip(bs@.len() as int));
    }
    Some(rest)
}

/// Joins segments back into a relative path with single separators.
pub open spec fn spec_join_segments(v: Seq<Seq<char>>) -> Seq<char>
    decreases v.len(),
{
    if v.len() == 0 {
        Seq::empty()
    } else if v.len() == 1 {
        v[0]
    } else {
        v[0] + seq!['/'] + spec_join_segments(v.skip(1))
    }
}

proof fn lemma_join_segments_push(v: Seq<Seq<char>>, x: Seq<char>)
    ensures
        spec_join_segments(v.push(x)) == if v.len() == 0 {
            x
        } else {
            spec_join_segments(v) + seq!['/'] + x
        },
    decreases v.len(),
{
    if v.len() == 0 {
        assert(v.push(x) =~= seq![x]);
    } else {
        assert(v.push(x).skip(1) =~= v.skip(1).push(x));
        lemma_join_segments_push(v.skip(1), x);
        if v.len() == 1 {
            assert(v.skip(1).len() == 0);
        } else {
            assert(v[0] + seq!['/'] + (spec_join_segments(v.skip(1)) + seq!['/'] + x) =~= (v[0]
                + seq!['/'] + spec_join_segments(v.skip(1))) + seq!['/'] + x);
        }
    }
}

/// Joins segments, as `spec_join_segments` describes.
pub fn join_segments(v: &Vec<String>) -> (r: String)
    ensures
        r@ == spec_join_segments(views_of(v@)),
{
    let mut out = String::new();
    let mut i: usize = 0;
    while i < v.len()
        invariant
            0 <= i <= v@.len(),
            out@ == spec_join_segments(views_of(v@).take(i as int)),
        decreases v@.len() - i,
    {
        if i > 0 {
            out.append("/");
        }
        out.append(v[i].as_str());
        proof {
            reveal_strlit("/");
            assert("/"@ =~= seq!['/']);
            let prefix = views_of(v@).take(i as int);
            lemma_join_segments_push(prefix, v@[i as int]@);
            assert(views_of(v@).take(i + 1) =~= prefix.push(v@[i as int]@));
            if i == 0 {
                assert(out@ =~= v@[i as int]@);
            } else {
                assert(out@ =~= spec_join_segments(prefix) + seq!['/'] + v@[i as int]@);
            }
        }
        i += 1;
    }
    proof {
        assert(views_of(v@).take(v@.len() as int) =~= views_of(v@));
    }
    out
}

/// The compiled ignore rule set of one context directory: the local
/// `.gitignore` and `.dockerignore` rules, and the process-wide global
/// ignore rules when they loaded.
pub struct ContextBuilder {
    /// The context directory all rules match relative to.
    pub context_path: String,
    /// The build file always added to the archive first.
    pub dockerfile: String,
    /// The compiled local rules.
    pub ignore: ignore::gitignore::Gitignore,
    /// The compiled global rules, when they loaded cleanly.
    pub global: Option<ignore::gitignore::Gitignore>,
}

impl ContextBuilder {
    /// Compiles the ignore rule set for a context directory. A failure to
    /// load either local ignore file only leaves its rules out; a failure
    /// to compile the combined set is fatal, as is one while loading the
    /// global rules.
    pub fn from_path(context_path: String, dockerfile: String) -> (r: Result<
        ContextBuilder,
        ContextError,
    >)
        ensures
            r matches Ok(c) ==> c.context_path == context_path && c.dockerfile == dockerfile,
            r matches Err(e) ==> e is FailedIgnore,
    {
        let mut builder = gitignore_builder_new(&context_path);
        let gitignore_path = join_path(context_path.as_str(), ".gitignore");
        let _unreadable_gitignore = gitignore_builder_add(&mut builder, &gitignore_path);
        let dockerignore_path = join_path(context_path.as_str(), ".dockerignore");
        let _unreadable_dockerignore = gitignore_builder_add(&mut builder, &dockerignore_path);

        let compiled = match gitignore_builder_build(&builder) {
            Ok(g) => g,
            Err(e) => {
                return Err(ContextError::FailedIgnore(ignore_error_message(&e)));
            },
        };

        let (global_rules, global_error) = gitignore_global();
        let global = match global_error {
            Some(_) => None,
            None => Some(global_rules),
        };

        Ok(ContextBuilder { context_path, dockerfile, ignore: compiled, global })
    }

    /// Whether a path is excluded from the build context. A path that
    /// cannot be expressed relative to the context root is never ignored;
    /// neither is anything under `.git`, whatever the rules say, because
    /// version-control metadata must reach the build context. Everything
    /// else is ignored when the global rules match it, else when the local
    /// rules match it.
    pub fn is_ignored(&self, path: &str) -> (r: bool)
        ensures
            spec_rel_segments(path@, self.context_path@) is None ==> r == false,
            (spec_rel_segments(path@, self.context_path@) matches Some(rel) && rel.len() > 0
                && rel[0] == ".git"@) ==> r == false,
    {
        let rel = match rel_segments(path, self.context_path.as_str()) {
            Some(rel) => rel,
            None => {
                return false;
            },
        };
        let git = ".git".to_owned();
        if rel.len() > 0 && rel[0] == git {
            return false;
        }
        let rel_path = join_segments(&rel);
        proof {
            lemma_segments_relative(path@, self.context_path@);
            if views_of(rel@).len() > 0 {
                let rv = views_of(rel@);
                assert(rel_path@[0] == rv[0][0]);
            }
        }
        if let Some(global) = &self.global {
            if gitignore_matches(global, &rel_path, false) {
                return true;
            }
        }
        gitignore_matches(&self.ignore, &rel_path, false)
    }
}

/// The segments a path decomposes into are non-empty and free of the
/// separator, and so are those of any relative remainder.
proof fn lemma_segments_relative(path: Seq<char>, base: Seq<char>)
    ensures
        spec_rel_segments(path, base) matches Some(rel) ==> forall|i: int|
            0 <= i < rel.len() ==> (#[trigger] rel[i]).len() > 0 && rel[i][0] != '/',
{
    if spec_rel_segments(path, base) is Some {
        let rel = spec_rel_segments(path, base).unwrap();
        let raw = spec_split_slash(path);
        let pred = |c: Seq<char>| c != "."@;
        let ps = spec_path_segments(path);
        lemma_split_slash_segments(path);
        assert forall|i: int| 0 <= i < ps.len() implies (#[trigger] ps[i]).len() > 0 && ps[i][0]
            != '/' by {
            lemma_filter_from_raw(raw, pred, i);
        }
        let bs_len = spec_path_segments(base).len() as int;
        assert forall|i: int| 0 <= i < rel.len() implies (#[trigger] rel[i]).len() > 0 && rel[i][0]
            != '/' by {
            assert(rel[i] == ps[bs_len + i]);
        }
    }
}

/// Every element of a filtered sequence is an element of the original.
proof fn lemma_filter_from_raw(v: Seq<Seq<char>>, pred: spec_fn(Seq<char>) -> bool, i: int)
    requires
        0 <= i < v.filter(pred).len(),
    ensures
        exists|j: int| 0 <= j < v.len() && v[j] == #[trigger] v.filter(pred)[i],
    decreases v.len(),
{
    reveal(Seq::filter);
    if v.len() > 0 {
        if pred(v.last()) && i == v.filter(pred).len() - 1 {
            assert(v.filter(pred)[i] == v.last());
            assert(v[v.len() - 1] == v.filter(pred)[i]);
        } else {
            lemma_filter_from_raw(v.drop_last(), pred, i);
            let j = choose|j: int|
                0 <= j < v.drop_last().len() && v.drop_last()[j] == #[trigger] v.drop_last().filter(
                    pred,
                )[i];
            assert(v[j] == v.filter(pred)[i]);
        }
    }
}

/// What the archive walk does with one directory entry, in the order the
/// archiver checks: a non-symlink directory is added as a directory entry
/// before any ignore check; an ignored entry is skipped; a symlink is added
/// as a symlink entry; anything else is a regular file, read whole.
pub enum TarEntryAction {
    Directory,
    Skip,
    Symlink,
    File,
}

/// Decides the archive action for one walked entry.
pub fn classify_tar_entry(is_dir: bool, is_symlink: bool, ignored: bool) -> (r: TarEntryAction)
    ensures
        is_dir && !is_symlink ==> r is Directory,
        !(is_dir && !is_symlink) && ignored ==> r is Skip,
        !(is_dir && !is_symlink) && !ignored && is_symlink ==> r is Symlink,
        !(is_dir && !is_symlink) && !ignored && !is_symlink ==> r is File,
{
    if is_dir && !is_symlink {
        TarEntryAction::Directory
    } else if ignored {
        TarEntryAction::Skip
    } else if is_symlink {
        TarEntryAction::Symlink
    } else {
        TarEntryAction::File
    }
}

/// The file mode the archiver gives the build file and every regular file.
pub const CONTEXT_FILE_MODE: u32 = 0o644;

} // verus!
