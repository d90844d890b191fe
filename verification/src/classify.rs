//! Per-file classification: which handling path applies to a filename.

use vstd::prelude::*;

verus! {

use vstd::string::StrSliceExecFns;

use crate::config::{spec_is_passthrough, ConfigView, PipelineConfig};
use crate::text::str_ends_with;

/// The web-asset types the pipeline minifies.
#[derive(Debug, Clone, Copy, PartialEq, Eq, Structural)]
pub enum FileKind {
    Css,
    Js,
    Html,
}

/// Outcome of classifying one file.
#[derive(Debug, Clone, Copy, PartialEq, Eq, Structural)]
pub enum FileVerdict {
    /// Copy the bytes unchanged.
    PassthroughCopy,
    /// Minify as the given asset type.
    MinifyAs(FileKind),
    /// Produce no output for this file.
    Ignore,
}

/// Classification, in strict priority order: a registered pass-through
/// suffix wins over the built-in web-file rules, which are tried in the
/// order `.css`, `.js`, `.html`; anything else is ignored.
pub open spec fn spec_classify(cfg: ConfigView, name: Seq<char>) -> FileVerdict {
    if spec_is_passthrough(cfg, name) {
        FileVerdict::PassthroughCopy
    } else if ".css"@.is_suffix_of(name) {
        FileVerdict::MinifyAs(FileKind::Css)
    } else if ".js"@.is_suffix_of(name) {
        FileVerdict::MinifyAs(FileKind::Js)
    } else if ".html"@.is_suffix_of(name) {
        FileVerdict::MinifyAs(FileKind::Html)
    } else {
        FileVerdict::Ignore
    }
}

/// Decides how a single file is handled, from its name and the
/// configuration alone.
pub fn classify(config: &PipelineConfig, filename: &str) -> (v: FileVerdict)
    ensures
        v == spec_classify(config@, filename@),
{
    if config.check_extension(filename) {
        FileVerdict::PassthroughCopy
    } else if str_ends_with(filename, ".css") {
        FileVerdict::MinifyAs(FileKind::Css)
    } else if str_ends_with(filename, ".js") {
        FileVerdict::MinifyAs(FileKind::Js)
    } else if str_ends_with(filename, ".html") {
        FileVerdict::MinifyAs(FileKind::Html)
    } else {
        FileVerdict::Ignore
    }
}

/// The portion of a path after its last `/`: the whole path if it has no
/// `/`, empty if it ends with one.
pub open spec fn spec_filename(p: Seq<char>) -> Seq<char>
    decreases p.len(),
{
    if p.len() == 0 {
        p
    } else if p.last() == '/' {
        Seq::empty()
    } else {
        spec_filename(p.drop_last()).push(p.last())
    }
}

proof fn lemma_filename_is_suffix(p: Seq<char>, i: int)
    requires
        0 <= i <= p.len(),
        forall|j: int| i <= j < p.len() ==> p[j] != '/',
        i == 0 || p[i - 1] == '/',
    ensures
        spec_filename(p) == p.subrange(i, p.len() as int),
    decreases p.len(),
{
    if p.len() == 0 {
        assert(spec_filename(p) =~= p.subrange(0, 0));
    } else if p.last() == '/' {
        assert(i == p.len());
        assert(spec_filename(p) =~= p.subrange(i, p.len() as int));
    } else {
        assert(i < p.len());
        let q = p.drop_last();
        lemma_filename_is_suffix(q, i);
        assert(q.subrange(i, q.len() as int) =~= p.subrange(i, p.len() as int).drop_last());
        assert(spec_filename(p) =~= p.subrange(i, p.len() as int));
    }
}

/// The filename component of a path: the characters after the last `/`.
/// The path must be non-empty and must not end in a separator, so the
/// result is its last component.
pub fn get_filename(path: &str) -> (r: &str)
    requires
        path@.len() > 0,
        path@.last() != '/',
    ensures
        r@ == spec_filename(path@),
{
    let n = path.unicode_len();
    let mut i: usize = n;
    while i > 0 && path.get_char(i - 1) != '/'
        invariant
            i <= n,
            n == path@.len(),
            forall|j: int| i <= j < n ==> path@[j] != '/',
        decreases i,
    {
        i -= 1;
    }
    proof {
        lemma_filename_is_suffix(path@, i as int);
    }
    path.substring_char(i, n)
}

} // verus!
