//! Error type of the pipeline, and its ghost counterpart.
//!
//! Every content error carries the path of the offending file as the sequence
//! of path segments from the tree root down to the file; callers may join the
//! segments for display.

use vstd::prelude::*;

verus! {

/// Fatal pipeline failure.
#[derive(Debug, Clone, PartialEq, Eq)]
pub enum PipelineError {
    /// A non-empty configuration list was recorded a second time.
    AlreadyInitialized,
    /// A file matched a minify verdict but its bytes are not valid UTF-8.
    InvalidText { path: Vec<String> },
    /// The CSS minifier rejected the file.
    CssMinify { path: Vec<String>, message: String },
    /// The JS parser rejected the file.
    JsMinify { path: Vec<String>, message: String },
    /// The minified HTML could not be decoded as UTF-8 text.
    HtmlMinify { path: Vec<String> },
}

/// Ghost classification of a content failure.
pub enum FailKind {
    Text,
    Css,
    Js,
    Html,
}

/// Ghost record of a content failure: its kind and the path segments of the
/// offending file.
pub struct FailRecord {
    pub kind: FailKind,
    pub path: Seq<Seq<char>>,
}

/// Which kind of content failure an error reports, if any.
pub open spec fn spec_err_kind(e: PipelineError) -> Option<FailKind> {
    match e {
        PipelineError::AlreadyInitialized => None,
        PipelineError::InvalidText { .. } => Some(FailKind::Text),
        PipelineError::CssMinify { .. } => Some(FailKind::Css),
        PipelineError::JsMinify { .. } => Some(FailKind::Js),
        PipelineError::HtmlMinify { .. } => Some(FailKind::Html),
    }
}

/// The path segments an error reports (empty for a configuration error).
pub open spec fn spec_err_path(e: PipelineError) -> Seq<Seq<char>> {
    match e {
        PipelineError::AlreadyInitialized => Seq::empty(),
        PipelineError::InvalidText { path } => path.deep_view(),
        PipelineError::CssMinify { path, .. } => path.deep_view(),
        PipelineError::JsMinify { path, .. } => path.deep_view(),
        PipelineError::HtmlMinify { path } => path.deep_view(),
    }
}

/// The error agrees with the ghost failure record in kind and path.
pub open spec fn err_matches(e: PipelineError, f: FailRecord) -> bool {
    spec_err_kind(e) == Some(f.kind) && spec_err_path(e) == f.path
}

/// Pushes `seg` in front of a segment path.
fn prepend_to_path(seg: &String, path: Vec<String>) -> (r: Vec<String>)
    ensures
        r.deep_view() == seq![seg@] + path.deep_view(),
{
    let mut p = path;
    p.insert(0, seg.clone());
    proof {
        assert(p.deep_view() =~= seq![seg@] + path.deep_view());
    }
    p
}

/// Extends a content error's path by a leading directory segment.
pub fn prepend_segment(e: PipelineError, seg: &String) -> (r: PipelineError)
    ensures
        spec_err_kind(r) == spec_err_kind(e),
        spec_err_kind(e) is Some ==> spec_err_path(r) == seq![seg@] + spec_err_path(e),
        spec_err_kind(e) is None ==> r == e,
{
    match e {
        PipelineError::AlreadyInitialized => PipelineError::AlreadyInitialized,
        PipelineError::InvalidText { path } => PipelineError::InvalidText {
            path: prepend_to_path(seg, path),
        },
        PipelineError::CssMinify { path, message } => PipelineError::CssMinify {
            path: prepend_to_path(seg, path),
            message,
        },
        PipelineError::JsMinify { path, message } => PipelineError::JsMinify {
            path: prepend_to_path(seg, path),
            message,
        },
        PipelineError::HtmlMinify { path } => PipelineError::HtmlMinify {
            path: prepend_to_path(seg, path),
        },
    }
}

} // verus!
