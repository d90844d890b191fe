//! The mirror walker: recursive traversal and per-file dispatch, written as
//! a pure function from the source tree to the destination tree.
//!
//! The pipeline is all-or-nothing: the first content failure aborts the
//! whole run. A file that matches a minify verdict but whose bytes are not
//! valid UTF-8 is such a failure, not a silently ignored file.

use vstd::prelude::*;

verus! {

use vstd::utf8::{decode_utf8, valid_utf8};

use crate::adapters::{
    css_minified, html_minified, js_minified, minify_css, minify_html, minify_js, text_of_bytes,
};
use crate::classify::{classify, spec_classify, FileKind, FileVerdict};
use crate::config::{spec_is_nomangle, ConfigView, PipelineConfig};
use crate::errors::{err_matches, prepend_segment, FailKind, FailRecord, PipelineError};
use crate::tree::{
    lemma_src_views_index, out_view, out_views, src_view, src_views, OutContent, OutData,
    OutNode, OutTree, SrcNode, SrcTree,
};

/// What the pipeline produces for one file: its destination content, nothing
/// (an ignored file), or a content failure.
pub open spec fn spec_process_file(cfg: ConfigView, name: Seq<char>, content: Seq<u8>) -> Result<
    Option<OutData>,
    FailKind,
> {
    match spec_classify(cfg, name) {
        FileVerdict::PassthroughCopy => Ok(Some(OutData::Raw(content))),
        FileVerdict::Ignore => Ok(None),
        FileVerdict::MinifyAs(kind) => if !valid_utf8(content) {
            Err(FailKind::Text)
        } else {
            let text = decode_utf8(content);
            match kind {
                FileKind::Css => match css_minified(text) {
                    Some(t) => Ok(Some(OutData::Text(t))),
                    None => Err(FailKind::Css),
                },
                FileKind::Js => match js_minified(text, !spec_is_nomangle(cfg, name)) {
                    Some(t) => Ok(Some(OutData::Text(t))),
                    None => Err(FailKind::Js),
                },
                FileKind::Html => if valid_utf8(html_minified(text)) {
                    Ok(Some(OutData::Text(decode_utf8(html_minified(text)))))
                } else {
                    Err(FailKind::Html)
                },
            }
        },
    }
}

/// What mirroring one source node yields: a destination node, nothing (an
/// ignored file), or the first content failure with its path segments.
pub open spec fn spec_mirror_node(cfg: ConfigView, t: SrcTree) -> Result<
    Option<OutTree>,
    FailRecord,
>
    decreases t, 0int,
{
    match t {
        SrcTree::File { name, content } => match spec_process_file(cfg, name, content) {
            Ok(Some(d)) => Ok(Some(OutTree::File { name, content: d })),
            Ok(None) => Ok(None),
            Err(k) => Err(FailRecord { kind: k, path: seq![name] }),
        },
        SrcTree::Dir { name, entries } => match spec_mirror_entries(cfg, entries) {
            Ok(os) => Ok(Some(OutTree::Dir { name, entries: os })),
            Err(f) => Err(FailRecord { kind: f.kind, path: seq![name] + f.path }),
        },
    }
}

/// Mirrors the children of a directory, left to right; the first failure
/// wins, and ignored files contribute nothing.
pub open spec fn spec_mirror_entries(cfg: ConfigView, ts: Seq<SrcTree>) -> Result<
    Seq<OutTree>,
    FailRecord,
>
    decreases ts, 1int,
{
    if ts.len() == 0 {
        Ok(Seq::empty())
    } else {
        match spec_mirror_entries(cfg, ts.drop_last()) {
            Err(f) => Err(f),
            Ok(os) => match spec_mirror_node(cfg, ts.last()) {
                Err(f) => Err(f),
                Ok(None) => Ok(os),
                Ok(Some(o)) => Ok(os.push(o)),
            },
        }
    }
}

/// A failure among the first `k` children decides the whole directory.
proof fn lemma_mirror_entries_err_extend(cfg: ConfigView, ts: Seq<SrcTree>, k: int)
    requires
        0 <= k <= ts.len(),
        spec_mirror_entries(cfg, ts.take(k)) is Err,
    ensures
        spec_mirror_entries(cfg, ts) == spec_mirror_entries(cfg, ts.take(k)),
    decreases ts.len(),
{
    if k < ts.len() {
        assert(ts.drop_last().take(k) =~= ts.take(k));
        lemma_mirror_entries_err_extend(cfg, ts.drop_last(), k);
    } else {
        assert(ts.take(k) =~= ts);
    }
}

/// A byte-for-byte copy of the content.
fn clone_bytes(v: &Vec<u8>) -> (r: Vec<u8>)
    ensures
        r@ == v@,
{
    let r = v.clone();
    proof {
        assert(r@ =~= v@);
    }
    r
}

/// A one-segment path.
fn singleton_path(name: &String) -> (r: Vec<String>)
    ensures
        r.deep_view() == seq![name@],
{
    let mut v: Vec<String> = Vec::new();
    v.push(name.clone());
    proof {
        assert(v.deep_view() =~= seq![name@]);
    }
    v
}

/// Mirrors one node of the source tree.
#[verifier::loop_isolation(false)]
pub fn mirror_node(config: &PipelineConfig, source: &SrcNode) -> (r: Result<
    Option<OutNode>,
    PipelineError,
>)
    ensures
        (match r {
            Ok(Some(out)) => spec_mirror_node(config@, source@) == Ok::<
                Option<OutTree>,
                FailRecord,
            >(Some(out@)),
            Ok(None) => spec_mirror_node(config@, source@) == Ok::<
                Option<OutTree>,
                FailRecord,
            >(None),
            Err(e) => spec_mirror_node(config@, source@) matches Err(f) && err_matches(e, f),
        }),
    decreases source,
{
    match source {
        SrcNode::File { name, content } => {
            match classify(config, name.as_str()) {
                FileVerdict::PassthroughCopy => Ok(
                    Some(
                        OutNode::File {
                            name: name.clone(),
                            content: OutContent::Raw(clone_bytes(content)),
                        },
                    ),
                ),
                FileVerdict::Ignore => Ok(None),
                FileVerdict::MinifyAs(kind) => match text_of_bytes(content) {
                    None => Err(PipelineError::InvalidText { path: singleton_path(name) }),
                    Some(text) => match kind {
                        FileKind::Css => match minify_css(name.as_str(), text.as_str()) {
                            Ok(t) => Ok(
                                Some(
                                    OutNode::File {
                                        name: name.clone(),
                                        content: OutContent::Text(t),
                                    },
                                ),
                            ),
                            Err(e) => Err(e),
                        },
                        FileKind::Js => match minify_js(config, name.as_str(), text.as_str()) {
                            Ok(t) => Ok(
                                Some(
                                    OutNode::File {
                                        name: name.clone(),
                                        content: OutContent::Text(t),
                                    },
                                ),
                            ),
                            Err(e) => Err(e),
                        },
                        FileKind::Html => match minify_html(name.as_str(), text.as_str()) {
                            Ok(t) => Ok(
                                Some(
                                    OutNode::File {
                                        name: name.clone(),
                                        content: OutContent::Text(t),
                                    },
                                ),
                            ),
                            Err(e) => Err(e),
                        },
                    },
                },
            }
        },
        SrcNode::Dir { name, entries } => {
            let ghost ts = src_views(entries@);
            proof {
                lemma_src_views_index(entries@);
            }
            let mut out: Vec<OutNode> = Vec::new();
            let mut i: usize = 0;
            while i < entries.len()
                invariant
                    i <= entries@.len(),
                    ts == src_views(entries@),
                    ts.len() == entries@.len(),
                    forall|j: int| 0 <= j < entries@.len() ==> ts[j] == src_view(entries@[j]),
                    spec_mirror_entries(config@, ts.take(i as int)) == Ok::<
                        Seq<OutTree>,
                        FailRecord,
                    >(out_views(out@)),
                decreases entries@.len() - i,
            {
                let ghost prefix = out_views(out@);
                let ghost outv0 = out@;
                proof {
                    assert(decreases_to!(*source => *entries));
                    assert(decreases_to!(*entries => entries@));
                    assert(decreases_to!(entries@ => entries@[i as int]));
                }
                match mirror_node(config, &entries[i]) {
                    Ok(Some(o)) => {
                        let ghost ov = out_view(o);
                        out.push(o);
                        proof {
                            assert(ts.take(i + 1).drop_last() =~= ts.take(i as int));
                            assert(ts.take(i + 1).last() == ts[i as int]);
                            assert(out@.drop_last() =~= outv0);
                            assert(out_views(out@) == prefix.push(ov));
                            assert(spec_mirror_entries(config@, ts.take(i + 1)) == Ok::<
                                Seq<OutTree>,
                                FailRecord,
                            >(out_views(out@)));
                        }
                    },
                    Ok(None) => {
                        proof {
                            assert(ts.take(i + 1).drop_last() =~= ts.take(i as int));
                            assert(ts.take(i + 1).last() == ts[i as int]);
                            assert(spec_mirror_entries(config@, ts.take(i + 1)) == Ok::<
                                Seq<OutTree>,
                                FailRecord,
                            >(out_views(out@)));
                        }
                    },
                    Err(e) => {
                        proof {
                            assert(ts.take(i + 1).drop_last() =~= ts.take(i as int));
                            assert(ts.take(i + 1).last() == ts[i as int]);
                            assert(spec_mirror_entries(config@, ts.take(i + 1)) is Err);
                            lemma_mirror_entries_err_extend(config@, ts, i + 1);
                        }
                        let e2 = prepend_segment(e, name);
                        proof {
                            let f0 = spec_mirror_entries(config@, ts)->Err_0;
                            assert(src_view(*source) == SrcTree::Dir { name: name@, entries: ts });
                            assert(spec_mirror_node(config@, source@) == Err::<
                                Option<OutTree>,
                                FailRecord,
                            >(FailRecord { kind: f0.kind, path: seq![name@] + f0.path }));
                            assert(err_matches(e2, FailRecord { kind: f0.kind, path: seq![name@] + f0.path }));
                        }
                        return Err(e2);
                    },
                }
                i += 1;
            }
            proof {
                assert(ts.take(i as int) =~= ts);
            }
            Ok(Some(OutNode::Dir { name: name.clone(), entries: out }))
        },
    }
}

/// Mirrors a source directory: the destination tree has the same name and
/// contains the processed children.
pub fn mirror(config: &PipelineConfig, source: &SrcNode) -> (r: Result<OutNode, PipelineError>)
    requires
        source@ is Dir,
    ensures
        (match r {
            Ok(out) => spec_mirror_node(config@, source@) == Ok::<Option<OutTree>, FailRecord>(
                Some(out@),
            ),
            Err(e) => spec_mirror_node(config@, source@) matches Err(f) && err_matches(e, f),
        }),
{
    match mirror_node(config, source) {
        Ok(Some(out)) => Ok(out),
        Ok(None) => {
            proof {
                assert(false);
            }
            Err(PipelineError::AlreadyInitialized)
        },
        Err(e) => Err(e),
    }
}

/// The configuration the entry point builds from the two lists: an empty
/// list leaves its store unset.
pub open spec fn spec_initial_config(passthrough: Seq<Seq<char>>, nomangle: Seq<Seq<char>>) -> ConfigView {
    ConfigView {
        passthrough: if passthrough.len() == 0 {
            None
        } else {
            Some(passthrough)
        },
        nomangle: if nomangle.len() == 0 {
            None
        } else {
            Some(nomangle)
        },
    }
}

/// One-shot pipeline: records the two configuration lists and mirrors the
/// source tree under that configuration.
pub fn run_pipeline(source: &SrcNode, other_extensions: Vec<String>, no_mangle: Vec<String>) -> (r:
    Result<OutNode, PipelineError>)
    requires
        source@ is Dir,
    ensures
        (match r {
            Ok(out) => spec_mirror_node(
                spec_initial_config(other_extensions.deep_view(), no_mangle.deep_view()),
                source@,
            ) == Ok::<Option<OutTree>, FailRecord>(Some(out@)),
            Err(e) => spec_mirror_node(
                spec_initial_config(other_extensions.deep_view(), no_mangle.deep_view()),
                source@,
            ) matches Err(f) && err_matches(e, f),
        }),
{
    let ghost exts = other_extensions.deep_view();
    let ghost nm = no_mangle.deep_view();
    let mut config = PipelineConfig::new();
    let r1 = config.set_other_extensions(other_extensions);
    proof {
        assert(r1 is Ok);
    }
    let r2 = config.set_nomangle(no_mangle);
    proof {
        assert(r2 is Ok);
        assert(config@ == spec_initial_config(exts, nm));
    }
    mirror(&config, source)
}

} // verus!
