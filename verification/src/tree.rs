//! In-memory trees: the source tree handed to the walker and the
//! destination tree it produces.
//!
//! A source node is read from disk before the walk (a file's content as raw
//! bytes); a destination node says exactly what to write back: raw bytes for
//! a pass-through copy, text for a minified asset.

use vstd::prelude::*;

verus! {

/// One node of the source tree.
pub enum SrcNode {
    Dir { name: String, entries: Vec<SrcNode> },
    File { name: String, content: Vec<u8> },
}

/// Ghost view of a source node.
pub enum SrcTree {
    Dir { name: Seq<char>, entries: Seq<SrcTree> },
    File { name: Seq<char>, content: Seq<u8> },
}

/// Content of a destination file.
#[derive(Debug, PartialEq, Eq)]
pub enum OutContent {
    /// Bytes copied verbatim from the source.
    Raw(Vec<u8>),
    /// Minified text to be written as UTF-8.
    Text(String),
}

/// One node of the destination tree.
#[derive(Debug, PartialEq, Eq)]
pub enum OutNode {
    Dir { name: String, entries: Vec<OutNode> },
    File { name: String, content: OutContent },
}

/// Ghost view of a destination file's content.
pub enum OutData {
    Raw(Seq<u8>),
    Text(Seq<char>),
}

/// Ghost view of a destination node.
pub enum OutTree {
    Dir { name: Seq<char>, entries: Seq<OutTree> },
    File { name: Seq<char>, content: OutData },
}

/// Ghost view of one source node.
pub open spec fn src_view(n: SrcNode) -> SrcTree
    decreases n, 0int,
{
    match n {
        SrcNode::Dir { name, entries } => SrcTree::Dir {
            name: name@,
            entries: src_views(entries@),
        },
        SrcNode::File { name, content } => SrcTree::File { name: name@, content: content@ },
    }
}

/// Ghost views of a sequence of source nodes, in order.
pub open spec fn src_views(v: Seq<SrcNode>) -> Seq<SrcTree>
    decreases v, 1int,
{
    if v.len() == 0 {
        Seq::empty()
    } else {
        src_views(v.drop_last()).push(src_view(v.last()))
    }
}

/// `src_views` maps the sequence pointwise.
pub proof fn lemma_src_views_index(v: Seq<SrcNode>)
    ensures
        src_views(v).len() == v.len(),
        forall|i: int| 0 <= i < v.len() ==> src_views(v)[i] == src_view(v[i]),
    decreases v.len(),
{
    if v.len() > 0 {
        lemma_src_views_index(v.drop_last());
    }
}

impl View for SrcNode {
    type V = SrcTree;

    open spec fn view(&self) -> SrcTree {
        src_view(*self)
    }
}

impl View for OutContent {
    type V = OutData;

    open spec fn view(&self) -> OutData {
        match self {
            OutContent::Raw(b) => OutData::Raw(b@),
            OutContent::Text(t) => OutData::Text(t@),
        }
    }
}

/// Ghost view of one destination node.
pub open spec fn out_view(n: OutNode) -> OutTree
    decreases n, 0int,
{
    match n {
        OutNode::Dir { name, entries } => OutTree::Dir {
            name: name@,
            entries: out_views(entries@),
        },
        OutNode::File { name, content } => OutTree::File { name: name@, content: content@ },
    }
}

/// Ghost views of a sequence of destination nodes, in order.
pub open spec fn out_views(v: Seq<OutNode>) -> Seq<OutTree>
    decreases v, 1int,
{
    if v.len() == 0 {
        Seq::empty()
    } else {
        out_views(v.drop_last()).push(out_view(v.last()))
    }
}

impl View for OutNode {
    type V = OutTree;

    open spec fn view(&self) -> OutTree {
        out_view(*self)
    }
}

/// The name of a source node.
pub open spec fn src_name(t: SrcTree) -> Seq<char> {
    match t {
        SrcTree::Dir { name, .. } => name,
        SrcTree::File { name, .. } => name,
    }
}

/// The child nodes of a source directory (empty for a file).
pub open spec fn src_entries(t: SrcTree) -> Seq<SrcTree> {
    match t {
        SrcTree::Dir { entries, .. } => entries,
        SrcTree::File { .. } => Seq::empty(),
    }
}

/// The name of a destination node.
pub open spec fn out_name(t: OutTree) -> Seq<char> {
    match t {
        OutTree::Dir { name, .. } => name,
        OutTree::File { name, .. } => name,
    }
}

/// The child nodes of a destination directory (empty for a file).
pub open spec fn out_entries(t: OutTree) -> Seq<OutTree> {
    match t {
        OutTree::Dir { entries, .. } => entries,
        OutTree::File { .. } => Seq::empty(),
    }
}

/// The source tree has a directory at the given relative path (the empty
/// path names the node itself).
pub open spec fn src_has_dir_at(t: SrcTree, path: Seq<Seq<char>>) -> bool
    decreases path.len(),
{
    t is Dir && (path.len() == 0 || exists|i: int|
        0 <= i < src_entries(t).len() && src_name(#[trigger] src_entries(t)[i]) == path[0]
            && src_has_dir_at(src_entries(t)[i], path.subrange(1, path.len() as int)))
}

/// The destination tree has a directory at the given relative path.
pub open spec fn out_has_dir_at(t: OutTree, path: Seq<Seq<char>>) -> bool
    decreases path.len(),
{
    t is Dir && (path.len() == 0 || exists|i: int|
        0 <= i < out_entries(t).len() && out_name(#[trigger] out_entries(t)[i]) == path[0]
            && out_has_dir_at(out_entries(t)[i], path.subrange(1, path.len() as int)))
}

} // verus!
