//! Global guarantees of the pipeline, stated and proved over the walker's
//! specification.

use vstd::prelude::*;

verus! {

use crate::classify::{spec_classify, FileVerdict};
use crate::config::{ConfigView, PipelineConfig};
use crate::errors::{spec_err_kind, spec_err_path, FailRecord, PipelineError};
use crate::mirror::{mirror, spec_mirror_entries, spec_mirror_node};
use crate::tree::{
    out_entries, out_has_dir_at, out_name, src_entries, src_has_dir_at, src_name, OutNode,
    OutTree, SrcNode, SrcTree,
};

/// Idempotence: any two calls of `mirror` on configurations and source
/// trees with equal views agree — both succeed with destination trees of
/// equal views, or both fail with the same failure kind and path. Running
/// the pipeline twice therefore overwrites the destination with identical
/// content.
pub proof fn lemma_mirror_idempotent(
    c1: &PipelineConfig,
    c2: &PipelineConfig,
    s1: &SrcNode,
    s2: &SrcNode,
    r1: Result<OutNode, PipelineError>,
    r2: Result<OutNode, PipelineError>,
)
    requires
        c1@ == c2@,
        s1@ == s2@,
        call_ensures(mirror, (c1, s1), r1),
        call_ensures(mirror, (c2, s2), r2),
    ensures
        r1 is Ok <==> r2 is Ok,
        r1 matches Ok(o1) ==> (r2 matches Ok(o2) && o1@ == o2@),
        r1 matches Err(e1) ==> (r2 matches Err(e2) && spec_err_kind(e1) == spec_err_kind(e2)
            && spec_err_path(e1) == spec_err_path(e2)),
{
}

/// A mirrored node keeps its name; a mirrored directory stays a directory
/// and carries exactly the mirrored children.
pub proof fn lemma_mirror_preserves_name(cfg: ConfigView, t: SrcTree, o: OutTree)
    requires
        spec_mirror_node(cfg, t) == Ok::<Option<OutTree>, FailRecord>(Some(o)),
    ensures
        out_name(o) == src_name(t),
        t is Dir ==> o is Dir && spec_mirror_entries(cfg, src_entries(t)) == Ok::<
            Seq<OutTree>,
            FailRecord,
        >(out_entries(o)),
{
}

/// In a successfully mirrored directory every child mirrors successfully,
/// and each child's output appears among the directory's output entries.
pub proof fn lemma_mirror_entries_ok(cfg: ConfigView, ts: Seq<SrcTree>, os: Seq<OutTree>)
    requires
        spec_mirror_entries(cfg, ts) == Ok::<Seq<OutTree>, FailRecord>(os),
    ensures
        forall|i: int| 0 <= i < ts.len() ==> #[trigger] spec_mirror_node(cfg, ts[i]) is Ok,
        forall|i: int|
            0 <= i < ts.len() ==> (#[trigger] spec_mirror_node(cfg, ts[i]) matches Ok(Some(o))
                ==> os.contains(o)),
    decreases ts.len(),
{
    if ts.len() > 0 {
        let prev = spec_mirror_entries(cfg, ts.drop_last());
        let os0 = prev->Ok_0;
        lemma_mirror_entries_ok(cfg, ts.drop_last(), os0);
        assert forall|i: int| 0 <= i < ts.len() implies #[trigger] spec_mirror_node(
            cfg,
            ts[i],
        ) is Ok by {
            if i < ts.len() - 1 {
                assert(ts.drop_last()[i] == ts[i]);
                assert(spec_mirror_node(cfg, ts.drop_last()[i]) is Ok);
            } else {
                assert(ts[i] == ts.last());
            }
        }
        assert forall|i: int| 0 <= i < ts.len() implies (#[trigger] spec_mirror_node(
            cfg,
            ts[i],
        ) matches Ok(Some(o)) ==> os.contains(o)) by {
            let n = spec_mirror_node(cfg, ts[i]);
            if n is Ok && n->Ok_0 is Some {
                let o = n->Ok_0->0;
                if i < ts.len() - 1 {
                    assert(ts.drop_last()[i] == ts[i]);
                    assert(os0.contains(o));
                    let k = choose|k: int| 0 <= k < os0.len() && os0[k] == o;
                    assert(os[k] == o);
                } else {
                    assert(os.last() == o);
                }
                assert(os.contains(o));
            }
        }
    }
}

/// Every output entry of a successfully mirrored directory is the mirror
/// image of one of its children.
pub proof fn lemma_mirror_entries_onto(cfg: ConfigView, ts: Seq<SrcTree>, os: Seq<OutTree>)
    requires
        spec_mirror_entries(cfg, ts) == Ok::<Seq<OutTree>, FailRecord>(os),
    ensures
        forall|j: int|
            0 <= j < os.len() ==> exists|i: int|
                0 <= i < ts.len() && #[trigger] spec_mirror_node(cfg, ts[i]) == Ok::<
                    Option<OutTree>,
                    FailRecord,
                >(Some(#[trigger] os[j])),
    decreases ts.len(),
{
    if ts.len() > 0 {
        let prev = spec_mirror_entries(cfg, ts.drop_last());
        let os0 = prev->Ok_0;
        lemma_mirror_entries_onto(cfg, ts.drop_last(), os0);
        assert forall|j: int| 0 <= j < os.len() implies exists|i: int|
            0 <= i < ts.len() && #[trigger] spec_mirror_node(cfg, ts[i]) == Ok::<
                Option<OutTree>,
                FailRecord,
            >(Some(#[trigger] os[j])) by {
            if j < os0.len() {
                assert(os0[j] == os[j]);
                let i0 = choose|i: int|
                    0 <= i < ts.drop_last().len() && #[trigger] spec_mirror_node(
                        cfg,
                        ts.drop_last()[i],
                    ) == Ok::<Option<OutTree>, FailRecord>(Some(os0[j]));
                assert(ts.drop_last()[i0] == ts[i0]);
                assert(spec_mirror_node(cfg, ts[i0]) == Ok::<Option<OutTree>, FailRecord>(
                    Some(os[j]),
                ));
            } else {
                assert(os[j] == os.last());
                assert(spec_mirror_node(cfg, ts.last()) == Ok::<Option<OutTree>, FailRecord>(
                    Some(os[j]),
                ));
                assert(ts[ts.len() - 1] == ts.last());
            }
        }
    }
}

/// Structural mirroring: every directory under the source root appears as a
/// directory at the same relative path in the destination tree.
pub proof fn lemma_structural_mirroring(
    cfg: ConfigView,
    t: SrcTree,
    o: OutTree,
    path: Seq<Seq<char>>,
)
    requires
        spec_mirror_node(cfg, t) == Ok::<Option<OutTree>, FailRecord>(Some(o)),
        src_has_dir_at(t, path),
    ensures
        out_has_dir_at(o, path),
    decreases path.len(),
{
    lemma_mirror_preserves_name(cfg, t, o);
    if path.len() > 0 {
        let rest = path.subrange(1, path.len() as int);
        let i = choose|i: int|
            0 <= i < src_entries(t).len() && src_name(#[trigger] src_entries(t)[i]) == path[0]
                && src_has_dir_at(src_entries(t)[i], path.subrange(1, path.len() as int));
        let child = src_entries(t)[i];
        lemma_mirror_entries_ok(cfg, src_entries(t), out_entries(o));
        assert(spec_mirror_node(cfg, child) is Ok);
        let oc = spec_mirror_node(cfg, child)->Ok_0->0;
        assert(spec_mirror_node(cfg, child) == Ok::<Option<OutTree>, FailRecord>(Some(oc)));
        assert(out_entries(o).contains(oc));
        lemma_mirror_preserves_name(cfg, child, oc);
        lemma_structural_mirroring(cfg, child, oc, rest);
        let j = choose|j: int| 0 <= j < out_entries(o).len() && out_entries(o)[j] == oc;
        assert(out_name(#[trigger] out_entries(o)[j]) == path[0] && out_has_dir_at(
            out_entries(o)[j],
            path.subrange(1, path.len() as int),
        ));
    }
}

/// Ignore semantics: when every child of a directory bearing a given name
/// is a file the classifier ignores, no destination entry bears that name.
pub proof fn lemma_ignore_semantics(cfg: ConfigView, t: SrcTree, o: OutTree, name: Seq<char>)
    requires
        spec_mirror_node(cfg, t) == Ok::<Option<OutTree>, FailRecord>(Some(o)),
        t is Dir,
        forall|i: int|
            0 <= i < src_entries(t).len() && src_name(#[trigger] src_entries(t)[i]) == name
                ==> src_entries(t)[i] is File && spec_classify(cfg, name)
                == FileVerdict::Ignore,
    ensures
        forall|j: int| 0 <= j < out_entries(o).len() ==> out_name(
            #[trigger] out_entries(o)[j],
        ) != name,
{
    lemma_mirror_preserves_name(cfg, t, o);
    lemma_mirror_entries_onto(cfg, src_entries(t), out_entries(o));
    assert forall|j: int| 0 <= j < out_entries(o).len() implies out_name(
        #[trigger] out_entries(o)[j],
    ) != name by {
        let i = choose|i: int|
            0 <= i < src_entries(t).len() && #[trigger] spec_mirror_node(
                cfg,
                src_entries(t)[i],
            ) == Ok::<Option<OutTree>, FailRecord>(Some(out_entries(o)[j]));
        lemma_mirror_preserves_name(cfg, src_entries(t)[i], out_entries(o)[j]);
        if out_name(out_entries(o)[j]) == name {
            assert(src_name(src_entries(t)[i]) == name);
            assert(src_entries(t)[i] is File);
            assert(spec_mirror_node(cfg, src_entries(t)[i]) == Ok::<
                Option<OutTree>,
                FailRecord,
            >(None));
            assert(false);
        }
    }
}

} // verus!
