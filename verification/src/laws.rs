//! Document-level guarantees of the parser, proved once and for all
//! inputs: lossless storage of scalar data, index rebasing, index validity
//! inside each group, the drop-empty policy, the presence rules for
//! optional face indices, and material resolution.

use vstd::prelude::*;

use crate::classify::{
    spec_face_pair, spec_face_pairs, spec_index_field, spec_obj_line, ObjCommandView,
};
use crate::error::Error;
use crate::numbers::{dec_val, uint_digits};
use crate::obj::{group_wf, pair_in_bounds, FaceIndexPair, GroupView};
use crate::parser::{
    accumulating_group, find_material_index, initial_parser, spec_commit_group,
    spec_commit_object, spec_feed, spec_find_material, spec_finish, spec_rebase, spec_rebase_pair,
    ParserView,
};
use crate::mtl::MaterialView;
use crate::text::split_seq;

verus! {

/// A face line that parses yields one index pair per token, each the
/// reading of its own token.
pub proof fn lemma_face_pairs_index(data: Seq<Seq<char>>)
    requires
        spec_face_pairs(data) is Ok,
    ensures
        spec_face_pairs(data)->Ok_0.len() == data.len(),
        forall|k: int|
            0 <= k < data.len() ==> spec_face_pair(#[trigger] data[k]) is Ok && spec_face_pairs(
                data,
            )->Ok_0[k] == spec_face_pair(data[k])->Ok_0,
    decreases data.len(),
{
    if data.len() > 0 {
        lemma_face_pairs_index(data.skip(1));
        assert(forall|k: int| 1 <= k < data.len() ==> data.skip(1)[k - 1] == #[trigger] data[k]);
    }
}

/// A face that rebases yields one pair per corner, each the rebasing of
/// its own corner.
pub proof fn lemma_rebase_index(ps: Seq<FaceIndexPair>, st: ParserView)
    requires
        spec_rebase(ps, st) is Ok,
    ensures
        spec_rebase(ps, st)->Ok_0.len() == ps.len(),
        forall|k: int|
            0 <= k < ps.len() ==> spec_rebase_pair(#[trigger] ps[k], st) is Ok && spec_rebase(
                ps,
                st,
            )->Ok_0[k] == spec_rebase_pair(ps[k], st)->Ok_0,
    decreases ps.len(),
{
    if ps.len() > 0 {
        lemma_rebase_index(ps.skip(1), st);
        assert(forall|k: int| 1 <= k < ps.len() ==> ps.skip(1)[k - 1] == #[trigger] ps[k]);
    }
}

/// Lossless storage of scalar data: when a line is accepted as a vertex,
/// texture coordinate or normal directive, the component tokens stored in
/// the respective buffer are exactly the line's argument tokens — nothing
/// is rounded or rewritten on the way in.
pub proof fn lemma_scalar_data_lossless(st: ParserView, line: Seq<char>)
    requires
        !crate::text::line_skipped(line),
        spec_feed(st, line) is Ok,
    ensures
        ({
            let toks = crate::text::tokens_of(line);
            let cmd = spec_obj_line(toks[0], toks.skip(1));
            let st2 = spec_feed(st, line)->Ok_0.0;
            &&& (cmd matches Ok(ObjCommandView::Vertex(v)) ==> st2.vertices == st.vertices.push(v)
                && v.x == toks[1] && v.y == toks[2] && v.z == toks[3])
            &&& (cmd matches Ok(ObjCommandView::VertexUv(v)) ==> st2.texture_uvs
                == st.texture_uvs.push(v) && v.u == toks[1] && v.v == toks[2])
            &&& (cmd matches Ok(ObjCommandView::VertexNormal(v)) ==> st2.normals
                == st.normals.push(v) && v.x == toks[1] && v.y == toks[2] && v.z == toks[3])
        }),
{
    crate::text::lemma_content_has_token(line);
    let toks = crate::text::tokens_of(line);
    let data = toks.skip(1);
    let parsed = spec_obj_line(toks[0], data);
    if parsed is Ok {
        match parsed->Ok_0 {
            ObjCommandView::Vertex(v) => {
                assert(crate::classify::spec_take_vec3(data) == Ok::<_, Error>(v));
                assert(data[0] == toks[1] && data[1] == toks[2] && data[2] == toks[3]);
            },
            ObjCommandView::VertexUv(v) => {
                assert(crate::classify::spec_take_vec2(data) == Ok::<_, Error>(v));
                assert(data[0] == toks[1] && data[1] == toks[2]);
            },
            ObjCommandView::VertexNormal(v) => {
                assert(crate::classify::spec_take_vec3(data) == Ok::<_, Error>(v));
                assert(data[0] == toks[1] && data[1] == toks[2] && data[2] == toks[3]);
            },
            _ => {},
        }
    }
}

/// Index rebasing: when a face line whose tokens are `data` is accepted in
/// state `st`, the vertex index stored for the `k`-th corner equals
/// `i - 1 - o`, where `i` is the one-based source index written in the
/// `k`-th face token and `o` is the count of vertices committed in all
/// groups closed before the current one (`st.v_offset`).  This holds in
/// every state, so in particular across multi-group and multi-object
/// documents.
pub proof fn lemma_index_rebasing(st: ParserView, data: Seq<Seq<char>>, k: int)
    requires
        0 <= k < data.len(),
        spec_face_pairs(data) is Ok,
        spec_rebase(spec_face_pairs(data)->Ok_0, st) is Ok,
    ensures
        ({
            let source_index = dec_val(uint_digits(split_seq(data[k], '/')[0]));
            let stored = spec_rebase(spec_face_pairs(data)->Ok_0, st)->Ok_0[k];
            stored.0 + st.v_offset + 1 == source_index
        }),
{
    lemma_face_pairs_index(data);
    let ps = spec_face_pairs(data)->Ok_0;
    lemma_rebase_index(ps, st);
    let p = ps[k];
    assert(p == spec_face_pair(data[k])->Ok_0);
    let stored = spec_rebase(ps, st)->Ok_0[k];
    assert(stored == spec_rebase_pair(p, st)->Ok_0);
    assert(stored.0 == p.0 - st.v_offset);
    let fields = split_seq(data[k], '/');
    assert(spec_index_field(fields[0]) is Ok);
    assert(p.0 == spec_index_field(fields[0])->Ok_0);
    assert(crate::numbers::is_uint_token(fields[0]));
    crate::numbers::lemma_dec_val_nonnegative(uint_digits(fields[0]));
    assert(p.0 == dec_val(uint_digits(fields[0])) - 1);
}

/// The optional indices of a face token are present exactly where the
/// token's slash-separated field exists and is non-empty: `v//n` yields an
/// absent texture index and a present normal index, `v` alone yields both
/// absent, and `v/t/n` yields both present.
pub proof fn lemma_optional_fields(t: Seq<char>)
    requires
        spec_face_pair(t) is Ok,
    ensures
        ({
            let fields = split_seq(t, '/');
            let p = spec_face_pair(t)->Ok_0;
            &&& (p.1 is Some <==> fields.len() >= 2 && fields[1].len() > 0)
            &&& (p.2 is Some <==> fields.len() >= 3 && fields[2].len() > 0)
        }),
{
}

/// Selecting a material name that the table does not hold yields no
/// reference: the face is stored without a material, not rejected.
pub proof fn lemma_unknown_material(ms: Seq<MaterialView>, name: Seq<char>)
    requires
        forall|i: int| 0 <= i < ms.len() ==> (#[trigger] ms[i]).name != name,
    ensures
        spec_find_material(ms, name) is None,
    decreases ms.len(),
{
    if ms.len() > 0 {
        assert(forall|i: int| 0 <= i < ms.skip(1).len() ==> ms.skip(1)[i] == #[trigger] ms[i + 1]);
        lemma_unknown_material(ms.skip(1), name);
    }
}

/// Selecting a material name that the table holds yields the index of the
/// first material with that name.
pub proof fn lemma_found_material(ms: Seq<MaterialView>, name: Seq<char>)
    requires
        find_material_index(ms, name) is Some,
    ensures
        ({
            let i = find_material_index(ms, name)->0;
            &&& 0 <= i < ms.len()
            &&& ms[i].name == name
            &&& forall|j: int| 0 <= j < i ==> (#[trigger] ms[j]).name != name
        }),
    decreases ms.len(),
{
    if ms.len() > 0 {
        if ms[0].name == name {
            assert(find_material_index(ms, name) == Some(0int));
        } else {
            lemma_found_material(ms.skip(1), name);
            let i1 = find_material_index(ms.skip(1), name)->0;
            let i = find_material_index(ms, name)->0;
            assert(i == i1 + 1);
            assert(ms.skip(1)[i1] == ms[i]);
            assert forall|j: int| 0 <= j < i implies (#[trigger] ms[j]).name != name by {
                if j >= 1 {
                    assert(ms.skip(1)[j - 1] == ms[j]);
                }
            }
        }
    }
}

/// Whether every group and object committed so far is non-empty: each
/// committed group holds at least one face, and each committed object at
/// least one group of faces.
pub open spec fn committed_nonempty(st: ParserView) -> bool {
    &&& forall|i: int| 0 <= i < st.groups.len() ==> (#[trigger] st.groups[i]).faces.len() > 0
    &&& forall|i: int| 0 <= i < st.objects.len() ==> (#[trigger] st.objects[i]).groups.len() > 0
    &&& forall|i: int, j: int|
        0 <= i < st.objects.len() && 0 <= j < st.objects[i].groups.len() ==> (
        #[trigger] st.objects[i].groups[j]).faces.len() > 0
}

/// A new parser has committed nothing, so trivially nothing empty.
pub proof fn lemma_initial_nonempty()
    ensures
        committed_nonempty(initial_parser()),
{
}

/// Committing a group preserves non-emptiness: an empty group is dropped,
/// never committed.
pub proof fn lemma_commit_group_nonempty(st: ParserView, name: Option<Seq<char>>)
    requires
        committed_nonempty(st),
    ensures
        committed_nonempty(spec_commit_group(st, name)),
{
}

/// Committing an object preserves non-emptiness: an empty object is
/// dropped, never committed, and every group it carries was committed
/// non-empty.
pub proof fn lemma_commit_object_nonempty(st: ParserView, name: Option<Seq<char>>)
    requires
        committed_nonempty(st),
    ensures
        committed_nonempty(spec_commit_object(st, name)),
{
    let st2 = spec_commit_object(st, name);
    if st.groups.len() > 0 {
        assert(st2.objects[st2.objects.len() - 1].groups == st.groups);
    }
}

/// Feeding any line preserves non-emptiness of everything committed.
pub proof fn lemma_feed_preserves_nonempty(st: ParserView, line: Seq<char>)
    requires
        committed_nonempty(st),
        spec_feed(st, line) is Ok,
    ensures
        committed_nonempty(spec_feed(st, line)->Ok_0.0),
{
    if !crate::text::line_skipped(line) {
        let toks = crate::text::tokens_of(line);
        let parsed = spec_obj_line(toks[0], toks.skip(1));
        if parsed is Ok {
            match parsed->Ok_0 {
                ObjCommandView::Object(n) => {
                    lemma_commit_group_nonempty(st, None);
                    lemma_commit_object_nonempty(spec_commit_group(st, None), n);
                },
                ObjCommandView::Group(n) => {
                    lemma_commit_group_nonempty(st, n);
                },
                _ => {},
            }
        }
    }
}

/// Whether every group this state holds — committed into objects,
/// pending, or still accumulating — references only data it holds itself:
/// each stored face index is a valid offset into its group's own arrays.
pub open spec fn groups_wf(st: ParserView) -> bool {
    &&& group_wf(accumulating_group(st))
    &&& forall|i: int| 0 <= i < st.groups.len() ==> group_wf(#[trigger] st.groups[i])
    &&& forall|i: int, j: int|
        0 <= i < st.objects.len() && 0 <= j < st.objects[i].groups.len() ==> group_wf(
            #[trigger] st.objects[i].groups[j],
        )
}

/// A new parser holds no face, so every group it holds is trivially
/// well-formed.
pub proof fn lemma_initial_wf()
    ensures
        groups_wf(initial_parser()),
{
}

/// Committing a group preserves well-formedness: the committed group is
/// the accumulating one, and the new accumulating group is empty.
pub proof fn lemma_commit_group_wf(st: ParserView, name: Option<Seq<char>>)
    requires
        groups_wf(st),
    ensures
        groups_wf(spec_commit_group(st, name)),
{
    let st2 = spec_commit_group(st, name);
    assert(group_wf(accumulating_group(st2)));
    if st.faces.len() > 0 {
        assert(st2.groups[st2.groups.len() - 1] == accumulating_group(st));
    }
}

/// Committing an object preserves well-formedness: the groups it carries
/// were each committed well-formed.
pub proof fn lemma_commit_object_wf(st: ParserView, name: Option<Seq<char>>)
    requires
        groups_wf(st),
    ensures
        groups_wf(spec_commit_object(st, name)),
{
    let st2 = spec_commit_object(st, name);
    if st.groups.len() > 0 {
        assert(st2.objects[st2.objects.len() - 1].groups == st.groups);
    }
}

/// Extending a buffer of the accumulating group keeps its faces in
/// bounds: the arrays only grow while faces accumulate.
proof fn lemma_group_wf_grows(g: GroupView, g2: GroupView)
    requires
        group_wf(g),
        g2.faces == g.faces,
        g2.vertices.len() >= g.vertices.len(),
        g2.texture_uvs.len() >= g.texture_uvs.len(),
        g2.normals.len() >= g.normals.len(),
    ensures
        group_wf(g2),
{
    assert forall|i: int, j: int|
        0 <= i < g2.faces.len() && 0 <= j < g2.faces[i].pairs.len() implies pair_in_bounds(
        #[trigger] g2.faces[i].pairs[j],
        g2,
    ) by {
        assert(pair_in_bounds(g.faces[i].pairs[j], g));
    }
}

/// A face that rebasing accepted references only data the buffers hold.
proof fn lemma_rebase_in_bounds(ps: Seq<FaceIndexPair>, st: ParserView)
    requires
        spec_rebase(ps, st) is Ok,
    ensures
        forall|j: int|
            0 <= j < spec_rebase(ps, st)->Ok_0.len() ==> pair_in_bounds(
                #[trigger] spec_rebase(ps, st)->Ok_0[j],
                accumulating_group(st),
            ),
{
    lemma_rebase_index(ps, st);
    let rs = spec_rebase(ps, st)->Ok_0;
    assert forall|j: int| 0 <= j < rs.len() implies pair_in_bounds(
        #[trigger] rs[j],
        accumulating_group(st),
    ) by {
        assert(spec_rebase_pair(ps[j], st) is Ok);
        assert(rs[j] == spec_rebase_pair(ps[j], st)->Ok_0);
    }
}

/// Feeding any line preserves well-formedness of every group held.
pub proof fn lemma_feed_preserves_wf(st: ParserView, line: Seq<char>)
    requires
        groups_wf(st),
        spec_feed(st, line) is Ok,
    ensures
        groups_wf(spec_feed(st, line)->Ok_0.0),
{
    if !crate::text::line_skipped(line) {
        let toks = crate::text::tokens_of(line);
        let parsed = spec_obj_line(toks[0], toks.skip(1));
        if parsed is Ok {
            let st2 = spec_feed(st, line)->Ok_0.0;
            match parsed->Ok_0 {
                ObjCommandView::Object(n) => {
                    lemma_commit_group_wf(st, None);
                    lemma_commit_object_wf(spec_commit_group(st, None), n);
                },
                ObjCommandView::Group(n) => {
                    lemma_commit_group_wf(st, n);
                },
                ObjCommandView::Vertex(_) => {
                    lemma_group_wf_grows(accumulating_group(st), accumulating_group(st2));
                },
                ObjCommandView::VertexUv(_) => {
                    lemma_group_wf_grows(accumulating_group(st), accumulating_group(st2));
                },
                ObjCommandView::VertexNormal(_) => {
                    lemma_group_wf_grows(accumulating_group(st), accumulating_group(st2));
                },
                ObjCommandView::Face(ps) => {
                    lemma_rebase_in_bounds(ps, st);
                    let g = accumulating_group(st);
                    let g2 = accumulating_group(st2);
                    assert forall|i: int, j: int|
                        0 <= i < g2.faces.len() && 0 <= j < g2.faces[i].pairs.len()
                        implies pair_in_bounds(#[trigger] g2.faces[i].pairs[j], g2) by {
                        if i < g.faces.len() {
                            assert(pair_in_bounds(g.faces[i].pairs[j], g));
                        }
                    }
                },
                _ => {},
            }
        }
    }
}

/// The index-validity guarantee: in the document that a parser returns,
/// every stored face index is a valid offset into its group's own arrays,
/// provided every group held so far is well-formed — which holds in every
/// state reachable from a new parser, by the two lemmas above.
pub proof fn lemma_finish_groups_wf(st: ParserView)
    requires
        groups_wf(st),
    ensures
        ({
            let doc = spec_finish(st);
            forall|i: int, j: int|
                0 <= i < doc.objects.len() && 0 <= j < doc.objects[i].groups.len() ==> group_wf(
                    #[trigger] doc.objects[i].groups[j],
                )
        }),
{
    lemma_commit_group_wf(st, None);
    lemma_commit_object_wf(spec_commit_group(st, None), None);
}

/// The drop-empty guarantee: in the document that a parser returns, no
/// object is without groups, and no group is without faces, provided
/// everything committed so far is non-empty — which holds in every state
/// reachable from a new parser, by the two lemmas above.
pub proof fn lemma_finish_drops_empty(st: ParserView)
    requires
        committed_nonempty(st),
    ensures
        ({
            let doc = spec_finish(st);
            &&& forall|i: int| 0 <= i < doc.objects.len() ==> (
            #[trigger] doc.objects[i]).groups.len() > 0
            &&& forall|i: int, j: int|
                0 <= i < doc.objects.len() && 0 <= j < doc.objects[i].groups.len() ==> (
                #[trigger] doc.objects[i].groups[j]).faces.len() > 0
        }),
{
    lemma_commit_group_nonempty(st, None);
    lemma_commit_object_nonempty(spec_commit_group(st, None), None);
}

} // verus!
