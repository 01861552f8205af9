//! Statements the library guarantees of every parse, proved once and for
//! all over the grammar: inclusive framing, node-table registration, pivot
//! binding, face validity, bounding-box correctness, sentinel decoding and
//! unknown-tag tolerance.

use vstd::prelude::*;

use crate::grammar::{
    aabb_of, bbox_extend, bbox_fold, bind_pivots, chunks_from, faces_in_range, fmax, fmin,
    geos_chunk, mtls_chunk, place_node, TAG_ATCH, TAG_BONE, TAG_CLID, TAG_EVTS, TAG_GEOA,
    TAG_GEOS, TAG_GLBS, TAG_HELP, TAG_MODL, TAG_MTLS, TAG_PIVT, TAG_SEQS, TAG_TEXS, TAG_VERS,
};
use crate::model::{BoundingBox, ModelV, NodeV, Vec3};
use crate::wire::{fbits_le, le32_at, opt_i32, opt_u32};

verus! {

/// Inclusive framing of materials: when the `MTLS` body parses and a record
/// starts at `p`, the record's size word counts its own four bytes, the
/// rest of the chunk parses from `p + size`, and the records after the
/// first are exactly the records parsed from there.
pub proof fn lemma_mtls_inclusive_framing(d: Seq<u8>, p: int, end: int)
    requires
        mtls_chunk(d, p, end) is Ok,
        p < end,
    ensures
        le32_at(d, p) >= 4,
        mtls_chunk(d, p + le32_at(d, p), end) is Ok,
        mtls_chunk(d, p, end)->Ok_0.0.len() == 1 + mtls_chunk(d, p + le32_at(d, p), end)->Ok_0.0.len(),
        mtls_chunk(d, p, end)->Ok_0.0.skip(1) == mtls_chunk(d, p + le32_at(d, p), end)->Ok_0.0,
        mtls_chunk(d, p, end)->Ok_0.1 == mtls_chunk(d, p + le32_at(d, p), end)->Ok_0.1,
{
    let msize = le32_at(d, p);
    let rest = mtls_chunk(d, p + msize, end)->Ok_0.0;
    assert(mtls_chunk(d, p, end)->Ok_0.0.skip(1) =~= rest);
}

/// Inclusive framing of geosets: the same discipline for `GEOS` records.
pub proof fn lemma_geos_inclusive_framing(d: Seq<u8>, p: int, end: int)
    requires
        geos_chunk(d, p, end) is Ok,
        p < end,
    ensures
        le32_at(d, p) >= 4,
        geos_chunk(d, p + le32_at(d, p), end) is Ok,
        geos_chunk(d, p, end)->Ok_0.0.len() == 1 + geos_chunk(d, p + le32_at(d, p), end)->Ok_0.0.len(),
        geos_chunk(d, p, end)->Ok_0.0.skip(1) == geos_chunk(d, p + le32_at(d, p), end)->Ok_0.0,
        geos_chunk(d, p, end)->Ok_0.1 == geos_chunk(d, p + le32_at(d, p), end)->Ok_0.1,
{
    let gsize = le32_at(d, p);
    let rest = geos_chunk(d, p + gsize, end)->Ok_0.0;
    assert(geos_chunk(d, p, end)->Ok_0.0.skip(1) =~= rest);
}

/// Node-table registration: placing a node with object id `k` grows the
/// table to cover `k`, stores exactly that node at index `k`, and leaves
/// every other index as it was.
pub proof fn lemma_place_node_registers(t: Seq<Option<NodeV>>, n: NodeV)
    requires
        n.object_id is Some,
    ensures
        place_node(t, n).len() == (if t.len() <= n.object_id->0 {
            n.object_id->0 + 1
        } else {
            t.len() as int
        }),
        place_node(t, n)[n.object_id->0 as int] == Some(n),
        forall|j: int|
            0 <= j < t.len() && j != n.object_id->0 ==> #[trigger] place_node(t, n)[j] == t[j],
        forall|j: int|
            t.len() <= j < place_node(t, n).len() && j != n.object_id->0 ==> #[trigger] place_node(
                t,
                n,
            )[j] is None,
{
}

/// A node without an object id leaves the table untouched.
pub proof fn lemma_place_node_absent(t: Seq<Option<NodeV>>, n: NodeV)
    requires
        n.object_id is None,
    ensures
        place_node(t, n) == t,
{
}

/// Pivot alignment: after the post-pass, every present node whose index
/// falls within the pivot list carries the pivot point at its index, and
/// nothing else about the table changes.
pub proof fn lemma_bind_pivots_alignment(t: Seq<Option<NodeV>>, pivots: Seq<Vec3>)
    ensures
        bind_pivots(t, pivots).len() == t.len(),
        forall|i: int|
            0 <= i < t.len() && i < pivots.len() && t[i] is Some ==> #[trigger] bind_pivots(
                t,
                pivots,
            )[i] == Some(NodeV { pivot_point: Some(pivots[i]), ..t[i]->0 }),
        forall|i: int|
            0 <= i < t.len() && (i >= pivots.len() || t[i] is None) ==> #[trigger] bind_pivots(
                t,
                pivots,
            )[i] == t[i],
{
}

/// Face validity: every geoset the `GEOS` body yields has all its face
/// indices inside its own vertex list.
pub proof fn lemma_geos_faces_valid(d: Seq<u8>, p: int, end: int)
    requires
        geos_chunk(d, p, end) is Ok,
    ensures
        forall|i: int|
            0 <= i < geos_chunk(d, p, end)->Ok_0.0.len() ==> faces_in_range(
                #[trigger] geos_chunk(d, p, end)->Ok_0.0[i].faces,
                geos_chunk(d, p, end)->Ok_0.0[i].vertices.len() as int,
            ),
    decreases d.len() - p,
{
    if p < end && p + 4 <= d.len() {
        let gsize = le32_at(d, p);
        if gsize >= 4 && p + gsize <= d.len() {
            if geos_chunk(d, p + gsize, end) is Ok {
                lemma_geos_faces_valid(d, p + gsize, end);
                let head = geos_chunk(d, p, end)->Ok_0.0[0];
                let rest = geos_chunk(d, p + gsize, end)->Ok_0.0;
                assert forall|i: int|
                    0 <= i < geos_chunk(d, p, end)->Ok_0.0.len() implies faces_in_range(
                    #[trigger] geos_chunk(d, p, end)->Ok_0.0[i].faces,
                    geos_chunk(d, p, end)->Ok_0.0[i].vertices.len() as int,
                ) by {
                    if i > 0 {
                        assert(geos_chunk(d, p, end)->Ok_0.0[i] == rest[i - 1]);
                    }
                }
            }
        }
    }
}

/// `fmin` picks one of its arguments and lies at or below both.
pub proof fn lemma_fmin_le(a: u32, b: u32)
    ensures
        fbits_le(fmin(a, b), a),
        fbits_le(fmin(a, b), b),
        fmin(a, b) == a || fmin(a, b) == b,
{
}

/// `fmax` picks one of its arguments and lies at or above both.
pub proof fn lemma_fmax_ge(a: u32, b: u32)
    ensures
        fbits_le(a, fmax(a, b)),
        fbits_le(b, fmax(a, b)),
        fmax(a, b) == a || fmax(a, b) == b,
{
}

/// The bounding-box fold covers every vertex from `i` on, only widens the
/// box it starts from, and each bound it reports is attained by the box it
/// starts from or by some covered vertex.
pub proof fn lemma_bbox_fold_bounds(vs: Seq<Vec3>, i: int, cur: BoundingBox)
    requires
        0 <= i <= vs.len(),
    ensures
        forall|j: int|
            #![trigger vs[j]]
            i <= j < vs.len() ==> fbits_le(bbox_fold(vs, i, cur).min.x, vs[j].x) && fbits_le(
                bbox_fold(vs, i, cur).min.y,
                vs[j].y,
            ) && fbits_le(bbox_fold(vs, i, cur).min.z, vs[j].z) && fbits_le(
                vs[j].x,
                bbox_fold(vs, i, cur).max.x,
            ) && fbits_le(vs[j].y, bbox_fold(vs, i, cur).max.y) && fbits_le(
                vs[j].z,
                bbox_fold(vs, i, cur).max.z,
            ),
        fbits_le(bbox_fold(vs, i, cur).min.x, cur.min.x),
        fbits_le(bbox_fold(vs, i, cur).min.y, cur.min.y),
        fbits_le(bbox_fold(vs, i, cur).min.z, cur.min.z),
        fbits_le(cur.max.x, bbox_fold(vs, i, cur).max.x),
        fbits_le(cur.max.y, bbox_fold(vs, i, cur).max.y),
        fbits_le(cur.max.z, bbox_fold(vs, i, cur).max.z),
        bbox_fold(vs, i, cur).min.x == cur.min.x || exists|j: int|
            i <= j < vs.len() && bbox_fold(vs, i, cur).min.x == vs[j].x,
        bbox_fold(vs, i, cur).min.y == cur.min.y || exists|j: int|
            i <= j < vs.len() && bbox_fold(vs, i, cur).min.y == vs[j].y,
        bbox_fold(vs, i, cur).min.z == cur.min.z || exists|j: int|
            i <= j < vs.len() && bbox_fold(vs, i, cur).min.z == vs[j].z,
        bbox_fold(vs, i, cur).max.x == cur.max.x || exists|j: int|
            i <= j < vs.len() && bbox_fold(vs, i, cur).max.x == vs[j].x,
        bbox_fold(vs, i, cur).max.y == cur.max.y || exists|j: int|
            i <= j < vs.len() && bbox_fold(vs, i, cur).max.y == vs[j].y,
        bbox_fold(vs, i, cur).max.z == cur.max.z || exists|j: int|
            i <= j < vs.len() && bbox_fold(vs, i, cur).max.z == vs[j].z,
    decreases vs.len() - i,
{
    if i < vs.len() {
        lemma_bbox_fold_bounds(vs, i + 1, bbox_extend(cur, vs[i]));
    }
}

/// Bounding-box correctness: for a non-empty vertex list, each component
/// of `min` (resp. `max`) is a lower (upper) bound on that component over
/// all vertices in the encoded-scalar order, and is attained by one of
/// them.
pub proof fn lemma_aabb_bounds(vs: Seq<Vec3>)
    requires
        vs.len() > 0,
    ensures
        forall|j: int|
            #![trigger vs[j]]
            0 <= j < vs.len() ==> fbits_le(aabb_of(vs).min.x, vs[j].x) && fbits_le(
                aabb_of(vs).min.y,
                vs[j].y,
            ) && fbits_le(aabb_of(vs).min.z, vs[j].z) && fbits_le(vs[j].x, aabb_of(vs).max.x)
                && fbits_le(vs[j].y, aabb_of(vs).max.y) && fbits_le(vs[j].z, aabb_of(vs).max.z),
        exists|j: int| 0 <= j < vs.len() && aabb_of(vs).min.x == vs[j].x,
        exists|j: int| 0 <= j < vs.len() && aabb_of(vs).min.y == vs[j].y,
        exists|j: int| 0 <= j < vs.len() && aabb_of(vs).min.z == vs[j].z,
        exists|j: int| 0 <= j < vs.len() && aabb_of(vs).max.x == vs[j].x,
        exists|j: int| 0 <= j < vs.len() && aabb_of(vs).max.y == vs[j].y,
        exists|j: int| 0 <= j < vs.len() && aabb_of(vs).max.z == vs[j].z,
{
    let init = BoundingBox { min: vs[0], max: vs[0] };
    lemma_bbox_fold_bounds(vs, 0, init);
    assert(vs[0].x == init.min.x);
}

/// Sentinel decoding of unsigned identifiers: the all-ones word (`-1` as a
/// signed field) decodes as absent; anything else decodes as itself.
pub proof fn lemma_sentinel_u32(v: u32)
    ensures
        v == 0xFFFF_FFFFu32 ==> opt_u32(v) is None,
        v != 0xFFFF_FFFFu32 ==> opt_u32(v) == Some(v),
{
}

/// Sentinel decoding of signed fields: `-1` decodes as absent; anything
/// else decodes as itself.
pub proof fn lemma_sentinel_i32(v: i32)
    ensures
        v == -1 ==> opt_i32(v) is None,
        v != -1 ==> opt_i32(v) == Some(v),
{
}

/// Whether a tag word names a chunk the framer gives to a typed parser.
pub open spec fn dispatched_tag(tag: u32) -> bool {
    ||| tag == TAG_VERS
    ||| tag == TAG_MODL
    ||| tag == TAG_SEQS
    ||| tag == TAG_GLBS
    ||| tag == TAG_TEXS
    ||| tag == TAG_MTLS
    ||| tag == TAG_GEOS
    ||| tag == TAG_GEOA
    ||| tag == TAG_BONE
    ||| tag == TAG_HELP
    ||| tag == TAG_ATCH
    ||| tag == TAG_PIVT
    ||| tag == TAG_EVTS
    ||| tag == TAG_CLID
}

/// Unknown-tag tolerance: a top-level chunk whose tag no typed parser
/// handles, with a size that stays inside the input, leaves the document
/// untouched: the parse continues past its declared size with the same
/// model, so the result equals the parse of the remaining chunks alone.
pub proof fn lemma_unknown_tag_skipped(d: Seq<u8>, p: int, m: ModelV)
    requires
        0 <= p,
        p + 8 <= d.len(),
        !dispatched_tag(le32_at(d, p)),
        p + 8 + le32_at(d, p + 4) <= d.len(),
    ensures
        chunks_from(d, p, m) == chunks_from(d, p + 8 + le32_at(d, p + 4), m),
{
}

} // verus!

