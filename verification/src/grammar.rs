//! The meaning of the MDX chunk grammar, as spec functions over the raw
//! bytes.
//!
//! Every typed chunk parser in this crate is proved equal to the
//! corresponding function here.  Positions are absolute byte offsets into
//! the input; each function that consumes a variable amount of input
//! returns the position of the next unread byte together with its records.
//!
//! Size discipline: `MTLS` and `GEOS` records and material layers carry an
//! inclusive size (it counts its own four bytes), so the next record begins
//! at `size_field_pos + size`.  Plain chunks and node records reposition by
//! their declared sizes as well; a size that points past end-of-input, or an
//! inclusive size too small to cover its own size field, is `Corrupt`.

use vstd::prelude::*;

use crate::model::{
    AttachmentV, BoundingBox, CollisionShapeV, EventObjectV, Face, GeosetAnim, GeosetV, Layer,
    MaterialV, ModelInfoV, ModelV, NodeV, ParseError, SequenceV, TextureV, Vec2, Vec3,
};
use crate::reader::{extent_at, vec3_at};
use crate::wire::{
    fbits_le, le16_at, le32_at, le32i_at, nul_prefix, opt_i32, opt_u32, path_slice, utf8_lossy_of,
};

verus! {

// Top-level chunk tags as little-endian `u32` values of their ASCII bytes.
pub const TAG_VERS: u32 = 0x53524556;  // "VERS"
pub const TAG_MODL: u32 = 0x4C444F4D;  // "MODL"
pub const TAG_SEQS: u32 = 0x53514553;  // "SEQS"
pub const TAG_GLBS: u32 = 0x53424C47;  // "GLBS"
pub const TAG_MTLS: u32 = 0x534C544D;  // "MTLS"
pub const TAG_TEXS: u32 = 0x53584554;  // "TEXS"
pub const TAG_TXAN: u32 = 0x4E415854;  // "TXAN"
pub const TAG_GEOS: u32 = 0x534F4547;  // "GEOS"
pub const TAG_GEOA: u32 = 0x414F4547;  // "GEOA"
pub const TAG_BONE: u32 = 0x454E4F42;  // "BONE"
pub const TAG_HELP: u32 = 0x504C4548;  // "HELP"
pub const TAG_ATCH: u32 = 0x48435441;  // "ATCH"
pub const TAG_PIVT: u32 = 0x54564950;  // "PIVT"
pub const TAG_EVTS: u32 = 0x53545645;  // "EVTS"
pub const TAG_CLID: u32 = 0x44494C43;  // "CLID"
pub const TAG_CAMS: u32 = 0x534D4143;  // "CAMS"
pub const TAG_LITE: u32 = 0x4554494C;  // "LITE"
pub const TAG_PREM: u32 = 0x4D455250;  // "PREM"
pub const TAG_PRE2: u32 = 0x32455250;  // "PRE2"
pub const TAG_RIBB: u32 = 0x42424952;  // "RIBB"

// Sub-chunk tags.
pub const TAG_LAYS: u32 = 0x5359414C;  // "LAYS"
pub const TAG_KEVT: u32 = 0x5456454B;  // "KEVT"
pub const TAG_VRTX: u32 = 0x58545256;  // "VRTX"
pub const TAG_NRMS: u32 = 0x534D524E;  // "NRMS"
pub const TAG_PTYP: u32 = 0x50595450;  // "PTYP"
pub const TAG_PCNT: u32 = 0x544E4350;  // "PCNT"
pub const TAG_PVTX: u32 = 0x58545650;  // "PVTX"
pub const TAG_GNDX: u32 = 0x58444E47;  // "GNDX"
pub const TAG_MTGC: u32 = 0x4347544D;  // "MTGC"
pub const TAG_MATS: u32 = 0x5354414D;  // "MATS"
pub const TAG_TANG: u32 = 0x474E4154;  // "TANG"
pub const TAG_SKIN: u32 = 0x4E494B53;  // "SKIN"
pub const TAG_UVAS: u32 = 0x53415655;  // "UVAS"

/// `n` consecutive little-endian `u32` values starting at `p`.
pub open spec fn u32s_at(d: Seq<u8>, p: int, n: nat) -> Result<(Seq<u32>, int), ParseError>
    decreases n,
{
    if n == 0 {
        Ok((Seq::empty(), p))
    } else if p + 4 > d.len() {
        Err(ParseError::UnexpectedEof)
    } else {
        match u32s_at(d, p + 4, (n - 1) as nat) {
            Ok((rest, q)) => Ok((seq![le32_at(d, p)] + rest, q)),
            Err(e) => Err(e),
        }
    }
}

/// `n` consecutive 12-byte vectors starting at `p`.
pub open spec fn vec3s_at(d: Seq<u8>, p: int, n: nat) -> Result<(Seq<Vec3>, int), ParseError>
    decreases n,
{
    if n == 0 {
        Ok((Seq::empty(), p))
    } else if p + 12 > d.len() {
        Err(ParseError::UnexpectedEof)
    } else {
        match vec3s_at(d, p + 12, (n - 1) as nat) {
            Ok((rest, q)) => Ok((seq![vec3_at(d, p)] + rest, q)),
            Err(e) => Err(e),
        }
    }
}

/// `n` consecutive 8-byte texture coordinate pairs starting at `p`.
pub open spec fn vec2s_at(d: Seq<u8>, p: int, n: nat) -> Result<(Seq<Vec2>, int), ParseError>
    decreases n,
{
    if n == 0 {
        Ok((Seq::empty(), p))
    } else if p + 8 > d.len() {
        Err(ParseError::UnexpectedEof)
    } else {
        match vec2s_at(d, p + 8, (n - 1) as nat) {
            Ok((rest, q)) => Ok(
                (seq![Vec2 { u: le32_at(d, p), v: le32_at(d, p + 4) }] + rest, q),
            ),
            Err(e) => Err(e),
        }
    }
}

/// `n` consecutive triangles of three little-endian `u16` indices each.
pub open spec fn faces_at(d: Seq<u8>, p: int, n: nat) -> Result<(Seq<Face>, int), ParseError>
    decreases n,
{
    if n == 0 {
        Ok((Seq::empty(), p))
    } else if p + 6 > d.len() {
        Err(ParseError::UnexpectedEof)
    } else {
        match faces_at(d, p + 6, (n - 1) as nat) {
            Ok((rest, q)) => Ok(
                (
                    seq![Face { indices: [le16_at(d, p), le16_at(d, p + 2), le16_at(d, p + 4)] }]
                        + rest,
                    q,
                ),
            ),
            Err(e) => Err(e),
        }
    }
}


/// On success, `u32s_at` yields `n` values and stops `4 * n` bytes on.
pub proof fn lemma_u32s_at_bounds(d: Seq<u8>, p: int, n: nat)
    requires
        u32s_at(d, p, n) is Ok,
    ensures
        u32s_at(d, p, n)->Ok_0.0.len() == n,
        u32s_at(d, p, n)->Ok_0.1 == p + 4 * n,
        n > 0 ==> u32s_at(d, p, n)->Ok_0.1 <= d.len(),
    decreases n,
{
    if n > 0 {
        lemma_u32s_at_bounds(d, p + 4, (n - 1) as nat);
    }
}

/// On success, `vec3s_at` yields `n` vectors and stops `12 * n` bytes on.
pub proof fn lemma_vec3s_at_bounds(d: Seq<u8>, p: int, n: nat)
    requires
        vec3s_at(d, p, n) is Ok,
    ensures
        vec3s_at(d, p, n)->Ok_0.0.len() == n,
        vec3s_at(d, p, n)->Ok_0.1 == p + 12 * n,
        n > 0 ==> vec3s_at(d, p, n)->Ok_0.1 <= d.len(),
    decreases n,
{
    if n > 0 {
        lemma_vec3s_at_bounds(d, p + 12, (n - 1) as nat);
    }
}

/// On success, `vec2s_at` yields `n` pairs and stops `8 * n` bytes on.
pub proof fn lemma_vec2s_at_bounds(d: Seq<u8>, p: int, n: nat)
    requires
        vec2s_at(d, p, n) is Ok,
    ensures
        vec2s_at(d, p, n)->Ok_0.0.len() == n,
        vec2s_at(d, p, n)->Ok_0.1 == p + 8 * n,
        n > 0 ==> vec2s_at(d, p, n)->Ok_0.1 <= d.len(),
    decreases n,
{
    if n > 0 {
        lemma_vec2s_at_bounds(d, p + 8, (n - 1) as nat);
    }
}

/// On success, `faces_at` yields `n` triangles and stops `6 * n` bytes on.
pub proof fn lemma_faces_at_bounds(d: Seq<u8>, p: int, n: nat)
    requires
        faces_at(d, p, n) is Ok,
    ensures
        faces_at(d, p, n)->Ok_0.0.len() == n,
        faces_at(d, p, n)->Ok_0.1 == p + 6 * n,
        n > 0 ==> faces_at(d, p, n)->Ok_0.1 <= d.len(),
    decreases n,
{
    if n > 0 {
        lemma_faces_at_bounds(d, p + 6, (n - 1) as nat);
    }
}

/// On success, `uv_sets_at` only moves forward and stays in bounds.
pub proof fn lemma_uv_sets_at_bounds(d: Seq<u8>, p: int, n: nat, acc: Seq<Seq<Vec2>>)
    requires
        uv_sets_at(d, p, n, acc) is Ok,
    ensures
        n == 0 ==> uv_sets_at(d, p, n, acc)->Ok_0.1 == p,
        n > 0 ==> p + 4 <= uv_sets_at(d, p, n, acc)->Ok_0.1 <= d.len(),
    decreases n,
{
    if n > 0 {
        let c = le32_at(d, p) as nat;
        lemma_vec2s_at_bounds(d, p + 4, c);
        let q = vec2s_at(d, p + 4, c)->Ok_0.1;
        lemma_uv_sets_at_bounds(d, q, (n - 1) as nat, acc + seq![vec2s_at(d, p + 4, c)->Ok_0.0]);
    }
}

/// The `MODL` body: a 336-byte name slot, a skipped animation-file-name
/// word, an extent block, and the blend time; 372 bytes in all.
pub open spec fn modl_at(d: Seq<u8>, p: int) -> Result<(ModelInfoV, int), ParseError> {
    if p + 372 > d.len() {
        Err(ParseError::UnexpectedEof)
    } else {
        let (radius, emin, emax) = extent_at(d, p + 340);
        Ok(
            (
                ModelInfoV {
                    name: utf8_lossy_of(nul_prefix(d.subrange(p, p + 336))),
                    minimum_extent: Some(emin),
                    maximum_extent: Some(emax),
                    bounds_radius: radius,
                    blend_time: le32_at(d, p + 368),
                },
                p + 372,
            ),
        )
    }
}

/// One 132-byte sequence record.
pub open spec fn sequence_at(d: Seq<u8>, p: int) -> SequenceV {
    let (radius, emin, emax) = extent_at(d, p + 104);
    SequenceV {
        name: utf8_lossy_of(nul_prefix(d.subrange(p, p + 80))),
        interval_start: le32_at(d, p + 80),
        interval_end: le32_at(d, p + 84),
        move_speed: le32_at(d, p + 88),
        non_looping: le32_at(d, p + 92) > 0,
        rarity: le32_at(d, p + 96),
        minimum_extent: Some(emin),
        maximum_extent: Some(emax),
        bounds_radius: radius,
    }
}

/// The `SEQS` body: 132-byte records until the chunk is exhausted.
pub open spec fn seqs_chunk(d: Seq<u8>, p: int, end: int) -> Result<
    (Seq<SequenceV>, int),
    ParseError,
>
    decreases d.len() - p,
{
    if p >= end {
        Ok((Seq::empty(), p))
    } else if p + 132 > d.len() {
        Err(ParseError::UnexpectedEof)
    } else {
        match seqs_chunk(d, p + 132, end) {
            Ok((rest, q)) => Ok((seq![sequence_at(d, p)] + rest, q)),
            Err(e) => Err(e),
        }
    }
}

/// One 268-byte texture record: replaceable id, a 256-byte path slot
/// (possibly right-aligned), a skipped word, flags.
pub open spec fn texture_at(d: Seq<u8>, p: int) -> TextureV {
    TextureV {
        replaceable_id: le32_at(d, p),
        path: utf8_lossy_of(path_slice(d.subrange(p + 4, p + 260))),
        flags: le32_at(d, p + 264),
    }
}

/// The `TEXS` body: exactly `n = size / 268` records.
pub open spec fn texs_chunk(d: Seq<u8>, p: int, n: nat) -> Result<(Seq<TextureV>, int), ParseError>
    decreases n,
{
    if n == 0 {
        Ok((Seq::empty(), p))
    } else if p + 268 > d.len() {
        Err(ParseError::UnexpectedEof)
    } else {
        match texs_chunk(d, p + 268, (n - 1) as nat) {
            Ok((rest, q)) => Ok((seq![texture_at(d, p)] + rest, q)),
            Err(e) => Err(e),
        }
    }
}

/// One 28-byte geoset animation record.  The leading size word is read and
/// ignored; `-1` in the geoset id decodes as absent.
pub open spec fn geoset_anim_at(d: Seq<u8>, p: int) -> GeosetAnim {
    GeosetAnim {
        geoset_id: opt_u32(le32_at(d, p + 24)),
        alpha: le32_at(d, p + 4),
        color: Some(vec3_at(d, p + 12)),
        flags: le32_at(d, p + 8),
    }
}

/// The `GEOA` body: 28-byte records until the chunk is exhausted.
pub open spec fn geoa_chunk(d: Seq<u8>, p: int, end: int) -> Result<
    (Seq<GeosetAnim>, int),
    ParseError,
>
    decreases d.len() - p,
{
    if p >= end {
        Ok((Seq::empty(), p))
    } else if p + 28 > d.len() {
        Err(ParseError::UnexpectedEof)
    } else {
        match geoa_chunk(d, p + 28, end) {
            Ok((rest, q)) => Ok((seq![geoset_anim_at(d, p)] + rest, q)),
            Err(e) => Err(e),
        }
    }
}

/// `n` material layers.  Each layer carries an inclusive size: the next
/// layer begins at the layer's own size-field position plus that size.
pub open spec fn layers_at(d: Seq<u8>, p: int, n: nat) -> Result<(Seq<Layer>, int), ParseError>
    decreases n,
{
    if n == 0 {
        Ok((Seq::empty(), p))
    } else if p + 28 > d.len() {
        Err(ParseError::UnexpectedEof)
    } else {
        let lsize = le32_at(d, p);
        if p + lsize > d.len() {
            Err(ParseError::Corrupt)
        } else {
            let layer = Layer {
                filter_mode: le32_at(d, p + 4),
                shading: le32_at(d, p + 8),
                texture_id: le32i_at(d, p + 12),
                coord_id: le32_at(d, p + 20),
                alpha: le32_at(d, p + 24),
            };
            match layers_at(d, p + lsize, (n - 1) as nat) {
                Ok((rest, q)) => Ok((seq![layer] + rest, q)),
                Err(e) => Err(e),
            }
        }
    }
}

/// The `MTLS` body: inclusive-sized material records until the chunk is
/// exhausted.  A record too small to cover its own size field is `Corrupt`.
pub open spec fn mtls_chunk(d: Seq<u8>, p: int, end: int) -> Result<
    (Seq<MaterialV>, int),
    ParseError,
>
    decreases d.len() - p,
{
    if p >= end {
        Ok((Seq::empty(), p))
    } else if p + 4 > d.len() {
        Err(ParseError::UnexpectedEof)
    } else {
        let msize = le32_at(d, p);
        if msize < 4 {
            Err(ParseError::Corrupt)
        } else if p + 12 > d.len() {
            Err(ParseError::UnexpectedEof)
        } else {
            let priority_plane = le32_at(d, p + 4);
            let render_mode = le32_at(d, p + 8);
            let layers_result: Result<Seq<Layer>, ParseError> = if p + 12 < p + msize {
                if p + 16 > d.len() {
                    Err(ParseError::UnexpectedEof)
                } else if le32_at(d, p + 12) == TAG_LAYS {
                    if p + 20 > d.len() {
                        Err(ParseError::UnexpectedEof)
                    } else {
                        match layers_at(d, p + 20, le32_at(d, p + 16) as nat) {
                            Ok((ls, _)) => Ok(ls),
                            Err(e) => Err(e),
                        }
                    }
                } else {
                    Ok(Seq::empty())
                }
            } else {
                Ok(Seq::empty())
            };
            match layers_result {
                Ok(ls) => {
                    if p + msize > d.len() {
                        Err(ParseError::Corrupt)
                    } else {
                        match mtls_chunk(d, p + msize, end) {
                            Ok((rest, q)) => Ok(
                                (
                                    seq![
                                        MaterialV {
                                            priority_plane,
                                            render_mode,
                                            layers: ls,
                                        }
                                    ] + rest,
                                    q,
                                ),
                            ),
                            Err(e) => Err(e),
                        }
                    }
                },
                Err(e) => Err(e),
            }
        }
    }
}

/// The smaller of two encoded scalars in the encoded-scalar order.
pub open spec fn fmin(a: u32, b: u32) -> u32 {
    if fbits_le(a, b) {
        a
    } else {
        b
    }
}

/// The larger of two encoded scalars in the encoded-scalar order.
pub open spec fn fmax(a: u32, b: u32) -> u32 {
    if fbits_le(a, b) {
        b
    } else {
        a
    }
}

/// Extends a bounding box to cover one more vertex, component-wise.
pub open spec fn bbox_extend(b: BoundingBox, v: Vec3) -> BoundingBox {
    BoundingBox {
        min: Vec3 { x: fmin(b.min.x, v.x), y: fmin(b.min.y, v.y), z: fmin(b.min.z, v.z) },
        max: Vec3 { x: fmax(b.max.x, v.x), y: fmax(b.max.y, v.y), z: fmax(b.max.z, v.z) },
    }
}

/// Folds `bbox_extend` over the vertices from index `i` on.
pub open spec fn bbox_fold(vs: Seq<Vec3>, i: int, cur: BoundingBox) -> BoundingBox
    decreases vs.len() - i,
{
    if i < 0 || i >= vs.len() {
        cur
    } else {
        bbox_fold(vs, i + 1, bbox_extend(cur, vs[i]))
    }
}

/// The encoded scalar for 0.0: all bits clear.
pub const SCALAR_ZERO: u32 = 0;

/// The zero bounding box used when a geoset has no vertices.
pub open spec fn zero_bbox() -> BoundingBox {
    BoundingBox {
        min: Vec3 { x: SCALAR_ZERO, y: SCALAR_ZERO, z: SCALAR_ZERO },
        max: Vec3 { x: SCALAR_ZERO, y: SCALAR_ZERO, z: SCALAR_ZERO },
    }
}

/// The axis-aligned bounding box of a vertex list: the component-wise
/// minimum and maximum over all vertices in the encoded-scalar order, or
/// the zero box when the list is empty.
pub open spec fn aabb_of(vs: Seq<Vec3>) -> BoundingBox {
    if vs.len() == 0 {
        zero_bbox()
    } else {
        bbox_fold(vs, 0, BoundingBox { min: vs[0], max: vs[0] })
    }
}

/// Every face of the geoset indexes inside its vertex list.
pub open spec fn faces_in_range(faces: Seq<Face>, nverts: int) -> bool {
    forall|i: int, k: int|
        0 <= i < faces.len() && 0 <= k < 3 ==> #[trigger] faces[i].indices@[k] < nverts
}

/// An empty geoset, before any sub-chunk fills it.
pub open spec fn empty_geoset() -> GeosetV {
    GeosetV {
        vertices: Seq::empty(),
        normals: Seq::empty(),
        uvs: Seq::empty(),
        faces: Seq::empty(),
        vertex_groups: Seq::empty(),
        material_id: 0,
        selection_group: 0,
        bounds: zero_bbox(),
    }
}

/// Nested UV sets inside a `UVAS` sub-chunk: each set is its own count
/// followed by that many pairs.
pub open spec fn uv_sets_at(d: Seq<u8>, p: int, n: nat, acc: Seq<Seq<Vec2>>) -> Result<
    (Seq<Seq<Vec2>>, int),
    ParseError,
>
    decreases n,
{
    if n == 0 {
        Ok((acc, p))
    } else if p + 4 > d.len() {
        Err(ParseError::UnexpectedEof)
    } else {
        match vec2s_at(d, p + 4, le32_at(d, p) as nat) {
            Ok((pairs, q)) => uv_sets_at(d, q, (n - 1) as nat, acc + seq![pairs]),
            Err(e) => Err(e),
        }
    }
}

/// The sub-chunk loop of one geoset record: reads tagged sections until the
/// record is exhausted or an unknown sub-tag stops the loop (the unknown
/// tag's four bytes are consumed; the enclosing record size then
/// repositions the cursor).
pub open spec fn geoset_body(d: Seq<u8>, p: int, end: int, g: GeosetV) -> Result<
    (GeosetV, int),
    ParseError,
>
    decreases d.len() - p,
{
    if p >= end {
        Ok((g, p))
    } else if p + 4 > d.len() {
        Err(ParseError::UnexpectedEof)
    } else {
        let tag = le32_at(d, p);
        if p + 8 > d.len() {
            if tag == TAG_VRTX || tag == TAG_NRMS || tag == TAG_PTYP || tag == TAG_PCNT || tag
                == TAG_PVTX || tag == TAG_GNDX || tag == TAG_MTGC || tag == TAG_MATS || tag
                == TAG_TANG || tag == TAG_SKIN || tag == TAG_UVAS {
                Err(ParseError::UnexpectedEof)
            } else {
                Ok((g, p + 4))
            }
        } else {
            let count = le32_at(d, p + 4) as nat;
            let body = p + 8;
            if tag == TAG_VRTX {
                match vec3s_at(d, body, count) {
                    Ok((vs, q)) => {
                        if body <= q <= d.len() {
                            geoset_body(d, q, end, GeosetV { vertices: g.vertices + vs, ..g })
                        } else {
                            Err(ParseError::Corrupt)
                        }
                    },
                    Err(e) => Err(e),
                }
            } else if tag == TAG_NRMS {
                match vec3s_at(d, body, count) {
                    Ok((vs, q)) => {
                        if body <= q <= d.len() {
                            geoset_body(d, q, end, GeosetV { normals: g.normals + vs, ..g })
                        } else {
                            Err(ParseError::Corrupt)
                        }
                    },
                    Err(e) => Err(e),
                }
            } else if tag == TAG_PTYP || tag == TAG_PCNT || tag == TAG_MTGC || tag == TAG_MATS {
                if body + count * 4 > d.len() {
                    Err(ParseError::Corrupt)
                } else {
                    geoset_body(d, body + count * 4, end, g)
                }
            } else if tag == TAG_PVTX {
                match faces_at(d, body, (count / 3) as nat) {
                    Ok((fs, q)) => {
                        if body <= q <= d.len() {
                            geoset_body(d, q, end, GeosetV { faces: g.faces + fs, ..g })
                        } else {
                            Err(ParseError::Corrupt)
                        }
                    },
                    Err(e) => Err(e),
                }
            } else if tag == TAG_GNDX {
                if body + count > d.len() {
                    Err(ParseError::UnexpectedEof)
                } else {
                    geoset_body(
                        d,
                        body + count,
                        end,
                        GeosetV {
                            vertex_groups: g.vertex_groups + d.subrange(body, body + count),
                            ..g
                        },
                    )
                }
            } else if tag == TAG_TANG {
                if body + count * 16 > d.len() {
                    Err(ParseError::Corrupt)
                } else {
                    geoset_body(d, body + count * 16, end, g)
                }
            } else if tag == TAG_SKIN {
                if body + count * 8 > d.len() {
                    Err(ParseError::Corrupt)
                } else {
                    geoset_body(d, body + count * 8, end, g)
                }
            } else if tag == TAG_UVAS {
                match uv_sets_at(d, body, count, g.uvs) {
                    Ok((sets, q)) => {
                        if body <= q <= d.len() {
                            geoset_body(d, q, end, GeosetV { uvs: sets, ..g })
                        } else {
                            Err(ParseError::Corrupt)
                        }
                    },
                    Err(e) => Err(e),
                }
            } else {
                Ok((g, p + 4))
            }
        }
    }
}

/// The `GEOS` body: inclusive-sized geoset records until the chunk is
/// exhausted.  After the sub-chunk loop, face indices are checked against
/// the vertex list and the bounding box is derived from the vertices.
pub open spec fn geos_chunk(d: Seq<u8>, p: int, end: int) -> Result<
    (Seq<GeosetV>, int),
    ParseError,
>
    decreases d.len() - p,
{
    if p >= end {
        Ok((Seq::empty(), p))
    } else if p + 4 > d.len() {
        Err(ParseError::UnexpectedEof)
    } else {
        let gsize = le32_at(d, p);
        if gsize < 4 {
            Err(ParseError::Corrupt)
        } else {
            match geoset_body(d, p + 4, p + gsize, empty_geoset()) {
                Ok((g, _)) => {
                    if !faces_in_range(g.faces, g.vertices.len() as int) {
                        Err(ParseError::Corrupt)
                    } else if p + gsize > d.len() {
                        Err(ParseError::Corrupt)
                    } else {
                        let done = GeosetV { bounds: aabb_of(g.vertices), ..g };
                        match geos_chunk(d, p + gsize, end) {
                            Ok((rest, q)) => Ok((seq![done] + rest, q)),
                            Err(e) => Err(e),
                        }
                    }
                },
                Err(e) => Err(e),
            }
        }
    }
}

/// One node record: a self-describing inclusive size, an 80-byte name slot,
/// object id and parent id with `-1` sentinels, and flags; the remainder up
/// to the declared size holds animation tracks and is skipped.  A size that
/// cannot cover the fixed 96-byte head is `Corrupt`.
pub open spec fn node_at(d: Seq<u8>, p: int) -> Result<(NodeV, int), ParseError> {
    if p + 4 > d.len() {
        Err(ParseError::UnexpectedEof)
    } else {
        let nsize = le32_at(d, p);
        if nsize < 96 {
            Err(ParseError::Corrupt)
        } else if p + 96 > d.len() {
            Err(ParseError::UnexpectedEof)
        } else if p + nsize > d.len() {
            Err(ParseError::Corrupt)
        } else {
            Ok(
                (
                    NodeV {
                        name: utf8_lossy_of(nul_prefix(d.subrange(p + 4, p + 84))),
                        object_id: opt_u32(le32_at(d, p + 84)),
                        parent: opt_u32(le32_at(d, p + 88)),
                        pivot_point: None,
                        flags: le32_at(d, p + 92),
                        geoset_id: None,
                        geoset_anim_id: None,
                    },
                    p + nsize,
                ),
            )
        }
    }
}

/// Registers a node in the sparse node table: the table grows to cover the
/// node's object id and the node is stored at that index.  A node without
/// an object id leaves the table unchanged.
pub open spec fn place_node(t: Seq<Option<NodeV>>, n: NodeV) -> Seq<Option<NodeV>> {
    match n.object_id {
        None => t,
        Some(k) => {
            let grown = if t.len() <= k {
                t + Seq::new((k + 1 - t.len()) as nat, |i: int| None::<NodeV>)
            } else {
                t
            };
            grown.update(k as int, Some(n))
        },
    }
}

/// The `BONE` body: node records, each followed by a geoset id and a geoset
/// animation id (`-1` decoding as absent).  The bare node (without the bone
/// fields) is what the node table registers.
pub open spec fn bone_chunk(d: Seq<u8>, p: int, end: int, t: Seq<Option<NodeV>>) -> Result<
    (Seq<NodeV>, Seq<Option<NodeV>>, int),
    ParseError,
>
    decreases d.len() - p,
{
    if p >= end {
        Ok((Seq::empty(), t, p))
    } else {
        match node_at(d, p) {
            Ok((n, q)) => {
                if !(p < q <= d.len()) {
                    Err(ParseError::Corrupt)
                } else if q + 8 > d.len() {
                    Err(ParseError::UnexpectedEof)
                } else {
                    let bone = NodeV {
                        geoset_id: opt_i32(le32i_at(d, q)),
                        geoset_anim_id: opt_i32(le32i_at(d, q + 4)),
                        ..n
                    };
                    match bone_chunk(d, q + 8, end, place_node(t, n)) {
                        Ok((rest, t2, r)) => Ok((seq![bone] + rest, t2, r)),
                        Err(e) => Err(e),
                    }
                }
            },
            Err(e) => Err(e),
        }
    }
}

/// The `HELP` body: bare node records.
pub open spec fn help_chunk(d: Seq<u8>, p: int, end: int, t: Seq<Option<NodeV>>) -> Result<
    (Seq<NodeV>, Seq<Option<NodeV>>, int),
    ParseError,
>
    decreases d.len() - p,
{
    if p >= end {
        Ok((Seq::empty(), t, p))
    } else {
        match node_at(d, p) {
            Ok((n, q)) => {
                if !(p < q <= d.len()) {
                    Err(ParseError::Corrupt)
                } else {
                    match help_chunk(d, q, end, place_node(t, n)) {
                        Ok((rest, t2, r)) => Ok((seq![n] + rest, t2, r)),
                        Err(e) => Err(e),
                    }
                }
            },
            Err(e) => Err(e),
        }
    }
}

/// The `ATCH` body: each record is a skipped size word, a node, a 256-byte
/// path slot, a skipped word, and the attachment id.
pub open spec fn atch_chunk(d: Seq<u8>, p: int, end: int, t: Seq<Option<NodeV>>) -> Result<
    (Seq<AttachmentV>, Seq<Option<NodeV>>, int),
    ParseError,
>
    decreases d.len() - p,
{
    if p >= end {
        Ok((Seq::empty(), t, p))
    } else if p + 4 > d.len() {
        Err(ParseError::UnexpectedEof)
    } else {
        match node_at(d, p + 4) {
            Ok((n, q)) => {
                if !(p < q <= d.len()) {
                    Err(ParseError::Corrupt)
                } else if q + 264 > d.len() {
                    Err(ParseError::UnexpectedEof)
                } else {
                    let a = AttachmentV {
                        node: n,
                        path: utf8_lossy_of(nul_prefix(d.subrange(q, q + 256))),
                        attachment_id: le32_at(d, q + 260),
                    };
                    match atch_chunk(d, q + 264, end, place_node(t, n)) {
                        Ok((rest, t2, r)) => Ok((seq![a] + rest, t2, r)),
                        Err(e) => Err(e),
                    }
                }
            },
            Err(e) => Err(e),
        }
    }
}

/// The `EVTS` body: each record is a node, a required `KEVT` tag, a track
/// count, a skipped global-sequence id, and the frame stamps.
pub open spec fn evts_chunk(d: Seq<u8>, p: int, end: int, t: Seq<Option<NodeV>>) -> Result<
    (Seq<EventObjectV>, Seq<Option<NodeV>>, int),
    ParseError,
>
    decreases d.len() - p,
{
    if p >= end {
        Ok((Seq::empty(), t, p))
    } else {
        match node_at(d, p) {
            Ok((n, q)) => {
                if !(p < q <= d.len()) {
                    Err(ParseError::Corrupt)
                } else if q + 4 > d.len() {
                    Err(ParseError::UnexpectedEof)
                } else if le32_at(d, q) != TAG_KEVT {
                    Err(ParseError::BadSubChunkTag)
                } else if q + 12 > d.len() {
                    Err(ParseError::UnexpectedEof)
                } else {
                    match u32s_at(d, q + 12, le32_at(d, q + 4) as nat) {
                        Ok((track, r)) => {
                            if !(p < r <= d.len()) {
                                Err(ParseError::Corrupt)
                            } else {
                                let ev = EventObjectV { node: n, event_track: track };
                                match evts_chunk(d, r, end, place_node(t, n)) {
                                    Ok((rest, t2, s)) => Ok((seq![ev] + rest, t2, s)),
                                    Err(e) => Err(e),
                                }
                            }
                        },
                        Err(e) => Err(e),
                    }
                }
            },
            Err(e) => Err(e),
        }
    }
}

/// The `CLID` body: each record is a node, a shape kind, the shape's raw
/// scalars (six for a box, three otherwise), and a radius for spheres.
pub open spec fn clid_chunk(d: Seq<u8>, p: int, end: int, t: Seq<Option<NodeV>>) -> Result<
    (Seq<CollisionShapeV>, Seq<Option<NodeV>>, int),
    ParseError,
>
    decreases d.len() - p,
{
    if p >= end {
        Ok((Seq::empty(), t, p))
    } else {
        match node_at(d, p) {
            Ok((n, q)) => {
                if !(p < q <= d.len()) {
                    Err(ParseError::Corrupt)
                } else if q + 4 > d.len() {
                    Err(ParseError::UnexpectedEof)
                } else {
                    let shape = le32_at(d, q);
                    let nverts: nat = if shape == 0 {
                        6
                    } else {
                        3
                    };
                    match u32s_at(d, q + 4, nverts) {
                        Ok((verts, r)) => {
                            if !(p < r <= d.len()) {
                                Err(ParseError::Corrupt)
                            } else if shape == 2 {
                                if r + 4 > d.len() {
                                    Err(ParseError::UnexpectedEof)
                                } else {
                                    let c = CollisionShapeV {
                                        node: n,
                                        shape,
                                        vertices: verts,
                                        radius: Some(le32_at(d, r)),
                                    };
                                    match clid_chunk(d, r + 4, end, place_node(t, n)) {
                                        Ok((rest, t2, s)) => Ok((seq![c] + rest, t2, s)),
                                        Err(e) => Err(e),
                                    }
                                }
                            } else {
                                let c = CollisionShapeV {
                                    node: n,
                                    shape,
                                    vertices: verts,
                                    radius: None,
                                };
                                match clid_chunk(d, r, end, place_node(t, n)) {
                                    Ok((rest, t2, s)) => Ok((seq![c] + rest, t2, s)),
                                    Err(e) => Err(e),
                                }
                            }
                        },
                        Err(e) => Err(e),
                    }
                }
            },
            Err(e) => Err(e),
        }
    }
}

/// The model document before any chunk is parsed: version 800, an empty
/// name, default blend time 150, and empty lists.
pub open spec fn init_model() -> ModelV {
    ModelV {
        version: 800,
        info: ModelInfoV {
            name: Seq::empty(),
            minimum_extent: None,
            maximum_extent: None,
            bounds_radius: 0,
            blend_time: 150,
        },
        sequences: Seq::empty(),
        global_sequences: Seq::empty(),
        textures: Seq::empty(),
        materials: Seq::empty(),
        geosets: Seq::empty(),
        geoset_anims: Seq::empty(),
        bones: Seq::empty(),
        helpers: Seq::empty(),
        attachments: Seq::empty(),
        pivot_points: Seq::empty(),
        event_objects: Seq::empty(),
        collision_shapes: Seq::empty(),
        cameras: Seq::empty(),
        lights: Seq::empty(),
        particle_emitters: Seq::empty(),
        particle_emitters2: Seq::empty(),
        ribbon_emitters: Seq::empty(),
        texture_anims: Seq::empty(),
        nodes: Seq::empty(),
    }
}

/// The post-pass: the pivot point at index `i` is assigned to the node at
/// index `i` of the table, where both exist.  Gaps in the table and extra
/// pivots are tolerated.
pub open spec fn bind_pivots(t: Seq<Option<NodeV>>, pivots: Seq<Vec3>) -> Seq<Option<NodeV>> {
    Seq::new(
        t.len(),
        |i: int|
            if i < pivots.len() {
                match t[i] {
                    Some(n) => Some(NodeV { pivot_point: Some(pivots[i]), ..n }),
                    None => None,
                }
            } else {
                t[i]
            },
    )
}

/// One step of the top-level framing loop: dispatch on the tag at `p`,
/// returning the updated document and the position of the next chunk.
pub open spec fn chunk_step(d: Seq<u8>, p: int, m: ModelV) -> Result<(ModelV, int), ParseError> {
    let tag = le32_at(d, p);
    let size = le32_at(d, p + 4);
    let body = p + 8;
    if tag == TAG_VERS {
        if body + 4 > d.len() {
            Err(ParseError::UnexpectedEof)
        } else {
            Ok((ModelV { version: le32_at(d, body), ..m }, body + 4))
        }
    } else if tag == TAG_MODL {
        match modl_at(d, body) {
            Ok((info, q)) => Ok((ModelV { info, ..m }, q)),
            Err(e) => Err(e),
        }
    } else if tag == TAG_SEQS {
        match seqs_chunk(d, body, body + size) {
            Ok((recs, q)) => Ok((ModelV { sequences: m.sequences + recs, ..m }, q)),
            Err(e) => Err(e),
        }
    } else if tag == TAG_GLBS {
        match u32s_at(d, body, (size / 4) as nat) {
            Ok((vals, q)) => Ok((ModelV { global_sequences: m.global_sequences + vals, ..m }, q)),
            Err(e) => Err(e),
        }
    } else if tag == TAG_TEXS {
        match texs_chunk(d, body, (size / 268) as nat) {
            Ok((recs, q)) => Ok((ModelV { textures: m.textures + recs, ..m }, q)),
            Err(e) => Err(e),
        }
    } else if tag == TAG_MTLS {
        match mtls_chunk(d, body, body + size) {
            Ok((recs, q)) => Ok((ModelV { materials: m.materials + recs, ..m }, q)),
            Err(e) => Err(e),
        }
    } else if tag == TAG_GEOS {
        match geos_chunk(d, body, body + size) {
            Ok((recs, q)) => Ok((ModelV { geosets: m.geosets + recs, ..m }, q)),
            Err(e) => Err(e),
        }
    } else if tag == TAG_GEOA {
        match geoa_chunk(d, body, body + size) {
            Ok((recs, q)) => Ok((ModelV { geoset_anims: m.geoset_anims + recs, ..m }, q)),
            Err(e) => Err(e),
        }
    } else if tag == TAG_BONE {
        match bone_chunk(d, body, body + size, m.nodes) {
            Ok((recs, t, q)) => Ok((ModelV { bones: m.bones + recs, nodes: t, ..m }, q)),
            Err(e) => Err(e),
        }
    } else if tag == TAG_HELP {
        match help_chunk(d, body, body + size, m.nodes) {
            Ok((recs, t, q)) => Ok((ModelV { helpers: m.helpers + recs, nodes: t, ..m }, q)),
            Err(e) => Err(e),
        }
    } else if tag == TAG_ATCH {
        match atch_chunk(d, body, body + size, m.nodes) {
            Ok((recs, t, q)) => Ok((ModelV { attachments: m.attachments + recs, nodes: t, ..m }, q)),
            Err(e) => Err(e),
        }
    } else if tag == TAG_PIVT {
        match vec3s_at(d, body, (size / 12) as nat) {
            Ok((vs, q)) => Ok((ModelV { pivot_points: m.pivot_points + vs, ..m }, q)),
            Err(e) => Err(e),
        }
    } else if tag == TAG_EVTS {
        match evts_chunk(d, body, body + size, m.nodes) {
            Ok((recs, t, q)) => Ok(
                (ModelV { event_objects: m.event_objects + recs, nodes: t, ..m }, q),
            ),
            Err(e) => Err(e),
        }
    } else if tag == TAG_CLID {
        match clid_chunk(d, body, body + size, m.nodes) {
            Ok((recs, t, q)) => Ok(
                (ModelV { collision_shapes: m.collision_shapes + recs, nodes: t, ..m }, q),
            ),
            Err(e) => Err(e),
        }
    } else {
        // TXAN, CAMS, LITE, PREM, PRE2, RIBB and unrecognised tags are
        // absorbed by their declared size.
        if body + size > d.len() {
            Err(ParseError::Corrupt)
        } else {
            Ok((m, body + size))
        }
    }
}


/// On success, the sequence chunk never moves backwards.
pub proof fn lemma_seqs_chunk_pos(d: Seq<u8>, p: int, end: int)
    requires
        seqs_chunk(d, p, end) is Ok,
    ensures
        seqs_chunk(d, p, end)->Ok_0.1 >= p,
    decreases d.len() - p,
{
    if p < end && p + 132 <= d.len() {
        if seqs_chunk(d, p + 132, end) is Ok {
            lemma_seqs_chunk_pos(d, p + 132, end);
        }
    }
}

/// On success, the geoset animation chunk never moves backwards.
pub proof fn lemma_geoa_chunk_pos(d: Seq<u8>, p: int, end: int)
    requires
        geoa_chunk(d, p, end) is Ok,
    ensures
        geoa_chunk(d, p, end)->Ok_0.1 >= p,
    decreases d.len() - p,
{
    if p < end && p + 28 <= d.len() {
        if geoa_chunk(d, p + 28, end) is Ok {
            lemma_geoa_chunk_pos(d, p + 28, end);
        }
    }
}

/// On success, the texture chunk never moves backwards.
pub proof fn lemma_texs_chunk_pos(d: Seq<u8>, p: int, n: nat)
    requires
        texs_chunk(d, p, n) is Ok,
    ensures
        texs_chunk(d, p, n)->Ok_0.1 >= p,
    decreases n,
{
    if n > 0 && p + 268 <= d.len() {
        if texs_chunk(d, p + 268, (n - 1) as nat) is Ok {
            lemma_texs_chunk_pos(d, p + 268, (n - 1) as nat);
        }
    }
}

/// On success, the material chunk never moves backwards.
pub proof fn lemma_mtls_chunk_pos(d: Seq<u8>, p: int, end: int)
    requires
        mtls_chunk(d, p, end) is Ok,
    ensures
        mtls_chunk(d, p, end)->Ok_0.1 >= p,
    decreases d.len() - p,
{
    if p < end && p + 4 <= d.len() {
        let msize = le32_at(d, p);
        if msize >= 4 && p + msize <= d.len() {
            if mtls_chunk(d, p + msize, end) is Ok {
                lemma_mtls_chunk_pos(d, p + msize, end);
            }
        }
    }
}

/// On success, the geoset chunk never moves backwards.
pub proof fn lemma_geos_chunk_pos(d: Seq<u8>, p: int, end: int)
    requires
        geos_chunk(d, p, end) is Ok,
    ensures
        geos_chunk(d, p, end)->Ok_0.1 >= p,
    decreases d.len() - p,
{
    if p < end && p + 4 <= d.len() {
        let gsize = le32_at(d, p);
        if gsize >= 4 && p + gsize <= d.len() {
            if geos_chunk(d, p + gsize, end) is Ok {
                lemma_geos_chunk_pos(d, p + gsize, end);
            }
        }
    }
}

/// On success, the bone chunk never moves backwards.
pub proof fn lemma_bone_chunk_pos(d: Seq<u8>, p: int, end: int, t: Seq<Option<NodeV>>)
    requires
        bone_chunk(d, p, end, t) is Ok,
    ensures
        bone_chunk(d, p, end, t)->Ok_0.2 >= p,
    decreases d.len() - p,
{
    if p < end {
        match node_at(d, p) {
            Ok((n, q)) => {
                if p < q <= d.len() && q + 8 <= d.len() {
                    if bone_chunk(d, q + 8, end, place_node(t, n)) is Ok {
                        lemma_bone_chunk_pos(d, q + 8, end, place_node(t, n));
                    }
                }
            },
            Err(_) => {},
        }
    }
}

/// On success, the helper chunk never moves backwards.
pub proof fn lemma_help_chunk_pos(d: Seq<u8>, p: int, end: int, t: Seq<Option<NodeV>>)
    requires
        help_chunk(d, p, end, t) is Ok,
    ensures
        help_chunk(d, p, end, t)->Ok_0.2 >= p,
    decreases d.len() - p,
{
    if p < end {
        match node_at(d, p) {
            Ok((n, q)) => {
                if p < q <= d.len() {
                    if help_chunk(d, q, end, place_node(t, n)) is Ok {
                        lemma_help_chunk_pos(d, q, end, place_node(t, n));
                    }
                }
            },
            Err(_) => {},
        }
    }
}

/// On success, the attachment chunk never moves backwards.
pub proof fn lemma_atch_chunk_pos(d: Seq<u8>, p: int, end: int, t: Seq<Option<NodeV>>)
    requires
        atch_chunk(d, p, end, t) is Ok,
    ensures
        atch_chunk(d, p, end, t)->Ok_0.2 >= p,
    decreases d.len() - p,
{
    if p < end && p + 4 <= d.len() {
        match node_at(d, p + 4) {
            Ok((n, q)) => {
                if p + 4 < q <= d.len() && q + 264 <= d.len() {
                    if atch_chunk(d, q + 264, end, place_node(t, n)) is Ok {
                        lemma_atch_chunk_pos(d, q + 264, end, place_node(t, n));
                    }
                }
            },
            Err(_) => {},
        }
    }
}

/// On success, the event object chunk never moves backwards.
pub proof fn lemma_evts_chunk_pos(d: Seq<u8>, p: int, end: int, t: Seq<Option<NodeV>>)
    requires
        evts_chunk(d, p, end, t) is Ok,
    ensures
        evts_chunk(d, p, end, t)->Ok_0.2 >= p,
    decreases d.len() - p,
{
    if p < end {
        match node_at(d, p) {
            Ok((n, q)) => {
                if p < q <= d.len() && q + 12 <= d.len() && le32_at(d, q) == TAG_KEVT {
                    match u32s_at(d, q + 12, le32_at(d, q + 4) as nat) {
                        Ok((track, r)) => {
                            if p < r <= d.len() {
                                if evts_chunk(d, r, end, place_node(t, n)) is Ok {
                                    lemma_evts_chunk_pos(d, r, end, place_node(t, n));
                                }
                            }
                        },
                        Err(_) => {},
                    }
                }
            },
            Err(_) => {},
        }
    }
}

/// On success, the collision shape chunk never moves backwards.
pub proof fn lemma_clid_chunk_pos(d: Seq<u8>, p: int, end: int, t: Seq<Option<NodeV>>)
    requires
        clid_chunk(d, p, end, t) is Ok,
    ensures
        clid_chunk(d, p, end, t)->Ok_0.2 >= p,
    decreases d.len() - p,
{
    if p < end {
        match node_at(d, p) {
            Ok((n, q)) => {
                if p < q <= d.len() && q + 4 <= d.len() {
                    let shape = le32_at(d, q);
                    let nverts: nat = if shape == 0 {
                        6
                    } else {
                        3
                    };
                    match u32s_at(d, q + 4, nverts) {
                        Ok((verts, r)) => {
                            if p < r <= d.len() {
                                if shape == 2 {
                                    if r + 4 <= d.len() {
                                        if clid_chunk(d, r + 4, end, place_node(t, n)) is Ok {
                                            lemma_clid_chunk_pos(d, r + 4, end, place_node(t, n));
                                        }
                                    }
                                } else {
                                    if clid_chunk(d, r, end, place_node(t, n)) is Ok {
                                        lemma_clid_chunk_pos(d, r, end, place_node(t, n));
                                    }
                                }
                            }
                        },
                        Err(_) => {},
                    }
                }
            },
            Err(_) => {},
        }
    }
}

/// On success, one framing step strictly advances the position, which stays
/// inside the input.
pub proof fn lemma_chunk_step_pos(d: Seq<u8>, p: int, m: ModelV)
    requires
        chunk_step(d, p, m) is Ok,
        0 <= p,
        p + 8 <= d.len(),
    ensures
        chunk_step(d, p, m)->Ok_0.1 > p,
{
    let tag = le32_at(d, p);
    let size = le32_at(d, p + 4);
    let body = p + 8;
    if tag == TAG_SEQS {
        lemma_seqs_chunk_pos(d, body, body + size);
    } else if tag == TAG_GLBS {
        if u32s_at(d, body, (size / 4) as nat) is Ok {
            lemma_u32s_at_bounds(d, body, (size / 4) as nat);
        }
    } else if tag == TAG_TEXS {
        lemma_texs_chunk_pos(d, body, (size / 268) as nat);
    } else if tag == TAG_MTLS {
        lemma_mtls_chunk_pos(d, body, body + size);
    } else if tag == TAG_GEOS {
        lemma_geos_chunk_pos(d, body, body + size);
    } else if tag == TAG_GEOA {
        lemma_geoa_chunk_pos(d, body, body + size);
    } else if tag == TAG_BONE {
        lemma_bone_chunk_pos(d, body, body + size, m.nodes);
    } else if tag == TAG_HELP {
        lemma_help_chunk_pos(d, body, body + size, m.nodes);
    } else if tag == TAG_ATCH {
        lemma_atch_chunk_pos(d, body, body + size, m.nodes);
    } else if tag == TAG_PIVT {
        if vec3s_at(d, body, (size / 12) as nat) is Ok {
            lemma_vec3s_at_bounds(d, body, (size / 12) as nat);
        }
    } else if tag == TAG_EVTS {
        lemma_evts_chunk_pos(d, body, body + size, m.nodes);
    } else if tag == TAG_CLID {
        lemma_clid_chunk_pos(d, body, body + size, m.nodes);
    }
}

/// The top-level framing loop from position `p`: chunks are read until
/// fewer than four bytes remain; those trailing bytes are not part of any
/// chunk and are discarded.  A tag with no room for its size word is an
/// error.
pub open spec fn chunks_from(d: Seq<u8>, p: int, m: ModelV) -> Result<ModelV, ParseError>
    decreases d.len() - p,
{
    if p + 4 > d.len() {
        Ok(m)
    } else if p + 8 > d.len() {
        Err(ParseError::UnexpectedEof)
    } else {
        match chunk_step(d, p, m) {
            Ok((m2, q)) => {
                if p < q <= d.len() {
                    chunks_from(d, q, m2)
                } else {
                    Err(ParseError::Corrupt)
                }
            },
            Err(e) => Err(e),
        }
    }
}

/// The whole file: the `MDLX` magic, the chunk sequence, then the pivot
/// binding post-pass.
pub open spec fn file_model(d: Seq<u8>) -> Result<ModelV, ParseError> {
    if d.len() < 4 {
        Err(ParseError::UnexpectedEof)
    } else if !(d[0] == 0x4D && d[1] == 0x44 && d[2] == 0x4C && d[3] == 0x58) {
        Err(ParseError::BadMagic)
    } else {
        match chunks_from(d, 4, init_model()) {
            Ok(m) => Ok(ModelV { nodes: bind_pivots(m.nodes, m.pivot_points), ..m }),
            Err(e) => Err(e),
        }
    }
}

} // verus!
