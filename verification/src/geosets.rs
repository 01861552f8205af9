//! The `GEOS` chunk parser: inclusive-sized geoset records, each a loop of
//! tagged sub-chunks, with face-index validation and a derived bounding box.

use vstd::prelude::*;

use crate::grammar::{
    aabb_of, bbox_extend, bbox_fold, empty_geoset, faces_in_range, fmax, fmin, geos_chunk,
    geoset_body, lemma_faces_at_bounds, lemma_vec2s_at_bounds, lemma_vec3s_at_bounds,
    lemma_uv_sets_at_bounds, uv_sets_at, TAG_GNDX, TAG_MATS, TAG_MTGC, TAG_NRMS,
    TAG_PCNT, TAG_PTYP, TAG_PVTX, TAG_SKIN, TAG_TANG, TAG_UVAS, TAG_VRTX,
};
use crate::model::{
    lemma_deep_view_push, BoundingBox, Face, Geoset, GeosetV, ParseError, Vec2, Vec3,
};
use crate::reader::MdxParser;
use crate::wire::fbits_le_exec;

verus! {

/// The smaller of two encoded scalars, in the encoded-scalar order.
pub fn fmin_exec(a: u32, b: u32) -> (r: u32)
    ensures
        r == fmin(a, b),
{
    if fbits_le_exec(a, b) {
        a
    } else {
        b
    }
}

/// The larger of two encoded scalars, in the encoded-scalar order.
pub fn fmax_exec(a: u32, b: u32) -> (r: u32)
    ensures
        r == fmax(a, b),
{
    if fbits_le_exec(a, b) {
        b
    } else {
        a
    }
}

impl MdxParser {
    /// Parses the `GEOS` chunk body, appending the records to `geosets`.
    #[verifier::rlimit(100)]
    #[verifier::spinoff_prover]
    pub(crate) fn parse_geosets(&mut self, geosets: &mut Vec<Geoset>, size: u32) -> (r: Result<
        (),
        ParseError,
    >)
        requires
            old(self).wf(),
        ensures
            final(self).wf(),
            final(self).bytes() == old(self).bytes(),
            match geos_chunk(old(self).bytes(), old(self).posi(), old(self).posi() + size) {
                Ok(pair) => (r is Ok && final(geosets).deep_view() == old(geosets).deep_view()
                    + pair.0 && final(self).posi() == pair.1),
                Err(e) => r == Err::<(), ParseError>(e),
            },
    {
        let ghost d = self.bytes();
        let ghost p0 = self.posi();
        let ghost end = p0 + size;
        let ghost base = geosets.deep_view();
        let start = self.cur();
        proof {
            match geos_chunk(d, p0, end) {
                Ok(pair) => {
                    assert(base.skip(base.len() as int) + pair.0 =~= pair.0);
                },
                Err(_) => {},
            }
        }
        while self.before(start, size)
            invariant
                d == old(self).bytes(),
                p0 == old(self).posi(),
                end == p0 + size,
                base == old(geosets).deep_view(),
                self.wf(),
                self.bytes() == d,
                start == p0,
                self.posi() >= p0,
                geosets.deep_view().len() >= base.len(),
                geosets.deep_view().take(base.len() as int) == base,
                match geos_chunk(d, self.posi(), end) {
                    Ok(pair) => geos_chunk(d, p0, end) == Ok::<_, ParseError>(
                        (geosets.deep_view().skip(base.len() as int) + pair.0, pair.1),
                    ),
                    Err(e) => geos_chunk(d, p0, end) == Err::<(Seq<GeosetV>, int), ParseError>(e),
                },
            decreases d.len() - self.posi(),
        {
            let ghost gsv = geosets.deep_view();
            let ghost cur = self.posi();
            let size_field_pos = self.cur();
            let geoset_size = match self.read_u32() {
                Ok(v) => v,
                Err(e) => {
                    return Err(e);
                },
            };
            if geoset_size < 4 {
                return Err(ParseError::Corrupt);
            }
            let ghost sub0 = cur + 4;
            let ghost body_end = cur + geoset_size;
            let mut gs = Geoset {
                vertices: Vec::new(),
                normals: Vec::new(),
                uvs: Vec::new(),
                faces: Vec::new(),
                vertex_groups: Vec::new(),
                material_id: 0,
                selection_group: 0,
                bounds: BoundingBox {
                    min: Vec3 { x: 0, y: 0, z: 0 },
                    max: Vec3 { x: 0, y: 0, z: 0 },
                },
            };
            proof {
                assert(gs.deep_view() =~= empty_geoset());
            }
            let mut done: bool = false;
            while !done && self.before(size_field_pos, geoset_size)
                invariant
                    d == old(self).bytes(),
                    p0 == old(self).posi(),
                    end == p0 + size,
                    self.wf(),
                    self.bytes() == d,
                    size_field_pos == cur,
                    sub0 == cur + 4,
                    body_end == cur + geoset_size,
                    self.posi() >= cur,
                    !done ==> (match geoset_body(d, self.posi(), body_end, gs.deep_view()) {
                        Ok(pair) => geoset_body(d, sub0, body_end, empty_geoset()) == Ok::<
                            _,
                            ParseError,
                        >(pair),
                        Err(e) => geoset_body(d, sub0, body_end, empty_geoset()) == Err::<
                            (GeosetV, int),
                            ParseError,
                        >(e),
                    }),
                    done ==> geoset_body(d, sub0, body_end, empty_geoset()) == Ok::<_, ParseError>(
                        (gs.deep_view(), self.posi()),
                    ),
                    match geoset_body(d, sub0, body_end, empty_geoset()) {
                        Err(e) => geos_chunk(d, p0, end) == Err::<(Seq<GeosetV>, int), ParseError>(
                            e,
                        ),
                        Ok(_) => true,
                    },
                decreases d.len() - self.posi() + (if done {
                    0int
                } else {
                    1int
                }),
            {
                let ghost gv = gs.deep_view();
                let kw = match self.read_u32() {
                    Ok(v) => v,
                    Err(e) => {
                        return Err(e);
                    },
                };
                if kw == TAG_VRTX || kw == TAG_NRMS || kw == TAG_PTYP || kw == TAG_PCNT || kw
                    == TAG_PVTX || kw == TAG_GNDX || kw == TAG_MTGC || kw == TAG_MATS || kw
                    == TAG_TANG || kw == TAG_SKIN || kw == TAG_UVAS {
                    let count = match self.read_u32() {
                        Ok(v) => v,
                        Err(e) => {
                            return Err(e);
                        },
                    };
                    let ghost body = self.posi();
                    if kw == TAG_VRTX {
                        match self.read_vec3s(count, &mut gs.vertices) {
                            Ok(_) => proof {
                                lemma_vec3s_at_bounds(d, body, count as nat);
                                assert(gs.deep_view() =~= GeosetV {
                                    vertices: gv.vertices + crate::grammar::vec3s_at(d, body, count as nat)->Ok_0.0,
                                    ..gv
                                });
                            },
                            Err(e) => {
                                return Err(e);
                            },
                        }
                    } else if kw == TAG_NRMS {
                        match self.read_vec3s(count, &mut gs.normals) {
                            Ok(_) => proof {
                                lemma_vec3s_at_bounds(d, body, count as nat);
                                assert(gs.deep_view() =~= GeosetV {
                                    normals: gv.normals + crate::grammar::vec3s_at(d, body, count as nat)->Ok_0.0,
                                    ..gv
                                });
                            },
                            Err(e) => {
                                return Err(e);
                            },
                        }
                    } else if kw == TAG_PTYP || kw == TAG_PCNT || kw == TAG_MTGC || kw == TAG_MATS {
                        match self.skip_items(count, 4) {
                            Ok(_) => (),
                            Err(e) => {
                                return Err(e);
                            },
                        }
                    } else if kw == TAG_PVTX {
                        match self.read_faces(count / 3, &mut gs.faces) {
                            Ok(_) => proof {
                                lemma_faces_at_bounds(d, body, (count / 3) as nat);
                                assert(gs.deep_view() =~= GeosetV {
                                    faces: gv.faces + crate::grammar::faces_at(d, body, (count / 3) as nat)->Ok_0.0,
                                    ..gv
                                });
                            },
                            Err(e) => {
                                return Err(e);
                            },
                        }
                    } else if kw == TAG_GNDX {
                        match self.read_bytes(count, &mut gs.vertex_groups) {
                            Ok(_) => proof {
                                assert(gs.deep_view() =~= GeosetV {
                                    vertex_groups: gv.vertex_groups + d.subrange(
                                        body,
                                        body + count,
                                    ),
                                    ..gv
                                });
                            },
                            Err(e) => {
                                return Err(e);
                            },
                        }
                    } else if kw == TAG_TANG {
                        match self.skip_items(count, 16) {
                            Ok(_) => (),
                            Err(e) => {
                                return Err(e);
                            },
                        }
                    } else if kw == TAG_SKIN {
                        match self.skip_items(count, 8) {
                            Ok(_) => (),
                            Err(e) => {
                                return Err(e);
                            },
                        }
                    } else {
                        let ghost gsnap = gs.deep_view();
                        let ghost u0 = self.posi();
                        let mut j: u32 = 0;
                        while j < count
                            invariant
                                d == old(self).bytes(),
                                p0 == old(self).posi(),
                                end == p0 + size,
                                self.wf(),
                                self.bytes() == d,
                                0 <= j <= count,
                                self.posi() >= cur,
                                size_field_pos == cur,
                                gs.deep_view() == (GeosetV { uvs: gs.uvs.deep_view(), ..gsnap }),
                                uv_sets_at(d, u0, count as nat, gsnap.uvs) == uv_sets_at(
                                    d,
                                    self.posi(),
                                    (count - j) as nat,
                                    gs.uvs.deep_view(),
                                ),
                                match uv_sets_at(d, u0, count as nat, gsnap.uvs) {
                                    Err(e) => geos_chunk(d, p0, end) == Err::<
                                        (Seq<GeosetV>, int),
                                        ParseError,
                                    >(e),
                                    Ok(_) => true,
                                },
                            decreases count - j,
                        {
                            let ghost up = self.posi();
                            let ghost uvv = gs.uvs.deep_view();
                            let set_count = match self.read_u32() {
                                Ok(v) => v,
                                Err(e) => {
                                    return Err(e);
                                },
                            };
                            let mut uv_set: Vec<Vec2> = Vec::new();
                            match self.read_vec2s(set_count, &mut uv_set) {
                                Ok(_) => proof {
                                    lemma_vec2s_at_bounds(d, up + 4, set_count as nat);
                                },
                                Err(e) => {
                                    return Err(e);
                                },
                            };
                            let ghost setg = uv_set;
                            let ghost preuvs = gs.uvs;
                            gs.uvs.push(uv_set);
                            j = j + 1;
                            proof {
                                lemma_deep_view_push(preuvs, gs.uvs, setg);
                                assert(setg.deep_view() =~= setg@);
                                assert(gs.uvs.deep_view() =~= uvv + seq![setg@]);
                                assert(gs.deep_view() =~= (GeosetV {
                                    uvs: gs.uvs.deep_view(),
                                    ..gsnap
                                }));
                            }
                        }
                        proof {
                            lemma_uv_sets_at_bounds(d, u0, count as nat, gsnap.uvs);
                            assert(gs.deep_view() =~= (GeosetV { uvs: gs.uvs.deep_view(), ..gsnap }));
                        }
                    }
                } else {
                    done = true;
                }
            }
            proof {
                if !done {
                    assert(geoset_body(d, sub0, body_end, empty_geoset()) == Ok::<_, ParseError>(
                        (gs.deep_view(), self.posi()),
                    ));
                }
            }
            let ghost bodyg = gs.deep_view();
            let ghost stopp = self.posi();
            // Face indices must lie inside the vertex list.
            let ghost fv = gs.faces.deep_view();
            let ghost nverts = gs.vertices.deep_view().len() as int;
            proof {
                assert(fv =~= gs.faces@);
            }
            let mut fi: usize = 0;
            let mut faces_ok: bool = true;
            while faces_ok && fi < gs.faces.len()
                invariant
                    fv == gs.faces.deep_view(),
                    fv == gs.faces@,
                    nverts == gs.vertices.deep_view().len(),
                    gs.vertices.deep_view().len() == gs.vertices@.len(),
                    0 <= fi <= gs.faces@.len(),
                    faces_ok ==> forall|ii: int, k: int|
                        0 <= ii < fi && 0 <= k < 3 ==> #[trigger] fv[ii].indices@[k] < nverts,
                    !faces_ok ==> !faces_in_range(fv, nverts),
                decreases gs.faces.len() - fi + (if faces_ok {
                    1int
                } else {
                    0int
                }),
            {
                let f = gs.faces[fi];
                if !((f.indices[0] as usize) < gs.vertices.len() && (f.indices[1] as usize)
                    < gs.vertices.len() && (f.indices[2] as usize) < gs.vertices.len()) {
                    proof {
                        if faces_in_range(fv, nverts) {
                            assert(fv[fi as int].indices@[0] < nverts);
                            assert(fv[fi as int].indices@[1] < nverts);
                            assert(fv[fi as int].indices@[2] < nverts);
                        }
                        assert(!faces_in_range(fv, nverts));
                    }
                    faces_ok = false;
                } else {
                    fi = fi + 1;
                }
            }
            if !faces_ok {
                proof {
                    assert(geos_chunk(d, cur, end) == Err::<(Seq<GeosetV>, int), ParseError>(
                        ParseError::Corrupt,
                    ));
                }
                return Err(ParseError::Corrupt);
            }
            proof {
                assert(faces_in_range(fv, nverts));
            }
            // Derive the bounding box over the vertices.
            let ghost vs = gs.vertices.deep_view();
            if gs.vertices.len() > 0 {
                let v0 = gs.vertices[0];
                let mut bb = BoundingBox { min: v0, max: v0 };
                let mut vi: usize = 0;
                while vi < gs.vertices.len()
                    invariant
                        d == old(self).bytes(),
                        self.wf(),
                        self.bytes() == d,
                        self.posi() == stopp,
                        vs == gs.vertices.deep_view(),
                        vs == gs.vertices@,
                        vs.len() > 0,
                        v0 == vs[0],
                        0 <= vi <= vs.len(),
                        bbox_fold(vs, 0, BoundingBox { min: vs[0], max: vs[0] }) == bbox_fold(
                            vs,
                            vi as int,
                            bb,
                        ),
                    decreases gs.vertices.len() - vi,
                {
                    let v = gs.vertices[vi];
                    let ghost bbg = bb;
                    bb = BoundingBox {
                        min: Vec3 {
                            x: fmin_exec(bb.min.x, v.x),
                            y: fmin_exec(bb.min.y, v.y),
                            z: fmin_exec(bb.min.z, v.z),
                        },
                        max: Vec3 {
                            x: fmax_exec(bb.max.x, v.x),
                            y: fmax_exec(bb.max.y, v.y),
                            z: fmax_exec(bb.max.z, v.z),
                        },
                    };
                    vi = vi + 1;
                    proof {
                        assert(bb == bbox_extend(bbg, vs[vi - 1]));
                    }
                }
                gs.bounds = bb;
                proof {
                    assert(gs.bounds == aabb_of(vs));
                }
            } else {
                gs.bounds = BoundingBox {
                    min: Vec3 { x: 0, y: 0, z: 0 },
                    max: Vec3 { x: 0, y: 0, z: 0 },
                };
                proof {
                    assert(gs.bounds == aabb_of(vs));
                }
            }
            proof {
                assert(gs.deep_view() =~= (GeosetV { bounds: aabb_of(bodyg.vertices), ..bodyg }));
            }
            let ghost gg = gs;
            let ghost pre = *geosets;
            geosets.push(gs);
            match self.seek_from(size_field_pos, geoset_size) {
                Ok(_) => (),
                Err(e) => {
                    return Err(e);
                },
            };
            proof {
                lemma_deep_view_push(pre, *geosets, gg);
                assert(geosets.deep_view().take(base.len() as int) =~= base);
                match geos_chunk(d, self.posi(), end) {
                    Ok(pair) => {
                        assert(geosets.deep_view().skip(base.len() as int) + pair.0 =~= gsv.skip(
                            base.len() as int,
                        ) + (seq![gg.deep_view()] + pair.0));
                    },
                    Err(_) => {},
                }
            }
        }
        proof {
            assert(geosets.deep_view() =~= base + geosets.deep_view().skip(base.len() as int));
        }
        Ok(())
    }
}

} // verus!
