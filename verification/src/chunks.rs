//! The typed parsers for the plain chunks: model info, sequences, global
//! sequences, textures, materials, geoset animations and pivot points.

use vstd::prelude::*;

use crate::grammar::{
    geoa_chunk, layers_at, modl_at, mtls_chunk, seqs_chunk, texs_chunk, u32s_at, vec3s_at,
    TAG_LAYS,
};
use crate::model::{
    lemma_deep_view_push, GeosetAnim, Layer, Material, MaterialV, ModelInfo, ParseError, Sequence,
    SequenceV, Texture, TextureV, Vec3,
};
use crate::reader::MdxParser;

verus! {

impl MdxParser {
    /// Parses the `MODL` body into the model info.
    pub(crate) fn parse_model_info(&mut self, info: &mut ModelInfo) -> (r: Result<(), ParseError>)
        requires
            old(self).wf(),
        ensures
            final(self).wf(),
            final(self).bytes() == old(self).bytes(),
            match modl_at(old(self).bytes(), old(self).posi()) {
                Ok(pair) => (r is Ok && final(info).deep_view() == pair.0 && final(self).posi()
                    == pair.1),
                Err(e) => r == Err::<(), ParseError>(e),
            },
    {
        let name = self.read_string(336)?;
        // Animation file name slot; a failed read here is tolerated, as the
        // following reads fail in the same cases.
        let _ = self.read_u32();
        let (bounds_radius, minimum_extent, maximum_extent) = self.read_extent()?;
        let blend_time = self.read_u32()?;
        *info = ModelInfo { name, minimum_extent, maximum_extent, bounds_radius, blend_time };
        Ok(())
    }

    /// Parses the `SEQS` chunk body, appending the records to `sequences`.
    pub(crate) fn parse_sequences(&mut self, sequences: &mut Vec<Sequence>, size: u32) -> (r:
        Result<(), ParseError>)
        requires
            old(self).wf(),
        ensures
            final(self).wf(),
            final(self).bytes() == old(self).bytes(),
            match seqs_chunk(old(self).bytes(), old(self).posi(), old(self).posi() + size) {
                Ok(pair) => (r is Ok && final(sequences).deep_view() == old(sequences).deep_view()
                    + pair.0 && final(self).posi() == pair.1),
                Err(e) => r == Err::<(), ParseError>(e),
            },
    {
        let ghost d = self.bytes();
        let ghost p0 = self.posi();
        let ghost end = p0 + size;
        let ghost base = sequences.deep_view();
        let start = self.cur();
        proof {
            match seqs_chunk(d, p0, end) {
                Ok(pair) => {
                    assert(base.skip(base.len() as int) + pair.0 =~= pair.0);
                },
                Err(_) => {},
            }
        }
        while self.before(start, size)
            invariant
                d == old(self).bytes(),
                p0 == old(self).posi(),
                end == p0 + size,
                base == old(sequences).deep_view(),
                self.wf(),
                self.bytes() == d,
                start == p0,
                self.posi() >= p0,
                sequences.deep_view().len() >= base.len(),
                sequences.deep_view().take(base.len() as int) == base,
                match seqs_chunk(d, self.posi(), end) {
                    Ok(pair) => seqs_chunk(d, p0, end) == Ok::<_, ParseError>(
                        (sequences.deep_view().skip(base.len() as int) + pair.0, pair.1),
                    ),
                    Err(e) => seqs_chunk(d, p0, end) == Err::<(Seq<SequenceV>, int), ParseError>(
                        e,
                    ),
                },
            decreases d.len() - self.posi(),
        {
            let ghost sv = sequences.deep_view();
            let record = match self.read_sequence() {
                Ok(s) => s,
                Err(e) => {
                    return Err(e);
                },
            };
            let ghost rg = record;
            let ghost pre = *sequences;
            sequences.push(record);
            proof {
                lemma_deep_view_push(pre, *sequences, rg);
                assert(sequences.deep_view().take(base.len() as int) =~= base);
                match seqs_chunk(d, self.posi(), end) {
                    Ok(pair) => {
                        assert(sequences.deep_view().skip(base.len() as int) + pair.0 =~= sv.skip(
                            base.len() as int,
                        ) + (seq![rg.deep_view()] + pair.0));
                    },
                    Err(_) => {},
                }
            }
        }
        proof {
            assert(sequences.deep_view() =~= base + sequences.deep_view().skip(base.len() as int));
        }
        Ok(())
    }

    /// Parses the `GLBS` chunk body: `size / 4` loop durations.
    pub(crate) fn parse_global_sequences(
        &mut self,
        global_sequences: &mut Vec<u32>,
        size: u32,
    ) -> (r: Result<(), ParseError>)
        requires
            old(self).wf(),
        ensures
            final(self).wf(),
            final(self).bytes() == old(self).bytes(),
            match u32s_at(old(self).bytes(), old(self).posi(), (size / 4) as nat) {
                Ok(pair) => (r is Ok && final(global_sequences)@ == old(global_sequences)@ + pair.0
                    && final(self).posi() == pair.1),
                Err(e) => r == Err::<(), ParseError>(e),
            },
    {
        self.read_u32s(size / 4, global_sequences)
    }

    /// Parses the `TEXS` chunk body: `size / 268` fixed-width records.
    pub(crate) fn parse_textures(&mut self, textures: &mut Vec<Texture>, size: u32) -> (r: Result<
        (),
        ParseError,
    >)
        requires
            old(self).wf(),
        ensures
            final(self).wf(),
            final(self).bytes() == old(self).bytes(),
            match texs_chunk(old(self).bytes(), old(self).posi(), (size / 268) as nat) {
                Ok(pair) => (r is Ok && final(textures).deep_view() == old(textures).deep_view()
                    + pair.0 && final(self).posi() == pair.1),
                Err(e) => r == Err::<(), ParseError>(e),
            },
    {
        let ghost d = self.bytes();
        let ghost p0 = self.posi();
        let ghost base = textures.deep_view();
        let n: u32 = size / 268;
        proof {
            match texs_chunk(d, p0, n as nat) {
                Ok(pair) => {
                    assert(base.skip(base.len() as int) + pair.0 =~= pair.0);
                },
                Err(_) => {},
            }
        }
        let mut i: u32 = 0;
        while i < n
            invariant
                d == old(self).bytes(),
                p0 == old(self).posi(),
                base == old(textures).deep_view(),
                n == size / 268,
                self.wf(),
                self.bytes() == d,
                0 <= i <= n,
                textures.deep_view().len() >= base.len(),
                textures.deep_view().take(base.len() as int) == base,
                match texs_chunk(d, self.posi(), (n - i) as nat) {
                    Ok(pair) => texs_chunk(d, p0, n as nat) == Ok::<_, ParseError>(
                        (textures.deep_view().skip(base.len() as int) + pair.0, pair.1),
                    ),
                    Err(e) => texs_chunk(d, p0, n as nat) == Err::<(Seq<TextureV>, int), ParseError>(
                        e,
                    ),
                },
            decreases n - i,
        {
            let ghost tv = textures.deep_view();
            let record = match self.read_texture() {
                Ok(t) => t,
                Err(e) => {
                    return Err(e);
                },
            };
            i = i + 1;
            let ghost rg = record;
            let ghost pre = *textures;
            textures.push(record);
            proof {
                lemma_deep_view_push(pre, *textures, rg);
                assert(textures.deep_view().take(base.len() as int) =~= base);
                match texs_chunk(d, self.posi(), (n - i) as nat) {
                    Ok(pair) => {
                        assert(textures.deep_view().skip(base.len() as int) + pair.0 =~= tv.skip(
                            base.len() as int,
                        ) + (seq![rg.deep_view()] + pair.0));
                    },
                    Err(_) => {},
                }
            }
        }
        proof {
            assert(textures.deep_view() =~= base + textures.deep_view().skip(base.len() as int));
        }
        Ok(())
    }

    /// Parses the `GEOA` chunk body, appending the records to
    /// `geoset_anims`.
    pub(crate) fn parse_geoset_anims(&mut self, geoset_anims: &mut Vec<GeosetAnim>, size: u32) -> (r:
        Result<(), ParseError>)
        requires
            old(self).wf(),
        ensures
            final(self).wf(),
            final(self).bytes() == old(self).bytes(),
            match geoa_chunk(old(self).bytes(), old(self).posi(), old(self).posi() + size) {
                Ok(pair) => (r is Ok && final(geoset_anims).deep_view() == old(
                    geoset_anims,
                ).deep_view() + pair.0 && final(self).posi() == pair.1),
                Err(e) => r == Err::<(), ParseError>(e),
            },
    {
        let ghost d = self.bytes();
        let ghost p0 = self.posi();
        let ghost end = p0 + size;
        let ghost base = geoset_anims.deep_view();
        let start = self.cur();
        proof {
            match geoa_chunk(d, p0, end) {
                Ok(pair) => {
                    assert(base.skip(base.len() as int) + pair.0 =~= pair.0);
                },
                Err(_) => {},
            }
        }
        while self.before(start, size)
            invariant
                d == old(self).bytes(),
                p0 == old(self).posi(),
                end == p0 + size,
                base == old(geoset_anims).deep_view(),
                self.wf(),
                self.bytes() == d,
                start == p0,
                self.posi() >= p0,
                geoset_anims.deep_view().len() >= base.len(),
                geoset_anims.deep_view().take(base.len() as int) == base,
                match geoa_chunk(d, self.posi(), end) {
                    Ok(pair) => geoa_chunk(d, p0, end) == Ok::<_, ParseError>(
                        (geoset_anims.deep_view().skip(base.len() as int) + pair.0, pair.1),
                    ),
                    Err(e) => geoa_chunk(d, p0, end) == Err::<(Seq<GeosetAnim>, int), ParseError>(
                        e,
                    ),
                },
            decreases d.len() - self.posi(),
        {
            let ghost gv = geoset_anims.deep_view();
            let record = match self.read_geoset_anim() {
                Ok(a) => a,
                Err(e) => {
                    return Err(e);
                },
            };
            let ghost rg = record;
            let ghost pre = *geoset_anims;
            geoset_anims.push(record);
            proof {
                lemma_deep_view_push(pre, *geoset_anims, rg);
                assert(geoset_anims.deep_view().take(base.len() as int) =~= base);
                match geoa_chunk(d, self.posi(), end) {
                    Ok(pair) => {
                        assert(geoset_anims.deep_view().skip(base.len() as int) + pair.0
                            =~= gv.skip(base.len() as int) + (seq![rg.deep_view()] + pair.0));
                    },
                    Err(_) => {},
                }
            }
        }
        proof {
            assert(geoset_anims.deep_view() =~= base + geoset_anims.deep_view().skip(
                base.len() as int,
            ));
        }
        Ok(())
    }

    /// Parses the `PIVT` chunk body: `size / 12` pivot points.
    pub(crate) fn parse_pivot_points(&mut self, pivot_points: &mut Vec<Vec3>, size: u32) -> (r:
        Result<(), ParseError>)
        requires
            old(self).wf(),
        ensures
            final(self).wf(),
            final(self).bytes() == old(self).bytes(),
            match vec3s_at(old(self).bytes(), old(self).posi(), (size / 12) as nat) {
                Ok(pair) => (r is Ok && final(pivot_points)@ == old(pivot_points)@ + pair.0
                    && final(self).posi() == pair.1),
                Err(e) => r == Err::<(), ParseError>(e),
            },
    {
        self.read_vec3s(size / 12, pivot_points)
    }

    /// Parses the `MTLS` chunk body, appending the records to `materials`.
    /// Material records and their layers carry inclusive sizes.
    pub(crate) fn parse_materials(&mut self, materials: &mut Vec<Material>, size: u32) -> (r:
        Result<(), ParseError>)
        requires
            old(self).wf(),
        ensures
            final(self).wf(),
            final(self).bytes() == old(self).bytes(),
            match mtls_chunk(old(self).bytes(), old(self).posi(), old(self).posi() + size) {
                Ok(pair) => (r is Ok && final(materials).deep_view() == old(materials).deep_view()
                    + pair.0 && final(self).posi() == pair.1),
                Err(e) => r == Err::<(), ParseError>(e),
            },
    {
        let ghost d = self.bytes();
        let ghost p0 = self.posi();
        let ghost end = p0 + size;
        let ghost base = materials.deep_view();
        let start = self.cur();
        proof {
            match mtls_chunk(d, p0, end) {
                Ok(pair) => {
                    assert(base.skip(base.len() as int) + pair.0 =~= pair.0);
                },
                Err(_) => {},
            }
        }
        while self.before(start, size)
            invariant
                d == old(self).bytes(),
                p0 == old(self).posi(),
                end == p0 + size,
                base == old(materials).deep_view(),
                self.wf(),
                self.bytes() == d,
                start == p0,
                self.posi() >= p0,
                materials.deep_view().len() >= base.len(),
                materials.deep_view().take(base.len() as int) == base,
                match mtls_chunk(d, self.posi(), end) {
                    Ok(pair) => mtls_chunk(d, p0, end) == Ok::<_, ParseError>(
                        (materials.deep_view().skip(base.len() as int) + pair.0, pair.1),
                    ),
                    Err(e) => mtls_chunk(d, p0, end) == Err::<(Seq<MaterialV>, int), ParseError>(
                        e,
                    ),
                },
            decreases d.len() - self.posi(),
        {
            let ghost mv = materials.deep_view();
            let ghost cur = self.posi();
            let size_field_pos = self.cur();
            let material_size = match self.read_u32() {
                Ok(v) => v,
                Err(e) => {
                    return Err(e);
                },
            };
            if material_size < 4 {
                return Err(ParseError::Corrupt);
            }
            let priority_plane = match self.read_u32() {
                Ok(v) => v,
                Err(e) => {
                    return Err(e);
                },
            };
            let render_mode = match self.read_u32() {
                Ok(v) => v,
                Err(e) => {
                    return Err(e);
                },
            };
            let mut layers: Vec<Layer> = Vec::new();
            if material_size > 12 {
                let kw = match self.read_u32() {
                    Ok(v) => v,
                    Err(e) => {
                        return Err(e);
                    },
                };
                if kw == TAG_LAYS {
                    let layers_count = match self.read_u32() {
                        Ok(v) => v,
                        Err(e) => {
                            return Err(e);
                        },
                    };
                    let ghost l0 = self.posi();
                    proof {
                        match layers_at(d, l0, layers_count as nat) {
                            Ok(pair) => {
                                assert(layers@ + pair.0 =~= pair.0);
                            },
                            Err(_) => {},
                        }
                    }
                    let mut j: u32 = 0;
                    while j < layers_count
                        invariant
                            d == old(self).bytes(),
                            p0 == old(self).posi(),
                            end == p0 + size,
                            self.wf(),
                            self.bytes() == d,
                            0 <= j <= layers_count,
                            match layers_at(d, self.posi(), (layers_count - j) as nat) {
                                Ok(pair) => layers_at(d, l0, layers_count as nat) == Ok::<
                                    _,
                                    ParseError,
                                >((layers@ + pair.0, pair.1)),
                                Err(e) => layers_at(d, l0, layers_count as nat) == Err::<
                                    (Seq<Layer>, int),
                                    ParseError,
                                >(e),
                            },
                            match layers_at(d, l0, layers_count as nat) {
                                Err(e) => mtls_chunk(d, p0, end) == Err::<
                                    (Seq<MaterialV>, int),
                                    ParseError,
                                >(e),
                                Ok(_) => true,
                            },
                        decreases layers_count - j,
                    {
                        let ghost lv = layers@;
                        let layer_size_field_pos = self.cur();
                        let layer_size = match self.read_u32() {
                            Ok(v) => v,
                            Err(e) => {
                                return Err(e);
                            },
                        };
                        let filter_mode = match self.read_u32() {
                            Ok(v) => v,
                            Err(e) => {
                                return Err(e);
                            },
                        };
                        let shading = match self.read_u32() {
                            Ok(v) => v,
                            Err(e) => {
                                return Err(e);
                            },
                        };
                        let texture_id = match self.read_i32() {
                            Ok(v) => v,
                            Err(e) => {
                                return Err(e);
                            },
                        };
                        // Texture-coordinate animation id, unused.
                        match self.read_i32() {
                            Ok(_) => (),
                            Err(e) => {
                                return Err(e);
                            },
                        };
                        let coord_id = match self.read_u32() {
                            Ok(v) => v,
                            Err(e) => {
                                return Err(e);
                            },
                        };
                        let alpha = match self.read_scalar() {
                            Ok(v) => v,
                            Err(e) => {
                                return Err(e);
                            },
                        };
                        // The rest of the layer holds animation tracks; the
                        // layer size is inclusive of its own size field.
                        match self.seek_from(layer_size_field_pos, layer_size) {
                            Ok(_) => (),
                            Err(e) => {
                                return Err(e);
                            },
                        };
                        layers.push(
                            Layer { filter_mode, shading, texture_id, coord_id, alpha },
                        );
                        j = j + 1;
                        proof {
                            match layers_at(d, self.posi(), (layers_count - j) as nat) {
                                Ok(pair) => {
                                    assert(layers@ + pair.0 =~= lv + (seq![
                                        Layer { filter_mode, shading, texture_id, coord_id, alpha },
                                    ] + pair.0));
                                },
                                Err(_) => {},
                            }
                        }
                    }
                }
            }
            let material = Material { priority_plane, render_mode, layers };
            let ghost mg = material;
            proof {
                assert(mg.layers.deep_view() =~= mg.layers@);
            }
            let ghost pre = *materials;
            materials.push(material);
            match self.seek_from(size_field_pos, material_size) {
                Ok(_) => (),
                Err(e) => {
                    return Err(e);
                },
            };
            proof {
                lemma_deep_view_push(pre, *materials, mg);
                assert(materials.deep_view().take(base.len() as int) =~= base);
                match mtls_chunk(d, self.posi(), end) {
                    Ok(pair) => {
                        assert(materials.deep_view().skip(base.len() as int) + pair.0 =~= mv.skip(
                            base.len() as int,
                        ) + (seq![mg.deep_view()] + pair.0));
                    },
                    Err(_) => {},
                }
            }
        }
        proof {
            assert(materials.deep_view() =~= base + materials.deep_view().skip(base.len() as int));
        }
        Ok(())
    }
}

} // verus!
