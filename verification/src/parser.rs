//! The chunk framer: magic check, the top-level tag dispatch loop, and the
//! pivot-binding post-pass.  `parse` is proved equal to `file_model` of the
//! grammar.

use vstd::prelude::*;

use crate::grammar::{
    bind_pivots, chunk_step, chunks_from, file_model, init_model, TAG_ATCH, TAG_BONE, TAG_CAMS,
    TAG_CLID, TAG_EVTS, TAG_GEOA, TAG_GEOS, TAG_GLBS, TAG_HELP, TAG_LITE, TAG_MODL, TAG_MTLS,
    TAG_PIVT, TAG_PRE2, TAG_PREM, TAG_RIBB, TAG_SEQS, TAG_TEXS, TAG_TXAN, TAG_VERS,
};
use crate::model::{error_text, MdxModel, ModelInfo, ModelV, Node, NodeV, ParseError, Vec3};
use crate::reader::MdxParser;
use crate::wire::le32_at;
use vstd::string::StringExecFns;

verus! {

/// The four-byte file magic, ASCII `MDLX`.
pub const MDX_MAGIC: [u8; 4] = [0x4D, 0x44, 0x4C, 0x58];

/// The recognised top-level chunk tags.
#[derive(Clone, Copy, Debug, PartialEq, Eq, Structural)]
pub enum ChunkType {
    Vers,
    Modl,
    Seqs,
    Glbs,
    Mtls,
    Texs,
    Txan,
    Geos,
    Geoa,
    Bone,
    Help,
    Atch,
    Pivt,
    Evts,
    Clid,
    Cams,
    Lite,
    Prem,
    Pre2,
    Ribb,
    Unknown,
}

/// The chunk kind named by a tag, as its little-endian word.
pub open spec fn chunk_type_of(v: u32) -> ChunkType {
    if v == TAG_VERS {
        ChunkType::Vers
    } else if v == TAG_MODL {
        ChunkType::Modl
    } else if v == TAG_SEQS {
        ChunkType::Seqs
    } else if v == TAG_GLBS {
        ChunkType::Glbs
    } else if v == TAG_MTLS {
        ChunkType::Mtls
    } else if v == TAG_TEXS {
        ChunkType::Texs
    } else if v == TAG_TXAN {
        ChunkType::Txan
    } else if v == TAG_GEOS {
        ChunkType::Geos
    } else if v == TAG_GEOA {
        ChunkType::Geoa
    } else if v == TAG_BONE {
        ChunkType::Bone
    } else if v == TAG_HELP {
        ChunkType::Help
    } else if v == TAG_ATCH {
        ChunkType::Atch
    } else if v == TAG_PIVT {
        ChunkType::Pivt
    } else if v == TAG_EVTS {
        ChunkType::Evts
    } else if v == TAG_CLID {
        ChunkType::Clid
    } else if v == TAG_CAMS {
        ChunkType::Cams
    } else if v == TAG_LITE {
        ChunkType::Lite
    } else if v == TAG_PREM {
        ChunkType::Prem
    } else if v == TAG_PRE2 {
        ChunkType::Pre2
    } else if v == TAG_RIBB {
        ChunkType::Ribb
    } else {
        ChunkType::Unknown
    }
}

impl ChunkType {
    /// Recognises a four-byte chunk tag.
    pub fn from_bytes(bytes: &[u8; 4]) -> (r: ChunkType)
        ensures
            r == chunk_type_of(le32_at(bytes@, 0)),
    {
        let v = (bytes[0] as u32) | ((bytes[1] as u32) << 8u32) | ((bytes[2] as u32) << 16u32) | (
        (bytes[3] as u32) << 24u32);
        if v == TAG_VERS {
            ChunkType::Vers
        } else if v == TAG_MODL {
            ChunkType::Modl
        } else if v == TAG_SEQS {
            ChunkType::Seqs
        } else if v == TAG_GLBS {
            ChunkType::Glbs
        } else if v == TAG_MTLS {
            ChunkType::Mtls
        } else if v == TAG_TEXS {
            ChunkType::Texs
        } else if v == TAG_TXAN {
            ChunkType::Txan
        } else if v == TAG_GEOS {
            ChunkType::Geos
        } else if v == TAG_GEOA {
            ChunkType::Geoa
        } else if v == TAG_BONE {
            ChunkType::Bone
        } else if v == TAG_HELP {
            ChunkType::Help
        } else if v == TAG_ATCH {
            ChunkType::Atch
        } else if v == TAG_PIVT {
            ChunkType::Pivt
        } else if v == TAG_EVTS {
            ChunkType::Evts
        } else if v == TAG_CLID {
            ChunkType::Clid
        } else if v == TAG_CAMS {
            ChunkType::Cams
        } else if v == TAG_LITE {
            ChunkType::Lite
        } else if v == TAG_PREM {
            ChunkType::Prem
        } else if v == TAG_PRE2 {
            ChunkType::Pre2
        } else if v == TAG_RIBB {
            ChunkType::Ribb
        } else {
            ChunkType::Unknown
        }
    }
}

impl MdxParser {
    /// Parses the whole file into a model document.  On success the cursor
    /// stands at end-of-input.
    pub fn parse(&mut self) -> (r: Result<MdxModel, String>)
        requires
            old(self).wf(),
            old(self).posi() == 0,
        ensures
            final(self).wf(),
            final(self).bytes() == old(self).bytes(),
            match file_model(old(self).bytes()) {
                Ok(mv) => (r matches Ok(m) && m.deep_view() == mv
                    && final(self).posi() == final(self).bytes().len()),
                Err(e) => (r matches Err(s) && s@ == error_text(e)),
            },
    {
        match self.parse_internal() {
            Ok(m) => Ok(m),
            Err(e) => Err(String::from_str(e.message())),
        }
    }


    /// Runs the typed parser for one plain data chunk (or absorbs an
    /// unhandled chunk by its declared size).
    #[verifier::rlimit(100)]
    #[verifier::spinoff_prover]
    fn run_data_chunk(&mut self, model: &mut MdxModel, chunk_type: ChunkType, chunk_size: u32) -> (r:
        Result<(), ParseError>)
        requires
            old(self).wf(),
            old(self).posi() >= 8,
            chunk_type == chunk_type_of(le32_at(old(self).bytes(), old(self).posi() - 8)),
            chunk_size == le32_at(old(self).bytes(), old(self).posi() - 4),
            !(chunk_type == ChunkType::Texs || chunk_type == ChunkType::Mtls || chunk_type
                == ChunkType::Geos || chunk_type == ChunkType::Geoa || chunk_type
                == ChunkType::Bone || chunk_type == ChunkType::Help || chunk_type
                == ChunkType::Atch || chunk_type == ChunkType::Pivt || chunk_type
                == ChunkType::Evts || chunk_type == ChunkType::Clid),
        ensures
            final(self).wf(),
            final(self).bytes() == old(self).bytes(),
            match chunk_step(old(self).bytes(), old(self).posi() - 8, old(model).deep_view()) {
                Ok(pair) => (r is Ok && final(model).deep_view() == pair.0 && final(self).posi()
                    == pair.1),
                Err(e) => r == Err::<(), ParseError>(e),
            },
    {
        let ghost d = self.bytes();
        let ghost cur = self.posi() - 8;
        let ghost mv = model.deep_view();
        match chunk_type {
            ChunkType::Vers => {
                let v = match self.read_u32() {
                    Ok(v) => v,
                    Err(e) => {
                        return Err(e);
                    },
                };
                model.version = v;
                proof {
                    assert(model.deep_view() =~= (ModelV { version: v, ..mv }));
                }
            },
            ChunkType::Modl => {
                match self.parse_model_info(&mut model.info) {
                    Ok(_) => (),
                    Err(e) => {
                        return Err(e);
                    },
                };
                proof {
                    assert(model.deep_view() =~= (ModelV {
                        info: model.info.deep_view(),
                        ..mv
                    }));
                }
            },
            ChunkType::Seqs => {
                match self.parse_sequences(&mut model.sequences, chunk_size) {
                    Ok(_) => (),
                    Err(e) => {
                        return Err(e);
                    },
                };
                proof {
                    assert(model.deep_view() =~= (ModelV {
                        sequences: model.sequences.deep_view(),
                        ..mv
                    }));
                }
            },
            ChunkType::Glbs => {
                let ghost gs0 = model.global_sequences@;
                proof {
                    assert(mv.global_sequences =~= gs0);
                }
                match self.parse_global_sequences(&mut model.global_sequences, chunk_size) {
                    Ok(_) => (),
                    Err(e) => {
                        return Err(e);
                    },
                };
                proof {
                    assert(model.global_sequences.deep_view() =~= model.global_sequences@);
                    assert(model.deep_view() =~= (ModelV {
                        global_sequences: model.global_sequences.deep_view(),
                        ..mv
                    }));
                }
            },
            _ => {
                // TXAN, CAMS, LITE, PREM, PRE2, RIBB and unrecognised tags
                // are absorbed by their declared size.
                match self.skip_items(chunk_size, 1) {
                    Ok(_) => (),
                    Err(e) => {
                        return Err(e);
                    },
                };
            },
        }
        proof {
            assert(chunk_step(d, cur, mv) == Ok::<(ModelV, int), ParseError>(
                (model.deep_view(), self.posi()),
            ));
        }
        Ok(())
    }

    /// Runs the typed parser for one mesh-related chunk: textures,
    /// materials, geosets or geoset animations.
    #[verifier::rlimit(100)]
    #[verifier::spinoff_prover]
    fn run_mesh_chunk(&mut self, model: &mut MdxModel, chunk_type: ChunkType, chunk_size: u32) -> (r:
        Result<(), ParseError>)
        requires
            old(self).wf(),
            old(self).posi() >= 8,
            chunk_type == chunk_type_of(le32_at(old(self).bytes(), old(self).posi() - 8)),
            chunk_size == le32_at(old(self).bytes(), old(self).posi() - 4),
            chunk_type == ChunkType::Texs || chunk_type == ChunkType::Mtls || chunk_type
                == ChunkType::Geos || chunk_type == ChunkType::Geoa,
        ensures
            final(self).wf(),
            final(self).bytes() == old(self).bytes(),
            match chunk_step(old(self).bytes(), old(self).posi() - 8, old(model).deep_view()) {
                Ok(pair) => (r is Ok && final(model).deep_view() == pair.0 && final(self).posi()
                    == pair.1),
                Err(e) => r == Err::<(), ParseError>(e),
            },
    {
        let ghost d = self.bytes();
        let ghost cur = self.posi() - 8;
        let ghost mv = model.deep_view();
        match chunk_type {
            ChunkType::Texs => {
                match self.parse_textures(&mut model.textures, chunk_size) {
                    Ok(_) => (),
                    Err(e) => {
                        return Err(e);
                    },
                };
                proof {
                    assert(model.deep_view() =~= (ModelV {
                        textures: model.textures.deep_view(),
                        ..mv
                    }));
                }
            },
            ChunkType::Mtls => {
                match self.parse_materials(&mut model.materials, chunk_size) {
                    Ok(_) => (),
                    Err(e) => {
                        return Err(e);
                    },
                };
                proof {
                    assert(model.deep_view() =~= (ModelV {
                        materials: model.materials.deep_view(),
                        ..mv
                    }));
                }
            },
            ChunkType::Geos => {
                match self.parse_geosets(&mut model.geosets, chunk_size) {
                    Ok(_) => (),
                    Err(e) => {
                        return Err(e);
                    },
                };
                proof {
                    assert(model.deep_view() =~= (ModelV {
                        geosets: model.geosets.deep_view(),
                        ..mv
                    }));
                }
            },
            ChunkType::Geoa => {
                match self.parse_geoset_anims(&mut model.geoset_anims, chunk_size) {
                    Ok(_) => (),
                    Err(e) => {
                        return Err(e);
                    },
                };
                proof {
                    assert(model.deep_view() =~= (ModelV {
                        geoset_anims: model.geoset_anims.deep_view(),
                        ..mv
                    }));
                }
            },
            _ => {
                proof {
                    assert(false);
                }
            },
        }
        proof {
            assert(chunk_step(d, cur, mv) == Ok::<(ModelV, int), ParseError>(
                (model.deep_view(), self.posi()),
            ));
        }
        Ok(())
    }

    /// Runs the typed parser for one node-bearing chunk.
    #[verifier::rlimit(100)]
    #[verifier::spinoff_prover]
    fn run_node_chunk(&mut self, model: &mut MdxModel, chunk_type: ChunkType, chunk_size: u32) -> (r:
        Result<(), ParseError>)
        requires
            old(self).wf(),
            old(self).posi() >= 8,
            chunk_type == chunk_type_of(le32_at(old(self).bytes(), old(self).posi() - 8)),
            chunk_size == le32_at(old(self).bytes(), old(self).posi() - 4),
            chunk_type == ChunkType::Bone || chunk_type == ChunkType::Help || chunk_type
                == ChunkType::Atch || chunk_type == ChunkType::Pivt || chunk_type
                == ChunkType::Evts || chunk_type == ChunkType::Clid,
        ensures
            final(self).wf(),
            final(self).bytes() == old(self).bytes(),
            match chunk_step(old(self).bytes(), old(self).posi() - 8, old(model).deep_view()) {
                Ok(pair) => (r is Ok && final(model).deep_view() == pair.0 && final(self).posi()
                    == pair.1),
                Err(e) => r == Err::<(), ParseError>(e),
            },
    {
        let ghost d = self.bytes();
        let ghost cur = self.posi() - 8;
        let ghost mv = model.deep_view();
        match chunk_type {
            ChunkType::Bone => {
                match self.parse_bones(&mut model.bones, &mut model.nodes, chunk_size) {
                    Ok(_) => (),
                    Err(e) => {
                        return Err(e);
                    },
                };
                proof {
                    assert(model.deep_view() =~= (ModelV {
                        bones: model.bones.deep_view(),
                        nodes: model.nodes.deep_view(),
                        ..mv
                    }));
                }
            },
            ChunkType::Help => {
                match self.parse_helpers(&mut model.helpers, &mut model.nodes, chunk_size) {
                    Ok(_) => (),
                    Err(e) => {
                        return Err(e);
                    },
                };
                proof {
                    assert(model.deep_view() =~= (ModelV {
                        helpers: model.helpers.deep_view(),
                        nodes: model.nodes.deep_view(),
                        ..mv
                    }));
                }
            },
            ChunkType::Atch => {
                match self.parse_attachments(
                    &mut model.attachments,
                    &mut model.nodes,
                    chunk_size,
                ) {
                    Ok(_) => (),
                    Err(e) => {
                        return Err(e);
                    },
                };
                proof {
                    assert(model.deep_view() =~= (ModelV {
                        attachments: model.attachments.deep_view(),
                        nodes: model.nodes.deep_view(),
                        ..mv
                    }));
                }
            },
            ChunkType::Pivt => {
                let ghost pv0 = model.pivot_points@;
                proof {
                    assert(mv.pivot_points =~= pv0);
                }
                match self.parse_pivot_points(&mut model.pivot_points, chunk_size) {
                    Ok(_) => (),
                    Err(e) => {
                        return Err(e);
                    },
                };
                proof {
                    assert(model.pivot_points.deep_view() =~= model.pivot_points@);
                    assert(model.deep_view() =~= (ModelV {
                        pivot_points: model.pivot_points.deep_view(),
                        ..mv
                    }));
                }
            },
            ChunkType::Evts => {
                match self.parse_event_objects(
                    &mut model.event_objects,
                    &mut model.nodes,
                    chunk_size,
                ) {
                    Ok(_) => (),
                    Err(e) => {
                        return Err(e);
                    },
                };
                proof {
                    assert(model.deep_view() =~= (ModelV {
                        event_objects: model.event_objects.deep_view(),
                        nodes: model.nodes.deep_view(),
                        ..mv
                    }));
                }
            },
            ChunkType::Clid => {
                match self.parse_collision_shapes(
                    &mut model.collision_shapes,
                    &mut model.nodes,
                    chunk_size,
                ) {
                    Ok(_) => (),
                    Err(e) => {
                        return Err(e);
                    },
                };
                proof {
                    assert(model.deep_view() =~= (ModelV {
                        collision_shapes: model.collision_shapes.deep_view(),
                        nodes: model.nodes.deep_view(),
                        ..mv
                    }));
                }
            },
            _ => {
                proof {
                    assert(false);
                }
            },
        }
        proof {
            assert(chunk_step(d, cur, mv) == Ok::<(ModelV, int), ParseError>(
                (model.deep_view(), self.posi()),
            ));
        }
        Ok(())
    }

    /// The framing loop: magic, chunks, post-pass.
    #[verifier::rlimit(100)]
    #[verifier::spinoff_prover]
    fn parse_internal(&mut self) -> (r: Result<MdxModel, ParseError>)
        requires
            old(self).wf(),
            old(self).posi() == 0,
        ensures
            final(self).wf(),
            final(self).bytes() == old(self).bytes(),
            match file_model(old(self).bytes()) {
                Ok(mv) => (r matches Ok(m) && m.deep_view() == mv
                    && final(self).posi() == final(self).bytes().len()),
                Err(e) => r == Err::<MdxModel, ParseError>(e),
            },
    {
        let ghost d = self.bytes();
        let magic = match self.read_keyword() {
            Ok(k) => k,
            Err(e) => {
                return Err(e);
            },
        };
        proof {
            assert(magic@[0] == d[0] && magic@[1] == d[1] && magic@[2] == d[2] && magic@[3]
                == d[3]);
        }
        if !(magic[0] == 0x4D && magic[1] == 0x44 && magic[2] == 0x4C && magic[3] == 0x58) {
            return Err(ParseError::BadMagic);
        }
        let mut model = MdxModel {
            version: 800,
            info: ModelInfo {
                name: String::new(),
                minimum_extent: None,
                maximum_extent: None,
                bounds_radius: 0,
                blend_time: 150,
            },
            sequences: Vec::new(),
            global_sequences: Vec::new(),
            textures: Vec::new(),
            materials: Vec::new(),
            geosets: Vec::new(),
            geoset_anims: Vec::new(),
            bones: Vec::new(),
            helpers: Vec::new(),
            attachments: Vec::new(),
            pivot_points: Vec::new(),
            event_objects: Vec::new(),
            collision_shapes: Vec::new(),
            cameras: Vec::new(),
            lights: Vec::new(),
            particle_emitters: Vec::new(),
            particle_emitters2: Vec::new(),
            ribbon_emitters: Vec::new(),
            texture_anims: Vec::new(),
            nodes: Vec::new(),
        };
        proof {
            assert(model.deep_view() =~= init_model());
        }
        while 4 <= self.remaining()
            invariant
                d == old(self).bytes(),
                self.wf(),
                self.bytes() == d,
                d.len() >= 4,
                self.posi() >= 4,
                d[0] == 0x4D && d[1] == 0x44 && d[2] == 0x4C && d[3] == 0x58,
                chunks_from(d, 4, init_model()) == chunks_from(d, self.posi(), model.deep_view()),
            decreases d.len() - self.posi(),
        {
            let ghost cur = self.posi();
            let ghost mv = model.deep_view();
            let tag_bytes = match self.read_keyword() {
                Ok(k) => k,
                Err(e) => {
                    return Err(e);
                },
            };
            let chunk_type = ChunkType::from_bytes(&tag_bytes);
            proof {
                assert(le32_at(tag_bytes@, 0) == le32_at(d, cur));
            }
            let chunk_size = match self.read_u32() {
                Ok(v) => v,
                Err(e) => {
                    return Err(e);
                },
            };
            let outcome = match chunk_type {
                ChunkType::Bone | ChunkType::Help | ChunkType::Atch | ChunkType::Pivt
                    | ChunkType::Evts | ChunkType::Clid => self.run_node_chunk(
                    &mut model,
                    chunk_type,
                    chunk_size,
                ),
                ChunkType::Texs | ChunkType::Mtls | ChunkType::Geos | ChunkType::Geoa => self
                    .run_mesh_chunk(&mut model, chunk_type, chunk_size),
                _ => self.run_data_chunk(&mut model, chunk_type, chunk_size),
            };
            match outcome {
                Ok(_) => (),
                Err(e) => {
                    return Err(e);
                },
            };
            proof {
                crate::grammar::lemma_chunk_step_pos(d, cur, mv);
            }
        }
        self.finish();
        let ghost mfinal = model.deep_view();
        proof {
            assert(chunks_from(d, 4, init_model()) == Ok::<ModelV, ParseError>(mfinal));
        }
        bind_pivot_points(&mut model.nodes, &model.pivot_points);
        proof {
            assert(model.pivot_points.deep_view() =~= model.pivot_points@);
            assert(model.deep_view() =~= (ModelV {
                nodes: bind_pivots(mfinal.nodes, mfinal.pivot_points),
                ..mfinal
            }));
        }
        Ok(model)
    }
}


/// The post-pass: assigns the pivot point at index `i` to the node at the
/// same index of the sparse node table, where both exist.
fn bind_pivot_points(nodes: &mut Vec<Option<Node>>, pivot_points: &Vec<Vec3>)
    ensures
        final(nodes).deep_view() == bind_pivots(old(nodes).deep_view(), pivot_points.deep_view()),
{
    let ghost t0 = nodes.deep_view();
    let ghost pv = pivot_points.deep_view();
    proof {
        assert(pv =~= pivot_points@);
    }
    let mut i: usize = 0;
    while i < pivot_points.len()
        invariant
            t0 == old(nodes).deep_view(),
            pv == pivot_points.deep_view(),
            pv == pivot_points@,
            0 <= i <= pivot_points@.len(),
            nodes.deep_view().len() == t0.len(),
            forall|k: int|
                0 <= k < nodes.deep_view().len() ==> #[trigger] nodes.deep_view()[k] == (if k < i
                    && k < pv.len() {
                    bind_pivots(t0, pv)[k]
                } else {
                    t0[k]
                }),
        decreases pivot_points.len() - i,
    {
        if i < nodes.len() {
            let p = pivot_points[i];
            let replacement: Option<Node> = match &nodes[i] {
                Some(n) => Some(
                    Node {
                        name: n.name.clone(),
                        object_id: n.object_id,
                        parent: n.parent,
                        pivot_point: Some(p),
                        flags: n.flags,
                        geoset_id: n.geoset_id,
                        geoset_anim_id: n.geoset_anim_id,
                    },
                ),
                None => None,
            };
            if let Some(u) = replacement {
                let ghost ug = u;
                let ghost pre = *nodes;
                nodes[i] = Some(u);
                proof {
                    crate::model::lemma_deep_view_update(pre, *nodes, i as int, Some(ug));
                    assert(pre.deep_view()[i as int] == pre@[i as int].deep_view());
                    assert(t0[i as int] == pre.deep_view()[i as int]);
                    assert(ug.deep_view() == (NodeV {
                        pivot_point: Some(pv[i as int]),
                        ..t0[i as int]->Some_0
                    }));
                    assert(bind_pivots(t0, pv)[i as int] == Some(ug.deep_view()));
                }
            }
        }
        i = i + 1;
    }
    proof {
        assert(nodes.deep_view() =~= bind_pivots(t0, pv));
    }
}

} // verus!
