//! The shared node record and the chunks built from it: bones, helpers,
//! attachments, event objects and collision shapes.
//!
//! `parse_node` both returns the parsed node and registers it in the sparse
//! node table indexed by object id, exactly as `place_node` of the grammar
//! describes.

use vstd::prelude::*;

use crate::grammar::{
    atch_chunk, bone_chunk, clid_chunk, evts_chunk, help_chunk, node_at, place_node, TAG_KEVT,
};
use crate::model::{
    lemma_deep_view_push, lemma_deep_view_update, Attachment, CollisionShape, EventObject, Node,
    NodeV, ParseError,
};
use crate::reader::MdxParser;

verus! {

impl MdxParser {
    /// Parses one node record and registers it in the sparse node table.
    pub(crate) fn parse_node(&mut self, nodes: &mut Vec<Option<Node>>) -> (r: Result<
        Node,
        ParseError,
    >)
        requires
            old(self).wf(),
        ensures
            final(self).wf(),
            final(self).bytes() == old(self).bytes(),
            match node_at(old(self).bytes(), old(self).posi()) {
                Ok(pair) => (r matches Ok(n) && n.deep_view() == pair.0 && final(self).posi()
                    == pair.1 && final(nodes).deep_view() == place_node(
                    old(nodes).deep_view(),
                    pair.0,
                )),
                Err(e) => r == Err::<Node, ParseError>(e) && final(nodes)@ == old(nodes)@,
            },
    {
        let ghost d = self.bytes();
        let ghost p0 = self.posi();
        let start = self.cur();
        let nsize = self.read_u32()?;
        if nsize < 96 {
            return Err(ParseError::Corrupt);
        }
        let name = self.read_string(80)?;
        let object_raw = self.read_u32()?;
        let parent_raw = self.read_u32()?;
        let flags = self.read_u32()?;
        // The rest of the record holds animation tracks; skip by the
        // record's declared size.
        self.seek_from(start, nsize)?;
        let object_id: Option<u32> = if object_raw == 0xFFFF_FFFFu32 {
            None
        } else {
            Some(object_raw)
        };
        let parent: Option<u32> = if parent_raw == 0xFFFF_FFFFu32 {
            None
        } else {
            Some(parent_raw)
        };
        let ghost nv = node_at(d, p0)->Ok_0.0;
        if let Some(id) = object_id {
            let table_entry = Node {
                name: name.clone(),
                object_id,
                parent,
                pivot_point: None,
                flags,
                geoset_id: None,
                geoset_anim_id: None,
            };
            let ghost entryg = table_entry;
            let ghost t0 = nodes.deep_view();
            let ghost len0 = nodes@.len();
            while nodes.len() <= id as usize
                invariant
                    t0.len() == len0,
                    nodes@.len() >= len0,
                    nodes.deep_view() =~= t0 + Seq::new(
                        (nodes@.len() - len0) as nat,
                        |i: int| None::<NodeV>,
                    ),
                    nodes@.len() > len0 ==> len0 <= id as int && nodes@.len() <= id + 1,
                decreases id + 1 - nodes.len(),
            {
                let ghost pre = *nodes;
                nodes.push(None);
                proof {
                    lemma_deep_view_push(pre, *nodes, None);
                    assert(nodes.deep_view() =~= t0 + Seq::new(
                        (nodes@.len() - len0) as nat,
                        |i: int| None::<NodeV>,
                    ));
                }
            }
            let ghost grown = *nodes;
            nodes[id as usize] = Some(table_entry);
            proof {
                lemma_deep_view_update(grown, *nodes, id as int, Some(entryg));
                assert(nodes.deep_view() =~= place_node(t0, nv));
            }
        }
        Ok(
            Node {
                name,
                object_id,
                parent,
                pivot_point: None,
                flags,
                geoset_id: None,
                geoset_anim_id: None,
            },
        )
    }

    /// Parses the `BONE` chunk body: node records with two trailing id
    /// fields each, appended to `bones`.
    pub(crate) fn parse_bones(
        &mut self,
        bones: &mut Vec<Node>,
        nodes: &mut Vec<Option<Node>>,
        size: u32,
    ) -> (r: Result<(), ParseError>)
        requires
            old(self).wf(),
        ensures
            final(self).wf(),
            final(self).bytes() == old(self).bytes(),
            match bone_chunk(
                old(self).bytes(),
                old(self).posi(),
                old(self).posi() + size,
                old(nodes).deep_view(),
            ) {
                Ok(trip) => (r is Ok && final(bones).deep_view() == old(bones).deep_view() + trip.0
                    && final(nodes).deep_view() == trip.1 && final(self).posi() == trip.2),
                Err(e) => r == Err::<(), ParseError>(e),
            },
    {
        let ghost d = self.bytes();
        let ghost p0 = self.posi();
        let ghost end = p0 + size;
        let ghost base = bones.deep_view();
        let ghost t0 = nodes.deep_view();
        let start = self.cur();
        proof {
            match bone_chunk(d, p0, end, t0) {
                Ok(trip) => {
                    assert(base.skip(base.len() as int) + trip.0 =~= trip.0);
                },
                Err(_) => {},
            }
        }
        while self.before(start, size)
            invariant
                d == old(self).bytes(),
                p0 == old(self).posi(),
                end == p0 + size,
                base == old(bones).deep_view(),
                t0 == old(nodes).deep_view(),
                self.wf(),
                self.bytes() == d,
                start == p0,
                self.posi() >= p0,
                bones.deep_view().len() >= base.len(),
                bones.deep_view().take(base.len() as int) == base,
                match bone_chunk(d, self.posi(), end, nodes.deep_view()) {
                    Ok(trip) => bone_chunk(d, p0, end, t0) == Ok::<_, ParseError>(
                        (bones.deep_view().skip(base.len() as int) + trip.0, trip.1, trip.2),
                    ),
                    Err(e) => bone_chunk(d, p0, end, t0) == Err::<
                        (Seq<NodeV>, Seq<Option<NodeV>>, int),
                        ParseError,
                    >(e),
                },
            decreases d.len() - self.posi(),
        {
            let ghost cur = self.posi();
            let ghost tcur = nodes.deep_view();
            let ghost bv = bones.deep_view();
            let mut bone = match self.parse_node(nodes) {
                Ok(n) => n,
                Err(e) => {
                    return Err(e);
                },
            };
            let ghost nv = node_at(d, cur)->Ok_0.0;
            let geoset_raw = match self.read_i32() {
                Ok(v) => v,
                Err(e) => {
                    return Err(e);
                },
            };
            let geoset_anim_raw = match self.read_i32() {
                Ok(v) => v,
                Err(e) => {
                    return Err(e);
                },
            };
            bone.geoset_id = if geoset_raw == -1i32 {
                None
            } else {
                Some(geoset_raw)
            };
            bone.geoset_anim_id = if geoset_anim_raw == -1i32 {
                None
            } else {
                Some(geoset_anim_raw)
            };
            let ghost prebones = *bones;
            let ghost boneg = bone;
            bones.push(bone);
            proof {
                lemma_deep_view_push(prebones, *bones, boneg);
                assert(bones.deep_view().take(base.len() as int) =~= base);
                match bone_chunk(d, self.posi(), end, nodes.deep_view()) {
                    Ok(trip) => {
                        assert(bones.deep_view().skip(base.len() as int) + trip.0 =~= bv.skip(
                            base.len() as int,
                        ) + (seq![boneg.deep_view()] + trip.0));
                    },
                    Err(_) => {},
                }
            }
        }
        proof {
            assert(bones.deep_view() =~= base + bones.deep_view().skip(base.len() as int));
        }
        Ok(())
    }

    /// Parses the `HELP` chunk body: bare node records appended to
    /// `helpers`.
    pub(crate) fn parse_helpers(
        &mut self,
        helpers: &mut Vec<Node>,
        nodes: &mut Vec<Option<Node>>,
        size: u32,
    ) -> (r: Result<(), ParseError>)
        requires
            old(self).wf(),
        ensures
            final(self).wf(),
            final(self).bytes() == old(self).bytes(),
            match help_chunk(
                old(self).bytes(),
                old(self).posi(),
                old(self).posi() + size,
                old(nodes).deep_view(),
            ) {
                Ok(trip) => (r is Ok && final(helpers).deep_view() == old(helpers).deep_view()
                    + trip.0 && final(nodes).deep_view() == trip.1 && final(self).posi() == trip.2),
                Err(e) => r == Err::<(), ParseError>(e),
            },
    {
        let ghost d = self.bytes();
        let ghost p0 = self.posi();
        let ghost end = p0 + size;
        let ghost base = helpers.deep_view();
        let ghost t0 = nodes.deep_view();
        let start = self.cur();
        proof {
            match help_chunk(d, p0, end, t0) {
                Ok(trip) => {
                    assert(base.skip(base.len() as int) + trip.0 =~= trip.0);
                },
                Err(_) => {},
            }
        }
        while self.before(start, size)
            invariant
                d == old(self).bytes(),
                p0 == old(self).posi(),
                end == p0 + size,
                base == old(helpers).deep_view(),
                t0 == old(nodes).deep_view(),
                self.wf(),
                self.bytes() == d,
                start == p0,
                self.posi() >= p0,
                helpers.deep_view().len() >= base.len(),
                helpers.deep_view().take(base.len() as int) == base,
                match help_chunk(d, self.posi(), end, nodes.deep_view()) {
                    Ok(trip) => help_chunk(d, p0, end, t0) == Ok::<_, ParseError>(
                        (helpers.deep_view().skip(base.len() as int) + trip.0, trip.1, trip.2),
                    ),
                    Err(e) => help_chunk(d, p0, end, t0) == Err::<
                        (Seq<NodeV>, Seq<Option<NodeV>>, int),
                        ParseError,
                    >(e),
                },
            decreases d.len() - self.posi(),
        {
            let ghost cur = self.posi();
            let ghost hv = helpers.deep_view();
            let helper = match self.parse_node(nodes) {
                Ok(n) => n,
                Err(e) => {
                    return Err(e);
                },
            };
            let ghost hg = helper;
            let ghost prehelpers = *helpers;
            helpers.push(helper);
            proof {
                lemma_deep_view_push(prehelpers, *helpers, hg);
                assert(helpers.deep_view().take(base.len() as int) =~= base);
                match help_chunk(d, self.posi(), end, nodes.deep_view()) {
                    Ok(trip) => {
                        assert(helpers.deep_view().skip(base.len() as int) + trip.0 =~= hv.skip(
                            base.len() as int,
                        ) + (seq![hg.deep_view()] + trip.0));
                    },
                    Err(_) => {},
                }
            }
        }
        proof {
            assert(helpers.deep_view() =~= base + helpers.deep_view().skip(base.len() as int));
        }
        Ok(())
    }

    /// Parses the `ATCH` chunk body: each record is a skipped size word, a
    /// node, a 256-byte path slot, a skipped word and the attachment id.
    pub(crate) fn parse_attachments(
        &mut self,
        attachments: &mut Vec<Attachment>,
        nodes: &mut Vec<Option<Node>>,
        size: u32,
    ) -> (r: Result<(), ParseError>)
        requires
            old(self).wf(),
        ensures
            final(self).wf(),
            final(self).bytes() == old(self).bytes(),
            match atch_chunk(
                old(self).bytes(),
                old(self).posi(),
                old(self).posi() + size,
                old(nodes).deep_view(),
            ) {
                Ok(trip) => (r is Ok && final(attachments).deep_view() == old(
                    attachments,
                ).deep_view() + trip.0 && final(nodes).deep_view() == trip.1 && final(self).posi()
                    == trip.2),
                Err(e) => r == Err::<(), ParseError>(e),
            },
    {
        let ghost d = self.bytes();
        let ghost p0 = self.posi();
        let ghost end = p0 + size;
        let ghost base = attachments.deep_view();
        let ghost t0 = nodes.deep_view();
        let start = self.cur();
        proof {
            match atch_chunk(d, p0, end, t0) {
                Ok(trip) => {
                    assert(base.skip(base.len() as int) + trip.0 =~= trip.0);
                },
                Err(_) => {},
            }
        }
        while self.before(start, size)
            invariant
                d == old(self).bytes(),
                p0 == old(self).posi(),
                end == p0 + size,
                base == old(attachments).deep_view(),
                t0 == old(nodes).deep_view(),
                self.wf(),
                self.bytes() == d,
                start == p0,
                self.posi() >= p0,
                attachments.deep_view().len() >= base.len(),
                attachments.deep_view().take(base.len() as int) == base,
                match atch_chunk(d, self.posi(), end, nodes.deep_view()) {
                    Ok(trip) => atch_chunk(d, p0, end, t0) == Ok::<_, ParseError>(
                        (attachments.deep_view().skip(base.len() as int) + trip.0, trip.1, trip.2),
                    ),
                    Err(e) => atch_chunk(d, p0, end, t0) == Err::<
                        (Seq<crate::model::AttachmentV>, Seq<Option<NodeV>>, int),
                        ParseError,
                    >(e),
                },
            decreases d.len() - self.posi(),
        {
            let ghost cur = self.posi();
            let ghost av = attachments.deep_view();
            // Per-record size word, unused.
            match self.read_u32() {
                Ok(_) => (),
                Err(e) => {
                    return Err(e);
                },
            };
            let node = match self.parse_node(nodes) {
                Ok(n) => n,
                Err(e) => {
                    return Err(e);
                },
            };
            let path = match self.read_string(256) {
                Ok(p) => p,
                Err(e) => {
                    return Err(e);
                },
            };
            // Reserved word, unused.
            match self.read_u32() {
                Ok(_) => (),
                Err(e) => {
                    return Err(e);
                },
            };
            let attachment_id = match self.read_u32() {
                Ok(v) => v,
                Err(e) => {
                    return Err(e);
                },
            };
            let attachment = Attachment { node, path, attachment_id };
            let ghost ag = attachment;
            let ghost preattachments = *attachments;
            attachments.push(attachment);
            proof {
                lemma_deep_view_push(preattachments, *attachments, ag);
                assert(attachments.deep_view().take(base.len() as int) =~= base);
                match atch_chunk(d, self.posi(), end, nodes.deep_view()) {
                    Ok(trip) => {
                        assert(attachments.deep_view().skip(base.len() as int) + trip.0 =~= av.skip(
                            base.len() as int,
                        ) + (seq![ag.deep_view()] + trip.0));
                    },
                    Err(_) => {},
                }
            }
        }
        proof {
            assert(attachments.deep_view() =~= base + attachments.deep_view().skip(
                base.len() as int,
            ));
        }
        Ok(())
    }

    /// Parses the `EVTS` chunk body: each record is a node, a required
    /// `KEVT` tag, a track count, a skipped global-sequence id and the frame
    /// stamps.
    pub(crate) fn parse_event_objects(
        &mut self,
        event_objects: &mut Vec<EventObject>,
        nodes: &mut Vec<Option<Node>>,
        size: u32,
    ) -> (r: Result<(), ParseError>)
        requires
            old(self).wf(),
        ensures
            final(self).wf(),
            final(self).bytes() == old(self).bytes(),
            match evts_chunk(
                old(self).bytes(),
                old(self).posi(),
                old(self).posi() + size,
                old(nodes).deep_view(),
            ) {
                Ok(trip) => (r is Ok && final(event_objects).deep_view() == old(
                    event_objects,
                ).deep_view() + trip.0 && final(nodes).deep_view() == trip.1 && final(self).posi()
                    == trip.2),
                Err(e) => r == Err::<(), ParseError>(e),
            },
    {
        let ghost d = self.bytes();
        let ghost p0 = self.posi();
        let ghost end = p0 + size;
        let ghost base = event_objects.deep_view();
        let ghost t0 = nodes.deep_view();
        let start = self.cur();
        proof {
            match evts_chunk(d, p0, end, t0) {
                Ok(trip) => {
                    assert(base.skip(base.len() as int) + trip.0 =~= trip.0);
                },
                Err(_) => {},
            }
        }
        while self.before(start, size)
            invariant
                d == old(self).bytes(),
                p0 == old(self).posi(),
                end == p0 + size,
                base == old(event_objects).deep_view(),
                t0 == old(nodes).deep_view(),
                self.wf(),
                self.bytes() == d,
                start == p0,
                self.posi() >= p0,
                event_objects.deep_view().len() >= base.len(),
                event_objects.deep_view().take(base.len() as int) == base,
                match evts_chunk(d, self.posi(), end, nodes.deep_view()) {
                    Ok(trip) => evts_chunk(d, p0, end, t0) == Ok::<_, ParseError>(
                        (event_objects.deep_view().skip(base.len() as int) + trip.0, trip.1,
                        trip.2),
                    ),
                    Err(e) => evts_chunk(d, p0, end, t0) == Err::<
                        (Seq<crate::model::EventObjectV>, Seq<Option<NodeV>>, int),
                        ParseError,
                    >(e),
                },
            decreases d.len() - self.posi(),
        {
            let ghost cur = self.posi();
            let ghost ev = event_objects.deep_view();
            let node = match self.parse_node(nodes) {
                Ok(n) => n,
                Err(e) => {
                    return Err(e);
                },
            };
            let kw = match self.read_u32() {
                Ok(k) => k,
                Err(e) => {
                    return Err(e);
                },
            };
            if kw != TAG_KEVT {
                return Err(ParseError::BadSubChunkTag);
            }
            let track_count = match self.read_u32() {
                Ok(v) => v,
                Err(e) => {
                    return Err(e);
                },
            };
            // Global sequence id, unused.
            match self.read_u32() {
                Ok(_) => (),
                Err(e) => {
                    return Err(e);
                },
            };
            let ghost tstart = self.posi();
            let mut event_track: Vec<u32> = Vec::new();
            match self.read_u32s(track_count, &mut event_track) {
                Ok(_) => proof {
                    crate::grammar::lemma_u32s_at_bounds(d, tstart, track_count as nat);
                },
                Err(e) => {
                    return Err(e);
                },
            };
            let event = EventObject { node, event_track };
            let ghost eg = event;
            proof {
                assert(eg.event_track.deep_view() =~= eg.event_track@);
            }
            let ghost preevents = *event_objects;
            event_objects.push(event);
            proof {
                lemma_deep_view_push(preevents, *event_objects, eg);
                assert(event_objects.deep_view().take(base.len() as int) =~= base);
                match evts_chunk(d, self.posi(), end, nodes.deep_view()) {
                    Ok(trip) => {
                        assert(event_objects.deep_view().skip(base.len() as int) + trip.0
                            =~= ev.skip(base.len() as int) + (seq![eg.deep_view()] + trip.0));
                    },
                    Err(_) => {},
                }
            }
        }
        proof {
            assert(event_objects.deep_view() =~= base + event_objects.deep_view().skip(
                base.len() as int,
            ));
        }
        Ok(())
    }

    /// Parses the `CLID` chunk body: each record is a node, a shape kind,
    /// the shape's raw scalars, and a radius for spheres.
    pub(crate) fn parse_collision_shapes(
        &mut self,
        collision_shapes: &mut Vec<CollisionShape>,
        nodes: &mut Vec<Option<Node>>,
        size: u32,
    ) -> (r: Result<(), ParseError>)
        requires
            old(self).wf(),
        ensures
            final(self).wf(),
            final(self).bytes() == old(self).bytes(),
            match clid_chunk(
                old(self).bytes(),
                old(self).posi(),
                old(self).posi() + size,
                old(nodes).deep_view(),
            ) {
                Ok(trip) => (r is Ok && final(collision_shapes).deep_view() == old(
                    collision_shapes,
                ).deep_view() + trip.0 && final(nodes).deep_view() == trip.1 && final(self).posi()
                    == trip.2),
                Err(e) => r == Err::<(), ParseError>(e),
            },
    {
        let ghost d = self.bytes();
        let ghost p0 = self.posi();
        let ghost end = p0 + size;
        let ghost base = collision_shapes.deep_view();
        let ghost t0 = nodes.deep_view();
        let start = self.cur();
        proof {
            match clid_chunk(d, p0, end, t0) {
                Ok(trip) => {
                    assert(base.skip(base.len() as int) + trip.0 =~= trip.0);
                },
                Err(_) => {},
            }
        }
        while self.before(start, size)
            invariant
                d == old(self).bytes(),
                p0 == old(self).posi(),
                end == p0 + size,
                base == old(collision_shapes).deep_view(),
                t0 == old(nodes).deep_view(),
                self.wf(),
                self.bytes() == d,
                start == p0,
                self.posi() >= p0,
                collision_shapes.deep_view().len() >= base.len(),
                collision_shapes.deep_view().take(base.len() as int) == base,
                match clid_chunk(d, self.posi(), end, nodes.deep_view()) {
                    Ok(trip) => clid_chunk(d, p0, end, t0) == Ok::<_, ParseError>(
                        (collision_shapes.deep_view().skip(base.len() as int) + trip.0, trip.1,
                        trip.2),
                    ),
                    Err(e) => clid_chunk(d, p0, end, t0) == Err::<
                        (Seq<crate::model::CollisionShapeV>, Seq<Option<NodeV>>, int),
                        ParseError,
                    >(e),
                },
            decreases d.len() - self.posi(),
        {
            let ghost cur = self.posi();
            let ghost cv = collision_shapes.deep_view();
            let node = match self.parse_node(nodes) {
                Ok(n) => n,
                Err(e) => {
                    return Err(e);
                },
            };
            let shape = match self.read_u32() {
                Ok(v) => v,
                Err(e) => {
                    return Err(e);
                },
            };
            let nverts: u32 = if shape == 0 {
                6
            } else {
                3
            };
            let ghost vstart = self.posi();
            let mut vertices: Vec<u32> = Vec::new();
            match self.read_u32s(nverts, &mut vertices) {
                Ok(_) => proof {
                    crate::grammar::lemma_u32s_at_bounds(d, vstart, nverts as nat);
                },
                Err(e) => {
                    return Err(e);
                },
            };
            let radius: Option<u32> = if shape == 2 {
                match self.read_scalar() {
                    Ok(v) => Some(v),
                    Err(e) => {
                        return Err(e);
                    },
                }
            } else {
                None
            };
            let cs = CollisionShape { node, shape, vertices, radius };
            let ghost cg = cs;
            proof {
                assert(cg.vertices.deep_view() =~= cg.vertices@);
            }
            let ghost precs = *collision_shapes;
            collision_shapes.push(cs);
            proof {
                lemma_deep_view_push(precs, *collision_shapes, cg);
                assert(collision_shapes.deep_view().take(base.len() as int) =~= base);
                match clid_chunk(d, self.posi(), end, nodes.deep_view()) {
                    Ok(trip) => {
                        assert(collision_shapes.deep_view().skip(base.len() as int) + trip.0
                            =~= cv.skip(base.len() as int) + (seq![cg.deep_view()] + trip.0));
                    },
                    Err(_) => {},
                }
            }
        }
        proof {
            assert(collision_shapes.deep_view() =~= base + collision_shapes.deep_view().skip(
                base.len() as int,
            ));
        }
        Ok(())
    }
}

} // verus!
