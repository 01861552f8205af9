use mdx_model::model::{Face, MdxModel, Vec3};
use mdx_model::parser::{ChunkType, MDX_MAGIC};
use mdx_model::reader::MdxParser;

fn le32(v: u32) -> [u8; 4] {
    v.to_le_bytes()
}

fn le16(v: u16) -> [u8; 2] {
    v.to_le_bytes()
}

fn fbits(v: f32) -> u32 {
    v.to_bits()
}

fn push_f32(out: &mut Vec<u8>, v: f32) {
    out.extend_from_slice(&v.to_bits().to_le_bytes());
}

fn push_vec3(out: &mut Vec<u8>, x: f32, y: f32, z: f32) {
    push_f32(out, x);
    push_f32(out, y);
    push_f32(out, z);
}

fn parse_bytes(data: Vec<u8>) -> Result<MdxModel, String> {
    let mut parser = MdxParser::new(data).unwrap();
    parser.parse()
}

/// An 80-byte node record name slot.
fn name_slot(name: &str, width: usize) -> Vec<u8> {
    let mut slot = vec![0u8; width];
    slot[..name.len()].copy_from_slice(name.as_bytes());
    slot
}

#[test]
fn test_chunk_type_parsing() {
    assert_eq!(ChunkType::from_bytes(b"VERS"), ChunkType::Vers);
    assert_eq!(ChunkType::from_bytes(b"GEOS"), ChunkType::Geos);
    assert_eq!(ChunkType::from_bytes(b"XXXX"), ChunkType::Unknown);
}

#[test]
fn test_mdx_magic() {
    assert_eq!(&MDX_MAGIC, b"MDLX");
}

#[test]
fn magic_only_gives_default_model() {
    let model = parse_bytes(b"MDLX".to_vec()).unwrap();
    assert_eq!(model.version, 800);
    assert_eq!(model.info.name, "");
    assert_eq!(model.info.bounds_radius, 0);
    assert_eq!(model.info.blend_time, 150);
    assert!(model.info.minimum_extent.is_none());
    assert!(model.sequences.is_empty());
    assert!(model.global_sequences.is_empty());
    assert!(model.textures.is_empty());
    assert!(model.materials.is_empty());
    assert!(model.geosets.is_empty());
    assert!(model.geoset_anims.is_empty());
    assert!(model.bones.is_empty());
    assert!(model.helpers.is_empty());
    assert!(model.attachments.is_empty());
    assert!(model.pivot_points.is_empty());
    assert!(model.event_objects.is_empty());
    assert!(model.collision_shapes.is_empty());
    assert!(model.nodes.is_empty());
}

#[test]
fn version_chunk_sets_version() {
    let mut data = b"MDLX".to_vec();
    data.extend_from_slice(b"VERS");
    data.extend_from_slice(&le32(4));
    data.extend_from_slice(&le32(800));
    let model = parse_bytes(data).unwrap();
    assert_eq!(model.version, 800);
}

#[test]
fn bad_magic_is_rejected() {
    let data = vec![0u8; 16];
    let err = parse_bytes(data).unwrap_err();
    assert_eq!(err, "invalid MDX magic");
}

#[test]
fn trivial_geoset_vertices_faces_and_bounds() {
    let mut body = Vec::new();
    body.extend_from_slice(b"VRTX");
    body.extend_from_slice(&le32(3));
    push_vec3(&mut body, 0.0, 0.0, 0.0);
    push_vec3(&mut body, 1.0, 0.0, 0.0);
    push_vec3(&mut body, 0.0, 1.0, 0.0);
    body.extend_from_slice(b"PVTX");
    body.extend_from_slice(&le32(3));
    body.extend_from_slice(&le16(0));
    body.extend_from_slice(&le16(1));
    body.extend_from_slice(&le16(2));

    let geoset_size = (4 + body.len()) as u32;
    let mut data = b"MDLX".to_vec();
    data.extend_from_slice(b"GEOS");
    data.extend_from_slice(&le32(geoset_size));
    data.extend_from_slice(&le32(geoset_size));
    data.extend_from_slice(&body);

    let model = parse_bytes(data).unwrap();
    assert_eq!(model.geosets.len(), 1);
    let g = &model.geosets[0];
    assert_eq!(g.vertices.len(), 3);
    assert_eq!(g.vertices[1], Vec3 { x: fbits(1.0), y: fbits(0.0), z: fbits(0.0) });
    assert_eq!(g.faces, vec![Face { indices: [0, 1, 2] }]);
    assert_eq!(g.bounds.min, Vec3 { x: fbits(0.0), y: fbits(0.0), z: fbits(0.0) });
    assert_eq!(g.bounds.max, Vec3 { x: fbits(1.0), y: fbits(1.0), z: fbits(0.0) });
}

#[test]
fn unknown_top_level_tag_is_skipped() {
    let mut data = b"MDLX".to_vec();
    data.extend_from_slice(b"XXXX");
    data.extend_from_slice(&le32(8));
    data.extend_from_slice(&[0xDE, 0xAD, 0xBE, 0xEF, 0x01, 0x02, 0x03, 0x04]);
    data.extend_from_slice(b"VERS");
    data.extend_from_slice(&le32(4));
    data.extend_from_slice(&le32(800));
    let model = parse_bytes(data).unwrap();
    assert_eq!(model.version, 800);
}

#[test]
fn unknown_tag_between_chunks_leaves_model_unchanged() {
    // The same file with and without an injected unknown chunk parses to
    // the same document.
    let mut seqs = Vec::new();
    seqs.extend_from_slice(b"SEQS");
    seqs.extend_from_slice(&le32(132));
    seqs.extend_from_slice(&name_slot("Stand", 80));
    seqs.extend_from_slice(&le32(10));
    seqs.extend_from_slice(&le32(20));
    push_f32(&mut seqs, 2.5);
    seqs.extend_from_slice(&le32(1));
    push_f32(&mut seqs, 0.0);
    seqs.extend_from_slice(&le32(0));
    push_f32(&mut seqs, 0.0);
    push_vec3(&mut seqs, 0.0, 0.0, 0.0);
    push_vec3(&mut seqs, 0.0, 0.0, 0.0);

    let mut plain = b"MDLX".to_vec();
    plain.extend_from_slice(&seqs);

    let mut injected = b"MDLX".to_vec();
    injected.extend_from_slice(b"ZZZZ");
    injected.extend_from_slice(&le32(5));
    injected.extend_from_slice(&[9, 9, 9, 9, 9]);
    injected.extend_from_slice(&seqs);

    let a = parse_bytes(plain).unwrap();
    let b = parse_bytes(injected).unwrap();
    assert_eq!(a, b);
    assert_eq!(a.sequences.len(), 1);
    assert_eq!(a.sequences[0].name, "Stand");
    assert_eq!(a.sequences[0].interval, [10, 20]);
    assert_eq!(a.sequences[0].move_speed, fbits(2.5));
    assert!(a.sequences[0].non_looping);
}

/// One node record for a bone: 96-byte head, no animation tracks.
fn bone_record(name: &str, object_id: u32, parent: u32, geoset_id: u32) -> Vec<u8> {
    let mut rec = Vec::new();
    rec.extend_from_slice(&le32(96));
    rec.extend_from_slice(&name_slot(name, 80));
    rec.extend_from_slice(&le32(object_id));
    rec.extend_from_slice(&le32(parent));
    rec.extend_from_slice(&le32(0));
    rec.extend_from_slice(&le32(geoset_id));
    rec.extend_from_slice(&le32(0xFFFF_FFFF));
    rec
}

#[test]
fn pivot_points_bind_to_nodes_by_object_id() {
    let mut data = b"MDLX".to_vec();
    data.extend_from_slice(b"BONE");
    data.extend_from_slice(&le32(104));
    data.extend_from_slice(&bone_record("Bone1", 2, 0xFFFF_FFFF, 0xFFFF_FFFF));
    data.extend_from_slice(b"PIVT");
    data.extend_from_slice(&le32(36));
    push_vec3(&mut data, 1.0, 0.0, 0.0);
    push_vec3(&mut data, 0.0, 2.0, 0.0);
    push_vec3(&mut data, 0.0, 0.0, 3.0);

    let model = parse_bytes(data).unwrap();
    assert_eq!(model.bones.len(), 1);
    assert_eq!(model.bones[0].name, "Bone1");
    assert_eq!(model.bones[0].object_id, Some(2));
    assert_eq!(model.bones[0].parent, None);
    assert_eq!(model.bones[0].geoset_id, None);
    assert_eq!(model.pivot_points.len(), 3);
    assert_eq!(model.nodes.len(), 3);
    assert!(model.nodes[0].is_none());
    assert!(model.nodes[1].is_none());
    let n2 = model.nodes[2].as_ref().unwrap();
    assert_eq!(n2.name, "Bone1");
    assert_eq!(
        n2.pivot_point,
        Some(Vec3 { x: fbits(0.0), y: fbits(0.0), z: fbits(3.0) })
    );
}

#[test]
fn sentinel_fields_decode_to_present_values() {
    let mut data = b"MDLX".to_vec();
    data.extend_from_slice(b"BONE");
    data.extend_from_slice(&le32(104));
    data.extend_from_slice(&bone_record("B", 0, 7, 5));
    let model = parse_bytes(data).unwrap();
    assert_eq!(model.bones[0].object_id, Some(0));
    assert_eq!(model.bones[0].parent, Some(7));
    assert_eq!(model.bones[0].geoset_id, Some(5));
    assert_eq!(model.bones[0].geoset_anim_id, None);
}

#[test]
fn cursor_is_at_end_of_input_after_success() {
    let mut data = b"MDLX".to_vec();
    data.extend_from_slice(b"VERS");
    data.extend_from_slice(&le32(4));
    data.extend_from_slice(&le32(900));
    let len = data.len() as u64;
    let mut parser = MdxParser::new(data).unwrap();
    let model = parser.parse().unwrap();
    assert_eq!(model.version, 900);
    assert_eq!(parser.position(), len);
}

#[test]
fn materials_use_inclusive_sizes() {
    // Two materials; the first carries one layer, itself inclusive-sized
    // with trailing track bytes the layer size skips.
    let mut layer = Vec::new();
    layer.extend_from_slice(&le32(32)); // inclusive layer size: 28 fields + 4 track bytes
    layer.extend_from_slice(&le32(1)); // filter_mode
    layer.extend_from_slice(&le32(2)); // shading
    layer.extend_from_slice(&le32(0xFFFF_FFFF)); // texture_id -1
    layer.extend_from_slice(&le32(0xFFFF_FFFF)); // tvertex anim id, skipped
    layer.extend_from_slice(&le32(0)); // coord_id
    push_f32(&mut layer, 0.5); // alpha
    layer.extend_from_slice(&[7, 7, 7, 7]); // skipped track bytes

    let mut mat1 = Vec::new();
    let mat1_size = (4 + 8 + 8 + layer.len()) as u32; // size + planes + LAYS head + layer
    mat1.extend_from_slice(&le32(mat1_size));
    mat1.extend_from_slice(&le32(11)); // priority_plane
    mat1.extend_from_slice(&le32(0)); // render_mode
    mat1.extend_from_slice(b"LAYS");
    mat1.extend_from_slice(&le32(1));
    mat1.extend_from_slice(&layer);

    let mut mat2 = Vec::new();
    mat2.extend_from_slice(&le32(12));
    mat2.extend_from_slice(&le32(22));
    mat2.extend_from_slice(&le32(1));

    let total = (mat1.len() + mat2.len()) as u32;
    let mut data = b"MDLX".to_vec();
    data.extend_from_slice(b"MTLS");
    data.extend_from_slice(&le32(total));
    data.extend_from_slice(&mat1);
    data.extend_from_slice(&mat2);

    let model = parse_bytes(data).unwrap();
    assert_eq!(model.materials.len(), 2);
    assert_eq!(model.materials[0].priority_plane, 11);
    assert_eq!(model.materials[0].layers.len(), 1);
    let l = &model.materials[0].layers[0];
    assert_eq!(l.filter_mode, 1);
    assert_eq!(l.shading, 2);
    assert_eq!(l.texture_id, -1);
    assert_eq!(l.coord_id, 0);
    assert_eq!(l.alpha, fbits(0.5));
    assert_eq!(model.materials[1].priority_plane, 22);
    assert!(model.materials[1].layers.is_empty());
}

#[test]
fn face_index_out_of_range_is_corrupt() {
    let mut body = Vec::new();
    body.extend_from_slice(b"VRTX");
    body.extend_from_slice(&le32(1));
    push_vec3(&mut body, 0.0, 0.0, 0.0);
    body.extend_from_slice(b"PVTX");
    body.extend_from_slice(&le32(3));
    body.extend_from_slice(&le16(0));
    body.extend_from_slice(&le16(1));
    body.extend_from_slice(&le16(2));

    let geoset_size = (4 + body.len()) as u32;
    let mut data = b"MDLX".to_vec();
    data.extend_from_slice(b"GEOS");
    data.extend_from_slice(&le32(geoset_size));
    data.extend_from_slice(&le32(geoset_size));
    data.extend_from_slice(&body);

    let err = parse_bytes(data).unwrap_err();
    assert_eq!(err, "corrupt chunk structure");
}

#[test]
fn bounds_cover_negative_components() {
    let mut body = Vec::new();
    body.extend_from_slice(b"VRTX");
    body.extend_from_slice(&le32(2));
    push_vec3(&mut body, -1.0, 2.0, 0.0);
    push_vec3(&mut body, 3.0, -4.0, 5.0);

    let geoset_size = (4 + body.len()) as u32;
    let mut data = b"MDLX".to_vec();
    data.extend_from_slice(b"GEOS");
    data.extend_from_slice(&le32(geoset_size));
    data.extend_from_slice(&le32(geoset_size));
    data.extend_from_slice(&body);

    let model = parse_bytes(data).unwrap();
    let g = &model.geosets[0];
    assert_eq!(g.bounds.min, Vec3 { x: fbits(-1.0), y: fbits(-4.0), z: fbits(0.0) });
    assert_eq!(g.bounds.max, Vec3 { x: fbits(3.0), y: fbits(2.0), z: fbits(5.0) });
}

#[test]
fn truncated_version_chunk_is_an_error() {
    let mut data = b"MDLX".to_vec();
    data.extend_from_slice(b"VERS");
    data.extend_from_slice(&le32(4));
    // the version word itself is missing
    let err = parse_bytes(data).unwrap_err();
    assert_eq!(err, "unexpected end of input");
}

#[test]
fn event_object_requires_kevt_tag() {
    let mut data = b"MDLX".to_vec();
    let mut node = Vec::new();
    node.extend_from_slice(&le32(96));
    node.extend_from_slice(&name_slot("Hit", 80));
    node.extend_from_slice(&le32(0));
    node.extend_from_slice(&le32(0xFFFF_FFFF));
    node.extend_from_slice(&le32(0));

    let mut good = data.clone();
    good.extend_from_slice(b"EVTS");
    good.extend_from_slice(&le32(96 + 4 + 8 + 8));
    good.extend_from_slice(&node);
    good.extend_from_slice(b"KEVT");
    good.extend_from_slice(&le32(2)); // track count
    good.extend_from_slice(&le32(0xFFFF_FFFF)); // global sequence id, skipped
    good.extend_from_slice(&le32(40));
    good.extend_from_slice(&le32(80));
    let model = parse_bytes(good).unwrap();
    assert_eq!(model.event_objects.len(), 1);
    assert_eq!(model.event_objects[0].node.name, "Hit");
    assert_eq!(model.event_objects[0].event_track, vec![40, 80]);

    data.extend_from_slice(b"EVTS");
    data.extend_from_slice(&le32(96 + 4 + 8));
    data.extend_from_slice(&node);
    data.extend_from_slice(b"NOPE");
    data.extend_from_slice(&le32(0));
    data.extend_from_slice(&le32(0));
    let err = parse_bytes(data).unwrap_err();
    assert_eq!(err, "missing required sub-chunk tag");
}

#[test]
fn collision_sphere_carries_radius() {
    let mut data = b"MDLX".to_vec();
    let mut rec = Vec::new();
    rec.extend_from_slice(&le32(96));
    rec.extend_from_slice(&name_slot("Shield", 80));
    rec.extend_from_slice(&le32(1));
    rec.extend_from_slice(&le32(0xFFFF_FFFF));
    rec.extend_from_slice(&le32(0));
    rec.extend_from_slice(&le32(2)); // shape: sphere
    push_vec3(&mut rec, 0.0, 0.0, 1.0);
    push_f32(&mut rec, 9.5); // radius
    data.extend_from_slice(b"CLID");
    data.extend_from_slice(&le32(rec.len() as u32));
    data.extend_from_slice(&rec);

    let model = parse_bytes(data).unwrap();
    assert_eq!(model.collision_shapes.len(), 1);
    let c = &model.collision_shapes[0];
    assert_eq!(c.shape, 2);
    assert_eq!(c.vertices, vec![fbits(0.0), fbits(0.0), fbits(1.0)]);
    assert_eq!(c.radius, Some(fbits(9.5)));
    assert!(model.nodes[1].is_some());
}

#[test]
fn global_sequences_and_textures() {
    let mut data = b"MDLX".to_vec();
    data.extend_from_slice(b"GLBS");
    data.extend_from_slice(&le32(8));
    data.extend_from_slice(&le32(1000));
    data.extend_from_slice(&le32(2500));

    // One 268-byte texture record with a right-aligned path slot.
    let mut tex = Vec::new();
    tex.extend_from_slice(&le32(31)); // replaceable_id
    let path = b"war3mapImported\\tex.blp";
    let mut slot = vec![0u8; 256];
    let start = 256 - path.len();
    slot[start..].copy_from_slice(path);
    tex.extend_from_slice(&slot);
    tex.extend_from_slice(&le32(0)); // unknown, skipped
    tex.extend_from_slice(&le32(3)); // flags
    data.extend_from_slice(b"TEXS");
    data.extend_from_slice(&le32(268));
    data.extend_from_slice(&tex);

    let model = parse_bytes(data).unwrap();
    assert_eq!(model.global_sequences, vec![1000, 2500]);
    assert_eq!(model.textures.len(), 1);
    assert_eq!(model.textures[0].replaceable_id, 31);
    assert_eq!(model.textures[0].path, "war3mapImported\\tex.blp");
    assert_eq!(model.textures[0].flags, 3);
}

#[test]
fn geoset_anim_sentinel_decodes_absent() {
    let mut data = b"MDLX".to_vec();
    let mut rec = Vec::new();
    rec.extend_from_slice(&le32(28)); // per-record size word, unused
    push_f32(&mut rec, 1.0); // alpha
    rec.extend_from_slice(&le32(4)); // flags
    push_vec3(&mut rec, 0.25, 0.5, 0.75); // color
    rec.extend_from_slice(&le32(0xFFFF_FFFF)); // geoset id: -1
    data.extend_from_slice(b"GEOA");
    data.extend_from_slice(&le32(28));
    data.extend_from_slice(&rec);

    let model = parse_bytes(data).unwrap();
    assert_eq!(model.geoset_anims.len(), 1);
    let a = &model.geoset_anims[0];
    assert_eq!(a.geoset_id, None);
    assert_eq!(a.alpha, fbits(1.0));
    assert_eq!(a.flags, 4);
    assert_eq!(a.color, Some(Vec3 { x: fbits(0.25), y: fbits(0.5), z: fbits(0.75) }));
}

#[test]
fn model_info_chunk_fills_name_extent_and_blend_time() {
    let mut data = b"MDLX".to_vec();
    let mut body = Vec::new();
    body.extend_from_slice(&name_slot("Footman", 336));
    body.extend_from_slice(&le32(0)); // animation file slot, skipped
    push_f32(&mut body, 12.5); // bounds radius
    push_vec3(&mut body, -1.0, -2.0, -3.0);
    push_vec3(&mut body, 1.0, 2.0, 3.0);
    body.extend_from_slice(&le32(200)); // blend time
    data.extend_from_slice(b"MODL");
    data.extend_from_slice(&le32(body.len() as u32));
    data.extend_from_slice(&body);

    let model = parse_bytes(data).unwrap();
    assert_eq!(model.info.name, "Footman");
    assert_eq!(model.info.bounds_radius, fbits(12.5));
    assert_eq!(
        model.info.minimum_extent,
        Some(Vec3 { x: fbits(-1.0), y: fbits(-2.0), z: fbits(-3.0) })
    );
    assert_eq!(model.info.blend_time, 200);
}

#[test]
fn arbitrary_bytes_never_panic() {
    // A deterministic pseudo-random walk over inputs: every outcome must be
    // a clean Ok or Err.
    let mut seed: u64 = 0x00C0FFEE;
    for round in 0..200 {
        let len = (round * 7) % 160;
        let mut data = Vec::with_capacity(len);
        if round % 3 == 0 {
            data.extend_from_slice(b"MDLX");
        }
        while data.len() < len {
            seed = seed.wrapping_mul(6364136223846793005).wrapping_add(1442695040888963407);
            data.push((seed >> 33) as u8);
        }
        let _ = parse_bytes(data);
    }
}
