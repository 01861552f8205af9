//! The in-memory model document and the error surface of the parser.
//!
//! Every IEEE-754 single-precision field of the wire format is carried as its
//! raw bit pattern in a `u32`; the field keeps the name the format gives it.  Signed
//! fields that use `-1` as an "absent" sentinel are carried as options.
//!
//! Each container type has a ghost mirror (`NodeV`, `GeosetV`, ...) reached
//! through `DeepView`, so that contracts can speak of string contents as
//! `Seq<char>` and of list contents as `Seq`.

use vstd::prelude::*;

verus! {

/// Error kinds a parse may surface.  Every error is fatal to the parse.
#[derive(Clone, Copy, Debug, PartialEq, Eq, Structural)]
pub enum ParseError {
    /// The first four bytes are not `MDLX`.
    BadMagic,
    /// A primitive read demanded more bytes than remain.
    UnexpectedEof,
    /// A required sub-chunk tag was missing (`KEVT` inside an event object).
    BadSubChunkTag,
    /// An input violated an internal invariant (a face index out of range, a
    /// record size too small to cover its own header).
    Corrupt,
}

/// The text `ParseError::message` returns for each error kind.
pub open spec fn error_text(e: ParseError) -> Seq<char> {
    match e {
        ParseError::BadMagic => "invalid MDX magic"@,
        ParseError::UnexpectedEof => "unexpected end of input"@,
        ParseError::BadSubChunkTag => "missing required sub-chunk tag"@,
        ParseError::Corrupt => "corrupt chunk structure"@,
    }
}

impl ParseError {
    /// A human-readable description of the error.
    pub fn message(&self) -> (r: &'static str)
        ensures
            r@ == error_text(*self),
    {
        match self {
            ParseError::BadMagic => "invalid MDX magic",
            ParseError::UnexpectedEof => "unexpected end of input",
            ParseError::BadSubChunkTag => "missing required sub-chunk tag",
            ParseError::Corrupt => "corrupt chunk structure",
        }
    }
}

/// A point or direction: three single-precision scalars as bit patterns.
#[derive(Clone, Copy, Debug, PartialEq, Eq, Structural)]
pub struct Vec3 {
    pub x: u32,
    pub y: u32,
    pub z: u32,
}

impl DeepView for Vec3 {
    type V = Vec3;

    open spec fn deep_view(&self) -> Vec3 {
        *self
    }
}

/// A texture coordinate pair, as bit patterns.
#[derive(Clone, Copy, Debug, PartialEq, Eq, Structural)]
pub struct Vec2 {
    pub u: u32,
    pub v: u32,
}

impl DeepView for Vec2 {
    type V = Vec2;

    open spec fn deep_view(&self) -> Vec2 {
        *self
    }
}

/// Older names of the geometry types, kept for callers.
pub type Vertex = Vec3;

pub type Normal = Vec3;

pub type UV = Vec2;

/// A triangle: three indices into the enclosing geoset's vertex list.
#[derive(Clone, Copy, Debug, PartialEq, Eq)]
pub struct Face {
    pub indices: [u16; 3],
}

impl DeepView for Face {
    type V = Face;

    open spec fn deep_view(&self) -> Face {
        *self
    }
}

/// An axis-aligned bounding box over encoded scalars.
#[derive(Clone, Copy, Debug, PartialEq, Eq, Structural)]
pub struct BoundingBox {
    pub min: Vec3,
    pub max: Vec3,
}

impl DeepView for BoundingBox {
    type V = BoundingBox;

    open spec fn deep_view(&self) -> BoundingBox {
        *self
    }
}

/// One material layer.
#[derive(Clone, Copy, Debug, PartialEq, Eq, Structural)]
pub struct Layer {
    pub filter_mode: u32,
    pub shading: u32,
    /// May be `-1` on the wire; kept as the signed value.
    pub texture_id: i32,
    pub coord_id: u32,
    /// Bit pattern of a single-precision alpha.
    pub alpha: u32,
}

impl DeepView for Layer {
    type V = Layer;

    open spec fn deep_view(&self) -> Layer {
        *self
    }
}

/// A material: render settings plus an ordered list of layers.
#[derive(Clone, Debug, PartialEq, Eq)]
pub struct Material {
    pub priority_plane: u32,
    pub render_mode: u32,
    pub layers: Vec<Layer>,
}

#[verifier::ext_equal]
pub struct MaterialV {
    pub priority_plane: u32,
    pub render_mode: u32,
    pub layers: Seq<Layer>,
}

impl DeepView for Material {
    type V = MaterialV;

    open spec fn deep_view(&self) -> MaterialV {
        MaterialV {
            priority_plane: self.priority_plane,
            render_mode: self.render_mode,
            layers: self.layers.deep_view(),
        }
    }
}

/// A texture reference.
#[derive(Clone, Debug, PartialEq, Eq)]
pub struct Texture {
    pub replaceable_id: u32,
    pub path: String,
    pub flags: u32,
}

#[verifier::ext_equal]
pub struct TextureV {
    pub replaceable_id: u32,
    pub path: Seq<char>,
    pub flags: u32,
}

impl DeepView for Texture {
    type V = TextureV;

    open spec fn deep_view(&self) -> TextureV {
        TextureV {
            replaceable_id: self.replaceable_id,
            path: self.path.deep_view(),
            flags: self.flags,
        }
    }
}

/// A named animation interval.
#[derive(Clone, Debug, PartialEq)]
pub struct Sequence {
    pub name: String,
    /// `[interval_start, interval_end]` frame pair.
    pub interval: [u32; 2],
    pub move_speed: u32,
    pub non_looping: bool,
    pub rarity: u32,
    pub minimum_extent: Option<Vec3>,
    pub maximum_extent: Option<Vec3>,
    pub bounds_radius: u32,
}

#[verifier::ext_equal]
pub struct SequenceV {
    pub name: Seq<char>,
    pub interval_start: u32,
    pub interval_end: u32,
    pub move_speed: u32,
    pub non_looping: bool,
    pub rarity: u32,
    pub minimum_extent: Option<Vec3>,
    pub maximum_extent: Option<Vec3>,
    pub bounds_radius: u32,
}

impl DeepView for Sequence {
    type V = SequenceV;

    open spec fn deep_view(&self) -> SequenceV {
        SequenceV {
            name: self.name.deep_view(),
            interval_start: self.interval[0],
            interval_end: self.interval[1],
            move_speed: self.move_speed,
            non_looping: self.non_looping,
            rarity: self.rarity,
            minimum_extent: self.minimum_extent,
            maximum_extent: self.maximum_extent,
            bounds_radius: self.bounds_radius,
        }
    }
}

/// A self-contained mesh.
#[derive(Clone, Debug, PartialEq)]
pub struct Geoset {
    pub vertices: Vec<Vec3>,
    pub normals: Vec<Vec3>,
    /// One entry per UV set.
    pub uvs: Vec<Vec<Vec2>>,
    pub faces: Vec<Face>,
    pub vertex_groups: Vec<u8>,
    pub material_id: u32,
    pub selection_group: u32,
    /// Derived axis-aligned bounding box over `vertices`.
    pub bounds: BoundingBox,
}

#[verifier::ext_equal]
pub struct GeosetV {
    pub vertices: Seq<Vec3>,
    pub normals: Seq<Vec3>,
    pub uvs: Seq<Seq<Vec2>>,
    pub faces: Seq<Face>,
    pub vertex_groups: Seq<u8>,
    pub material_id: u32,
    pub selection_group: u32,
    pub bounds: BoundingBox,
}

impl DeepView for Geoset {
    type V = GeosetV;

    open spec fn deep_view(&self) -> GeosetV {
        GeosetV {
            vertices: self.vertices.deep_view(),
            normals: self.normals.deep_view(),
            uvs: self.uvs.deep_view(),
            faces: self.faces.deep_view(),
            vertex_groups: self.vertex_groups.deep_view(),
            material_id: self.material_id,
            selection_group: self.selection_group,
            bounds: self.bounds,
        }
    }
}

/// Per-geoset animation settings.
#[derive(Clone, Copy, Debug, PartialEq)]
pub struct GeosetAnim {
    /// `-1` on the wire decodes as absent.
    pub geoset_id: Option<u32>,
    pub alpha: u32,
    pub color: Option<Vec3>,
    pub flags: u32,
}

impl DeepView for GeosetAnim {
    type V = GeosetAnim;

    open spec fn deep_view(&self) -> GeosetAnim {
        *self
    }
}

/// The record shared by bones, helpers, attachments, event objects and
/// collision shapes: a transform target in the node hierarchy.
#[derive(Clone, Debug, PartialEq)]
pub struct Node {
    pub name: String,
    /// `-1` on the wire decodes as absent.
    pub object_id: Option<u32>,
    /// `-1` on the wire decodes as absent.
    pub parent: Option<u32>,
    /// Filled by the post-pass from the `PIVT` chunk.
    pub pivot_point: Option<Vec3>,
    pub flags: u32,
    /// Bones only; `-1` on the wire decodes as absent.
    pub geoset_id: Option<i32>,
    /// Bones only; `-1` on the wire decodes as absent.
    pub geoset_anim_id: Option<i32>,
}

#[verifier::ext_equal]
pub struct NodeV {
    pub name: Seq<char>,
    pub object_id: Option<u32>,
    pub parent: Option<u32>,
    pub pivot_point: Option<Vec3>,
    pub flags: u32,
    pub geoset_id: Option<i32>,
    pub geoset_anim_id: Option<i32>,
}

impl DeepView for Node {
    type V = NodeV;

    open spec fn deep_view(&self) -> NodeV {
        NodeV {
            name: self.name.deep_view(),
            object_id: self.object_id,
            parent: self.parent,
            pivot_point: self.pivot_point,
            flags: self.flags,
            geoset_id: self.geoset_id,
            geoset_anim_id: self.geoset_anim_id,
        }
    }
}

/// An attachment anchor.
#[derive(Clone, Debug, PartialEq)]
pub struct Attachment {
    pub node: Node,
    pub path: String,
    pub attachment_id: u32,
}

#[verifier::ext_equal]
pub struct AttachmentV {
    pub node: NodeV,
    pub path: Seq<char>,
    pub attachment_id: u32,
}

impl DeepView for Attachment {
    type V = AttachmentV;

    open spec fn deep_view(&self) -> AttachmentV {
        AttachmentV {
            node: self.node.deep_view(),
            path: self.path.deep_view(),
            attachment_id: self.attachment_id,
        }
    }
}

/// An event object: a node plus the frame stamps of its track.
#[derive(Clone, Debug, PartialEq)]
pub struct EventObject {
    pub node: Node,
    pub event_track: Vec<u32>,
}

#[verifier::ext_equal]
pub struct EventObjectV {
    pub node: NodeV,
    pub event_track: Seq<u32>,
}

impl DeepView for EventObject {
    type V = EventObjectV;

    open spec fn deep_view(&self) -> EventObjectV {
        EventObjectV {
            node: self.node.deep_view(),
            event_track: self.event_track.deep_view(),
        }
    }
}

/// A collision primitive: 0 = box, 1 = plane, 2 = sphere, 3 = cylinder.
#[derive(Clone, Debug, PartialEq)]
pub struct CollisionShape {
    pub node: Node,
    pub shape: u32,
    /// Raw scalar components of the shape, as bit patterns.
    pub vertices: Vec<u32>,
    /// Spheres only.
    pub radius: Option<u32>,
}

#[verifier::ext_equal]
pub struct CollisionShapeV {
    pub node: NodeV,
    pub shape: u32,
    pub vertices: Seq<u32>,
    pub radius: Option<u32>,
}

impl DeepView for CollisionShape {
    type V = CollisionShapeV;

    open spec fn deep_view(&self) -> CollisionShapeV {
        CollisionShapeV {
            node: self.node.deep_view(),
            shape: self.shape,
            vertices: self.vertices.deep_view(),
            radius: self.radius,
        }
    }
}

/// A camera.  The `CAMS` chunk is absorbed unparsed, so this list stays
/// empty; the type is part of the document surface.
#[derive(Clone, Debug, PartialEq)]
pub struct Camera {
    pub name: String,
    pub position: Vec3,
    pub field_of_view: u32,
    pub far_clip: u32,
    pub near_clip: u32,
    pub target_position: Vec3,
}

#[verifier::ext_equal]
pub struct CameraV {
    pub name: Seq<char>,
    pub position: Vec3,
    pub field_of_view: u32,
    pub far_clip: u32,
    pub near_clip: u32,
    pub target_position: Vec3,
}

impl DeepView for Camera {
    type V = CameraV;

    open spec fn deep_view(&self) -> CameraV {
        CameraV {
            name: self.name.deep_view(),
            position: self.position,
            field_of_view: self.field_of_view,
            far_clip: self.far_clip,
            near_clip: self.near_clip,
            target_position: self.target_position,
        }
    }
}

/// A light.  The `LITE` chunk is absorbed unparsed.
#[derive(Clone, Debug, PartialEq)]
pub struct Light {
    pub node: Node,
    pub light_type: u32,
    pub attenuation_start: u32,
    pub attenuation_end: u32,
    pub color: Vec3,
    pub intensity: u32,
    pub ambient_color: Vec3,
    pub ambient_intensity: u32,
}

#[verifier::ext_equal]
pub struct LightV {
    pub node: NodeV,
    pub light_type: u32,
    pub attenuation_start: u32,
    pub attenuation_end: u32,
    pub color: Vec3,
    pub intensity: u32,
    pub ambient_color: Vec3,
    pub ambient_intensity: u32,
}

impl DeepView for Light {
    type V = LightV;

    open spec fn deep_view(&self) -> LightV {
        LightV {
            node: self.node.deep_view(),
            light_type: self.light_type,
            attenuation_start: self.attenuation_start,
            attenuation_end: self.attenuation_end,
            color: self.color,
            intensity: self.intensity,
            ambient_color: self.ambient_color,
            ambient_intensity: self.ambient_intensity,
        }
    }
}

/// A particle emitter.  The `PREM` chunk is absorbed unparsed.
#[derive(Clone, Debug, PartialEq)]
pub struct ParticleEmitter {
    pub node: Node,
    pub emission_rate: u32,
    pub gravity: u32,
    pub longitude: u32,
    pub latitude: u32,
    pub path: String,
    pub life_span: u32,
    pub speed: u32,
}

#[verifier::ext_equal]
pub struct ParticleEmitterV {
    pub node: NodeV,
    pub emission_rate: u32,
    pub gravity: u32,
    pub longitude: u32,
    pub latitude: u32,
    pub path: Seq<char>,
    pub life_span: u32,
    pub speed: u32,
}

impl DeepView for ParticleEmitter {
    type V = ParticleEmitterV;

    open spec fn deep_view(&self) -> ParticleEmitterV {
        ParticleEmitterV {
            node: self.node.deep_view(),
            emission_rate: self.emission_rate,
            gravity: self.gravity,
            longitude: self.longitude,
            latitude: self.latitude,
            path: self.path.deep_view(),
            life_span: self.life_span,
            speed: self.speed,
        }
    }
}

/// A second-generation particle emitter.  The `PRE2` chunk is absorbed
/// unparsed.
#[derive(Clone, Debug, PartialEq)]
pub struct ParticleEmitter2 {
    pub node: Node,
    pub speed: u32,
    pub variation: u32,
    pub latitude: u32,
    pub gravity: u32,
    pub life_span: u32,
    pub emission_rate: u32,
    pub width: u32,
    pub length: u32,
    pub filter_mode: u32,
    pub texture_id: i32,
}

#[verifier::ext_equal]
pub struct ParticleEmitter2V {
    pub node: NodeV,
    pub speed: u32,
    pub variation: u32,
    pub latitude: u32,
    pub gravity: u32,
    pub life_span: u32,
    pub emission_rate: u32,
    pub width: u32,
    pub length: u32,
    pub filter_mode: u32,
    pub texture_id: i32,
}

impl DeepView for ParticleEmitter2 {
    type V = ParticleEmitter2V;

    open spec fn deep_view(&self) -> ParticleEmitter2V {
        ParticleEmitter2V {
            node: self.node.deep_view(),
            speed: self.speed,
            variation: self.variation,
            latitude: self.latitude,
            gravity: self.gravity,
            life_span: self.life_span,
            emission_rate: self.emission_rate,
            width: self.width,
            length: self.length,
            filter_mode: self.filter_mode,
            texture_id: self.texture_id,
        }
    }
}

/// A ribbon emitter.  The `RIBB` chunk is absorbed unparsed.
#[derive(Clone, Debug, PartialEq)]
pub struct RibbonEmitter {
    pub node: Node,
    pub height_above: u32,
    pub height_below: u32,
    pub alpha: u32,
    pub color: Vec3,
    pub life_span: u32,
    pub texture_slot: u32,
    pub emission_rate: u32,
    pub material_id: i32,
}

#[verifier::ext_equal]
pub struct RibbonEmitterV {
    pub node: NodeV,
    pub height_above: u32,
    pub height_below: u32,
    pub alpha: u32,
    pub color: Vec3,
    pub life_span: u32,
    pub texture_slot: u32,
    pub emission_rate: u32,
    pub material_id: i32,
}

impl DeepView for RibbonEmitter {
    type V = RibbonEmitterV;

    open spec fn deep_view(&self) -> RibbonEmitterV {
        RibbonEmitterV {
            node: self.node.deep_view(),
            height_above: self.height_above,
            height_below: self.height_below,
            alpha: self.alpha,
            color: self.color,
            life_span: self.life_span,
            texture_slot: self.texture_slot,
            emission_rate: self.emission_rate,
            material_id: self.material_id,
        }
    }
}

/// A texture animation.  The `TXAN` chunk is absorbed unparsed.
#[derive(Clone, Copy, Debug, PartialEq, Eq, Structural)]
pub struct TextureAnim {}

impl DeepView for TextureAnim {
    type V = TextureAnim;

    open spec fn deep_view(&self) -> TextureAnim {
        *self
    }
}

/// Global model settings from the `MODL` chunk.
#[derive(Clone, Debug, PartialEq)]
pub struct ModelInfo {
    pub name: String,
    pub minimum_extent: Option<Vec3>,
    pub maximum_extent: Option<Vec3>,
    pub bounds_radius: u32,
    pub blend_time: u32,
}

#[verifier::ext_equal]
pub struct ModelInfoV {
    pub name: Seq<char>,
    pub minimum_extent: Option<Vec3>,
    pub maximum_extent: Option<Vec3>,
    pub bounds_radius: u32,
    pub blend_time: u32,
}

impl DeepView for ModelInfo {
    type V = ModelInfoV;

    open spec fn deep_view(&self) -> ModelInfoV {
        ModelInfoV {
            name: self.name.deep_view(),
            minimum_extent: self.minimum_extent,
            maximum_extent: self.maximum_extent,
            bounds_radius: self.bounds_radius,
            blend_time: self.blend_time,
        }
    }
}

/// The parsed model document.
#[derive(Clone, Debug, PartialEq)]
pub struct MdxModel {
    pub version: u32,
    pub info: ModelInfo,
    pub sequences: Vec<Sequence>,
    pub global_sequences: Vec<u32>,
    pub textures: Vec<Texture>,
    pub materials: Vec<Material>,
    pub geosets: Vec<Geoset>,
    pub geoset_anims: Vec<GeosetAnim>,
    pub bones: Vec<Node>,
    pub helpers: Vec<Node>,
    pub attachments: Vec<Attachment>,
    pub pivot_points: Vec<Vec3>,
    pub event_objects: Vec<EventObject>,
    pub collision_shapes: Vec<CollisionShape>,
    pub cameras: Vec<Camera>,
    pub lights: Vec<Light>,
    pub particle_emitters: Vec<ParticleEmitter>,
    pub particle_emitters2: Vec<ParticleEmitter2>,
    pub ribbon_emitters: Vec<RibbonEmitter>,
    pub texture_anims: Vec<TextureAnim>,
    /// Sparse node table indexed by `object_id`; gaps are `None`.
    pub nodes: Vec<Option<Node>>,
}

#[verifier::ext_equal]
pub struct ModelV {
    pub version: u32,
    pub info: ModelInfoV,
    pub sequences: Seq<SequenceV>,
    pub global_sequences: Seq<u32>,
    pub textures: Seq<TextureV>,
    pub materials: Seq<MaterialV>,
    pub geosets: Seq<GeosetV>,
    pub geoset_anims: Seq<GeosetAnim>,
    pub bones: Seq<NodeV>,
    pub helpers: Seq<NodeV>,
    pub attachments: Seq<AttachmentV>,
    pub pivot_points: Seq<Vec3>,
    pub event_objects: Seq<EventObjectV>,
    pub collision_shapes: Seq<CollisionShapeV>,
    pub cameras: Seq<CameraV>,
    pub lights: Seq<LightV>,
    pub particle_emitters: Seq<ParticleEmitterV>,
    pub particle_emitters2: Seq<ParticleEmitter2V>,
    pub ribbon_emitters: Seq<RibbonEmitterV>,
    pub texture_anims: Seq<TextureAnim>,
    pub nodes: Seq<Option<NodeV>>,
}

impl DeepView for MdxModel {
    type V = ModelV;

    open spec fn deep_view(&self) -> ModelV {
        ModelV {
            version: self.version,
            info: self.info.deep_view(),
            sequences: self.sequences.deep_view(),
            global_sequences: self.global_sequences.deep_view(),
            textures: self.textures.deep_view(),
            materials: self.materials.deep_view(),
            geosets: self.geosets.deep_view(),
            geoset_anims: self.geoset_anims.deep_view(),
            bones: self.bones.deep_view(),
            helpers: self.helpers.deep_view(),
            attachments: self.attachments.deep_view(),
            pivot_points: self.pivot_points.deep_view(),
            event_objects: self.event_objects.deep_view(),
            collision_shapes: self.collision_shapes.deep_view(),
            cameras: self.cameras.deep_view(),
            lights: self.lights.deep_view(),
            particle_emitters: self.particle_emitters.deep_view(),
            particle_emitters2: self.particle_emitters2.deep_view(),
            ribbon_emitters: self.ribbon_emitters.deep_view(),
            texture_anims: self.texture_anims.deep_view(),
            nodes: self.nodes.deep_view(),
        }
    }
}

/// Pushing one element extends a vector's deep view by that element's view.
pub proof fn lemma_deep_view_push<T: DeepView>(a: Vec<T>, b: Vec<T>, x: T)
    requires
        b@ == a@.push(x),
    ensures
        b.deep_view() =~= a.deep_view().push(x.deep_view()),
{
}

/// Updating one element updates a vector's deep view at that index.
pub proof fn lemma_deep_view_update<T: DeepView>(a: Vec<T>, b: Vec<T>, i: int, x: T)
    requires
        0 <= i < a@.len(),
        b@ == a@.update(i, x),
    ensures
        b.deep_view() =~= a.deep_view().update(i, x.deep_view()),
{
}

/// A freshly created vector has an empty deep view.
pub proof fn lemma_deep_view_empty<T: DeepView>(a: Vec<T>)
    requires
        a@.len() == 0,
    ensures
        a.deep_view() =~= Seq::<T::V>::empty(),
{
}

} // verus!
