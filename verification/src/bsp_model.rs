//! BSP-partitioned static models of an outdoor map: batched fixed-size
//! model headers followed, per model, by a vertex array, fixed 308-byte
//! face records, an opaque per-face byte pair array, per-face texture
//! names, and an optional BSP node array; plus the triangle index list
//! derived by fan-triangulating every face.

use vstd::prelude::*;

use crate::bytes::{
    as_i16, as_i32, is_ascii_seq, le16, le32, nul_scan, read_i16_le, read_i32_le, read_u16_le,
    text_in_block,
};
use crate::error::LodError;

verus! {

/// Byte size of a model name block.
pub const MODEL_NAME_MAX_SIZE: usize = 32;

/// Byte size of a per-face texture name block.
pub const TEXTURE_NAME_MAX_SIZE: usize = 10;

/// Byte size of one model header record.
pub const MODEL_HEADER_SIZE: usize = 188;

/// Byte size of one face record.
pub const FACE_RECORD_SIZE: usize = 308;

/// Byte size of one BSP node record.
pub const NODE_RECORD_SIZE: usize = 12;

/// Most vertices a face record can name.
pub const MAX_FACE_VERTICES_COUNT: usize = 20;

/// A vertex position after the axis permutation `(x, z, -y)` that maps
/// the source engine's convention onto a right-handed renderer's. The
/// negated component is widened so that no source value overflows.
pub struct Vec3 {
    /// First component: the source x.
    pub x: i64,
    /// Second component: the source z.
    pub y: i64,
    /// Third component: the negated source y.
    pub z: i64,
}

/// A face's plane equation: an integer normal and a distance.
pub struct Plane {
    /// The three normal components.
    pub normal: Vec<i32>,
    /// The plane distance.
    pub distance: i32,
}

/// An axis-aligned bounding box.
pub struct BoundingBox<T> {
    /// Least x.
    pub min_x: T,
    /// Greatest x.
    pub max_x: T,
    /// Least y.
    pub min_y: T,
    /// Greatest y.
    pub max_y: T,
    /// Least z.
    pub min_z: T,
    /// Greatest z.
    pub max_z: T,
}

/// The polygon classes a face record's type byte names.
#[derive(Clone, Copy, Debug, PartialEq, Eq, Structural)]
pub enum PolygonType {
    Invalid,
    VerticalWall,
    Unknown,
    Floor,
    InBetweenFloorAndWall,
    Ceiling,
    InBetweenCeilingAndWall,
}

/// One BSP node: front and back subtree references and a face range.
pub struct BSPNode {
    /// Front subtree reference.
    pub front: i32,
    /// Back subtree reference.
    pub back: i32,
    /// First face of the node's range.
    pub face_id_offset: i16,
    /// Number of faces in the node's range.
    pub faces_count: i16,
}

/// One model face record, kept byte-for-byte faithful to the on-disk
/// layout.
pub struct BSPModelFace {
    /// The plane equation.
    pub plane: Plane,
    /// Precomputed z interpolation fields, kept verbatim.
    pub z_calc: Vec<i16>,
    /// Attribute bits.
    pub attributes: u32,
    /// Indices into the model's vertex array, 20 slots.
    pub vertices_ids: Vec<u16>,
    /// Per-vertex texture u components, 20 slots.
    pub texture_u_ids: Vec<i16>,
    /// Per-vertex texture v components, 20 slots.
    pub texture_v_ids: Vec<i16>,
    /// Per-vertex normal x components, 20 slots.
    pub normal_x: Vec<i16>,
    /// Per-vertex normal y components, 20 slots.
    pub normal_y: Vec<i16>,
    /// Per-vertex normal z components, 20 slots.
    pub normal_z: Vec<i16>,
    /// Texture id.
    pub texture_id: i16,
    /// Texture u displacement.
    pub texture_u: i16,
    /// Texture v displacement.
    pub texture_v: i16,
    /// The face's bounding box.
    pub bounding_box: BoundingBox<i16>,
    /// Cog number.
    pub cog_number: u16,
    /// Cog trigger id.
    pub cog_trigger_id: u16,
    /// Cog trigger type.
    pub cog_trigger_type: u16,
    /// Reserved field, kept verbatim.
    pub reserved: u16,
    /// Gradient vertex slots, kept verbatim.
    pub gradient_vertices: Vec<u8>,
    /// How many of the vertex slots are used.
    pub vertices_count: u8,
    /// Polygon type byte.
    pub polygon_type: u8,
    /// Shade type byte.
    pub shade_type: u8,
    /// Visibility byte.
    pub visible: u8,
    /// Trailing padding, kept verbatim.
    pub padding: Vec<u8>,
}

impl BSPModelFace {
    /// The face is a portal.
    pub fn is_portal(&self) -> (r: bool)
        ensures
            r == ((self.attributes & 0x00000001) != 0),
    {
        (self.attributes & 0x00000001) != 0
    }

    /// The face is water.
    pub fn is_water(&self) -> (r: bool)
        ensures
            r == ((self.attributes & 0x00000010) != 0),
    {
        (self.attributes & 0x00000010) != 0
    }

    /// The face projects to the xy plane.
    pub fn projecting_to_xy(&self) -> (r: bool)
        ensures
            r == ((self.attributes & 0x00000100) != 0),
    {
        (self.attributes & 0x00000100) != 0
    }

    /// The face projects to the xz plane.
    pub fn projecting_to_xz(&self) -> (r: bool)
        ensures
            r == ((self.attributes & 0x00000200) != 0),
    {
        (self.attributes & 0x00000200) != 0
    }

    /// The face projects to the yz plane.
    pub fn projecting_to_yz(&self) -> (r: bool)
        ensures
            r == ((self.attributes & 0x00000400) != 0),
    {
        (self.attributes & 0x00000400) != 0
    }

    /// The face is invisible.
    pub fn is_invisible(&self) -> (r: bool)
        ensures
            r == ((self.attributes & 0x00002000) != 0),
    {
        (self.attributes & 0x00002000) != 0
    }

    /// The face's texture frame animates.
    pub fn is_animated_tft(&self) -> (r: bool)
        ensures
            r == ((self.attributes & 0x00004000) != 0),
    {
        (self.attributes & 0x00004000) != 0
    }

    /// The face moves with a door.
    pub fn moves_by_door(&self) -> (r: bool)
        ensures
            r == ((self.attributes & 0x00010000) != 0),
    {
        (self.attributes & 0x00010000) != 0
    }

    /// The face's event is only a hint.
    pub fn is_event_just_hint(&self) -> (r: bool)
        ensures
            r == ((self.attributes & 0x00040000) != 0),
    {
        (self.attributes & 0x00040000) != 0
    }

    /// The face uses the alternative sound set.
    pub fn is_alternative_sound(&self) -> (r: bool)
        ensures
            r == ((self.attributes & 0x00080000) != 0),
    {
        (self.attributes & 0x00080000) != 0
    }

    /// The face is sky.
    pub fn is_sky(&self) -> (r: bool)
        ensures
            r == ((self.attributes & 0x00100000) != 0),
    {
        (self.attributes & 0x00100000) != 0
    }

    /// The face's texture u axis flips.
    pub fn flip_u(&self) -> (r: bool)
        ensures
            r == ((self.attributes & 0x00200000) != 0),
    {
        (self.attributes & 0x00200000) != 0
    }

    /// The face's texture v axis flips.
    pub fn flip_v(&self) -> (r: bool)
        ensures
            r == ((self.attributes & 0x00400000) != 0),
    {
        (self.attributes & 0x00400000) != 0
    }

    /// The face triggers on a click.
    pub fn trigger_by_click(&self) -> (r: bool)
        ensures
            r == ((self.attributes & 0x00800000) != 0),
    {
        (self.attributes & 0x00800000) != 0
    }

    /// The face triggers on a step.
    pub fn trigger_by_step(&self) -> (r: bool)
        ensures
            r == ((self.attributes & 0x01000000) != 0),
    {
        (self.attributes & 0x01000000) != 0
    }

    /// The face triggers on a monster.
    pub fn trigger_by_monster(&self) -> (r: bool)
        ensures
            r == ((self.attributes & 0x02000000) != 0),
    {
        (self.attributes & 0x02000000) != 0
    }

    /// The face triggers on an object.
    pub fn trigger_by_object(&self) -> (r: bool)
        ensures
            r == ((self.attributes & 0x04000000) != 0),
    {
        (self.attributes & 0x04000000) != 0
    }

    /// The face is untouchable.
    pub fn is_untouchable(&self) -> (r: bool)
        ensures
            r == ((self.attributes & 0x08000000) != 0),
    {
        (self.attributes & 0x08000000) != 0
    }

    /// The face is lava.
    pub fn is_lava(&self) -> (r: bool)
        ensures
            r == ((self.attributes & 0x10000000) != 0),
    {
        (self.attributes & 0x10000000) != 0
    }

    /// The face carries data.
    pub fn has_data(&self) -> (r: bool)
        ensures
            r == ((self.attributes & 0x20000000) != 0),
    {
        (self.attributes & 0x20000000) != 0
    }
}

/// One model header record.
pub struct BSPModelHeader {
    /// The model name.
    pub name: String,
    /// The model's second name.
    pub name2: String,
    /// Attribute bits.
    pub attributes: i32,
    /// How many vertices the model's body holds.
    pub vertex_count: i32,
    /// How many faces the model's body holds.
    pub faces_count: i32,
    /// How many BSP node pairs the model's body holds.
    pub bsp_nodes_count: i32,
    /// The model's position, three coordinates.
    pub position: Vec<i32>,
    /// The model's bounding box.
    pub bounding_box: BoundingBox<i32>,
    /// The model's second (back-face) bounding box.
    pub bounding_box_bf: BoundingBox<i32>,
    /// The model's box position, three coordinates.
    pub position_box: Vec<i32>,
    /// The model's bounding radius.
    pub bounding_radius: i32,
}

impl BSPModelHeader {
    /// The model is shown on the map.
    pub fn shown_on_map(&self) -> (r: bool)
        ensures
            r == ((self.attributes & 0x0001) != 0),
    {
        (self.attributes & 0x0001) != 0
    }
}

/// One decoded model: its header, its body arrays, and the derived
/// triangle index list.
pub struct BSPModel {
    /// The model header.
    pub header: BSPModelHeader,
    /// Vertex positions after the axis permutation.
    pub vertices: Vec<Vec3>,
    /// The face records.
    pub faces: Vec<BSPModelFace>,
    /// Two opaque bytes per face, kept verbatim and uninterpreted.
    pub unk: Vec<u8>,
    /// One texture name per face.
    pub texture_names: Vec<String>,
    /// The BSP nodes, two per declared node count, empty if none declared.
    pub bsp_nodes: Vec<BSPNode>,
    /// The triangle index list: a fan per face.
    pub indices: Vec<u32>,
}

/// The triangle fan of one face: for each `t` below `vc - 2`, the
/// triangle `(ids[0], ids[t + 1], ids[t + 2])`. A face with fewer than
/// two used slots yields nothing.
pub open spec fn fan_indices(ids: Seq<u16>, vc: int) -> Seq<u32> {
    if vc < 2 {
        Seq::empty()
    } else {
        Seq::new(
            (3 * (vc - 2)) as nat,
            |k: int|
                (if k % 3 == 0 {
                    ids[0]
                } else {
                    ids[k / 3 + k % 3]
                }) as u32,
        )
    }
}

/// The concatenated triangle fans of all faces from index `i` on.
pub open spec fn fan_all(faces: Seq<BSPModelFace>, i: int) -> Seq<u32>
    decreases faces.len() - i,
{
    if i < 0 || i >= faces.len() {
        Seq::empty()
    } else {
        fan_indices(faces[i].vertices_ids@, faces[i].vertices_count as int) + fan_all(faces, i + 1)
    }
}

/// Every triangle of a face's fan starts at the face's first vertex id,
/// and a face with `vc` used slots yields exactly `vc - 2` triangles.
pub proof fn lemma_fan_shares_first(ids: Seq<u16>, vc: int)
    requires
        2 <= vc <= ids.len(),
    ensures
        fan_indices(ids, vc).len() == 3 * (vc - 2),
        forall|t: int|
            0 <= t < vc - 2 ==> #[trigger] fan_indices(ids, vc)[3 * t] == ids[0] as u32,
        forall|t: int|
            0 <= t < vc - 2 ==> #[trigger] fan_indices(ids, vc)[3 * t + 1] == ids[t + 1] as u32,
        forall|t: int|
            0 <= t < vc - 2 ==> #[trigger] fan_indices(ids, vc)[3 * t + 2] == ids[t + 2] as u32,
{
    assert forall|t: int| 0 <= t < vc - 2 implies #[trigger] fan_indices(ids, vc)[3 * t]
        == ids[0] as u32 by {
        assert((3 * t) % 3 == 0 && (3 * t) / 3 == t);
    }
    assert forall|t: int| 0 <= t < vc - 2 implies #[trigger] fan_indices(ids, vc)[3 * t + 1]
        == ids[t + 1] as u32 by {
        assert((3 * t + 1) % 3 == 1 && (3 * t + 1) / 3 == t);
    }
    assert forall|t: int| 0 <= t < vc - 2 implies #[trigger] fan_indices(ids, vc)[3 * t + 2]
        == ids[t + 2] as u32 by {
        assert((3 * t + 2) % 3 == 2 && (3 * t + 2) / 3 == t);
    }
}

/// Header record at `b` has exactly the given fields.
pub open spec fn header_matches(d: Seq<u8>, b: int, h: BSPModelHeader) -> bool {
    &&& h.name@ == text_in_block(d, b, 32)
    &&& h.name2@ == text_in_block(d, b + 32, 32)
    &&& h.attributes as int == as_i32(le32(d, b + 64))
    &&& h.vertex_count as int == as_i32(le32(d, b + 68))
    &&& h.faces_count as int == as_i32(le32(d, b + 76))
    &&& h.bsp_nodes_count as int == as_i32(le32(d, b + 92))
    &&& h.position@.len() == 3
    &&& forall|k: int| 0 <= k < 3 ==> (#[trigger] h.position@[k]) as int == as_i32(
        le32(d, b + 112 + 4 * k),
    )
    &&& h.bounding_box.min_x as int == as_i32(le32(d, b + 124))
    &&& h.bounding_box.min_y as int == as_i32(le32(d, b + 128))
    &&& h.bounding_box.min_z as int == as_i32(le32(d, b + 132))
    &&& h.bounding_box.max_x as int == as_i32(le32(d, b + 136))
    &&& h.bounding_box.max_y as int == as_i32(le32(d, b + 140))
    &&& h.bounding_box.max_z as int == as_i32(le32(d, b + 144))
    &&& h.bounding_box_bf.min_x as int == as_i32(le32(d, b + 148))
    &&& h.bounding_box_bf.min_y as int == as_i32(le32(d, b + 152))
    &&& h.bounding_box_bf.min_z as int == as_i32(le32(d, b + 156))
    &&& h.bounding_box_bf.max_x as int == as_i32(le32(d, b + 160))
    &&& h.bounding_box_bf.max_y as int == as_i32(le32(d, b + 164))
    &&& h.bounding_box_bf.max_z as int == as_i32(le32(d, b + 168))
    &&& h.position_box@.len() == 3
    &&& forall|k: int| 0 <= k < 3 ==> (#[trigger] h.position_box@[k]) as int == as_i32(
        le32(d, b + 172 + 4 * k),
    )
    &&& h.bounding_radius as int == as_i32(le32(d, b + 184))
}

/// Face record at `b` has exactly the given fields.
pub open spec fn face_matches(d: Seq<u8>, b: int, f: BSPModelFace) -> bool {
    &&& f.plane.normal@.len() == 3
    &&& forall|k: int| 0 <= k < 3 ==> (#[trigger] f.plane.normal@[k]) as int == as_i32(
        le32(d, b + 4 * k),
    )
    &&& f.plane.distance as int == as_i32(le32(d, b + 12))
    &&& f.z_calc@.len() == 6
    &&& forall|k: int| 0 <= k < 6 ==> (#[trigger] f.z_calc@[k]) as int == as_i16(
        le16(d, b + 16 + 2 * k),
    )
    &&& f.attributes == le32(d, b + 28)
    &&& f.vertices_ids@.len() == 20
    &&& forall|k: int| 0 <= k < 20 ==> (#[trigger] f.vertices_ids@[k]) == le16(d, b + 32 + 2 * k)
    &&& f.texture_u_ids@.len() == 20
    &&& forall|k: int| 0 <= k < 20 ==> (#[trigger] f.texture_u_ids@[k]) as int == as_i16(
        le16(d, b + 72 + 2 * k),
    )
    &&& f.texture_v_ids@.len() == 20
    &&& forall|k: int| 0 <= k < 20 ==> (#[trigger] f.texture_v_ids@[k]) as int == as_i16(
        le16(d, b + 112 + 2 * k),
    )
    &&& f.normal_x@.len() == 20
    &&& forall|k: int| 0 <= k < 20 ==> (#[trigger] f.normal_x@[k]) as int == as_i16(
        le16(d, b + 152 + 2 * k),
    )
    &&& f.normal_y@.len() == 20
    &&& forall|k: int| 0 <= k < 20 ==> (#[trigger] f.normal_y@[k]) as int == as_i16(
        le16(d, b + 192 + 2 * k),
    )
    &&& f.normal_z@.len() == 20
    &&& forall|k: int| 0 <= k < 20 ==> (#[trigger] f.normal_z@[k]) as int == as_i16(
        le16(d, b + 232 + 2 * k),
    )
    &&& f.texture_id as int == as_i16(le16(d, b + 272))
    &&& f.texture_u as int == as_i16(le16(d, b + 274))
    &&& f.texture_v as int == as_i16(le16(d, b + 276))
    &&& f.bounding_box.min_x as int == as_i16(le16(d, b + 278))
    &&& f.bounding_box.max_x as int == as_i16(le16(d, b + 280))
    &&& f.bounding_box.min_y as int == as_i16(le16(d, b + 282))
    &&& f.bounding_box.max_y as int == as_i16(le16(d, b + 284))
    &&& f.bounding_box.min_z as int == as_i16(le16(d, b + 286))
    &&& f.bounding_box.max_z as int == as_i16(le16(d, b + 288))
    &&& f.cog_number == le16(d, b + 290)
    &&& f.cog_trigger_id == le16(d, b + 292)
    &&& f.cog_trigger_type == le16(d, b + 294)
    &&& f.reserved == le16(d, b + 296)
    &&& f.gradient_vertices@ == d.subrange(b + 298, b + 302)
    &&& f.vertices_count == d[b + 302]
    &&& f.polygon_type == d[b + 303]
    &&& f.shade_type == d[b + 304]
    &&& f.visible == d[b + 305]
    &&& f.padding@ == d.subrange(b + 306, b + 308)
}

/// Node record at `b` has exactly the given fields.
pub open spec fn node_matches(d: Seq<u8>, b: int, nd: BSPNode) -> bool {
    &&& nd.front as int == as_i32(le32(d, b))
    &&& nd.back as int == as_i32(le32(d, b + 4))
    &&& nd.face_id_offset as int == as_i16(le16(d, b + 8))
    &&& nd.faces_count as int == as_i16(le16(d, b + 10))
}

/// The declared vertex count of header `i`.
pub open spec fn h_vc(d: Seq<u8>, at: int, i: int) -> int {
    as_i32(le32(d, at + 188 * i + 68))
}

/// The declared face count of header `i`.
pub open spec fn h_fc(d: Seq<u8>, at: int, i: int) -> int {
    as_i32(le32(d, at + 188 * i + 76))
}

/// The declared node count of header `i`.
pub open spec fn h_nc(d: Seq<u8>, at: int, i: int) -> int {
    as_i32(le32(d, at + 188 * i + 92))
}

/// Byte size of model `i`'s body: vertices, faces, the opaque pairs, the
/// texture names, and the nodes if any are declared.
pub open spec fn body_size(d: Seq<u8>, at: int, i: int) -> int {
    12 * h_vc(d, at, i) + 320 * h_fc(d, at, i) + (if h_nc(d, at, i) > 0 {
        24 * h_nc(d, at, i)
    } else {
        0
    })
}

/// Start of model `i`'s body: the bodies follow the `n` batched headers,
/// each body after the previous one.
pub open spec fn body_at(d: Seq<u8>, at: int, n: int, i: int) -> int
    decreases i,
{
    if i <= 0 {
        at + 188 * n
    } else {
        body_at(d, at, n, i - 1) + body_size(d, at, i - 1)
    }
}

/// Both name blocks of header `i` are ASCII.
pub open spec fn hdr_names_ascii(d: Seq<u8>, at: int, i: int) -> bool {
    hdr_names_ascii_at(d, at + 188 * i)
}

/// Why the body of model `i`, laid out at `vb`, cannot be decoded, if it
/// cannot: a negative count, a body running past the buffer, a non-ASCII
/// texture name, or a face naming more vertex slots than a record holds.
pub open spec fn body_err(d: Seq<u8>, at: int, i: int, vb: int) -> Option<LodError> {
    let vc = h_vc(d, at, i);
    let fc = h_fc(d, at, i);
    let nc = h_nc(d, at, i);
    let fb = vb + 12 * vc;
    let tb = vb + 12 * vc + 310 * fc;
    if vc < 0 || fc < 0 || nc < 0 {
        Some(LodError::Truncated)
    } else if vb + 12 * vc + 320 * fc > d.len() {
        Some(LodError::Truncated)
    } else if exists|j: int|
        0 <= j < fc && !is_ascii_seq(
            #[trigger] d.subrange(tb + 10 * j, nul_scan(d, tb + 10 * j, tb + 10 * j + 10)),
        ) {
        Some(LodError::InvalidFormat)
    } else if exists|j: int| 0 <= j < fc && #[trigger] d[fb + 308 * j + 302] > 20 {
        Some(LodError::InvalidFormat)
    } else if nc > 0 && vb + 12 * vc + 320 * fc + 24 * nc > d.len() {
        Some(LodError::Truncated)
    } else {
        None
    }
}

/// The first model body from `i` on that cannot be decoded, if any.
pub open spec fn bodies_err(d: Seq<u8>, at: int, n: int, i: int) -> Option<LodError>
    decreases n - i,
{
    if i < 0 || i >= n {
        None
    } else {
        match body_err(d, at, i, body_at(d, at, n, i)) {
            Some(e) => Some(e),
            None => bodies_err(d, at, n, i + 1),
        }
    }
}

/// Why decoding `n` models at `at` fails, if it does: the header batch
/// past the buffer, a non-ASCII model name, or a bad body.
pub open spec fn bsp_err(d: Seq<u8>, at: int, n: int) -> Option<LodError> {
    if at + 188 * n > d.len() {
        Some(LodError::Truncated)
    } else if exists|i: int| 0 <= i < n && !hdr_names_ascii(d, at, i) {
        Some(LodError::InvalidFormat)
    } else {
        bodies_err(d, at, n, 0)
    }
}

/// Model `i`, with its body at `vb`, has exactly the decoded header,
/// body arrays and derived triangle list.
pub open spec fn model_matches(d: Seq<u8>, at: int, i: int, vb: int, m: BSPModel) -> bool {
    let vc = h_vc(d, at, i);
    let fc = h_fc(d, at, i);
    let nc = h_nc(d, at, i);
    let fb = vb + 12 * vc;
    let ub = fb + 308 * fc;
    let tb = ub + 2 * fc;
    let nb = tb + 10 * fc;
    &&& header_matches(d, at + 188 * i, m.header)
    &&& m.vertices@.len() == vc
    &&& forall|k: int|
        0 <= k < vc ==> ((#[trigger] m.vertices@[k]).x == as_i32(le32(d, vb + 12 * k))
            && m.vertices@[k].y == as_i32(le32(d, vb + 12 * k + 8)) && m.vertices@[k].z == -as_i32(
            le32(d, vb + 12 * k + 4),
        ))
    &&& m.faces@.len() == fc
    &&& forall|j: int| 0 <= j < fc ==> face_matches(d, fb + 308 * j, #[trigger] m.faces@[j])
    &&& m.unk@ == d.subrange(ub, ub + 2 * fc)
    &&& m.texture_names@.len() == fc
    &&& forall|j: int|
        0 <= j < fc ==> (#[trigger] m.texture_names@[j])@ == text_in_block(d, tb + 10 * j, 10)
    &&& m.bsp_nodes@.len() == (if nc > 0 {
        2 * nc
    } else {
        0
    })
    &&& forall|q: int|
        0 <= q < m.bsp_nodes@.len() ==> node_matches(d, nb + 12 * q, #[trigger] m.bsp_nodes@[q])
    &&& m.indices@ == fan_all(m.faces@, 0)
}

/// Read one model header record at `b`.
fn read_bsp_model_header(d: &[u8], b: usize) -> (r: Result<BSPModelHeader, LodError>)
    requires
        b + 188 <= d@.len(),
        d@.len() <= usize::MAX,
    ensures
        match r {
            Ok(h) => header_matches(d@, b as int, h) && hdr_names_ascii_at(d@, b as int),
            Err(e) => e == LodError::InvalidFormat && !hdr_names_ascii_at(d@, b as int),
        },
{
    let name: String = match crate::bytes::read_text_block(d, b, 32) {
        Some(s) => s,
        None => {
            return Err(LodError::InvalidFormat);
        },
    };
    let name2: String = match crate::bytes::read_text_block(d, b + 32, 32) {
        Some(s) => s,
        None => {
            return Err(LodError::InvalidFormat);
        },
    };
    let mut position: Vec<i32> = Vec::new();
    let mut position_box: Vec<i32> = Vec::new();
    let mut k: usize = 0;
    while k < 3
        invariant
            k <= 3,
            b + 188 <= d@.len(),
            d@.len() <= usize::MAX,
            position@.len() == k,
            position_box@.len() == k,
            forall|q: int|
                0 <= q < k ==> (#[trigger] position@[q]) as int == as_i32(
                    le32(d@, b + 112 + 4 * q),
                ),
            forall|q: int|
                0 <= q < k ==> (#[trigger] position_box@[q]) as int == as_i32(
                    le32(d@, b + 172 + 4 * q),
                ),
        decreases 3 - k,
    {
        position.push(read_i32_le(d, b + 112 + 4 * k));
        position_box.push(read_i32_le(d, b + 172 + 4 * k));
        k += 1;
    }
    Ok(
        BSPModelHeader {
            name,
            name2,
            attributes: read_i32_le(d, b + 64),
            vertex_count: read_i32_le(d, b + 68),
            faces_count: read_i32_le(d, b + 76),
            bsp_nodes_count: read_i32_le(d, b + 92),
            position,
            bounding_box: BoundingBox {
                min_x: read_i32_le(d, b + 124),
                min_y: read_i32_le(d, b + 128),
                min_z: read_i32_le(d, b + 132),
                max_x: read_i32_le(d, b + 136),
                max_y: read_i32_le(d, b + 140),
                max_z: read_i32_le(d, b + 144),
            },
            bounding_box_bf: BoundingBox {
                min_x: read_i32_le(d, b + 148),
                min_y: read_i32_le(d, b + 152),
                min_z: read_i32_le(d, b + 156),
                max_x: read_i32_le(d, b + 160),
                max_y: read_i32_le(d, b + 164),
                max_z: read_i32_le(d, b + 168),
            },
            position_box,
            bounding_radius: read_i32_le(d, b + 184),
        },
    )
}

/// Both name blocks at a header base are ASCII.
pub open spec fn hdr_names_ascii_at(d: Seq<u8>, b: int) -> bool {
    &&& is_ascii_seq(d.subrange(b, nul_scan(d, b, b + 32)))
    &&& is_ascii_seq(d.subrange(b + 32, nul_scan(d, b + 32, b + 64)))
}

/// Read a run of 20 little-endian i16 values.
fn read_i16_run(d: &[u8], b: usize) -> (r: Vec<i16>)
    requires
        b + 40 <= d@.len(),
        d@.len() <= usize::MAX,
    ensures
        r@.len() == 20,
        forall|k: int| 0 <= k < 20 ==> (#[trigger] r@[k]) as int == as_i16(le16(d@, b + 2 * k)),
{
    let mut out: Vec<i16> = Vec::new();
    let mut k: usize = 0;
    while k < 20
        invariant
            k <= 20,
            b + 40 <= d@.len(),
            d@.len() <= usize::MAX,
            out@.len() == k,
            forall|q: int|
                0 <= q < k ==> (#[trigger] out@[q]) as int == as_i16(le16(d@, b + 2 * q)),
        decreases 20 - k,
    {
        out.push(read_i16_le(d, b + 2 * k));
        k += 1;
    }
    out
}

/// Read one face record at `b`.
fn read_face(d: &[u8], b: usize) -> (f: BSPModelFace)
    requires
        b + 308 <= d@.len(),
        d@.len() <= usize::MAX,
    ensures
        face_matches(d@, b as int, f),
{
    let mut normal: Vec<i32> = Vec::new();
    let mut k: usize = 0;
    while k < 3
        invariant
            k <= 3,
            b + 308 <= d@.len(),
            d@.len() <= usize::MAX,
            normal@.len() == k,
            forall|q: int|
                0 <= q < k ==> (#[trigger] normal@[q]) as int == as_i32(le32(d@, b + 4 * q)),
        decreases 3 - k,
    {
        normal.push(read_i32_le(d, b + 4 * k));
        k += 1;
    }
    let mut z_calc: Vec<i16> = Vec::new();
    let mut k: usize = 0;
    while k < 6
        invariant
            k <= 6,
            b + 308 <= d@.len(),
            d@.len() <= usize::MAX,
            z_calc@.len() == k,
            forall|q: int|
                0 <= q < k ==> (#[trigger] z_calc@[q]) as int == as_i16(le16(d@, b + 16 + 2 * q)),
        decreases 6 - k,
    {
        z_calc.push(read_i16_le(d, b + 16 + 2 * k));
        k += 1;
    }
    let mut vertices_ids: Vec<u16> = Vec::new();
    let mut k: usize = 0;
    while k < 20
        invariant
            k <= 20,
            b + 308 <= d@.len(),
            d@.len() <= usize::MAX,
            vertices_ids@.len() == k,
            forall|q: int| 0 <= q < k ==> (#[trigger] vertices_ids@[q]) == le16(d@, b + 32 + 2 * q),
        decreases 20 - k,
    {
        vertices_ids.push(read_u16_le(d, b + 32 + 2 * k));
        k += 1;
    }
    BSPModelFace {
        plane: Plane { normal, distance: read_i32_le(d, b + 12) },
        z_calc,
        attributes: crate::bytes::read_u32_le(d, b + 28),
        vertices_ids,
        texture_u_ids: read_i16_run(d, b + 72),
        texture_v_ids: read_i16_run(d, b + 112),
        normal_x: read_i16_run(d, b + 152),
        normal_y: read_i16_run(d, b + 192),
        normal_z: read_i16_run(d, b + 232),
        texture_id: read_i16_le(d, b + 272),
        texture_u: read_i16_le(d, b + 274),
        texture_v: read_i16_le(d, b + 276),
        bounding_box: BoundingBox {
            min_x: read_i16_le(d, b + 278),
            max_x: read_i16_le(d, b + 280),
            min_y: read_i16_le(d, b + 282),
            max_y: read_i16_le(d, b + 284),
            min_z: read_i16_le(d, b + 286),
            max_z: read_i16_le(d, b + 288),
        },
        cog_number: read_u16_le(d, b + 290),
        cog_trigger_id: read_u16_le(d, b + 292),
        cog_trigger_type: read_u16_le(d, b + 294),
        reserved: read_u16_le(d, b + 296),
        gradient_vertices: crate::bytes::copy_range(d, b + 298, b + 302),
        vertices_count: d[b + 302],
        polygon_type: d[b + 303],
        shade_type: d[b + 304],
        visible: d[b + 305],
        padding: crate::bytes::copy_range(d, b + 306, b + 308),
    }
}

/// Derive the triangle index list: a fan per face, in face order.
fn decode_indices(faces: &Vec<BSPModelFace>) -> (r: Vec<u32>)
    requires
        forall|j: int|
            0 <= j < faces@.len() ==> (#[trigger] faces@[j]).vertices_ids@.len() == 20
                && faces@[j].vertices_count <= 20,
    ensures
        r@ == fan_all(faces@, 0),
{
    let n: usize = faces.len();
    let mut out: Vec<u32> = Vec::new();
    let mut i: usize = 0;
    proof {
        assert(out@ + fan_all(faces@, 0) =~= fan_all(faces@, 0));
    }
    while i < n
        invariant
            i <= n == faces@.len(),
            forall|j: int|
                0 <= j < faces@.len() ==> (#[trigger] faces@[j]).vertices_ids@.len() == 20
                    && faces@[j].vertices_count <= 20,
            fan_all(faces@, 0) == out@ + fan_all(faces@, i as int),
        decreases n - i,
    {
        let vc: u8 = faces[i].vertices_count;
        let ghost ids = faces@[i as int].vertices_ids@;
        let ghost fan = fan_indices(ids, vc as int);
        let ghost out_before = out@;
        if vc >= 2 {
            let tris: usize = vc as usize - 2;
            let mut t: usize = 0;
            while t < tris
                invariant
                    t <= tris == vc - 2,
                    2 <= vc <= 20,
                    i < faces@.len(),
                    ids == faces@[i as int].vertices_ids@,
                    ids.len() == 20,
                    vc == faces@[i as int].vertices_count,
                    fan == fan_indices(ids, vc as int),
                    out@.len() == out_before.len() + 3 * t,
                    forall|x: int| 0 <= x < out_before.len() ==> out@[x] == out_before[x],
                    forall|x: int|
                        0 <= x < 3 * t ==> #[trigger] out@[out_before.len() + x] == fan[x],
                decreases tris - t,
            {
                let ids_ref: &Vec<u16> = &faces[i].vertices_ids;
                out.push(ids_ref[0] as u32);
                out.push(ids_ref[t + 1] as u32);
                out.push(ids_ref[t + 2] as u32);
                proof {
                    assert forall|x: int| 3 * t <= x < 3 * (t + 1) implies #[trigger] out@[
                        out_before.len() + x] == fan[x] by {
                        assert(x % 3 == x - 3 * t && x / 3 == t);
                    }
                }
                t += 1;
            }
            proof {
                assert(out@.len() == out_before.len() + fan.len());
                assert forall|x: int| 0 <= x < out@.len() implies out@[x] == (out_before + fan)[x]
                    by {
                    if x >= out_before.len() {
                        assert(out@[out_before.len() + (x - out_before.len())] == fan[x
                            - out_before.len()]);
                    }
                }
                assert(out@ =~= out_before + fan);
            }
        } else {
            proof {
                assert(fan =~= Seq::<u32>::empty());
                assert(out@ =~= out_before + fan);
            }
        }
        proof {
            assert(fan_all(faces@, i as int) == fan + fan_all(faces@, i + 1));
            assert(out_before + fan_all(faces@, i as int) =~= (out_before + fan) + fan_all(
                faces@,
                i + 1,
            ));
        }
        i += 1;
    }
    proof {
        assert(fan_all(faces@, n as int) =~= Seq::<u32>::empty());
        assert(out@ + fan_all(faces@, n as int) =~= out@);
    }
    out
}

/// Read the body of model `i` at offset `pos`, given its decoded header.
fn read_bsp_model_body(
    d: &[u8],
    Ghost(at): Ghost<int>,
    Ghost(i): Ghost<int>,
    pos: usize,
    header: BSPModelHeader,
) -> (r: Result<(BSPModel, usize), LodError>)
    requires
        d@.len() <= usize::MAX,
        0 <= at,
        0 <= i,
        pos <= d@.len(),
        header_matches(d@, at + 188 * i, header),
    ensures
        r is Ok <==> body_err(d@, at, i, pos as int) is None,
        match r {
            Ok((m, end)) => {
                &&& model_matches(d@, at, i, pos as int, m)
                &&& end as int == pos + body_size(d@, at, i)
                &&& end <= d@.len()
            },
            Err(e) => body_err(d@, at, i, pos as int) == Some(e),
        },
{
    let len: usize = d.len();
    let vc_raw: i32 = header.vertex_count;
    let fc_raw: i32 = header.faces_count;
    let nc_raw: i32 = header.bsp_nodes_count;
    if vc_raw < 0 || fc_raw < 0 || nc_raw < 0 {
        return Err(LodError::Truncated);
    }
    let vc: usize = vc_raw as usize;
    let fc: usize = fc_raw as usize;
    let nc: usize = nc_raw as usize;
    if 12 * (vc as u64) + 320 * (fc as u64) > (len - pos) as u64 {
        return Err(LodError::Truncated);
    }
    let vb: usize = pos;
    let fb: usize = vb + 12 * vc;
    let ub: usize = fb + 308 * fc;
    let tb: usize = ub + 2 * fc;
    let nb: usize = tb + 10 * fc;

    let mut vertices: Vec<Vec3> = Vec::new();
    let mut k: usize = 0;
    while k < vc
        invariant
            k <= vc,
            vb + 12 * vc <= len == d@.len(),
            d@.len() <= usize::MAX,
            vertices@.len() == k,
            forall|q: int|
                0 <= q < k ==> ((#[trigger] vertices@[q]).x == as_i32(le32(d@, vb + 12 * q))
                    && vertices@[q].y == as_i32(le32(d@, vb + 12 * q + 8)) && vertices@[q].z
                    == -as_i32(le32(d@, vb + 12 * q + 4))),
        decreases vc - k,
    {
        let x: i32 = read_i32_le(d, vb + 12 * k);
        let yv: i32 = read_i32_le(d, vb + 12 * k + 4);
        let zv: i32 = read_i32_le(d, vb + 12 * k + 8);
        vertices.push(Vec3 { x: x as i64, y: zv as i64, z: -(yv as i64) });
        k += 1;
    }

    let mut faces: Vec<BSPModelFace> = Vec::new();
    let mut j: usize = 0;
    while j < fc
        invariant
            j <= fc,
            fb + 308 * fc <= len == d@.len(),
            d@.len() <= usize::MAX,
            faces@.len() == j,
            forall|q: int| 0 <= q < j ==> face_matches(d@, fb + 308 * q, #[trigger] faces@[q]),
        decreases fc - j,
    {
        faces.push(read_face(d, fb + 308 * j));
        j += 1;
    }

    let unk: Vec<u8> = crate::bytes::copy_range(d, ub, ub + 2 * fc);

    let mut texture_names: Vec<String> = Vec::new();
    let mut j: usize = 0;
    while j < fc
        invariant
            j <= fc,
            tb + 10 * fc <= len == d@.len(),
            d@.len() <= usize::MAX,
            tb == pos + 12 * vc + 310 * fc,
            h_vc(d@, at, i) == vc,
            h_fc(d@, at, i) == fc,
            h_nc(d@, at, i) == nc,
            pos + 12 * vc + 320 * fc <= len,
            texture_names@.len() == j,
            forall|q: int|
                0 <= q < j ==> (#[trigger] texture_names@[q])@ == text_in_block(
                    d@,
                    tb + 10 * q,
                    10,
                ),
            forall|q: int|
                0 <= q < j ==> is_ascii_seq(
                    #[trigger] d@.subrange(
                        tb + 10 * q,
                        nul_scan(d@, tb + 10 * q, tb + 10 * q + 10),
                    ),
                ),
        decreases fc - j,
    {
        let nmb: usize = tb + 10 * j;
        let s: String = match crate::bytes::read_text_block(d, nmb, 10) {
            Some(s) => s,
            None => {
                proof {
                    assert(!is_ascii_seq(d@.subrange(
                        tb + 10 * (j as int),
                        nul_scan(d@, tb + 10 * (j as int), tb + 10 * (j as int) + 10),
                    )));
                }
                return Err(LodError::InvalidFormat);
            },
        };
        texture_names.push(s);
        j += 1;
    }

    let mut j: usize = 0;
    while j < fc
        invariant
            j <= fc,
            fb + 308 * fc <= len == d@.len(),
            d@.len() <= usize::MAX,
            fb == pos + 12 * vc,
            tb == pos + 12 * vc + 310 * fc,
            h_vc(d@, at, i) == vc,
            h_fc(d@, at, i) == fc,
            h_nc(d@, at, i) == nc,
            pos + 12 * vc + 320 * fc <= len,
            forall|q: int|
                0 <= q < fc ==> is_ascii_seq(
                    #[trigger] d@.subrange(
                        tb + 10 * q,
                        nul_scan(d@, tb + 10 * q, tb + 10 * q + 10),
                    ),
                ),
            faces@.len() == fc,
            forall|q: int| 0 <= q < fc ==> face_matches(d@, fb + 308 * q, #[trigger] faces@[q]),
            forall|q: int| 0 <= q < j ==> #[trigger] d@[fb + 308 * q + 302] <= 20,
        decreases fc - j,
    {
        if d[fb + 308 * j + 302] > 20 {
            proof {
                assert(d@[fb + 308 * (j as int) + 302] > 20);
            }
            return Err(LodError::InvalidFormat);
        }
        j += 1;
    }
    proof {
        assert forall|q: int| 0 <= q < fc implies (#[trigger] faces@[q]).vertices_ids@.len() == 20
            && faces@[q].vertices_count <= 20 by {
            assert(face_matches(d@, fb + 308 * q, faces@[q]));
            assert(d@[fb + 308 * q + 302] <= 20);
        }
    }
    let indices: Vec<u32> = decode_indices(&faces);

    let mut bsp_nodes: Vec<BSPNode> = Vec::new();
    if nc_raw > 0 {
        if 24 * (nc as u64) > (len - nb) as u64 {
            return Err(LodError::Truncated);
        }
        let total: usize = 2 * nc;
        let mut q: usize = 0;
        while q < total
            invariant
                q <= total == 2 * nc,
                nb + 12 * total <= len == d@.len(),
                d@.len() <= usize::MAX,
                bsp_nodes@.len() == q,
                forall|x: int|
                    0 <= x < q ==> node_matches(d@, nb + 12 * x, #[trigger] bsp_nodes@[x]),
            decreases total - q,
        {
            let nbase: usize = nb + 12 * q;
            bsp_nodes.push(
                BSPNode {
                    front: read_i32_le(d, nbase),
                    back: read_i32_le(d, nbase + 4),
                    face_id_offset: read_i16_le(d, nbase + 8),
                    faces_count: read_i16_le(d, nbase + 10),
                },
            );
            q += 1;
        }
    }
    let end: usize = if nc_raw > 0 {
        nb + 24 * nc
    } else {
        nb
    };
    let m = BSPModel { header, vertices, faces, unk, texture_names, bsp_nodes, indices };
    Ok((m, end))
}

/// Read `count` models out of `d` at offset `at`: the batched headers
/// first, then each model's body in order. On success also yields the
/// offset just past the last body.
pub fn read_bsp_models(d: &[u8], at: usize, count: usize) -> (r: Result<
    (Vec<BSPModel>, usize),
    LodError,
>)
    requires
        at <= d@.len(),
        count <= 0xffffffff,
    ensures
        r is Ok <==> bsp_err(d@, at as int, count as int) is None,
        match r {
            Ok((v, end)) => {
                &&& v@.len() == count
                &&& forall|i: int|
                    0 <= i < count ==> model_matches(
                        d@,
                        at as int,
                        i,
                        body_at(d@, at as int, count as int, i),
                        #[trigger] v@[i],
                    )
                &&& end as int == body_at(d@, at as int, count as int, count as int)
                &&& end <= d@.len()
            },
            Err(e) => bsp_err(d@, at as int, count as int) == Some(e),
        },
{
    let len: usize = d.len();
    if 188 * (count as u64) > (len - at) as u64 {
        return Err(LodError::Truncated);
    }
    let mut headers: Vec<BSPModelHeader> = Vec::new();
    let mut i: usize = 0;
    while i < count
        invariant
            i <= count,
            at + 188 * count <= len == d@.len(),
            d@.len() <= usize::MAX,
            headers@.len() == i,
            forall|j: int| 0 <= j < i ==> header_matches(d@, at + 188 * j, #[trigger] headers@[j]),
            forall|j: int| 0 <= j < i ==> hdr_names_ascii(d@, at as int, j),
        decreases count - i,
    {
        let b: usize = at + 188 * i;
        let h: BSPModelHeader = match read_bsp_model_header(d, b) {
            Ok(h) => h,
            Err(e) => {
                proof {
                    assert(!hdr_names_ascii(d@, at as int, i as int));
                }
                return Err(e);
            },
        };
        headers.push(h);
        i += 1;
    }
    let mut models: Vec<BSPModel> = Vec::new();
    let mut pos: usize = at + 188 * count;
    let mut i: usize = 0;
    while i < count
        invariant
            i <= count,
            at + 188 * count <= len == d@.len(),
            d@.len() <= usize::MAX,
            headers@.len() == count - i,
            forall|j: int|
                0 <= j < count - i ==> header_matches(
                    d@,
                    at + 188 * (j + i),
                    #[trigger] headers@[j],
                ),
            forall|j: int| 0 <= j < count ==> hdr_names_ascii(d@, at as int, j),
            models@.len() == i,
            forall|j: int|
                0 <= j < i ==> model_matches(
                    d@,
                    at as int,
                    j,
                    body_at(d@, at as int, count as int, j),
                    #[trigger] models@[j],
                ),
            pos as int == body_at(d@, at as int, count as int, i as int),
            pos <= len,
            bodies_err(d@, at as int, count as int, 0) == bodies_err(
                d@,
                at as int,
                count as int,
                i as int,
            ),
        decreases count - i,
    {
        let ghost hs_before = headers@;
        let header: BSPModelHeader = headers.remove(0);
        proof {
            assert(headers@ =~= hs_before.skip(1));
            assert(header_matches(d@, at + 188 * (i as int), header));
            assert forall|j: int| 0 <= j < count - i - 1 implies header_matches(
                d@,
                at + 188 * (j + i + 1),
                #[trigger] headers@[j],
            ) by {
                assert(headers@[j] == hs_before[j + 1]);
            }
        }
        let (m, end): (BSPModel, usize) = match read_bsp_model_body(
            d,
            Ghost(at as int),
            Ghost(i as int),
            pos,
            header,
        ) {
            Ok(v) => v,
            Err(e) => {
                return Err(e);
            },
        };
        models.push(m);
        pos = end;
        i += 1;
    }
    Ok((models, pos))
}

} // verus!
