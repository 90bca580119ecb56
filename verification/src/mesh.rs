use vstd::prelude::*;
use crate::buffer::{in_bounds, string_at, u16_at, Buffer};
use crate::error::DecodeError;
use crate::model::{
    primitives_at, read_primatives, read_vertexes, vertexes_at, TagObject, TagPrimitive,
    TagVertex,
};
use crate::palette::{palette_lookup, Palette, Rgb};

verus! {

/// The two forms in which a mesh is written out.
#[derive(Clone, Copy, Debug, PartialEq, Eq, Structural)]
pub enum OutputMode {
    /// Geometry only: vertices as they stand, faces as bare vertex indices.
    Plain,
    /// Geometry with materials: the x axis is mirrored, and every corner of
    /// a face is paired with a texture coordinate.
    Textured,
}

/// An offset in model units; its view is the same offset over the
/// integers.
#[derive(Clone, Copy, Debug, PartialEq, Eq, Structural)]
pub struct Offset {
    pub x: i64,
    pub y: i64,
    pub z: i64,
}

/// An offset over the integers.
pub struct Shift {
    pub x: int,
    pub y: int,
    pub z: int,
}

impl View for Offset {
    type V = Shift;

    open spec fn view(&self) -> Shift {
        Shift { x: self.x as int, y: self.y as int, z: self.z as int }
    }
}

/// One record of a decoded mesh, in the order in which it is written out.
#[derive(Clone, Debug, PartialEq, Eq)]
pub enum MeshEvent {
    /// A node begins; `name` is its name.
    Object { name: Vec<u8> },
    /// A vertex of the current node, moved by the node's accumulated offset
    /// and scaled.
    Vertex { x: i64, y: i64, z: i64 },
    /// The faces that follow use the texture `name`.
    Texture { name: Vec<u8> },
    /// The faces that follow are painted `colour`.
    Colour { colour: Rgb },
    /// A face; `corners` are one-based indices into all vertices of the
    /// mesh, in the order of the file.
    Face { corners: Vec<u64> },
}

/// What a [`MeshEvent`] is to a contract.
pub enum MeshRecord {
    Object { name: Seq<u8> },
    Vertex { x: int, y: int, z: int },
    Texture { name: Seq<u8> },
    Colour { colour: Rgb },
    Face { corners: Seq<int> },
}

/// The corner indices of a face as integers.
pub open spec fn corner_indices(corners: Seq<u64>) -> Seq<int> {
    Seq::new(corners.len(), |i: int| corners[i] as int)
}

impl View for MeshEvent {
    type V = MeshRecord;

    open spec fn view(&self) -> MeshRecord {
        match *self {
            MeshEvent::Object { name } => MeshRecord::Object { name: name@ },
            MeshEvent::Vertex { x, y, z } => MeshRecord::Vertex {
                x: x as int,
                y: y as int,
                z: z as int,
            },
            MeshEvent::Texture { name } => MeshRecord::Texture { name: name@ },
            MeshEvent::Colour { colour } => MeshRecord::Colour { colour },
            MeshEvent::Face { corners } => MeshRecord::Face { corners: corner_indices(corners@) },
        }
    }
}

/// The records that a list of events stands for.
pub open spec fn records_of(events: Seq<MeshEvent>) -> Seq<MeshRecord> {
    Seq::new(events.len(), |i: int| events[i]@)
}

/// A coordinate in model units brought down to output units: divided by
/// 1000 and rounded towards zero.
pub open spec fn scaled(value: int) -> int {
    if value >= 0 {
        value / 1000
    } else {
        -((-value) / 1000)
    }
}

/// The record of vertex `v` of a node whose accumulated offset is `here`.
pub open spec fn vertex_record(v: TagVertex, here: Shift, mode: OutputMode) -> MeshRecord {
    MeshRecord::Vertex {
        x: if mode == OutputMode::Textured {
            -scaled(here.x + v.x)
        } else {
            scaled(here.x + v.x)
        },
        y: scaled(here.y + v.y),
        z: scaled(here.z + v.z),
    }
}

/// The records of the vertices `vs`, in their order.
pub open spec fn vertex_records(vs: Seq<TagVertex>, here: Shift, mode: OutputMode) -> Seq<
    MeshRecord,
> {
    Seq::new(vs.len(), |i: int| vertex_record(vs[i], here, mode))
}

/// The name that a record points to with `pos`: `OutOfBounds` where `pos`
/// lies beyond the end of the buffer, else the zero-terminated name there.
pub open spec fn name_at(data: Seq<u8>, pos: int) -> Result<Seq<u8>, DecodeError> {
    if pos > data.len() {
        Err(DecodeError::OutOfBounds)
    } else {
        string_at(data, pos)
    }
}

/// The corners of a face: each of the `count` 16-bit entries at `pos` is an
/// index into the vertices of the face's own node; `written` vertices came
/// before that node, and the output counts from one.
pub open spec fn corners_at(data: Seq<u8>, pos: int, count: int, written: int) -> Seq<int> {
    Seq::new(count as nat, |i: int| written + u16_at(data, pos + 2 * i) + 1)
}

/// A primitive with neither a texture nor a colour is not drawn.
pub open spec fn is_unrendered(p: TagPrimitive) -> bool {
    p.offset_to_texture_name == 0 && p.is_colored == 0
}

/// The material of a drawn primitive: its texture where it names one, even
/// if it is marked as coloured too, else the palette entry of its colour
/// index.
pub open spec fn material_record(data: Seq<u8>, palette: Seq<Rgb>, p: TagPrimitive) -> Result<
    MeshRecord,
    DecodeError,
> {
    if p.offset_to_texture_name != 0 {
        match name_at(data, p.offset_to_texture_name as int) {
            Ok(name) => Ok(MeshRecord::Texture { name }),
            Err(e) => Err(e),
        }
    } else {
        match palette_lookup(palette, p.color_index) {
            Ok(colour) => Ok(MeshRecord::Colour { colour }),
            Err(e) => Err(e),
        }
    }
}

/// The records of one primitive: none where it is not drawn, else its
/// material and its face.
pub open spec fn primitive_records(
    data: Seq<u8>,
    palette: Seq<Rgb>,
    p: TagPrimitive,
    written: int,
) -> Result<Seq<MeshRecord>, DecodeError> {
    if is_unrendered(p) {
        Ok(Seq::empty())
    } else {
        match material_record(data, palette, p) {
            Err(e) => Err(e),
            Ok(material) => if !in_bounds(
                data,
                p.offset_to_vertex_index_array as int,
                2 * p.number_of_vertex_indexes,
            ) {
                Err(DecodeError::OutOfBounds)
            } else {
                Ok(
                    seq![
                        material,
                        MeshRecord::Face {
                            corners: corners_at(
                                data,
                                p.offset_to_vertex_index_array as int,
                                p.number_of_vertex_indexes as int,
                                written,
                            ),
                        },
                    ],
                )
            },
        }
    }
}

/// The records of the first `upto` primitives of `prims`, in their order;
/// the first primitive that cannot be decoded decides the error.
pub open spec fn face_records(
    data: Seq<u8>,
    palette: Seq<Rgb>,
    prims: Seq<TagPrimitive>,
    written: int,
    upto: int,
) -> Result<Seq<MeshRecord>, DecodeError>
    decreases upto,
{
    if upto <= 0 {
        Ok(Seq::empty())
    } else {
        match face_records(data, palette, prims, written, upto - 1) {
            Err(e) => Err(e),
            Ok(before) => match primitive_records(data, palette, prims[upto - 1], written) {
                Err(e) => Err(e),
                Ok(these) => Ok(before + these),
            },
        }
    }
}

/// The records of one node whose accumulated offset is `here`, when
/// `written` vertices came before it: its name, its vertices, then its
/// faces.
pub open spec fn node_records(
    data: Seq<u8>,
    palette: Seq<Rgb>,
    mode: OutputMode,
    node: TagObject,
    here: Shift,
    written: int,
) -> Result<Seq<MeshRecord>, DecodeError> {
    match name_at(data, node.offset_to_object_name as int) {
        Err(e) => Err(e),
        Ok(name) => if !in_bounds(
            data,
            node.offset_to_vertex_array as int,
            12 * node.number_of_vertexes,
        ) {
            Err(DecodeError::OutOfBounds)
        } else if !in_bounds(
            data,
            node.offset_to_primitive_array as int,
            32 * node.number_of_primitives,
        ) {
            Err(DecodeError::OutOfBounds)
        } else {
            match face_records(
                data,
                palette,
                primitives_at(
                    data,
                    node.offset_to_primitive_array as int,
                    node.number_of_primitives as int,
                ),
                written,
                node.number_of_primitives as int,
            ) {
                Err(e) => Err(e),
                Ok(faces) => Ok(
                    seq![MeshRecord::Object { name }] + vertex_records(
                        vertexes_at(
                            data,
                            node.offset_to_vertex_array as int,
                            node.number_of_vertexes as int,
                        ),
                        here,
                        mode,
                    ) + faces,
                ),
            }
        },
    }
}

fn scale(value: i128) -> (r: i64)
    requires
        -0x1_0000_0000_0000_0000 <= value <= 0x1_0000_0000_0000_0000,
    ensures
        r == scaled(value as int),
{
    if value >= 0 {
        (value / 1000) as i64
    } else {
        let magnitude: i128 = (-value) / 1000;
        (-magnitude) as i64
    }
}

fn vertex_event(v: &TagVertex, here: Offset, mode: OutputMode) -> (r: MeshEvent)
    ensures
        r@ == vertex_record(*v, here@, mode),
{
    let x: i64 = scale(here.x as i128 + v.x as i128);
    let y: i64 = scale(here.y as i128 + v.y as i128);
    let z: i64 = scale(here.z as i128 + v.z as i128);
    match mode {
        OutputMode::Textured => MeshEvent::Vertex { x: -x, y, z },
        OutputMode::Plain => MeshEvent::Vertex { x, y, z },
    }
}

/// `events` with one more event stands for the records of `events` with
/// one more record.
pub proof fn lemma_records_push(events: Seq<MeshEvent>, event: MeshEvent)
    ensures
        records_of(events.push(event)) == records_of(events).push(event@),
{
    assert(records_of(events.push(event)) =~= records_of(events).push(event@));
}

/// Two lists of events one after the other stand for their records one
/// after the other.
pub proof fn lemma_records_concat(a: Seq<MeshEvent>, b: Seq<MeshEvent>)
    ensures
        records_of(a + b) == records_of(a) + records_of(b),
{
    assert(records_of(a + b) =~= records_of(a) + records_of(b));
}

#[verifier::loop_isolation(false)]
fn primitive_events(
    buf: &mut Buffer,
    primitive: &TagPrimitive,
    written: u64,
    palette: &Palette,
) -> (r: Result<Vec<MeshEvent>, DecodeError>)
    requires
        written + 0x1_0000 <= u64::MAX,
    ensures
        final(buf)@.data == old(buf)@.data,
        r matches Ok(events) ==> primitive_records(
            old(buf)@.data,
            palette@,
            *primitive,
            written as int,
        ) == Ok::<Seq<MeshRecord>, DecodeError>(records_of(events@)),
        r matches Err(e) ==> primitive_records(
            old(buf)@.data,
            palette@,
            *primitive,
            written as int,
        ) == Err::<Seq<MeshRecord>, DecodeError>(e),
{
    let mut events: Vec<MeshEvent> = Vec::new();
    if primitive.is_colored == 0 && primitive.offset_to_texture_name == 0 {
        assert(records_of(events@) =~= Seq::<MeshRecord>::empty());
        return Ok(events);
    }
    if primitive.offset_to_texture_name != 0 {
        match buf.seek(primitive.offset_to_texture_name) {
            Err(e) => {
                return Err(e);
            },
            Ok(()) => {},
        }
        match buf.read_string() {
            Err(e) => {
                return Err(e);
            },
            Ok(name) => {
                events.push(MeshEvent::Texture { name });
            },
        }
    } else {
        match palette.colour(primitive.color_index) {
            Err(e) => {
                return Err(e);
            },
            Ok(colour) => {
                events.push(MeshEvent::Colour { colour });
            },
        }
    }
    let ghost material = events@[0]@;
    assert(material_record(old(buf)@.data, palette@, *primitive) == Ok::<
        MeshRecord,
        DecodeError,
    >(material));
    match buf.seek(primitive.offset_to_vertex_index_array) {
        Err(e) => {
            return Err(e);
        },
        Ok(()) => {},
    }
    let mut corners: Vec<u64> = Vec::new();
    let mut i: u32 = 0;
    while i < primitive.number_of_vertex_indexes
        invariant
            i <= primitive.number_of_vertex_indexes,
            written + 0x1_0000 <= u64::MAX,
            buf@.data == old(buf)@.data,
            buf@.cursor == primitive.offset_to_vertex_index_array + 2 * i,
            buf@.cursor <= buf@.data.len(),
            corner_indices(corners@) == corners_at(
                buf@.data,
                primitive.offset_to_vertex_index_array as int,
                i as int,
                written as int,
            ),
        decreases primitive.number_of_vertex_indexes - i,
    {
        let ghost before = corners@;
        match buf.read_u16() {
            Err(e) => {
                return Err(e);
            },
            Ok(local) => {
                assert(local == u16_at(
                    buf@.data,
                    primitive.offset_to_vertex_index_array + 2 * i,
                ));
                corners.push(written + local as u64 + 1);
            },
        }
        let _ = buf.seek_relative(2);
        i = i + 1;
        assert forall|k: int| 0 <= k < i implies corner_indices(corners@)[k] == corners_at(
            buf@.data,
            primitive.offset_to_vertex_index_array as int,
            i as int,
            written as int,
        )[k] by {
            if k < i - 1 {
                assert(corner_indices(before)[k] == corners_at(
                    buf@.data,
                    primitive.offset_to_vertex_index_array as int,
                    i - 1,
                    written as int,
                )[k]);
            }
        }
        assert(corner_indices(corners@) =~= corners_at(
            buf@.data,
            primitive.offset_to_vertex_index_array as int,
            i as int,
            written as int,
        ));
    }
    events.push(MeshEvent::Face { corners });
    assert(records_of(events@) =~= seq![
        material,
        MeshRecord::Face {
            corners: corners_at(
                old(buf)@.data,
                primitive.offset_to_vertex_index_array as int,
                primitive.number_of_vertex_indexes as int,
                written as int,
            ),
        },
    ]);
    Ok(events)
}

/// Once a primitive has failed, the records of every longer run of
/// primitives fail in the same way.
proof fn lemma_face_records_stay_failed(
    data: Seq<u8>,
    palette: Seq<Rgb>,
    prims: Seq<TagPrimitive>,
    written: int,
    failed: int,
    upto: int,
)
    requires
        failed <= upto,
        face_records(data, palette, prims, written, failed) is Err,
    ensures
        face_records(data, palette, prims, written, upto) == face_records(
            data,
            palette,
            prims,
            written,
            failed,
        ),
    decreases upto - failed,
{
    if failed < upto {
        lemma_face_records_stay_failed(data, palette, prims, written, failed, upto - 1);
    }
}

#[verifier::loop_isolation(false)]
pub(crate) fn node_block(
    buf: &mut Buffer,
    object: &TagObject,
    written: u64,
    here: Offset,
    palette: &Palette,
    mode: OutputMode,
) -> (r: Result<Vec<MeshEvent>, DecodeError>)
    requires
        written + 0x1_0000 <= u64::MAX,
    ensures
        final(buf)@.data == old(buf)@.data,
        r matches Ok(events) ==> node_records(
            old(buf)@.data,
            palette@,
            mode,
            *object,
            here@,
            written as int,
        ) == Ok::<Seq<MeshRecord>, DecodeError>(records_of(events@)),
        r matches Err(e) ==> node_records(
            old(buf)@.data,
            palette@,
            mode,
            *object,
            here@,
            written as int,
        ) == Err::<Seq<MeshRecord>, DecodeError>(e),
{
    let ghost data = buf@.data;
    let mut events: Vec<MeshEvent> = Vec::new();
    match buf.seek(object.offset_to_object_name) {
        Err(e) => {
            return Err(e);
        },
        Ok(()) => {},
    }
    match buf.read_string() {
        Err(e) => {
            return Err(e);
        },
        Ok(name) => {
            events.push(MeshEvent::Object { name });
        },
    }
    let ghost head = records_of(events@);
    assert(head =~= seq![events@[0]@]);
    assert(name_at(data, object.offset_to_object_name as int) == Ok::<Seq<u8>, DecodeError>(
        events@[0]->Object_name@,
    ));
    let vertexes = match read_vertexes(buf, object) {
        Err(e) => {
            return Err(e);
        },
        Ok(vertexes) => vertexes,
    };
    let mut i: usize = 0;
    while i < vertexes.len()
        invariant
            i <= vertexes.len(),
            records_of(events@) == head + vertex_records(vertexes@.subrange(0, i as int), here@, mode),
        decreases vertexes.len() - i,
    {
        let event = vertex_event(&vertexes[i], here, mode);
        proof {
            lemma_records_push(events@, event);
        }
        events.push(event);
        i = i + 1;
        assert(records_of(events@) =~= head + vertex_records(
            vertexes@.subrange(0, i as int),
            here@,
            mode,
        ));
    }
    assert(vertexes@.subrange(0, vertexes@.len() as int) =~= vertexes@);
    let ghost body = records_of(events@);
    let primatives = match read_primatives(buf, object) {
        Err(e) => {
            return Err(e);
        },
        Ok(primatives) => primatives,
    };
    let mut k: usize = 0;
    while k < primatives.len()
        invariant
            k <= primatives.len(),
            written + 0x1_0000 <= u64::MAX,
            buf@.data == data,
            face_records(data, palette@, primatives@, written as int, k as int) is Ok,
            records_of(events@) == body + face_records(
                data,
                palette@,
                primatives@,
                written as int,
                k as int,
            ).unwrap(),
        decreases primatives.len() - k,
    {
        let mut these = match primitive_events(buf, &primatives[k], written, palette) {
            Err(e) => {
                proof {
                    lemma_face_records_stay_failed(
                        data,
                        palette@,
                        primatives@,
                        written as int,
                        k + 1,
                        primatives@.len() as int,
                    );
                }
                return Err(e);
            },
            Ok(these) => these,
        };
        proof {
            lemma_records_concat(events@, these@);
        }
        events.append(&mut these);
        k = k + 1;
        assert(records_of(events@) =~= body + face_records(
            data,
            palette@,
            primatives@,
            written as int,
            k as int,
        ).unwrap());
    }
    Ok(events)
}

/// The records of the node `object`: its name, its vertices moved by
/// `offset` and scaled, and its drawn faces with their materials, each
/// corner numbered from `n_vertices_written + 1`. The cursor is moved while
/// decoding and put back before returning.
pub fn diplay_data(
    buf: &mut Buffer,
    object: &TagObject,
    n_vertices_written: u64,
    offset: Offset,
    palette: &Palette,
    mode: OutputMode,
) -> (r: Result<Vec<MeshEvent>, DecodeError>)
    requires
        n_vertices_written + 0x1_0000 <= u64::MAX,
    ensures
        final(buf)@ == old(buf)@,
        r matches Ok(events) ==> node_records(
            old(buf)@.data,
            palette@,
            mode,
            *object,
            offset@,
            n_vertices_written as int,
        ) == Ok::<Seq<MeshRecord>, DecodeError>(records_of(events@)),
        r matches Err(e) ==> node_records(
            old(buf)@.data,
            palette@,
            mode,
            *object,
            offset@,
            n_vertices_written as int,
        ) == Err::<Seq<MeshRecord>, DecodeError>(e),
{
    let start: usize = buf.position();
    let r = node_block(buf, object, n_vertices_written, offset, palette, mode);
    let _ = buf.seek_to(start);
    r
}

} // verus!
