use vstd::prelude::*;
use crate::buffer::{
    i32_at, i32_in, in_bounds, lemma_field_of_record, u32_at, u32_in, Buffer,
};
use crate::error::DecodeError;

verus! {

/// The size in bytes of a node record.
pub const OBJECT_SIZE: usize = 52;

/// The size in bytes of a primitive record.
pub const PRIMITIVE_SIZE: usize = 32;

/// The size in bytes of a vertex record.
pub const VERTEX_SIZE: usize = 12;

/// A node of the model tree as the file holds it: thirteen 32-bit fields,
/// packed, little-endian. Offsets are byte positions in the buffer; a
/// sibling or child offset of 0 means that there is none.
#[derive(Clone, Copy, Debug, PartialEq, Eq, Structural)]
pub struct TagObject {
    pub version_signature: u32,
    pub number_of_vertexes: u32,
    pub number_of_primitives: u32,
    pub offset_to_selection_primitive: u32,
    pub x_from_parent: i32,
    pub y_from_parent: i32,
    pub z_from_parent: i32,
    pub offset_to_object_name: u32,
    pub always_0: u32,
    pub offset_to_vertex_array: u32,
    pub offset_to_primitive_array: u32,
    pub offset_to_sibling_object: u32,
    pub offset_to_child_object: u32,
}

/// A face of a node as the file holds it: eight 32-bit fields, packed,
/// little-endian.
#[derive(Clone, Copy, Debug, PartialEq, Eq, Structural)]
pub struct TagPrimitive {
    pub color_index: u32,
    pub number_of_vertex_indexes: u32,
    pub always_0: u32,
    pub offset_to_vertex_index_array: u32,
    pub offset_to_texture_name: u32,
    pub unknown_1: u32,
    pub unknown_2: u32,
    pub is_colored: u32,
}

/// A vertex of a node, in the node's own coordinates.
#[derive(Clone, Copy, Debug, PartialEq, Eq, Structural)]
pub struct TagVertex {
    pub x: i32,
    pub y: i32,
    pub z: i32,
}

/// The node record that starts at `pos`.
pub open spec fn object_at(data: Seq<u8>, pos: int) -> TagObject {
    TagObject {
        version_signature: u32_at(data, pos),
        number_of_vertexes: u32_at(data, pos + 4),
        number_of_primitives: u32_at(data, pos + 8),
        offset_to_selection_primitive: u32_at(data, pos + 12),
        x_from_parent: i32_at(data, pos + 16),
        y_from_parent: i32_at(data, pos + 20),
        z_from_parent: i32_at(data, pos + 24),
        offset_to_object_name: u32_at(data, pos + 28),
        always_0: u32_at(data, pos + 32),
        offset_to_vertex_array: u32_at(data, pos + 36),
        offset_to_primitive_array: u32_at(data, pos + 40),
        offset_to_sibling_object: u32_at(data, pos + 44),
        offset_to_child_object: u32_at(data, pos + 48),
    }
}

/// The primitive record that starts at `pos`.
pub open spec fn primitive_at(data: Seq<u8>, pos: int) -> TagPrimitive {
    TagPrimitive {
        color_index: u32_at(data, pos),
        number_of_vertex_indexes: u32_at(data, pos + 4),
        always_0: u32_at(data, pos + 8),
        offset_to_vertex_index_array: u32_at(data, pos + 12),
        offset_to_texture_name: u32_at(data, pos + 16),
        unknown_1: u32_at(data, pos + 20),
        unknown_2: u32_at(data, pos + 24),
        is_colored: u32_at(data, pos + 28),
    }
}

/// The vertex record that starts at `pos`.
pub open spec fn vertex_at(data: Seq<u8>, pos: int) -> TagVertex {
    TagVertex { x: i32_at(data, pos), y: i32_at(data, pos + 4), z: i32_at(data, pos + 8) }
}

/// The `count` vertex records that start at `pos`, one after the other.
pub open spec fn vertexes_at(data: Seq<u8>, pos: int, count: int) -> Seq<TagVertex> {
    Seq::new(count as nat, |i: int| vertex_at(data, pos + 12 * i))
}

/// The `count` primitive records that start at `pos`, one after the other.
pub open spec fn primitives_at(data: Seq<u8>, pos: int, count: int) -> Seq<TagPrimitive> {
    Seq::new(count as nat, |i: int| primitive_at(data, pos + 32 * i))
}

/// The node record at the cursor, or `OutOfBounds` where fewer than 52
/// bytes follow it. The cursor stays.
pub fn read_object(buf: &Buffer) -> (r: Result<TagObject, DecodeError>)
    ensures
        in_bounds(buf@.data, buf@.cursor, 52) ==> r == Ok::<TagObject, DecodeError>(
            object_at(buf@.data, buf@.cursor),
        ),
        !in_bounds(buf@.data, buf@.cursor, 52) ==> r == Err::<TagObject, DecodeError>(
            DecodeError::OutOfBounds,
        ),
{
    match buf.read(OBJECT_SIZE) {
        Err(e) => Err(e),
        Ok(bytes) => {
            proof {
                let base = buf@.cursor;
                lemma_field_of_record(buf@.data, base, 52, 0, 4);
                lemma_field_of_record(buf@.data, base, 52, 4, 4);
                lemma_field_of_record(buf@.data, base, 52, 8, 4);
                lemma_field_of_record(buf@.data, base, 52, 12, 4);
                lemma_field_of_record(buf@.data, base, 52, 16, 4);
                lemma_field_of_record(buf@.data, base, 52, 20, 4);
                lemma_field_of_record(buf@.data, base, 52, 24, 4);
                lemma_field_of_record(buf@.data, base, 52, 28, 4);
                lemma_field_of_record(buf@.data, base, 52, 32, 4);
                lemma_field_of_record(buf@.data, base, 52, 36, 4);
                lemma_field_of_record(buf@.data, base, 52, 40, 4);
                lemma_field_of_record(buf@.data, base, 52, 44, 4);
                lemma_field_of_record(buf@.data, base, 52, 48, 4);
            }
            Ok(
                TagObject {
                    version_signature: u32_in(bytes, 0),
                    number_of_vertexes: u32_in(bytes, 4),
                    number_of_primitives: u32_in(bytes, 8),
                    offset_to_selection_primitive: u32_in(bytes, 12),
                    x_from_parent: i32_in(bytes, 16),
                    y_from_parent: i32_in(bytes, 20),
                    z_from_parent: i32_in(bytes, 24),
                    offset_to_object_name: u32_in(bytes, 28),
                    always_0: u32_in(bytes, 32),
                    offset_to_vertex_array: u32_in(bytes, 36),
                    offset_to_primitive_array: u32_in(bytes, 40),
                    offset_to_sibling_object: u32_in(bytes, 44),
                    offset_to_child_object: u32_in(bytes, 48),
                },
            )
        },
    }
}

/// The primitive record at the cursor, or `OutOfBounds` where fewer than 32
/// bytes follow it. The cursor stays.
pub fn read_primitive(buf: &Buffer) -> (r: Result<TagPrimitive, DecodeError>)
    ensures
        in_bounds(buf@.data, buf@.cursor, 32) ==> r == Ok::<TagPrimitive, DecodeError>(
            primitive_at(buf@.data, buf@.cursor),
        ),
        !in_bounds(buf@.data, buf@.cursor, 32) ==> r == Err::<TagPrimitive, DecodeError>(
            DecodeError::OutOfBounds,
        ),
{
    match buf.read(PRIMITIVE_SIZE) {
        Err(e) => Err(e),
        Ok(bytes) => {
            proof {
                let base = buf@.cursor;
                lemma_field_of_record(buf@.data, base, 32, 0, 4);
                lemma_field_of_record(buf@.data, base, 32, 4, 4);
                lemma_field_of_record(buf@.data, base, 32, 8, 4);
                lemma_field_of_record(buf@.data, base, 32, 12, 4);
                lemma_field_of_record(buf@.data, base, 32, 16, 4);
                lemma_field_of_record(buf@.data, base, 32, 20, 4);
                lemma_field_of_record(buf@.data, base, 32, 24, 4);
                lemma_field_of_record(buf@.data, base, 32, 28, 4);
            }
            Ok(
                TagPrimitive {
                    color_index: u32_in(bytes, 0),
                    number_of_vertex_indexes: u32_in(bytes, 4),
                    always_0: u32_in(bytes, 8),
                    offset_to_vertex_index_array: u32_in(bytes, 12),
                    offset_to_texture_name: u32_in(bytes, 16),
                    unknown_1: u32_in(bytes, 20),
                    unknown_2: u32_in(bytes, 24),
                    is_colored: u32_in(bytes, 28),
                },
            )
        },
    }
}

/// The vertex record at the cursor, or `OutOfBounds` where fewer than 12
/// bytes follow it. The cursor stays.
pub fn read_vertex(buf: &Buffer) -> (r: Result<TagVertex, DecodeError>)
    ensures
        in_bounds(buf@.data, buf@.cursor, 12) ==> r == Ok::<TagVertex, DecodeError>(
            vertex_at(buf@.data, buf@.cursor),
        ),
        !in_bounds(buf@.data, buf@.cursor, 12) ==> r == Err::<TagVertex, DecodeError>(
            DecodeError::OutOfBounds,
        ),
{
    match buf.read(VERTEX_SIZE) {
        Err(e) => Err(e),
        Ok(bytes) => {
            proof {
                let base = buf@.cursor;
                lemma_field_of_record(buf@.data, base, 12, 0, 4);
                lemma_field_of_record(buf@.data, base, 12, 4, 4);
                lemma_field_of_record(buf@.data, base, 12, 8, 4);
            }
            Ok(TagVertex { x: i32_in(bytes, 0), y: i32_in(bytes, 4), z: i32_in(bytes, 8) })
        },
    }
}

/// The vertex array of `object`. On success the cursor stands behind the
/// array; where the array does not lie inside the buffer the result is
/// `OutOfBounds` and the cursor stays where it was.
pub fn read_vertexes(buf: &mut Buffer, object: &TagObject) -> (r: Result<
    Vec<TagVertex>,
    DecodeError,
>)
    ensures
        final(buf)@.data == old(buf)@.data,
        in_bounds(
            old(buf)@.data,
            object.offset_to_vertex_array as int,
            12 * object.number_of_vertexes,
        ) ==> r.is_ok() && r.unwrap()@ == vertexes_at(
            old(buf)@.data,
            object.offset_to_vertex_array as int,
            object.number_of_vertexes as int,
        ) && final(buf)@.cursor == object.offset_to_vertex_array + 12
            * object.number_of_vertexes,
        !in_bounds(
            old(buf)@.data,
            object.offset_to_vertex_array as int,
            12 * object.number_of_vertexes,
        ) ==> r == Err::<Vec<TagVertex>, DecodeError>(DecodeError::OutOfBounds) && final(buf)@
            == old(buf)@,
{
    let start: usize = buf.position();
    let mut vertexes: Vec<TagVertex> = Vec::new();
    match buf.seek(object.offset_to_vertex_array) {
        Err(e) => {
            return Err(e);
        },
        Ok(()) => {},
    }
    let mut i: u32 = 0;
    while i < object.number_of_vertexes
        invariant
            i <= object.number_of_vertexes,
            buf@.data == old(buf)@.data,
            start == old(buf)@.cursor,
            start <= buf@.data.len(),
            buf@.cursor == object.offset_to_vertex_array + 12 * i,
            buf@.cursor <= buf@.data.len(),
            vertexes@ == vertexes_at(buf@.data, object.offset_to_vertex_array as int, i as int),
        decreases object.number_of_vertexes - i,
    {
        match read_vertex(buf) {
            Err(e) => {
                let _ = buf.seek_to(start);
                return Err(e);
            },
            Ok(vertex) => {
                vertexes.push(vertex);
            },
        }
        let _ = buf.seek_relative(12);
        i = i + 1;
        assert(vertexes@ =~= vertexes_at(
            buf@.data,
            object.offset_to_vertex_array as int,
            i as int,
        ));
    }
    Ok(vertexes)
}

/// The primitive array of `object`. On success the cursor stands behind the
/// array; where the array does not lie inside the buffer the result is
/// `OutOfBounds` and the cursor stays where it was.
pub fn read_primatives(buf: &mut Buffer, object: &TagObject) -> (r: Result<
    Vec<TagPrimitive>,
    DecodeError,
>)
    ensures
        final(buf)@.data == old(buf)@.data,
        in_bounds(
            old(buf)@.data,
            object.offset_to_primitive_array as int,
            32 * object.number_of_primitives,
        ) ==> r.is_ok() && r.unwrap()@ == primitives_at(
            old(buf)@.data,
            object.offset_to_primitive_array as int,
            object.number_of_primitives as int,
        ) && final(buf)@.cursor == object.offset_to_primitive_array + 32
            * object.number_of_primitives,
        !in_bounds(
            old(buf)@.data,
            object.offset_to_primitive_array as int,
            32 * object.number_of_primitives,
        ) ==> r == Err::<Vec<TagPrimitive>, DecodeError>(DecodeError::OutOfBounds)
            && final(buf)@ == old(buf)@,
{
    let start: usize = buf.position();
    let mut primatives: Vec<TagPrimitive> = Vec::new();
    match buf.seek(object.offset_to_primitive_array) {
        Err(e) => {
            return Err(e);
        },
        Ok(()) => {},
    }
    let mut i: u32 = 0;
    while i < object.number_of_primitives
        invariant
            i <= object.number_of_primitives,
            buf@.data == old(buf)@.data,
            start == old(buf)@.cursor,
            start <= buf@.data.len(),
            buf@.cursor == object.offset_to_primitive_array + 32 * i,
            buf@.cursor <= buf@.data.len(),
            primatives@ == primitives_at(
                buf@.data,
                object.offset_to_primitive_array as int,
                i as int,
            ),
        decreases object.number_of_primitives - i,
    {
        match read_primitive(buf) {
            Err(e) => {
                let _ = buf.seek_to(start);
                return Err(e);
            },
            Ok(primitive) => {
                primatives.push(primitive);
            },
        }
        let _ = buf.seek_relative(32);
        i = i + 1;
        assert(primatives@ =~= primitives_at(
            buf@.data,
            object.offset_to_primitive_array as int,
            i as int,
        ));
    }
    Ok(primatives)
}

} // verus!
