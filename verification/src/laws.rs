use vstd::prelude::*;
use crate::buffer::{in_bounds, lemma_field_of_record, u32_at};
use crate::error::DecodeError;
use crate::gaf::{frame_data_at, pointed_frame};
use crate::mesh::{
    face_records, is_unrendered, node_records, primitive_records, vertex_records, MeshRecord,
    OutputMode, Shift,
};
use crate::model::{object_at, primitives_at, vertexes_at, TagObject, TagPrimitive, TagVertex};
use crate::palette::Rgb;
use crate::traverse::{lemma_walk_link_spends, shifted, walk, walk_link};

verus! {

/// The number of vertex records among `records`.
pub open spec fn vertex_count(records: Seq<MeshRecord>) -> nat
    decreases records.len(),
{
    if records.len() == 0 {
        0
    } else {
        vertex_count(records.drop_last()) + if records.last() is Vertex {
            1nat
        } else {
            0nat
        }
    }
}

/// The vertex records of two runs of records add up.
pub proof fn lemma_vertex_count_concat(a: Seq<MeshRecord>, b: Seq<MeshRecord>)
    ensures
        vertex_count(a + b) == vertex_count(a) + vertex_count(b),
    decreases b.len(),
{
    if b.len() == 0 {
        assert(a + b =~= a);
    } else {
        assert((a + b).drop_last() =~= a + b.drop_last());
        assert((a + b).last() == b.last());
        lemma_vertex_count_concat(a, b.drop_last());
    }
}

/// Every vertex of a node gives one vertex record.
pub proof fn lemma_vertex_count_of_vertices(vs: Seq<TagVertex>, here: Shift, mode: OutputMode)
    ensures
        vertex_count(vertex_records(vs, here, mode)) == vs.len(),
    decreases vs.len(),
{
    if vs.len() > 0 {
        assert(vertex_records(vs, here, mode).drop_last() =~= vertex_records(
            vs.drop_last(),
            here,
            mode,
        ));
        lemma_vertex_count_of_vertices(vs.drop_last(), here, mode);
    }
}

/// A primitive that has neither a texture nor a colour adds nothing to the
/// records of its node: no face and no material.
pub proof fn lemma_unrendered_adds_nothing(
    data: Seq<u8>,
    palette: Seq<Rgb>,
    prims: Seq<TagPrimitive>,
    written: int,
    upto: int,
)
    requires
        0 < upto,
        is_unrendered(prims[upto - 1]),
    ensures
        primitive_records(data, palette, prims[upto - 1], written) == Ok::<
            Seq<MeshRecord>,
            DecodeError,
        >(Seq::empty()),
        face_records(data, palette, prims, written, upto) == face_records(
            data,
            palette,
            prims,
            written,
            upto - 1,
        ),
{
    let before = face_records(data, palette, prims, written, upto - 1);
    if before is Ok {
        assert(before.unwrap() + Seq::<MeshRecord>::empty() =~= before.unwrap());
    }
}

/// The faces of a node hold no vertex record.
pub proof fn lemma_faces_hold_no_vertex(
    data: Seq<u8>,
    palette: Seq<Rgb>,
    prims: Seq<TagPrimitive>,
    written: int,
    upto: int,
)
    ensures
        face_records(data, palette, prims, written, upto) matches Ok(faces) ==> vertex_count(
            faces,
        ) == 0,
    decreases upto,
{
    if upto > 0 && face_records(data, palette, prims, written, upto) is Ok {
        lemma_faces_hold_no_vertex(data, palette, prims, written, upto - 1);
        let before = face_records(data, palette, prims, written, upto - 1);
        let these = primitive_records(data, palette, prims[upto - 1], written);
        if before is Ok && these is Ok {
            let t = these.unwrap();
            if t.len() > 0 {
                reveal_with_fuel(vertex_count, 3);
                assert(t.len() == 2);
                assert(!(t[0] is Vertex) && !(t[1] is Vertex));
                assert(t.drop_last().len() == 1);
                assert(t.drop_last().last() == t[0]);
                assert(t.drop_last().drop_last().len() == 0);
                assert(vertex_count(t) == 0);
            }
            lemma_vertex_count_concat(before.unwrap(), t);
        }
    }
}

/// A node that decodes gives as many vertex records as it declares
/// vertices.
pub proof fn lemma_node_vertex_count(
    data: Seq<u8>,
    palette: Seq<Rgb>,
    mode: OutputMode,
    node: TagObject,
    here: Shift,
    written: int,
)
    ensures
        node_records(data, palette, mode, node, here, written) matches Ok(block) ==> vertex_count(
            block,
        ) == node.number_of_vertexes,
{
    let r = node_records(data, palette, mode, node, here, written);
    if r is Ok {
        let prims = primitives_at(
            data,
            node.offset_to_primitive_array as int,
            node.number_of_primitives as int,
        );
        let faces = face_records(data, palette, prims, written, node.number_of_primitives as int);
        let vs = vertexes_at(
            data,
            node.offset_to_vertex_array as int,
            node.number_of_vertexes as int,
        );
        let head = seq![r.unwrap()[0]];
        let body = vertex_records(vs, here, mode);
        lemma_faces_hold_no_vertex(data, palette, prims, written, node.number_of_primitives as int);
        lemma_vertex_count_of_vertices(vs, here, mode);
        lemma_vertex_count_concat(head, body);
        lemma_vertex_count_concat(head + body, faces.unwrap());
        assert(r.unwrap() =~= head + body + faces.unwrap());
        assert(head[0] is Object);
        assert(head.drop_last().len() == 0);
        assert(vertex_count(head) == 0) by {
            reveal_with_fuel(vertex_count, 2);
        }
    }
}

/// Throughout a walk the count of vertices written is the count of vertex
/// records emitted: a walk that starts with `written` ends with `written`
/// and the number of vertex records it emitted. The corners of a node's
/// faces are numbered from the count at which its block begins, so they
/// are numbered from the vertices of all nodes visited before it.
pub proof fn lemma_walk_counts_vertices(
    data: Seq<u8>,
    palette: Seq<Rgb>,
    mode: OutputMode,
    node: TagObject,
    parent: Shift,
    written: int,
    budget: nat,
)
    ensures
        walk(data, palette, mode, node, parent, written, budget) matches Ok(out) ==> out.written
            == written + vertex_count(out.records),
    decreases budget, 0nat,
{
    if budget > 0 {
        let here = shifted(parent, node);
        let block = node_records(data, palette, mode, node, here, written);
        lemma_node_vertex_count(data, palette, mode, node, here, written);
        let w1 = written + node.number_of_vertexes;
        let b1 = (budget - 1) as nat;
        let child = walk_link(data, palette, mode, node.offset_to_child_object, here, w1, b1);
        lemma_link_counts_vertices(data, palette, mode, node.offset_to_child_object, here, w1, b1);
        if block is Ok && child is Ok && child.unwrap().budget < budget {
            let c = child.unwrap();
            let sibling = walk_link(
                data,
                palette,
                mode,
                node.offset_to_sibling_object,
                parent,
                c.written,
                c.budget,
            );
            lemma_link_counts_vertices(
                data,
                palette,
                mode,
                node.offset_to_sibling_object,
                parent,
                c.written,
                c.budget,
            );
            if sibling is Ok {
                lemma_vertex_count_concat(block.unwrap(), c.records);
                lemma_vertex_count_concat(block.unwrap() + c.records, sibling.unwrap().records);
            }
        }
    }
}

/// [`lemma_walk_counts_vertices`] for the walk from a link.
pub proof fn lemma_link_counts_vertices(
    data: Seq<u8>,
    palette: Seq<Rgb>,
    mode: OutputMode,
    link: u32,
    parent: Shift,
    written: int,
    budget: nat,
)
    ensures
        walk_link(data, palette, mode, link, parent, written, budget) matches Ok(out)
            ==> out.written == written + vertex_count(out.records),
    decreases budget, 1nat,
{
    if link != 0 && in_bounds(data, link as int, 52) {
        lemma_walk_counts_vertices(
            data,
            palette,
            mode,
            object_at(data, link as int),
            parent,
            written,
            budget,
        );
    }
}

/// The order of a walk that succeeds: the block of the node, then the
/// subtree of its child, then the subtree of its sibling. The child is
/// walked under the node's own accumulated offset; the sibling is walked
/// under the offset of the parent, whatever the child added to it. Each
/// part is numbered from the vertex records that came before it.
pub proof fn lemma_walk_order(
    data: Seq<u8>,
    palette: Seq<Rgb>,
    mode: OutputMode,
    node: TagObject,
    parent: Shift,
    written: int,
    budget: nat,
)
    requires
        walk(data, palette, mode, node, parent, written, budget) is Ok,
    ensures
        ({
            let here = shifted(parent, node);
            let block = node_records(data, palette, mode, node, here, written);
            let child = walk_link(
                data,
                palette,
                mode,
                node.offset_to_child_object,
                here,
                written + vertex_count(block.unwrap()),
                (budget - 1) as nat,
            );
            let sibling = walk_link(
                data,
                palette,
                mode,
                node.offset_to_sibling_object,
                parent,
                written + vertex_count(block.unwrap() + child.unwrap().records),
                child.unwrap().budget,
            );
            &&& budget > 0
            &&& block is Ok
            &&& child is Ok
            &&& sibling is Ok
            &&& walk(data, palette, mode, node, parent, written, budget).unwrap().records
                == block.unwrap() + child.unwrap().records + sibling.unwrap().records
        }),
{
    let here = shifted(parent, node);
    let block = node_records(data, palette, mode, node, here, written);
    lemma_node_vertex_count(data, palette, mode, node, here, written);
    let w1 = written + node.number_of_vertexes;
    let b1 = (budget - 1) as nat;
    let child = walk_link(data, palette, mode, node.offset_to_child_object, here, w1, b1);
    lemma_link_counts_vertices(data, palette, mode, node.offset_to_child_object, here, w1, b1);
    lemma_walk_link_spends(data, palette, mode, node.offset_to_child_object, here, w1, b1);
    lemma_vertex_count_concat(block.unwrap(), child.unwrap().records);
}

/// Whether `a` and `b` hold the same `n` bytes at `pos`.
pub open spec fn same_bytes_at(a: Seq<u8>, b: Seq<u8>, pos: int, n: int) -> bool {
    a.subrange(pos, pos + n) == b.subrange(pos, pos + n)
}

/// Two buffers that hold the same frame description at `at` hold the same
/// frame description there.
proof fn lemma_same_frame_data(a: Seq<u8>, b: Seq<u8>, at: int)
    requires
        in_bounds(a, at, 24),
        in_bounds(b, at, 24),
        same_bytes_at(a, b, at, 24),
    ensures
        frame_data_at(a, at) == frame_data_at(b, at),
{
    lemma_same_field(a, b, at, 24, 0, 2);
    lemma_same_field(a, b, at, 24, 2, 2);
    lemma_same_field(a, b, at, 24, 4, 2);
    lemma_same_field(a, b, at, 24, 6, 2);
    lemma_same_field(a, b, at, 24, 10, 2);
    lemma_same_field(a, b, at, 24, 12, 4);
    lemma_same_field(a, b, at, 24, 16, 4);
    lemma_same_field(a, b, at, 24, 20, 4);
    assert(a[at + 8] == a.subrange(at, at + 24)[8]);
    assert(b[at + 8] == b.subrange(at, at + 24)[8]);
    assert(a[at + 9] == a.subrange(at, at + 24)[9]);
    assert(b[at + 9] == b.subrange(at, at + 24)[9]);
}

/// Two buffers that hold the same record hold the same bytes in each of
/// its fields.
proof fn lemma_same_field(a: Seq<u8>, b: Seq<u8>, base: int, size: int, at: int, width: int)
    requires
        in_bounds(a, base, size),
        in_bounds(b, base, size),
        same_bytes_at(a, b, base, size),
        0 <= at,
        0 <= width,
        at + width <= size,
    ensures
        a.subrange(base + at, base + at + width) == b.subrange(base + at, base + at + width),
{
    lemma_field_of_record(a, base, size, at, width);
    lemma_field_of_record(b, base, size, at, width);
}

/// Of a frame with sub-frames only the first is followed. The frame that a
/// description stands for rests on the bytes of the description, of the
/// first pointer of its sub-frame array, and of the description which that
/// pointer leads to. Two buffers that agree in these give the same frame,
/// whatever else they hold: the later pointers of the array are free.
pub proof fn lemma_only_first_sub_frame(a: Seq<u8>, b: Seq<u8>, at: int)
    requires
        a.len() == b.len(),
        pointed_frame(a, at) is Ok,
        same_bytes_at(a, b, at, 24),
        frame_data_at(a, at).frame_pointers != 0 ==> same_bytes_at(
            a,
            b,
            frame_data_at(a, at).frame_data_pointer as int,
            4,
        ) && same_bytes_at(
            a,
            b,
            u32_at(a, frame_data_at(a, at).frame_data_pointer as int) as int,
            24,
        ),
    ensures
        pointed_frame(b, at) == pointed_frame(a, at),
{
    lemma_same_frame_data(a, b, at);
    let first = frame_data_at(a, at);
    if first.frame_pointers != 0 {
        let array = first.frame_data_pointer as int;
        let sub = u32_at(a, array) as int;
        assert(u32_at(b, array) == u32_at(a, array));
        lemma_same_frame_data(a, b, sub);
    }
}

} // verus!
