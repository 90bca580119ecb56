use ta_assets::buffer::Buffer;
use ta_assets::error::DecodeError;
use ta_assets::materials::{material_head, texture_material, used_colours, used_textures};
use ta_assets::mesh::{diplay_data, MeshEvent, Offset, OutputMode};
use ta_assets::model::{
    read_object, read_primatives, read_primitive, read_vertex, read_vertexes, TagObject,
    TagPrimitive, TagVertex,
};
use ta_assets::obj::render_obj;
use ta_assets::palette::{colour_name, Palette, Rgb};
use ta_assets::traverse::traverse;

fn put_u32(bytes: &mut Vec<u8>, value: u32) {
    bytes.extend_from_slice(&value.to_le_bytes());
}

fn put_i32(bytes: &mut Vec<u8>, value: i32) {
    bytes.extend_from_slice(&value.to_le_bytes());
}

fn put_object(bytes: &mut Vec<u8>, object: &TagObject) {
    put_u32(bytes, object.version_signature);
    put_u32(bytes, object.number_of_vertexes);
    put_u32(bytes, object.number_of_primitives);
    put_u32(bytes, object.offset_to_selection_primitive);
    put_i32(bytes, object.x_from_parent);
    put_i32(bytes, object.y_from_parent);
    put_i32(bytes, object.z_from_parent);
    put_u32(bytes, object.offset_to_object_name);
    put_u32(bytes, object.always_0);
    put_u32(bytes, object.offset_to_vertex_array);
    put_u32(bytes, object.offset_to_primitive_array);
    put_u32(bytes, object.offset_to_sibling_object);
    put_u32(bytes, object.offset_to_child_object);
}

fn put_primitive(bytes: &mut Vec<u8>, primitive: &TagPrimitive) {
    put_u32(bytes, primitive.color_index);
    put_u32(bytes, primitive.number_of_vertex_indexes);
    put_u32(bytes, primitive.always_0);
    put_u32(bytes, primitive.offset_to_vertex_index_array);
    put_u32(bytes, primitive.offset_to_texture_name);
    put_u32(bytes, primitive.unknown_1);
    put_u32(bytes, primitive.unknown_2);
    put_u32(bytes, primitive.is_colored);
}

fn put_vertex(bytes: &mut Vec<u8>, x: i32, y: i32, z: i32) {
    put_i32(bytes, x);
    put_i32(bytes, y);
    put_i32(bytes, z);
}

fn node(
    vertexes: (u32, u32),
    primitives: (u32, u32),
    from_parent: (i32, i32, i32),
    name: u32,
    sibling: u32,
    child: u32,
) -> TagObject {
    TagObject {
        version_signature: 1,
        number_of_vertexes: vertexes.0,
        number_of_primitives: primitives.0,
        offset_to_selection_primitive: 0,
        x_from_parent: from_parent.0,
        y_from_parent: from_parent.1,
        z_from_parent: from_parent.2,
        offset_to_object_name: name,
        always_0: 0,
        offset_to_vertex_array: vertexes.1,
        offset_to_primitive_array: primitives.1,
        offset_to_sibling_object: sibling,
        offset_to_child_object: child,
    }
}

fn face(colour: u32, corners: (u32, u32), texture: u32, is_colored: u32) -> TagPrimitive {
    TagPrimitive {
        color_index: colour,
        number_of_vertex_indexes: corners.0,
        always_0: 0,
        offset_to_vertex_index_array: corners.1,
        offset_to_texture_name: texture,
        unknown_1: 0,
        unknown_2: 0,
        is_colored,
    }
}

fn text(bytes: &[u8]) -> String {
    String::from_utf8(bytes.to_vec()).unwrap()
}

fn count_lines(haystack: &str, line: &str) -> usize {
    haystack.lines().filter(|l| *l == line).count()
}

// root at 0, child at 52, sibling of the root at 104, names at 156, one
// shared vertex at 170.
fn three_nodes() -> Vec<u8> {
    let mut bytes = Vec::new();
    put_object(&mut bytes, &node((1, 170), (0, 182), (1000, 0, 0), 156, 104, 52));
    put_object(&mut bytes, &node((1, 170), (0, 182), (0, 2000, 0), 161, 0, 0));
    put_object(&mut bytes, &node((1, 170), (0, 182), (0, 0, 3000), 165, 0, 0));
    bytes.extend_from_slice(b"root\0kid\0side\0");
    put_vertex(&mut bytes, 5000, 5000, 5000);
    assert_eq!(bytes.len(), 182);
    bytes
}

// root at 0 with three vertices and the texture "T1"; child at 52 with two
// vertices and palette colour 5.
fn two_nodes() -> Vec<u8> {
    let mut bytes = Vec::new();
    put_object(&mut bytes, &node((3, 116), (1, 176), (0, 0, 0), 104, 0, 52));
    put_object(&mut bytes, &node((2, 152), (1, 208), (0, 0, 0), 109, 0, 0));
    bytes.extend_from_slice(b"base\0arm\0T1\0");
    assert_eq!(bytes.len(), 116);
    put_vertex(&mut bytes, 1000, 2000, 3000);
    put_vertex(&mut bytes, -1999, 2999, -3000);
    put_vertex(&mut bytes, 0, 999, -999);
    put_vertex(&mut bytes, 7000, 8000, 9000);
    put_vertex(&mut bytes, 10000, 11000, 12000);
    assert_eq!(bytes.len(), 176);
    put_primitive(&mut bytes, &face(0, (3, 240), 113, 0));
    put_primitive(&mut bytes, &face(5, (2, 246), 0, 1));
    assert_eq!(bytes.len(), 240);
    for index in [0u16, 1, 2, 0, 1] {
        bytes.extend_from_slice(&index.to_le_bytes());
    }
    bytes
}

#[test]
fn object_record_is_thirteen_packed_fields() {
    let mut bytes = vec![0xAA];
    for field in 1u32..=13 {
        put_u32(&mut bytes, field * 0x0101_0101);
    }
    let mut buf = Buffer::new(bytes);
    assert_eq!(buf.seek(1), Ok(()));
    let object = read_object(&buf).unwrap();
    assert_eq!(object.version_signature, 0x0101_0101);
    assert_eq!(object.number_of_vertexes, 0x0202_0202);
    assert_eq!(object.number_of_primitives, 0x0303_0303);
    assert_eq!(object.offset_to_selection_primitive, 0x0404_0404);
    assert_eq!(object.x_from_parent, 0x0505_0505);
    assert_eq!(object.y_from_parent, 0x0606_0606);
    assert_eq!(object.z_from_parent, 0x0707_0707);
    assert_eq!(object.offset_to_object_name, 0x0808_0808);
    assert_eq!(object.always_0, 0x0909_0909);
    assert_eq!(object.offset_to_vertex_array, 0x0A0A_0A0A);
    assert_eq!(object.offset_to_primitive_array, 0x0B0B_0B0B);
    assert_eq!(object.offset_to_sibling_object, 0x0C0C_0C0C);
    assert_eq!(object.offset_to_child_object, 0x0D0D_0D0D);
    assert_eq!(buf.position(), 1);
    assert_eq!(buf.seek(2), Ok(()));
    assert_eq!(read_object(&buf), Err(DecodeError::OutOfBounds));
}

#[test]
fn primitive_and_vertex_records_are_packed() {
    let mut bytes = Vec::new();
    let primitive = face(9, (4, 77), 88, 1);
    put_primitive(&mut bytes, &primitive);
    put_vertex(&mut bytes, -1, 2, i32::MIN);
    let mut buf = Buffer::new(bytes);
    assert_eq!(read_primitive(&buf), Ok(primitive));
    assert_eq!(buf.seek(32), Ok(()));
    assert_eq!(read_vertex(&buf), Ok(TagVertex { x: -1, y: 2, z: i32::MIN }));
    assert_eq!(buf.seek(33), Ok(()));
    assert_eq!(read_vertex(&buf), Err(DecodeError::OutOfBounds));
    assert_eq!(buf.seek(13), Ok(()));
    assert_eq!(read_primitive(&buf), Err(DecodeError::OutOfBounds));
}

#[test]
fn read_vertexes_reads_the_declared_number() {
    let mut buf = Buffer::new(two_nodes());
    let root = read_object(&buf).unwrap();
    let vertexes = read_vertexes(&mut buf, &root).unwrap();
    assert_eq!(
        vertexes,
        vec![
            TagVertex { x: 1000, y: 2000, z: 3000 },
            TagVertex { x: -1999, y: 2999, z: -3000 },
            TagVertex { x: 0, y: 999, z: -999 },
        ]
    );
    assert_eq!(buf.position(), 116 + 36);
}

#[test]
fn read_vertexes_out_of_bounds_leaves_the_cursor() {
    let mut buf = Buffer::new(two_nodes());
    assert_eq!(buf.seek(7), Ok(()));
    let far = node((1, 1000), (0, 0), (0, 0, 0), 0, 0, 0);
    assert_eq!(read_vertexes(&mut buf, &far), Err(DecodeError::OutOfBounds));
    assert_eq!(buf.position(), 7);
    let long = node((100, 116), (0, 0), (0, 0, 0), 0, 0, 0);
    assert_eq!(read_vertexes(&mut buf, &long), Err(DecodeError::OutOfBounds));
    assert_eq!(buf.position(), 7);
    let none = node((0, 250), (0, 0), (0, 0, 0), 0, 0, 0);
    assert_eq!(read_vertexes(&mut buf, &none), Ok(Vec::new()));
    assert_eq!(buf.position(), 250);
}

#[test]
fn read_primatives_reads_the_declared_number() {
    let mut buf = Buffer::new(two_nodes());
    let root = read_object(&buf).unwrap();
    assert_eq!(read_primatives(&mut buf, &root), Ok(vec![face(0, (3, 240), 113, 0)]));
    assert_eq!(buf.position(), 208);
    let both = node((0, 0), (2, 176), (0, 0, 0), 0, 0, 0);
    assert_eq!(
        read_primatives(&mut buf, &both),
        Ok(vec![face(0, (3, 240), 113, 0), face(5, (2, 246), 0, 1)])
    );
    let long = node((0, 0), (3, 176), (0, 0, 0), 0, 0, 0);
    assert_eq!(buf.seek(3), Ok(()));
    assert_eq!(read_primatives(&mut buf, &long), Err(DecodeError::OutOfBounds));
    assert_eq!(buf.position(), 3);
}

#[test]
fn node_gives_as_many_vertices_as_it_declares() {
    let palette = Palette::standard();
    let mut buf = Buffer::new(two_nodes());
    let root = read_object(&buf).unwrap();
    let zero = Offset { x: 0, y: 0, z: 0 };
    let events = diplay_data(&mut buf, &root, 0, zero, &palette, OutputMode::Plain).unwrap();
    let vertices = events.iter().filter(|e| matches!(e, MeshEvent::Vertex { .. })).count();
    assert_eq!(vertices, 3);
    assert_eq!(buf.position(), 0);
}

#[test]
fn vertices_are_translated_then_scaled_towards_zero() {
    let palette = Palette::standard();
    let mut buf = Buffer::new(two_nodes());
    let root = read_object(&buf).unwrap();
    let shift = Offset { x: 500, y: -4000, z: 1 };
    let plain = diplay_data(&mut buf, &root, 0, shift, &palette, OutputMode::Plain).unwrap();
    assert_eq!(plain[0], MeshEvent::Object { name: b"base".to_vec() });
    assert_eq!(plain[1], MeshEvent::Vertex { x: 1, y: -2, z: 3 });
    assert_eq!(plain[2], MeshEvent::Vertex { x: -1, y: -1, z: -2 });
    assert_eq!(plain[3], MeshEvent::Vertex { x: 0, y: -3, z: 0 });
    let textured = diplay_data(&mut buf, &root, 0, shift, &palette, OutputMode::Textured).unwrap();
    assert_eq!(textured[1], MeshEvent::Vertex { x: -1, y: -2, z: 3 });
    assert_eq!(textured[2], MeshEvent::Vertex { x: 1, y: -1, z: -2 });
    assert_eq!(textured[3], MeshEvent::Vertex { x: 0, y: -3, z: 0 });
}

#[test]
fn later_faces_count_from_the_vertices_before_them() {
    let palette = Palette::standard();
    let mut buf = Buffer::new(two_nodes());
    let root = read_object(&buf).unwrap();
    let events = traverse(&mut buf, &root, &palette, OutputMode::Textured).unwrap();
    let faces: Vec<&MeshEvent> =
        events.iter().filter(|e| matches!(e, MeshEvent::Face { .. })).collect();
    assert_eq!(faces.len(), 2);
    assert_eq!(*faces[0], MeshEvent::Face { corners: vec![1, 2, 3] });
    assert_eq!(*faces[1], MeshEvent::Face { corners: vec![4, 5] });
}

#[test]
fn face_indices_start_behind_the_vertices_already_written() {
    let palette = Palette::standard();
    let mut buf = Buffer::new(two_nodes());
    assert_eq!(buf.seek(52), Ok(()));
    let child = read_object(&buf).unwrap();
    let zero = Offset { x: 0, y: 0, z: 0 };
    let events = diplay_data(&mut buf, &child, 40, zero, &palette, OutputMode::Plain).unwrap();
    assert_eq!(events.last(), Some(&MeshEvent::Face { corners: vec![41, 42] }));
    assert_eq!(buf.position(), 52);
}

#[test]
fn sibling_keeps_the_offset_of_the_parent() {
    let palette = Palette::standard();
    let mut buf = Buffer::new(three_nodes());
    let root = read_object(&buf).unwrap();
    let events = traverse(&mut buf, &root, &palette, OutputMode::Plain).unwrap();
    assert_eq!(
        events,
        vec![
            MeshEvent::Object { name: b"root".to_vec() },
            MeshEvent::Vertex { x: 6, y: 5, z: 5 },
            MeshEvent::Object { name: b"kid".to_vec() },
            MeshEvent::Vertex { x: 6, y: 7, z: 5 },
            MeshEvent::Object { name: b"side".to_vec() },
            MeshEvent::Vertex { x: 5, y: 5, z: 8 },
        ]
    );
    let mirrored = traverse(&mut buf, &root, &palette, OutputMode::Textured).unwrap();
    assert_eq!(mirrored[1], MeshEvent::Vertex { x: -6, y: 5, z: 5 });
    assert_eq!(mirrored[3], MeshEvent::Vertex { x: -6, y: 7, z: 5 });
    assert_eq!(mirrored[5], MeshEvent::Vertex { x: -5, y: 5, z: 8 });
    assert_eq!(buf.position(), 0);
}

#[test]
fn unrendered_primitive_gives_no_face_and_no_material() {
    let palette = Palette::standard();
    let mut bytes = Vec::new();
    put_object(&mut bytes, &node((0, 52), (3, 54), (0, 0, 0), 52, 0, 0));
    bytes.extend_from_slice(b"n\0");
    put_primitive(&mut bytes, &face(3, (1, 150), 0, 0));
    put_primitive(&mut bytes, &face(3, (1, 150), 0, 1));
    put_primitive(&mut bytes, &face(300, (9, 9999), 0, 0));
    bytes.extend_from_slice(&[7, 0]);
    assert_eq!(bytes.len(), 152);
    let mut buf = Buffer::new(bytes);
    let root = read_object(&buf).unwrap();
    let events = traverse(&mut buf, &root, &palette, OutputMode::Textured).unwrap();
    assert_eq!(
        events,
        vec![
            MeshEvent::Object { name: b"n".to_vec() },
            MeshEvent::Colour { colour: Rgb { r: 0, g: 0, b: 255 } },
            MeshEvent::Face { corners: vec![8] },
        ]
    );
    assert_eq!(used_colours(&events), vec![Rgb { r: 0, g: 0, b: 255 }]);
    assert!(used_textures(&events).is_empty());
}

#[test]
fn texture_wins_over_colour() {
    let palette = Palette::standard();
    let mut bytes = Vec::new();
    put_object(&mut bytes, &node((0, 52), (1, 56), (0, 0, 0), 52, 0, 0));
    bytes.extend_from_slice(b"n\0X\0");
    put_primitive(&mut bytes, &face(999, (0, 88), 54, 1));
    let mut buf = Buffer::new(bytes);
    let root = read_object(&buf).unwrap();
    let events = traverse(&mut buf, &root, &palette, OutputMode::Textured).unwrap();
    assert_eq!(
        events,
        vec![
            MeshEvent::Object { name: b"n".to_vec() },
            MeshEvent::Texture { name: b"X".to_vec() },
            MeshEvent::Face { corners: vec![] },
        ]
    );
}

#[test]
fn colour_index_beyond_the_palette_fails() {
    let palette = Palette::standard();
    let mut bytes = Vec::new();
    put_object(&mut bytes, &node((0, 52), (1, 54), (0, 0, 0), 52, 0, 0));
    bytes.extend_from_slice(b"n\0");
    put_primitive(&mut bytes, &face(256, (0, 86), 0, 1));
    let mut buf = Buffer::new(bytes);
    let root = read_object(&buf).unwrap();
    assert_eq!(
        traverse(&mut buf, &root, &palette, OutputMode::Textured),
        Err(DecodeError::UnknownPaletteIndex)
    );
}

#[test]
fn name_without_terminator_fails() {
    let palette = Palette::standard();
    let mut bytes = Vec::new();
    put_object(&mut bytes, &node((0, 0), (0, 0), (0, 0, 0), 52, 0, 0));
    bytes.extend_from_slice(b"open");
    let mut buf = Buffer::new(bytes.clone());
    let root = read_object(&buf).unwrap();
    assert_eq!(
        traverse(&mut buf, &root, &palette, OutputMode::Plain),
        Err(DecodeError::MissingTerminator)
    );
    bytes.push(0);
    let mut buf = Buffer::new(bytes);
    assert_eq!(
        traverse(&mut buf, &root, &palette, OutputMode::Plain),
        Ok(vec![MeshEvent::Object { name: b"open".to_vec() }])
    );
}

#[test]
fn offsets_beyond_the_buffer_fail() {
    let palette = Palette::standard();
    let named = |name, vertexes, primitives, sibling, child| {
        let mut bytes = Vec::new();
        put_object(&mut bytes, &node(vertexes, primitives, (0, 0, 0), name, sibling, child));
        bytes.extend_from_slice(b"n\0");
        let mut buf = Buffer::new(bytes);
        assert_eq!(buf.seek(1), Ok(()));
        let root = node(vertexes, primitives, (0, 0, 0), name, sibling, child);
        let result = traverse(&mut buf, &root, &palette, OutputMode::Plain);
        assert_eq!(buf.position(), 1);
        result
    };
    assert!(named(52, (0, 0), (0, 0), 0, 0).is_ok());
    assert_eq!(named(55, (0, 0), (0, 0), 0, 0), Err(DecodeError::OutOfBounds));
    assert_eq!(named(52, (1, 43), (0, 0), 0, 0), Err(DecodeError::OutOfBounds));
    assert_eq!(named(52, (0, 55), (0, 0), 0, 0), Err(DecodeError::OutOfBounds));
    assert_eq!(named(52, (0, 0), (1, 23), 0, 0), Err(DecodeError::OutOfBounds));
    assert_eq!(named(52, (0, 0), (0, 0), 3, 0), Err(DecodeError::OutOfBounds));
    assert_eq!(named(52, (0, 0), (0, 0), 0, 3), Err(DecodeError::OutOfBounds));
    assert_eq!(named(52, (0, 54), (0, 54), 0, 0).map(|e| e.len()), Ok(1));
}

#[test]
fn node_that_is_its_own_child_is_a_cycle() {
    let palette = Palette::standard();
    let mut bytes = Vec::new();
    put_object(&mut bytes, &node((0, 0), (0, 0), (1, 1, 1), 104, 0, 52));
    put_object(&mut bytes, &node((0, 0), (0, 0), (1, 1, 1), 104, 0, 52));
    bytes.extend_from_slice(b"n\0");
    let mut buf = Buffer::new(bytes);
    let root = read_object(&buf).unwrap();
    assert_eq!(
        traverse(&mut buf, &root, &palette, OutputMode::Plain),
        Err(DecodeError::StructuralCycle)
    );
    assert_eq!(buf.position(), 0);
}

#[test]
fn siblings_that_point_at_each_other_are_a_cycle() {
    let palette = Palette::standard();
    let mut bytes = Vec::new();
    put_object(&mut bytes, &node((0, 0), (0, 0), (0, 0, 0), 156, 0, 52));
    put_object(&mut bytes, &node((0, 0), (0, 0), (0, 0, 0), 156, 104, 0));
    put_object(&mut bytes, &node((0, 0), (0, 0), (0, 0, 0), 156, 52, 0));
    bytes.extend_from_slice(b"n\0");
    let mut buf = Buffer::new(bytes);
    let root = read_object(&buf).unwrap();
    assert_eq!(
        traverse(&mut buf, &root, &palette, OutputMode::Textured),
        Err(DecodeError::StructuralCycle)
    );
}

#[test]
fn long_chain_of_siblings_is_walked_to_its_end() {
    let palette = Palette::standard();
    let count: u32 = 20_000;
    let names = count * 52;
    let mut bytes = Vec::new();
    for i in 0..count {
        let sibling = if i + 1 < count { (i + 1) * 52 } else { 0 };
        put_object(&mut bytes, &node((0, 0), (0, 0), (7, 7, 7), names, sibling, 0));
    }
    bytes.extend_from_slice(b"n\0");
    let mut buf = Buffer::new(bytes);
    let root = read_object(&buf).unwrap();
    let events = traverse(&mut buf, &root, &palette, OutputMode::Plain).unwrap();
    assert_eq!(events.len(), count as usize);
}

#[test]
fn two_node_model_end_to_end() {
    let palette = Palette::standard();
    let mut buf = Buffer::new(two_nodes());
    let root = read_object(&buf).unwrap();
    let events = traverse(&mut buf, &root, &palette, OutputMode::Textured).unwrap();
    let five = palette.colour(5).unwrap();
    let five_name = text(&colour_name(five));
    assert_eq!(five_name, "colour_002455");

    let obj = text(&render_obj(&events, &b"unit.mtl".to_vec(), OutputMode::Textured));
    assert_eq!(
        obj,
        "mtllib unit.mtl\n\nvt 0 1\nvt 1 1\nvt 1 0\nvt 0 0\n\
         \no base\nv -1 2 3\nv 1 2 -3\nv 0 0 0\nusemtl T1\nf 1/1 2/2 3/3\n\
         \no arm\nv -7 8 9\nv -10 11 12\nusemtl colour_002455\nf 4/1 5/2\n"
    );
    assert_eq!(count_lines(&obj, "usemtl T1"), 1);
    assert_eq!(count_lines(&obj, "usemtl colour_002455"), 1);
    assert_eq!(obj.lines().filter(|l| l.starts_with("usemtl ")).count(), 2);
    assert_eq!(obj.lines().filter(|l| l.starts_with("o ")).count(), 2);
    assert_eq!(obj.lines().filter(|l| l.starts_with("v ")).count(), 5);

    assert_eq!(used_textures(&events), vec![b"T1".to_vec()]);
    assert_eq!(used_colours(&events), vec![five]);
    assert_eq!(
        text(&texture_material(&b"T1".to_vec())),
        "newmtl T1\nmap_Kd ./textures/T1.bmp\n\n"
    );
    assert_eq!(text(&material_head(&colour_name(five))), "newmtl colour_002455\n");
}
