use ta_assets::materials::{material_head, texture_material, used_colours, used_textures};
use ta_assets::mesh::MeshEvent;
use ta_assets::palette::Rgb;

fn events() -> Vec<MeshEvent> {
    let red = Rgb { r: 255, g: 0, b: 0 };
    let blue = Rgb { r: 0, g: 0, b: 255 };
    vec![
        MeshEvent::Object { name: b"a".to_vec() },
        MeshEvent::Texture { name: b"Metal".to_vec() },
        MeshEvent::Face { corners: vec![1, 2, 3] },
        MeshEvent::Colour { colour: red },
        MeshEvent::Face { corners: vec![1, 2, 3] },
        MeshEvent::Object { name: b"Metal".to_vec() },
        MeshEvent::Vertex { x: 1, y: 2, z: 3 },
        MeshEvent::Texture { name: b"Wood".to_vec() },
        MeshEvent::Colour { colour: blue },
        MeshEvent::Texture { name: b"Metal".to_vec() },
        MeshEvent::Colour { colour: red },
    ]
}

#[test]
fn used_textures_keeps_order_and_duplicates() {
    assert_eq!(
        used_textures(&events()),
        vec![b"Metal".to_vec(), b"Wood".to_vec(), b"Metal".to_vec()]
    );
    assert!(used_textures(&Vec::new()).is_empty());
}

#[test]
fn used_colours_keeps_order_and_duplicates() {
    let red = Rgb { r: 255, g: 0, b: 0 };
    let blue = Rgb { r: 0, g: 0, b: 255 };
    assert_eq!(used_colours(&events()), vec![red, blue, red]);
    assert!(used_colours(&Vec::new()).is_empty());
}

#[test]
fn texture_material_names_its_bitmap() {
    assert_eq!(
        texture_material(&b"Arm11a".to_vec()),
        b"newmtl Arm11a\nmap_Kd ./textures/Arm11a.bmp\n\n".to_vec()
    );
    assert_eq!(texture_material(&Vec::new()), b"newmtl \nmap_Kd ./textures/.bmp\n\n".to_vec());
    assert_eq!(material_head(&b"colour_ff0000".to_vec()), b"newmtl colour_ff0000\n".to_vec());
}
