use vstd::prelude::*;
use vstd::slice::slice_to_vec;
use crate::mesh::{records_of, MeshEvent, MeshRecord};
use crate::names::bytes_of;
use crate::palette::Rgb;
use crate::text::push_bytes;

verus! {

/// The textures that the first `upto` records select, one for each
/// selection, in their order. A texture that is selected twice occurs
/// twice.
pub open spec fn texture_names(records: Seq<MeshRecord>, upto: int) -> Seq<Seq<u8>>
    decreases upto,
{
    if upto <= 0 {
        Seq::empty()
    } else {
        match records[upto - 1] {
            MeshRecord::Texture { name } => texture_names(records, upto - 1).push(name),
            _ => texture_names(records, upto - 1),
        }
    }
}

/// The colours that the first `upto` records select, one for each
/// selection, in their order. A colour that is selected twice occurs
/// twice.
pub open spec fn colour_values(records: Seq<MeshRecord>, upto: int) -> Seq<Rgb>
    decreases upto,
{
    if upto <= 0 {
        Seq::empty()
    } else {
        match records[upto - 1] {
            MeshRecord::Colour { colour } => colour_values(records, upto - 1).push(colour),
            _ => colour_values(records, upto - 1),
        }
    }
}

/// The textures that `events` select, one for each selection, in their
/// order.
pub fn used_textures(events: &Vec<MeshEvent>) -> (r: Vec<Vec<u8>>)
    ensures
        bytes_of(r@) == texture_names(records_of(events@), events@.len() as int),
{
    let mut names: Vec<Vec<u8>> = Vec::new();
    let mut i: usize = 0;
    assert(bytes_of(names@) =~= Seq::<Seq<u8>>::empty());
    while i < events.len()
        invariant
            i <= events.len(),
            bytes_of(names@) == texture_names(records_of(events@), i as int),
        decreases events.len() - i,
    {
        let ghost before = names@;
        match &events[i] {
            MeshEvent::Texture { name } => {
                names.push(slice_to_vec(name.as_slice()));
                assert(bytes_of(names@) =~= bytes_of(before).push(name@));
            },
            _ => {},
        }
        i = i + 1;
    }
    names
}

/// The colours that `events` select, one for each selection, in their
/// order.
pub fn used_colours(events: &Vec<MeshEvent>) -> (r: Vec<Rgb>)
    ensures
        r@ == colour_values(records_of(events@), events@.len() as int),
{
    let mut colours: Vec<Rgb> = Vec::new();
    let mut i: usize = 0;
    while i < events.len()
        invariant
            i <= events.len(),
            colours@ == colour_values(records_of(events@), i as int),
        decreases events.len() - i,
    {
        match &events[i] {
            MeshEvent::Colour { colour } => {
                colours.push(*colour);
            },
            _ => {},
        }
        i = i + 1;
    }
    colours
}

/// The text `newmtl `.
pub open spec fn new_material_word() -> Seq<u8> {
    seq!['n' as u8, 'e' as u8, 'w' as u8, 'm' as u8, 't' as u8, 'l' as u8, ' ' as u8]
}

/// The text `map_Kd ./textures/`.
pub open spec fn texture_map_word() -> Seq<u8> {
    seq![
        'm' as u8, 'a' as u8, 'p' as u8, '_' as u8, 'K' as u8, 'd' as u8, ' ' as u8,
        '.' as u8, '/' as u8, 't' as u8, 'e' as u8, 'x' as u8, 't' as u8, 'u' as u8,
        'r' as u8, 'e' as u8, 's' as u8, '/' as u8,
    ]
}

/// The text `.bmp`.
pub open spec fn bitmap_suffix() -> Seq<u8> {
    seq!['.' as u8, 'b' as u8, 'm' as u8, 'p' as u8]
}

/// The block of a material library that declares the texture `name`: the
/// material, its diffuse map `./textures/<name>.bmp`, and an empty line.
pub open spec fn texture_material_text(name: Seq<u8>) -> Seq<u8> {
    new_material_word() + name + seq!['\n' as u8] + texture_map_word() + name + bitmap_suffix()
        + seq!['\n' as u8, '\n' as u8]
}

/// The first line of the block of a material library that declares a
/// material: `newmtl` and its name.
pub open spec fn material_head_text(name: Seq<u8>) -> Seq<u8> {
    new_material_word() + name + seq!['\n' as u8]
}

/// The first line of a material's block: `newmtl` and its name.
pub fn material_head(name: &Vec<u8>) -> (r: Vec<u8>)
    ensures
        r@ == material_head_text(name@),
{
    let mut out: Vec<u8> = Vec::new();
    let word: [u8; 7] = ['n' as u8, 'e' as u8, 'w' as u8, 'm' as u8, 't' as u8, 'l' as u8, ' ' as u8];
    assert(word@ =~= new_material_word());
    push_bytes(&mut out, word.as_slice());
    push_bytes(&mut out, name.as_slice());
    out.push('\n' as u8);
    assert(out@ =~= material_head_text(name@));
    out
}

/// The block of a material library that declares the texture `name`.
pub fn texture_material(name: &Vec<u8>) -> (r: Vec<u8>)
    ensures
        r@ == texture_material_text(name@),
{
    let mut out: Vec<u8> = material_head(name);
    let map: [u8; 18] = [
        'm' as u8, 'a' as u8, 'p' as u8, '_' as u8, 'K' as u8, 'd' as u8, ' ' as u8,
        '.' as u8, '/' as u8, 't' as u8, 'e' as u8, 'x' as u8, 't' as u8, 'u' as u8,
        'r' as u8, 'e' as u8, 's' as u8, '/' as u8,
    ];
    assert(map@ =~= texture_map_word());
    push_bytes(&mut out, map.as_slice());
    push_bytes(&mut out, name.as_slice());
    let suffix: [u8; 4] = ['.' as u8, 'b' as u8, 'm' as u8, 'p' as u8];
    assert(suffix@ =~= bitmap_suffix());
    push_bytes(&mut out, suffix.as_slice());
    out.push('\n' as u8);
    out.push('\n' as u8);
    assert(out@ =~= texture_material_text(name@));
    out
}

} // verus!
