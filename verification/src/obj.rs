use vstd::prelude::*;
use crate::mesh::{corner_indices, records_of, MeshEvent, MeshRecord, OutputMode};
use crate::palette::{colour_name, spec_colour_name};
use crate::text::{decimal, push_bytes, push_decimal, push_signed_decimal, signed_decimal};

verus! {

/// The text `o `.
pub open spec fn object_word() -> Seq<u8> {
    seq!['o' as u8, ' ' as u8]
}

/// The text `usemtl `.
pub open spec fn material_word() -> Seq<u8> {
    seq!['u' as u8, 's' as u8, 'e' as u8, 'm' as u8, 't' as u8, 'l' as u8, ' ' as u8]
}

/// The text `mtllib `.
pub open spec fn library_word() -> Seq<u8> {
    seq!['m' as u8, 't' as u8, 'l' as u8, 'l' as u8, 'i' as u8, 'b' as u8, ' ' as u8]
}

/// The four texture coordinates that the corners of a face are paired
/// with, one line each: (0,1), (1,1), (1,0), (0,0).
pub open spec fn coordinate_lines() -> Seq<u8> {
    seq![
        'v' as u8, 't' as u8, ' ' as u8, '0' as u8, ' ' as u8, '1' as u8, '\n' as u8,
        'v' as u8, 't' as u8, ' ' as u8, '1' as u8, ' ' as u8, '1' as u8, '\n' as u8,
        'v' as u8, 't' as u8, ' ' as u8, '1' as u8, ' ' as u8, '0' as u8, '\n' as u8,
        'v' as u8, 't' as u8, ' ' as u8, '0' as u8, ' ' as u8, '0' as u8, '\n' as u8,
    ]
}

/// What stands before the first object. In textured form: the line that
/// names the material library, an empty line, and the four texture
/// coordinates. In plain form: nothing.
pub open spec fn header_text(library: Seq<u8>, mode: OutputMode) -> Seq<u8> {
    if mode == OutputMode::Textured {
        library_word() + library + seq!['\n' as u8, '\n' as u8] + coordinate_lines()
    } else {
        Seq::empty()
    }
}

/// Corner number `position` of a face, counted from 0: a blank and the
/// index of its vertex; in textured form also a slash and its texture
/// coordinate, which goes 1, 2, 3, 4 and round again.
pub open spec fn corner_text(index: int, position: int, mode: OutputMode) -> Seq<u8> {
    if mode == OutputMode::Textured {
        seq![' ' as u8] + decimal(index as nat) + seq!['/' as u8] + decimal((position % 4 + 1) as nat)
    } else {
        seq![' ' as u8] + decimal(index as nat)
    }
}

/// The first `upto` corners of a face.
pub open spec fn corners_text(corners: Seq<int>, mode: OutputMode, upto: int) -> Seq<u8>
    decreases upto,
{
    if upto <= 0 {
        Seq::empty()
    } else {
        corners_text(corners, mode, upto - 1) + corner_text(corners[upto - 1], upto - 1, mode)
    }
}

/// The text of one record. An object: an empty line, then `o` and its
/// name. A vertex: `v` and its three coordinates. A material: `usemtl` and
/// its name, in textured form only. A face: `f` and its corners.
pub open spec fn record_text(record: MeshRecord, mode: OutputMode) -> Seq<u8> {
    match record {
        MeshRecord::Object { name } => seq!['\n' as u8] + object_word() + name + seq!['\n' as u8],
        MeshRecord::Vertex { x, y, z } => seq!['v' as u8, ' ' as u8] + signed_decimal(x) + seq![' ' as u8]
            + signed_decimal(y) + seq![' ' as u8] + signed_decimal(z) + seq!['\n' as u8],
        MeshRecord::Texture { name } => if mode == OutputMode::Textured {
            material_word() + name + seq!['\n' as u8]
        } else {
            Seq::empty()
        },
        MeshRecord::Colour { colour } => if mode == OutputMode::Textured {
            material_word() + spec_colour_name(colour) + seq!['\n' as u8]
        } else {
            Seq::empty()
        },
        MeshRecord::Face { corners } => seq!['f' as u8] + corners_text(
            corners,
            mode,
            corners.len() as int,
        ) + seq!['\n' as u8],
    }
}

/// The text of the first `upto` records.
pub open spec fn records_text(records: Seq<MeshRecord>, mode: OutputMode, upto: int) -> Seq<u8>
    decreases upto,
{
    if upto <= 0 {
        Seq::empty()
    } else {
        records_text(records, mode, upto - 1) + record_text(records[upto - 1], mode)
    }
}

/// The whole mesh file: the header, then every record.
pub open spec fn mesh_text(records: Seq<MeshRecord>, library: Seq<u8>, mode: OutputMode) -> Seq<u8> {
    header_text(library, mode) + records_text(records, mode, records.len() as int)
}

fn push_corners(out: &mut Vec<u8>, corners: &Vec<u64>, mode: OutputMode)
    ensures
        final(out)@ == old(out)@ + corners_text(
            corner_indices(corners@),
            mode,
            corners@.len() as int,
        ),
{
    let mut i: usize = 0;
    assert(out@ =~= old(out)@ + corners_text(corner_indices(corners@), mode, 0));
    while i < corners.len()
        invariant
            i <= corners.len(),
            out@ == old(out)@ + corners_text(corner_indices(corners@), mode, i as int),
        decreases corners.len() - i,
    {
        let ghost before = out@;
        out.push(' ' as u8);
        push_decimal(out, corners[i]);
        match mode {
            OutputMode::Textured => {
                out.push('/' as u8);
                push_decimal(out, (i % 4) as u64 + 1);
            },
            OutputMode::Plain => {},
        }
        assert(out@ =~= before + corner_text(corner_indices(corners@)[i as int], i as int, mode));
        i = i + 1;
        assert(out@ =~= old(out)@ + corners_text(corner_indices(corners@), mode, i as int));
    }
}

fn push_event(out: &mut Vec<u8>, event: &MeshEvent, mode: OutputMode)
    ensures
        final(out)@ == old(out)@ + record_text(event@, mode),
{
    match event {
        MeshEvent::Object { name } => {
            out.push('\n' as u8);
            out.push('o' as u8);
            out.push(' ' as u8);
            push_bytes(out, name.as_slice());
            out.push('\n' as u8);
        },
        MeshEvent::Vertex { x, y, z } => {
            out.push('v' as u8);
            out.push(' ' as u8);
            push_signed_decimal(out, *x);
            out.push(' ' as u8);
            push_signed_decimal(out, *y);
            out.push(' ' as u8);
            push_signed_decimal(out, *z);
            out.push('\n' as u8);
        },
        MeshEvent::Texture { name } => {
            match mode {
                OutputMode::Textured => {
                    let word: [u8; 7] = ['u' as u8, 's' as u8, 'e' as u8, 'm' as u8, 't' as u8, 'l' as u8, ' ' as u8];
                    assert(word@ =~= material_word());
                    push_bytes(out, word.as_slice());
                    push_bytes(out, name.as_slice());
                    out.push('\n' as u8);
                },
                OutputMode::Plain => {},
            }
        },
        MeshEvent::Colour { colour } => {
            match mode {
                OutputMode::Textured => {
                    let word: [u8; 7] = ['u' as u8, 's' as u8, 'e' as u8, 'm' as u8, 't' as u8, 'l' as u8, ' ' as u8];
                    assert(word@ =~= material_word());
                    push_bytes(out, word.as_slice());
                    let name = colour_name(*colour);
                    push_bytes(out, name.as_slice());
                    out.push('\n' as u8);
                },
                OutputMode::Plain => {},
            }
        },
        MeshEvent::Face { corners } => {
            out.push('f' as u8);
            push_corners(out, corners, mode);
            out.push('\n' as u8);
        },
    }
    assert(out@ =~= old(out)@ + record_text(event@, mode));
}

/// The text of one record of a mesh.
pub fn render_event(event: &MeshEvent, mode: OutputMode) -> (r: Vec<u8>)
    ensures
        r@ == record_text(event@, mode),
{
    let mut out: Vec<u8> = Vec::new();
    push_event(&mut out, event, mode);
    assert(out@ =~= record_text(event@, mode));
    out
}

/// The whole mesh file for `events`. `library` is the name of the material
/// library that the textured form refers to; the plain form has no use for
/// it.
pub fn render_obj(events: &Vec<MeshEvent>, library: &Vec<u8>, mode: OutputMode) -> (r: Vec<u8>)
    ensures
        r@ == mesh_text(records_of(events@), library@, mode),
{
    let mut out: Vec<u8> = Vec::new();
    match mode {
        OutputMode::Textured => {
            let word: [u8; 7] = ['m' as u8, 't' as u8, 'l' as u8, 'l' as u8, 'i' as u8, 'b' as u8, ' ' as u8];
            assert(word@ =~= library_word());
            push_bytes(&mut out, word.as_slice());
            push_bytes(&mut out, library.as_slice());
            out.push('\n' as u8);
            out.push('\n' as u8);
            let lines: [u8; 28] = [
                'v' as u8, 't' as u8, ' ' as u8, '0' as u8, ' ' as u8, '1' as u8, '\n' as u8,
                'v' as u8, 't' as u8, ' ' as u8, '1' as u8, ' ' as u8, '1' as u8, '\n' as u8,
                'v' as u8, 't' as u8, ' ' as u8, '1' as u8, ' ' as u8, '0' as u8, '\n' as u8,
                'v' as u8, 't' as u8, ' ' as u8, '0' as u8, ' ' as u8, '0' as u8, '\n' as u8,
            ];
            assert(lines@ =~= coordinate_lines());
            push_bytes(&mut out, lines.as_slice());
        },
        OutputMode::Plain => {},
    }
    assert(out@ =~= header_text(library@, mode));
    let ghost head = out@;
    let mut i: usize = 0;
    assert(out@ =~= head + records_text(records_of(events@), mode, 0));
    while i < events.len()
        invariant
            i <= events.len(),
            out@ == head + records_text(records_of(events@), mode, i as int),
        decreases events.len() - i,
    {
        push_event(&mut out, &events[i], mode);
        i = i + 1;
        assert(out@ =~= head + records_text(records_of(events@), mode, i as int));
    }
    out
}

} // verus!
