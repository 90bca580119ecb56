use vstd::prelude::*;
use crate::buffer::{
    in_bounds, lemma_field_of_record, terminator, u16_at, u16_in, u32_at, u32_in, u8_at, Buffer,
};
use crate::error::DecodeError;
use crate::image::{clip, frame_indices, painted, read_image, Frame, FrameView};
use crate::names::{contains_name, is_named, bytes_of, same_bytes};
use crate::palette::{Palette, Rgb};

verus! {

/// The head of an archive: 12 bytes, packed, little-endian.
#[derive(Clone, Copy, Debug, PartialEq, Eq, Structural)]
pub struct GafHeader {
    pub version: u32,
    pub entries: u32,
    pub unknown_1: u32,
}

/// An entry of an archive's directory: 40 bytes, packed, little-endian.
/// The name fills a field of 32 bytes and ends at its first zero byte.
#[derive(Clone, Copy, Debug, PartialEq, Eq)]
pub struct GafEntry {
    pub frames: u16,
    pub unknown_1: u16,
    pub unknown_2: u32,
    pub name: [u8; 32],
}

/// The record behind an entry that points to the entry's first frame: 8
/// bytes, packed, little-endian.
#[derive(Clone, Copy, Debug, PartialEq, Eq, Structural)]
pub struct GafFrameEntry {
    pub frame_table_pointer: u32,
    pub unknown_1: u32,
}

/// The description of a frame: 24 bytes, packed, little-endian. With
/// `frame_pointers` at 0 the frame holds pixels, and `frame_data_pointer`
/// is where they begin; else it is where an array of pointers to
/// sub-frames begins.
#[derive(Clone, Copy, Debug, PartialEq, Eq, Structural)]
pub struct GafFrameData {
    pub width: u16,
    pub height: u16,
    pub x_pos: u16,
    pub y_pos: u16,
    pub unknown_1: u8,
    pub compressed: u8,
    pub frame_pointers: u16,
    pub unknown_2: u32,
    pub frame_data_pointer: u32,
    pub unknown_3: u32,
}

/// The archive head that starts at `pos`.
pub open spec fn header_at(data: Seq<u8>, pos: int) -> GafHeader {
    GafHeader {
        version: u32_at(data, pos),
        entries: u32_at(data, pos + 4),
        unknown_1: u32_at(data, pos + 8),
    }
}

/// The frame pointer record that starts at `pos`.
pub open spec fn frame_entry_at(data: Seq<u8>, pos: int) -> GafFrameEntry {
    GafFrameEntry { frame_table_pointer: u32_at(data, pos), unknown_1: u32_at(data, pos + 4) }
}

/// The frame description that starts at `pos`.
pub open spec fn frame_data_at(data: Seq<u8>, pos: int) -> GafFrameData {
    GafFrameData {
        width: u16_at(data, pos),
        height: u16_at(data, pos + 2),
        x_pos: u16_at(data, pos + 4),
        y_pos: u16_at(data, pos + 6),
        unknown_1: u8_at(data, pos + 8),
        compressed: u8_at(data, pos + 9),
        frame_pointers: u16_at(data, pos + 10),
        unknown_2: u32_at(data, pos + 12),
        frame_data_pointer: u32_at(data, pos + 16),
        unknown_3: u32_at(data, pos + 20),
    }
}

/// The name in a name field: the bytes before the field's first zero
/// byte, and the first 31 bytes where it has none.
pub open spec fn entry_name(raw: Seq<u8>) -> Seq<u8> {
    raw.subrange(0, clip(terminator(raw, 0), 31))
}

/// The name field of the entry that starts at `pos`.
pub open spec fn name_field_at(data: Seq<u8>, pos: int) -> Seq<u8> {
    data.subrange(pos + 8, pos + 40)
}

/// The archive head at the cursor, or `OutOfBounds` where fewer than 12
/// bytes follow it. The cursor stays.
pub fn read_header(buf: &Buffer) -> (r: Result<GafHeader, DecodeError>)
    ensures
        in_bounds(buf@.data, buf@.cursor, 12) ==> r == Ok::<GafHeader, DecodeError>(
            header_at(buf@.data, buf@.cursor),
        ),
        !in_bounds(buf@.data, buf@.cursor, 12) ==> r == Err::<GafHeader, DecodeError>(
            DecodeError::OutOfBounds,
        ),
{
    match buf.read(12) {
        Err(e) => Err(e),
        Ok(bytes) => {
            proof {
                let base = buf@.cursor;
                lemma_field_of_record(buf@.data, base, 12, 0, 4);
                lemma_field_of_record(buf@.data, base, 12, 4, 4);
                lemma_field_of_record(buf@.data, base, 12, 8, 4);
            }
            Ok(
                GafHeader {
                    version: u32_in(bytes, 0),
                    entries: u32_in(bytes, 4),
                    unknown_1: u32_in(bytes, 8),
                },
            )
        },
    }
}

/// The directory entry at the cursor, or `OutOfBounds` where fewer than 40
/// bytes follow it. The cursor stays.
pub fn read_entry(buf: &Buffer) -> (r: Result<GafEntry, DecodeError>)
    ensures
        in_bounds(buf@.data, buf@.cursor, 40) ==> r.is_ok() && ({
            let entry = r.unwrap();
            &&& entry.frames == u16_at(buf@.data, buf@.cursor)
            &&& entry.unknown_1 == u16_at(buf@.data, buf@.cursor + 2)
            &&& entry.unknown_2 == u32_at(buf@.data, buf@.cursor + 4)
            &&& entry.name@ == name_field_at(buf@.data, buf@.cursor)
        }),
        !in_bounds(buf@.data, buf@.cursor, 40) ==> r == Err::<GafEntry, DecodeError>(
            DecodeError::OutOfBounds,
        ),
{
    match buf.read(40) {
        Err(e) => Err(e),
        Ok(bytes) => {
            proof {
                let base = buf@.cursor;
                lemma_field_of_record(buf@.data, base, 40, 0, 2);
                lemma_field_of_record(buf@.data, base, 40, 2, 2);
                lemma_field_of_record(buf@.data, base, 40, 4, 4);
            }
            let mut name: [u8; 32] = [0u8; 32];
            let mut i: usize = 0;
            while i < 32
                invariant
                    i <= 32,
                    bytes@.len() == 40,
                    forall|k: int| 0 <= k < i ==> name@[k] == bytes@[8 + k],
                decreases 32 - i,
            {
                name[i] = bytes[8 + i];
                i = i + 1;
            }
            assert(name@ =~= name_field_at(buf@.data, buf@.cursor));
            Ok(
                GafEntry {
                    frames: u16_in(bytes, 0),
                    unknown_1: u16_in(bytes, 2),
                    unknown_2: u32_in(bytes, 4),
                    name,
                },
            )
        },
    }
}

/// The frame pointer record at the cursor, or `OutOfBounds` where fewer
/// than 8 bytes follow it. The cursor stays.
pub fn read_frame_entry(buf: &Buffer) -> (r: Result<GafFrameEntry, DecodeError>)
    ensures
        in_bounds(buf@.data, buf@.cursor, 8) ==> r == Ok::<GafFrameEntry, DecodeError>(
            frame_entry_at(buf@.data, buf@.cursor),
        ),
        !in_bounds(buf@.data, buf@.cursor, 8) ==> r == Err::<GafFrameEntry, DecodeError>(
            DecodeError::OutOfBounds,
        ),
{
    match buf.read(8) {
        Err(e) => Err(e),
        Ok(bytes) => {
            proof {
                let base = buf@.cursor;
                lemma_field_of_record(buf@.data, base, 8, 0, 4);
                lemma_field_of_record(buf@.data, base, 8, 4, 4);
            }
            Ok(
                GafFrameEntry {
                    frame_table_pointer: u32_in(bytes, 0),
                    unknown_1: u32_in(bytes, 4),
                },
            )
        },
    }
}

/// The frame description at the cursor, or `OutOfBounds` where fewer than
/// 24 bytes follow it. The cursor stays.
pub fn read_frame_data(buf: &Buffer) -> (r: Result<GafFrameData, DecodeError>)
    ensures
        in_bounds(buf@.data, buf@.cursor, 24) ==> r == Ok::<GafFrameData, DecodeError>(
            frame_data_at(buf@.data, buf@.cursor),
        ),
        !in_bounds(buf@.data, buf@.cursor, 24) ==> r == Err::<GafFrameData, DecodeError>(
            DecodeError::OutOfBounds,
        ),
{
    match buf.read(24) {
        Err(e) => Err(e),
        Ok(bytes) => {
            proof {
                let base = buf@.cursor;
                lemma_field_of_record(buf@.data, base, 24, 0, 2);
                lemma_field_of_record(buf@.data, base, 24, 2, 2);
                lemma_field_of_record(buf@.data, base, 24, 4, 2);
                lemma_field_of_record(buf@.data, base, 24, 6, 2);
                lemma_field_of_record(buf@.data, base, 24, 10, 2);
                lemma_field_of_record(buf@.data, base, 24, 12, 4);
                lemma_field_of_record(buf@.data, base, 24, 16, 4);
                lemma_field_of_record(buf@.data, base, 24, 20, 4);
            }
            Ok(
                GafFrameData {
                    width: u16_in(bytes, 0),
                    height: u16_in(bytes, 2),
                    x_pos: u16_in(bytes, 4),
                    y_pos: u16_in(bytes, 6),
                    unknown_1: bytes[8],
                    compressed: bytes[9],
                    frame_pointers: u16_in(bytes, 10),
                    unknown_2: u32_in(bytes, 12),
                    frame_data_pointer: u32_in(bytes, 16),
                    unknown_3: u32_in(bytes, 20),
                },
            )
        },
    }
}

/// The name in the name field `raw`: the bytes before its first zero byte,
/// and its first 31 bytes where it has none.
pub fn read_string(raw: [u8; 32]) -> (r: Vec<u8>)
    ensures
        r@ == entry_name(raw@),
{
    let mut name: Vec<u8> = Vec::new();
    let mut i: usize = 0;
    while i < 31
        invariant
            i <= 31,
            raw@.len() == 32,
            terminator(raw@, 0) == terminator(raw@, i as int),
            name@ == raw@.subrange(0, i as int),
        decreases 31 - i,
    {
        let byte: u8 = raw[i];
        if byte == 0 {
            return name;
        }
        name.push(byte);
        i = i + 1;
        assert(name@ =~= raw@.subrange(0, i as int));
    }
    proof {
        crate::buffer::lemma_terminator(raw@, 31);
    }
    name
}

/// The frame that the frame description at `at` stands for: itself where
/// it has no sub-frames, else the description that the first pointer of
/// its sub-frame array leads to. Later pointers of the array are never
/// read.
pub open spec fn pointed_frame(data: Seq<u8>, at: int) -> Result<GafFrameData, DecodeError> {
    if !in_bounds(data, at, 24) {
        Err(DecodeError::OutOfBounds)
    } else {
        let first = frame_data_at(data, at);
        if first.frame_pointers == 0 {
            Ok(first)
        } else if !in_bounds(data, first.frame_data_pointer as int, 4) {
            Err(DecodeError::OutOfBounds)
        } else if !in_bounds(data, u32_at(data, first.frame_data_pointer as int) as int, 24) {
            Err(DecodeError::OutOfBounds)
        } else {
            Ok(frame_data_at(data, u32_at(data, first.frame_data_pointer as int) as int))
        }
    }
}

fn follow_frame(buf: &mut Buffer, frame_table_pointer: u32) -> (r: Result<
    GafFrameData,
    DecodeError,
>)
    ensures
        final(buf)@.data == old(buf)@.data,
        r == pointed_frame(old(buf)@.data, frame_table_pointer as int),
{
    match buf.seek(frame_table_pointer) {
        Err(e) => {
            return Err(e);
        },
        Ok(()) => {},
    }
    let first = match read_frame_data(buf) {
        Err(e) => {
            return Err(e);
        },
        Ok(first) => first,
    };
    if first.frame_pointers == 0 {
        return Ok(first);
    }
    match buf.seek(first.frame_data_pointer) {
        Err(e) => {
            return Err(e);
        },
        Ok(()) => {},
    }
    let data_pointer: u32 = match buf.read_u32() {
        Err(e) => {
            return Err(e);
        },
        Ok(data_pointer) => data_pointer,
    };
    match buf.seek(data_pointer) {
        Err(e) => {
            return Err(e);
        },
        Ok(()) => {},
    }
    read_frame_data(buf)
}

/// The frame that the frame description at `frame_table_pointer` stands
/// for: of a frame with sub-frames, the first sub-frame. The cursor is
/// moved while decoding and put back before returning.
pub fn resolve_frame(buf: &mut Buffer, frame_table_pointer: u32) -> (r: Result<
    GafFrameData,
    DecodeError,
>)
    ensures
        final(buf)@ == old(buf)@,
        r == pointed_frame(old(buf)@.data, frame_table_pointer as int),
{
    let start: usize = buf.position();
    let r = follow_frame(buf, frame_table_pointer);
    let _ = buf.seek_to(start);
    r
}

/// A texture taken out of an archive.
pub struct Texture {
    pub name: Vec<u8>,
    pub frame: Frame,
}

/// What a [`Texture`] is to a contract.
pub struct TextureView {
    pub name: Seq<u8>,
    pub frame: FrameView,
}

impl View for Texture {
    type V = TextureView;

    open spec fn view(&self) -> TextureView {
        TextureView { name: self.name@, frame: self.frame@ }
    }
}

/// The views of a list of textures.
pub open spec fn textures_of(textures: Seq<Texture>) -> Seq<TextureView> {
    Seq::new(textures.len(), |i: int| textures[i]@)
}

/// Whether a texture called `name` is among `found`.
pub open spec fn has_texture(found: Seq<TextureView>, name: Seq<u8>) -> bool {
    exists|i: int| 0 <= i < found.len() && (#[trigger] found[i]).name == name
}

/// The texture of the entry at `pos`, which is called `name`: the frame
/// behind the entry, decoded and painted with `palette`.
pub open spec fn entry_texture(data: Seq<u8>, palette: Seq<Rgb>, pos: int, name: Seq<u8>) -> Result<
    TextureView,
    DecodeError,
> {
    if !in_bounds(data, pos + 40, 8) {
        Err(DecodeError::OutOfBounds)
    } else {
        match pointed_frame(data, frame_entry_at(data, pos + 40).frame_table_pointer as int) {
            Err(e) => Err(e),
            Ok(frame) => if frame.frame_data_pointer > data.len() {
                Err(DecodeError::OutOfBounds)
            } else {
                match frame_indices(
                    data,
                    frame.frame_data_pointer as int,
                    frame.width,
                    frame.height,
                    frame.compressed,
                ) {
                    Err(e) => Err(e),
                    Ok(indices) => Ok(
                        TextureView {
                            name,
                            frame: FrameView {
                                width: frame.width as int,
                                height: frame.height as int,
                                pixels: painted(palette, indices),
                            },
                        },
                    ),
                }
            },
        }
    }
}

/// Where entry `i` of the directory lies: the directory is an array of
/// 32-bit offsets behind the 12 bytes of the head.
pub open spec fn entry_pointer(data: Seq<u8>, i: int) -> u32 {
    u32_at(data, 12 + 4 * i)
}

/// The textures that the first `upto` entries of the directory give, in
/// the order of the directory. An entry gives a texture where its name is
/// among `needed` and no entry before it had that name. The first entry
/// that cannot be decoded decides the error.
pub open spec fn textures_upto(data: Seq<u8>, palette: Seq<Rgb>, needed: Seq<Seq<u8>>, upto: int) -> Result<
    Seq<TextureView>,
    DecodeError,
>
    decreases upto,
{
    if upto <= 0 {
        Ok(Seq::empty())
    } else {
        match textures_upto(data, palette, needed, upto - 1) {
            Err(e) => Err(e),
            Ok(found) => {
                let pos = entry_pointer(data, upto - 1) as int;
                let name = entry_name(name_field_at(data, pos));
                if !in_bounds(data, pos, 40) {
                    Err(DecodeError::OutOfBounds)
                } else if !is_named(needed, name) || has_texture(found, name) {
                    Ok(found)
                } else {
                    match entry_texture(data, palette, pos, name) {
                        Err(e) => Err(e),
                        Ok(texture) => Ok(found.push(texture)),
                    }
                }
            },
        }
    }
}

/// The textures among `needed` that the archive `data` holds. The head of
/// the archive lies at its first byte and gives the number of entries; the
/// directory follows the head.
pub open spec fn archive_textures(data: Seq<u8>, palette: Seq<Rgb>, needed: Seq<Seq<u8>>) -> Result<
    Seq<TextureView>,
    DecodeError,
> {
    if !in_bounds(data, 0, 12) {
        Err(DecodeError::OutOfBounds)
    } else if !in_bounds(data, 12, 4 * header_at(data, 0).entries) {
        Err(DecodeError::OutOfBounds)
    } else {
        textures_upto(data, palette, needed, header_at(data, 0).entries as int)
    }
}

pub(crate) fn holds_texture(found: &Vec<Texture>, name: &Vec<u8>) -> (r: bool)
    ensures
        r == has_texture(textures_of(found@), name@),
{
    let mut i: usize = 0;
    while i < found.len()
        invariant
            i <= found.len(),
            forall|k: int| 0 <= k < i ==> textures_of(found@)[k].name != name@,
        decreases found.len() - i,
    {
        if same_bytes(&found[i].name, name) {
            assert(textures_of(found@)[i as int].name == name@);
            return true;
        }
        i = i + 1;
    }
    false
}

fn take_texture(buf: &mut Buffer, entry: u32, name: Vec<u8>, palette: &Palette) -> (r: Result<
    Texture,
    DecodeError,
>)
    requires
        in_bounds(old(buf)@.data, entry as int, 40),
    ensures
        final(buf)@.data == old(buf)@.data,
        r matches Ok(texture) ==> entry_texture(old(buf)@.data, palette@, entry as int, name@)
            == Ok::<TextureView, DecodeError>(texture@),
        r matches Err(e) ==> entry_texture(old(buf)@.data, palette@, entry as int, name@) == Err::<
            TextureView,
            DecodeError,
        >(e),
{
    let _ = buf.seek(entry);
    let _ = buf.seek_relative(40);
    let frame_entry = match read_frame_entry(buf) {
        Err(e) => {
            return Err(e);
        },
        Ok(frame_entry) => frame_entry,
    };
    let frame_data = match follow_frame(buf, frame_entry.frame_table_pointer) {
        Err(e) => {
            return Err(e);
        },
        Ok(frame_data) => frame_data,
    };
    match buf.seek(frame_data.frame_data_pointer) {
        Err(e) => {
            return Err(e);
        },
        Ok(()) => {},
    }
    match read_image(buf, frame_data.width, frame_data.height, frame_data.compressed, palette) {
        Err(e) => Err(e),
        Ok(frame) => Ok(Texture { name, frame }),
    }
}

/// Once an entry has failed, every longer run of entries fails in the same
/// way.
proof fn lemma_textures_stay_failed(
    data: Seq<u8>,
    palette: Seq<Rgb>,
    needed: Seq<Seq<u8>>,
    failed: int,
    upto: int,
)
    requires
        failed <= upto,
        textures_upto(data, palette, needed, failed) is Err,
    ensures
        textures_upto(data, palette, needed, upto) == textures_upto(data, palette, needed, failed),
    decreases upto - failed,
{
    if failed < upto {
        lemma_textures_stay_failed(data, palette, needed, failed, upto - 1);
    }
}

#[verifier::loop_isolation(false)]
fn scan_archive(buf: &mut Buffer, used_textures: &Vec<Vec<u8>>, palette: &Palette) -> (r: Result<
    Vec<Texture>,
    DecodeError,
>)
    ensures
        final(buf)@.data == old(buf)@.data,
        r matches Ok(found) ==> archive_textures(
            old(buf)@.data,
            palette@,
            bytes_of(used_textures@),
        ) == Ok::<Seq<TextureView>, DecodeError>(textures_of(found@)),
        r matches Err(e) ==> archive_textures(
            old(buf)@.data,
            palette@,
            bytes_of(used_textures@),
        ) == Err::<Seq<TextureView>, DecodeError>(e),
{
    let ghost data = buf@.data;
    let ghost needed = bytes_of(used_textures@);
    let _ = buf.seek(0);
    let header = match read_header(buf) {
        Err(e) => {
            return Err(e);
        },
        Ok(header) => header,
    };
    let _ = buf.seek_relative(12);
    let mut entry_pointers: Vec<u32> = Vec::new();
    let mut i: u32 = 0;
    while i < header.entries
        invariant
            i <= header.entries,
            buf@.data == data,
            buf@.cursor == 12 + 4 * i,
            buf@.cursor <= data.len(),
            entry_pointers@.len() == i,
            forall|k: int| 0 <= k < i ==> entry_pointers@[k] == entry_pointer(data, k),
        decreases header.entries - i,
    {
        match buf.read_u32() {
            Err(e) => {
                return Err(e);
            },
            Ok(entry_pointer) => {
                entry_pointers.push(entry_pointer);
            },
        }
        let _ = buf.seek_relative(4);
        i = i + 1;
    }
    let mut found: Vec<Texture> = Vec::new();
    let mut k: usize = 0;
    assert(textures_of(found@) =~= Seq::<TextureView>::empty());
    while k < entry_pointers.len()
        invariant
            k <= entry_pointers.len(),
            buf@.data == data,
            textures_upto(data, palette@, needed, k as int) == Ok::<
                Seq<TextureView>,
                DecodeError,
            >(textures_of(found@)),
        decreases entry_pointers.len() - k,
    {
        let p: u32 = entry_pointers[k];
        proof {
            if textures_upto(data, palette@, needed, k + 1) is Err {
                lemma_textures_stay_failed(
                    data,
                    palette@,
                    needed,
                    k + 1,
                    header.entries as int,
                );
            }
        }
        match buf.seek(p) {
            Err(e) => {
                return Err(e);
            },
            Ok(()) => {},
        }
        let entry = match read_entry(buf) {
            Err(e) => {
                return Err(e);
            },
            Ok(entry) => entry,
        };
        let name = read_string(entry.name);
        if contains_name(used_textures, &name) && !holds_texture(&found, &name) {
            let ghost before = found@;
            match take_texture(buf, p, name, palette) {
                Err(e) => {
                    return Err(e);
                },
                Ok(texture) => {
                    found.push(texture);
                    assert(textures_of(found@) =~= textures_of(before).push(texture@));
                },
            }
        }
        k = k + 1;
    }
    Ok(found)
}

/// The textures among `used_textures` that the archive in `buf` holds, in
/// the order of its directory; of several entries with one name the first
/// is taken. The archive begins at the first byte of the buffer, wherever
/// the cursor stands. Any record that does not lie inside the buffer fails the
/// whole archive with `OutOfBounds`. The cursor is moved while decoding and
/// put back before returning.
pub fn extract_gaf(buf: &mut Buffer, used_textures: &Vec<Vec<u8>>, palette: &Palette) -> (r: Result<
    Vec<Texture>,
    DecodeError,
>)
    ensures
        final(buf)@ == old(buf)@,
        r matches Ok(found) ==> archive_textures(
            old(buf)@.data,
            palette@,
            bytes_of(used_textures@),
        ) == Ok::<Seq<TextureView>, DecodeError>(textures_of(found@)),
        r matches Err(e) ==> archive_textures(
            old(buf)@.data,
            palette@,
            bytes_of(used_textures@),
        ) == Err::<Seq<TextureView>, DecodeError>(e),
{
    let start: usize = buf.position();
    let r = scan_archive(buf, used_textures, palette);
    let _ = buf.seek_to(start);
    r
}

} // verus!
