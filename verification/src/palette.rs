use vstd::prelude::*;
use crate::error::DecodeError;

verus! {

/// A colour: red, green and blue, each from 0 to 255.
#[derive(Clone, Copy, Debug, PartialEq, Eq, Structural)]
pub struct Rgb {
    pub r: u8,
    pub g: u8,
    pub b: u8,
}

/// Entry `index` of the built-in palette: the uniform colour cube that
/// gives red the top three bits of the index, green the next three and blue
/// the last two, each channel spread evenly from 0 to 255.
pub open spec fn standard_colour(index: int) -> Rgb {
    Rgb {
        r: ((index / 32) * 255 / 7) as u8,
        g: (((index / 4) % 8) * 255 / 7) as u8,
        b: ((index % 4) * 85) as u8,
    }
}

/// The built-in palette, entry by entry.
pub open spec fn standard_table() -> Seq<Rgb> {
    Seq::new(256, |i: int| standard_colour(i))
}

/// The palette that `bytes` spell out: entry `i` is the red, green and blue
/// byte at `3 * i`.
pub open spec fn table_of_bytes(bytes: Seq<u8>) -> Seq<Rgb> {
    Seq::new(256, |i: int| Rgb { r: bytes[3 * i], g: bytes[3 * i + 1], b: bytes[3 * i + 2] })
}

/// A table of 256 colours, read-only once made. Its view is the sequence of
/// its entries.
pub struct Palette {
    entries: Vec<Rgb>,
}

impl View for Palette {
    type V = Seq<Rgb>;

    closed spec fn view(&self) -> Seq<Rgb> {
        self.entries@
    }
}

impl Palette {
    #[verifier::type_invariant]
    spec fn full(self) -> bool {
        self.entries.len() == 256
    }

    /// The built-in palette.
    pub fn standard() -> (r: Palette)
        ensures
            r@ == standard_table(),
    {
        let mut entries: Vec<Rgb> = Vec::new();
        let mut i: u32 = 0;
        while i < 256
            invariant
                i <= 256,
                entries@.len() == i,
                forall|k: int| 0 <= k < i ==> entries@[k] == standard_colour(k),
            decreases 256 - i,
        {
            let red: u32 = (i / 32) * 255 / 7;
            let green: u32 = ((i / 4) % 8) * 255 / 7;
            let blue: u32 = (i % 4) * 85;
            entries.push(Rgb { r: red as u8, g: green as u8, b: blue as u8 });
            i = i + 1;
        }
        assert(entries@ =~= standard_table());
        Palette { entries }
    }

    /// The palette that 768 bytes spell out, three bytes (red, green, blue)
    /// to an entry; `None` for any other number of bytes.
    pub fn from_rgb_bytes(bytes: &[u8]) -> (r: Option<Palette>)
        ensures
            bytes@.len() == 768 ==> r.is_some() && r.unwrap()@ == table_of_bytes(bytes@),
            bytes@.len() != 768 ==> r.is_none(),
    {
        if bytes.len() != 768 {
            return None;
        }
        let mut entries: Vec<Rgb> = Vec::new();
        let mut i: usize = 0;
        while i < 256
            invariant
                i <= 256,
                bytes@.len() == 768,
                entries@.len() == i,
                forall|k: int|
                    0 <= k < i ==> entries@[k] == (Rgb {
                        r: bytes@[3 * k],
                        g: bytes@[3 * k + 1],
                        b: bytes@[3 * k + 2],
                    }),
            decreases 256 - i,
        {
            entries.push(Rgb { r: bytes[3 * i], g: bytes[3 * i + 1], b: bytes[3 * i + 2] });
            i = i + 1;
        }
        assert(entries@ =~= table_of_bytes(bytes@));
        Some(Palette { entries })
    }

    /// Entry `index`, or `UnknownPaletteIndex` where `index` is 256 or more.
    pub fn colour(&self, index: u32) -> (r: Result<Rgb, DecodeError>)
        ensures
            index < 256 ==> r == Ok::<Rgb, DecodeError>(self@[index as int]),
            index >= 256 ==> r == Err::<Rgb, DecodeError>(DecodeError::UnknownPaletteIndex),
    {
        proof {
            use_type_invariant(self);
        }
        if index < 256 {
            Ok(self.entries[index as usize])
        } else {
            Err(DecodeError::UnknownPaletteIndex)
        }
    }
}

/// What a face is painted with: the palette entry that `index` selects.
pub open spec fn palette_lookup(palette: Seq<Rgb>, index: u32) -> Result<Rgb, DecodeError> {
    if index < 256 {
        Ok(palette[index as int])
    } else {
        Err(DecodeError::UnknownPaletteIndex)
    }
}

/// The lower-case hexadecimal digit for a value below 16.
pub open spec fn hex_digit(value: int) -> u8 {
    if value < 10 {
        (48 + value) as u8
    } else {
        (87 + value) as u8
    }
}

/// The material name of a colour: `colour_` and the six lower-case
/// hexadecimal digits of red, green and blue.
pub open spec fn spec_colour_name(colour: Rgb) -> Seq<u8> {
    seq![
        99u8,
        111u8,
        108u8,
        111u8,
        117u8,
        114u8,
        95u8,
        hex_digit(colour.r as int / 16),
        hex_digit(colour.r as int % 16),
        hex_digit(colour.g as int / 16),
        hex_digit(colour.g as int % 16),
        hex_digit(colour.b as int / 16),
        hex_digit(colour.b as int % 16),
    ]
}

fn hex(value: u8) -> (r: u8)
    requires
        value < 16,
    ensures
        r == hex_digit(value as int),
{
    if value < 10 {
        48 + value
    } else {
        87 + value
    }
}

/// The material name under which a flat colour is written.
pub fn colour_name(colour: Rgb) -> (r: Vec<u8>)
    ensures
        r@ == spec_colour_name(colour),
{
    let mut name: Vec<u8> = Vec::new();
    name.push(99u8);
    name.push(111u8);
    name.push(108u8);
    name.push(111u8);
    name.push(117u8);
    name.push(114u8);
    name.push(95u8);
    name.push(hex(colour.r / 16));
    name.push(hex(colour.r % 16));
    name.push(hex(colour.g / 16));
    name.push(hex(colour.g % 16));
    name.push(hex(colour.b / 16));
    name.push(hex(colour.b % 16));
    assert(name@ =~= spec_colour_name(colour));
    name
}

/// Two colours with one material name are one colour.
pub proof fn lemma_colour_name_injective(a: Rgb, b: Rgb)
    requires
        spec_colour_name(a) == spec_colour_name(b),
    ensures
        a == b,
{
    let na = spec_colour_name(a);
    let nb = spec_colour_name(b);
    assert(na[7] == nb[7] && na[8] == nb[8] && na[9] == nb[9] && na[10] == nb[10] && na[11]
        == nb[11] && na[12] == nb[12]);
    assert(a.r as int / 16 == b.r as int / 16 && a.r as int % 16 == b.r as int % 16);
    assert(a.g as int / 16 == b.g as int / 16 && a.g as int % 16 == b.g as int % 16);
    assert(a.b as int / 16 == b.b as int / 16 && a.b as int % 16 == b.b as int % 16);
}

} // verus!
