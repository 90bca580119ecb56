use vstd::prelude::*;
use vstd::slice::slice_to_vec;
use crate::buffer::{in_bounds, Buffer};
use crate::error::DecodeError;
use crate::palette::{Palette, Rgb};

verus! {

/// What a scanline, or a run of scanlines, decodes to: its pixels as
/// palette indices, and the position behind its last byte.
pub struct RleOut {
    pub pixels: Seq<u8>,
    pub next: int,
}

/// `count` pixels of one palette index.
pub open spec fn run(value: u8, count: int) -> Seq<u8> {
    Seq::new(count as nat, |i: int| value)
}

/// A run of `length` pixels cut down to the `room` that its line has left.
pub open spec fn clip(length: int, room: int) -> int {
    if length < room {
        length
    } else {
        room
    }
}

/// The rest of a scanline that has `room` pixels to go, from the control
/// byte at `pos` on. A control byte `m` with bit 0 set stands for `m >> 1`
/// transparent pixels (index 0). Else, with bit 1 set, it stands for the
/// byte after it, `(m >> 2) + 1` times. Else it stands for the byte after
/// it, once. A run that would pass the end of the line is cut off there.
/// The line ends when it is full; control bytes are read until then.
pub open spec fn rle_line(data: Seq<u8>, pos: int, room: int) -> Result<RleOut, DecodeError>
    decreases data.len() - pos,
{
    if room <= 0 {
        Ok(RleOut { pixels: Seq::empty(), next: pos })
    } else if !in_bounds(data, pos, 1) {
        Err(DecodeError::OutOfBounds)
    } else {
        let m = data[pos];
        if m & 0x01 == 0x01 {
            let count = clip((m >> 1) as int, room);
            match rle_line(data, pos + 1, room - count) {
                Err(e) => Err(e),
                Ok(rest) => Ok(RleOut { pixels: run(0, count) + rest.pixels, next: rest.next }),
            }
        } else if !in_bounds(data, pos + 1, 1) {
            Err(DecodeError::OutOfBounds)
        } else {
            let count = if m & 0x02 == 0x02 {
                clip((m >> 2) as int + 1, room)
            } else {
                1
            };
            match rle_line(data, pos + 2, room - count) {
                Err(e) => Err(e),
                Ok(rest) => Ok(
                    RleOut { pixels: run(data[pos + 1], count) + rest.pixels, next: rest.next },
                ),
            }
        }
    }
}

/// `rows` scanlines of `width` pixels from `pos` on. Each begins with a
/// 16-bit byte count, which is stepped over and not looked at.
pub open spec fn rle_rows(data: Seq<u8>, pos: int, width: int, rows: int) -> Result<
    RleOut,
    DecodeError,
>
    decreases rows, 0nat,
{
    if rows <= 0 {
        Ok(RleOut { pixels: Seq::empty(), next: pos })
    } else if !in_bounds(data, pos, 2) {
        Err(DecodeError::OutOfBounds)
    } else {
        line_then_rows(data, pos + 2, width, width, rows - 1)
    }
}

/// The rest of a scanline with `room` pixels to go, then `rows` more
/// scanlines.
pub open spec fn line_then_rows(data: Seq<u8>, pos: int, width: int, room: int, rows: int) -> Result<
    RleOut,
    DecodeError,
>
    decreases rows, 1nat,
{
    match rle_line(data, pos, room) {
        Err(e) => Err(e),
        Ok(line) => match rle_rows(data, line.next, width, rows) {
            Err(e) => Err(e),
            Ok(rest) => Ok(RleOut { pixels: line.pixels + rest.pixels, next: rest.next }),
        },
    }
}

/// The palette indices of a frame of `width` by `height` pixels whose data
/// begins at `pos`, row by row from the top: decoded scanlines where
/// `compressed` is not 0, else the next `width * height` bytes as they are.
pub open spec fn frame_indices(
    data: Seq<u8>,
    pos: int,
    width: u16,
    height: u16,
    compressed: u8,
) -> Result<Seq<u8>, DecodeError> {
    if compressed != 0 {
        match rle_rows(data, pos, width as int, height as int) {
            Err(e) => Err(e),
            Ok(out) => Ok(out.pixels),
        }
    } else if !in_bounds(data, pos, width * height) {
        Err(DecodeError::OutOfBounds)
    } else {
        Ok(data.subrange(pos, pos + width * height))
    }
}

/// The colours that `indices` select in `palette`.
pub open spec fn painted(palette: Seq<Rgb>, indices: Seq<u8>) -> Seq<Rgb> {
    Seq::new(indices.len(), |i: int| palette[indices[i] as int])
}

/// A decoded frame: `width * height` colours, row by row from the top.
pub struct Frame {
    width: u16,
    height: u16,
    pixels: Vec<Rgb>,
}

/// What a [`Frame`] is to a contract.
pub struct FrameView {
    pub width: int,
    pub height: int,
    pub pixels: Seq<Rgb>,
}

impl View for Frame {
    type V = FrameView;

    closed spec fn view(&self) -> FrameView {
        FrameView { width: self.width as int, height: self.height as int, pixels: self.pixels@ }
    }
}

impl Frame {
    #[verifier::type_invariant]
    spec fn filled(self) -> bool {
        self.pixels.len() == self.width * self.height
    }

    /// The frame of `width` by `height` pixels that holds `pixels`, or
    /// `None` where their number is not `width * height`.
    pub fn new(width: u16, height: u16, pixels: Vec<Rgb>) -> (r: Option<Frame>)
        ensures
            pixels@.len() == width * height ==> r.is_some() && r.unwrap()@ == (FrameView {
                width: width as int,
                height: height as int,
                pixels: pixels@,
            }),
            pixels@.len() != width * height ==> r.is_none(),
    {
        assert(width * height <= 0xFFFF * 0xFFFF) by (nonlinear_arith)
            requires
                0 <= width <= 0xFFFF,
                0 <= height <= 0xFFFF,
        ;
        if pixels.len() == width as usize * height as usize {
            Some(Frame { width, height, pixels })
        } else {
            None
        }
    }

    /// The number of pixels in a row.
    pub fn width(&self) -> (r: u16)
        ensures
            r == self@.width,
    {
        self.width
    }

    /// The number of rows.
    pub fn height(&self) -> (r: u16)
        ensures
            r == self@.height,
    {
        self.height
    }

    /// The pixels, row by row from the top; there are `width * height`.
    pub fn pixels(&self) -> (r: &Vec<Rgb>)
        ensures
            r@ == self@.pixels,
            r@.len() == self@.width * self@.height,
    {
        proof {
            use_type_invariant(self);
        }
        &self.pixels
    }
}

fn push_run(raw: &mut Vec<u8>, value: u8, count: u16)
    ensures
        final(raw)@ == old(raw)@ + run(value, count as int),
{
    let mut i: u16 = 0;
    assert(raw@ =~= old(raw)@ + run(value, 0));
    while i < count
        invariant
            i <= count,
            raw@ == old(raw)@ + run(value, i as int),
        decreases count - i,
    {
        raw.push(value);
        i = i + 1;
        assert(raw@ =~= old(raw)@ + run(value, i as int));
    }
}

/// Whether `goal` is `raw` followed by what `rest` still has to give.
spec fn owes(goal: Result<RleOut, DecodeError>, raw: Seq<u8>, rest: Result<RleOut, DecodeError>) -> bool {
    match rest {
        Err(e) => goal == Err::<RleOut, DecodeError>(e),
        Ok(more) => goal is Ok && goal.unwrap().pixels == raw + more.pixels,
    }
}

#[verifier::loop_isolation(false)]
fn unpack(buf: &mut Buffer, width: u16, height: u16) -> (r: Result<Vec<u8>, DecodeError>)
    ensures
        final(buf)@.data == old(buf)@.data,
        r matches Ok(raw) ==> raw@.len() == width * height && rle_rows(
            old(buf)@.data,
            old(buf)@.cursor,
            width as int,
            height as int,
        ) is Ok && rle_rows(
            old(buf)@.data,
            old(buf)@.cursor,
            width as int,
            height as int,
        ).unwrap().pixels == raw@,
        r matches Err(e) ==> rle_rows(
            old(buf)@.data,
            old(buf)@.cursor,
            width as int,
            height as int,
        ) == Err::<RleOut, DecodeError>(e),
{
    let ghost data = buf@.data;
    let ghost goal = rle_rows(data, buf@.cursor, width as int, height as int);
    let mut raw: Vec<u8> = Vec::new();
    let mut row: u16 = 0;
    let at: usize = buf.position();
    proof {
        let rest = rle_rows(data, buf@.cursor, width as int, height as int);
        if rest is Ok {
            assert(raw@ + rest.unwrap().pixels =~= rest.unwrap().pixels);
        }
    }
    while row < height
        invariant
            row <= height,
            buf@.data == data,
            0 <= buf@.cursor <= data.len(),
            raw@.len() == row * width,
            owes(goal, raw@, rle_rows(data, buf@.cursor, width as int, height - row)),
        decreases height - row,
    {
        match buf.read_u16() {
            Err(e) => {
                return Err(e);
            },
            Ok(_) => {},
        }
        let _ = buf.seek_relative(2);
        let mut filled: u16 = 0;
        while filled < width
            invariant
                row < height,
                filled <= width,
                buf@.data == data,
                0 <= buf@.cursor <= data.len(),
                raw@.len() == row * width + filled,
                owes(
                    goal,
                    raw@,
                    line_then_rows(
                        data,
                        buf@.cursor,
                        width as int,
                        width - filled,
                        height - row - 1,
                    ),
                ),
            decreases data.len() - buf@.cursor,
        {
            let ghost before = raw@;
            let ghost pos = buf@.cursor;
            let mask: u8 = match buf.read_u8() {
                Err(e) => {
                    return Err(e);
                },
                Ok(mask) => mask,
            };
            let _ = buf.seek_relative(1);
            let room: u16 = width - filled;
            let value: u8;
            let count: u16;
            if mask & 0x01 == 0x01 {
                let length: u16 = (mask >> 1) as u16;
                value = 0;
                count = if length < room {
                    length
                } else {
                    room
                };
            } else {
                value = match buf.read_u8() {
                    Err(e) => {
                        return Err(e);
                    },
                    Ok(value) => value,
                };
                let _ = buf.seek_relative(1);
                if mask & 0x02 == 0x02 {
                    let length: u16 = (mask >> 2) as u16 + 1;
                    count = if length < room {
                        length
                    } else {
                        room
                    };
                } else {
                    count = 1;
                }
            }
            push_run(&mut raw, value, count);
            filled = filled + count;
            proof {
                let line = rle_line(data, buf@.cursor, width - filled);
                if line is Ok {
                    let rows = rle_rows(data, line.unwrap().next, width as int, height - row - 1);
                    if rows is Ok {
                        let tail = line.unwrap().pixels + rows.unwrap().pixels;
                        assert(before + ((run(value, count as int) + line.unwrap().pixels)
                            + rows.unwrap().pixels) =~= (before + run(value, count as int))
                            + tail);
                    }
                }
            }
        }
        proof {
            let rows = rle_rows(data, buf@.cursor, width as int, height - row - 1);
            if rows is Ok {
                assert(Seq::<u8>::empty() + rows.unwrap().pixels =~= rows.unwrap().pixels);
            }
            assert((row + 1) * width == row * width + width) by (nonlinear_arith);
        }
        row = row + 1;
    }
    proof {
        assert(raw@ + Seq::<u8>::empty() =~= raw@);
        assert(row * width == width * height) by (nonlinear_arith)
            requires
                row == height,
        ;
    }
    Ok(raw)
}

/// The palette indices of a frame of `width` by `height` pixels whose data
/// begins at the cursor. The cursor is moved while decoding and put back
/// before returning.
pub fn decode_indices(buf: &mut Buffer, width: u16, height: u16, compressed: u8) -> (r: Result<
    Vec<u8>,
    DecodeError,
>)
    ensures
        final(buf)@ == old(buf)@,
        r matches Ok(indices) ==> indices@.len() == width * height && frame_indices(
            old(buf)@.data,
            old(buf)@.cursor,
            width,
            height,
            compressed,
        ) == Ok::<Seq<u8>, DecodeError>(indices@),
        r matches Err(e) ==> frame_indices(
            old(buf)@.data,
            old(buf)@.cursor,
            width,
            height,
            compressed,
        ) == Err::<Seq<u8>, DecodeError>(e),
{
    let start: usize = buf.position();
    let r = if compressed != 0 {
        unpack(buf, width, height)
    } else {
        assert(width * height <= 0xFFFF * 0xFFFF) by (nonlinear_arith)
            requires
                0 <= width <= 0xFFFF,
                0 <= height <= 0xFFFF,
        ;
        match buf.read(width as usize * height as usize) {
            Err(e) => Err(e),
            Ok(bytes) => Ok(slice_to_vec(bytes)),
        }
    };
    let _ = buf.seek_to(start);
    r
}

/// The colours that `indices` select in `palette`.
pub fn paint(palette: &Palette, indices: &Vec<u8>) -> (r: Vec<Rgb>)
    ensures
        r@ == painted(palette@, indices@),
{
    let mut colours: Vec<Rgb> = Vec::new();
    let mut i: usize = 0;
    while i < indices.len()
        invariant
            i <= indices.len(),
            colours@ == painted(palette@, indices@.subrange(0, i as int)),
        decreases indices.len() - i,
    {
        match palette.colour(indices[i] as u32) {
            Ok(colour) => {
                colours.push(colour);
            },
            Err(_) => {},
        }
        i = i + 1;
        assert(colours@ =~= painted(palette@, indices@.subrange(0, i as int)));
    }
    assert(indices@.subrange(0, indices@.len() as int) =~= indices@);
    colours
}

/// The frame of `width` by `height` pixels whose data begins at the
/// cursor, each palette index replaced by its colour in `palette`. The
/// cursor is moved while decoding and put back before returning.
pub fn read_image(
    buf: &mut Buffer,
    width: u16,
    height: u16,
    compressed: u8,
    palette: &Palette,
) -> (r: Result<Frame, DecodeError>)
    ensures
        final(buf)@ == old(buf)@,
        r matches Ok(frame) ==> frame_indices(
            old(buf)@.data,
            old(buf)@.cursor,
            width,
            height,
            compressed,
        ) is Ok && frame@ == (FrameView {
            width: width as int,
            height: height as int,
            pixels: painted(
                palette@,
                frame_indices(
                    old(buf)@.data,
                    old(buf)@.cursor,
                    width,
                    height,
                    compressed,
                ).unwrap(),
            ),
        }),
        r matches Err(e) ==> frame_indices(
            old(buf)@.data,
            old(buf)@.cursor,
            width,
            height,
            compressed,
        ) == Err::<Seq<u8>, DecodeError>(e),
{
    match decode_indices(buf, width, height, compressed) {
        Err(e) => Err(e),
        Ok(indices) => {
            let pixels = paint(palette, &indices);
            match Frame::new(width, height, pixels) {
                Some(frame) => Ok(frame),
                None => Err(DecodeError::OutOfBounds),
            }
        },
    }
}

} // verus!
