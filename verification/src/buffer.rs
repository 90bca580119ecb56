use vstd::prelude::*;
use vstd::slice::slice_subrange;
use bincode::Options;
use crate::error::DecodeError;

verus! {

/// The value of two bytes read as an unsigned little-endian integer.
pub open spec fn le_u16(s: Seq<u8>) -> int
    recommends
        s.len() == 2,
{
    s[0] as int + 0x100 * (s[1] as int)
}

/// The value of four bytes read as an unsigned little-endian integer.
pub open spec fn le_u32(s: Seq<u8>) -> int
    recommends
        s.len() == 4,
{
    s[0] as int + 0x100 * (s[1] as int) + 0x1_0000 * (s[2] as int) + 0x100_0000 * (s[3] as int)
}

/// The value of four bytes read as a two's complement little-endian integer.
pub open spec fn le_i32(s: Seq<u8>) -> int
    recommends
        s.len() == 4,
{
    if le_u32(s) >= 0x8000_0000 {
        le_u32(s) - 0x1_0000_0000
    } else {
        le_u32(s)
    }
}

/// `bincode::Options::deserialize::<u16>` under `DefaultOptions` with
/// fixed-width integers: two bytes, little-endian. The options reject
/// trailing bytes, so any other length is an error, which is mapped to `None`.
#[verifier::external_body]
fn decode_u16(bytes: &[u8]) -> (r: Option<u16>)
    ensures
        bytes@.len() == 2 ==> r == Some(le_u16(bytes@) as u16),
        bytes@.len() != 2 ==> r.is_none(),
{
    bincode::DefaultOptions::new().with_fixint_encoding().deserialize::<u16>(bytes).ok()
}

/// `bincode::Options::deserialize::<u32>` under `DefaultOptions` with
/// fixed-width integers: four bytes, little-endian. The options reject
/// trailing bytes, so any other length is an error, which is mapped to `None`.
#[verifier::external_body]
fn decode_u32(bytes: &[u8]) -> (r: Option<u32>)
    ensures
        bytes@.len() == 4 ==> r == Some(le_u32(bytes@) as u32),
        bytes@.len() != 4 ==> r.is_none(),
{
    bincode::DefaultOptions::new().with_fixint_encoding().deserialize::<u32>(bytes).ok()
}

/// `bincode::Options::deserialize::<i32>` under `DefaultOptions` with
/// fixed-width integers: four bytes, little-endian, two's complement. The
/// options reject trailing bytes, so any other length is an error, which is
/// mapped to `None`.
#[verifier::external_body]
fn decode_i32(bytes: &[u8]) -> (r: Option<i32>)
    ensures
        bytes@.len() == 4 ==> r == Some(le_i32(bytes@) as i32),
        bytes@.len() != 4 ==> r.is_none(),
{
    bincode::DefaultOptions::new().with_fixint_encoding().deserialize::<i32>(bytes).ok()
}

/// The little-endian `u16` at `at` in `bytes`.
pub(crate) fn u16_in(bytes: &[u8], at: usize) -> (r: u16)
    requires
        at + 2 <= bytes@.len(),
    ensures
        r == u16_at(bytes@, at as int),
{
    let total: usize = bytes.len();
    assert(at + 2 <= total);
    match decode_u16(slice_subrange(bytes, at, at + 2)) {
        Some(value) => value,
        None => 0,
    }
}

/// The little-endian `u32` at `at` in `bytes`.
pub(crate) fn u32_in(bytes: &[u8], at: usize) -> (r: u32)
    requires
        at + 4 <= bytes@.len(),
    ensures
        r == u32_at(bytes@, at as int),
{
    let total: usize = bytes.len();
    assert(at + 4 <= total);
    match decode_u32(slice_subrange(bytes, at, at + 4)) {
        Some(value) => value,
        None => 0,
    }
}

/// The little-endian two's complement `i32` at `at` in `bytes`.
pub(crate) fn i32_in(bytes: &[u8], at: usize) -> (r: i32)
    requires
        at + 4 <= bytes@.len(),
    ensures
        r == i32_at(bytes@, at as int),
{
    let total: usize = bytes.len();
    assert(at + 4 <= total);
    match decode_i32(slice_subrange(bytes, at, at + 4)) {
        Some(value) => value,
        None => 0,
    }
}

/// A field of a record that was cut out of `data` at `base` is the field of
/// `data` at `base + at`.
pub proof fn lemma_field_of_record(data: Seq<u8>, base: int, size: int, at: int, width: int)
    requires
        0 <= base,
        base + size <= data.len(),
        0 <= at,
        0 <= width,
        at + width <= size,
    ensures
        data.subrange(base, base + size).subrange(at, at + width) == data.subrange(
            base + at,
            base + at + width,
        ),
{
    assert(data.subrange(base, base + size).subrange(at, at + width) =~= data.subrange(
        base + at,
        base + at + width,
    ));
}

/// The byte at `pos`.
pub open spec fn u8_at(data: Seq<u8>, pos: int) -> u8 {
    data[pos]
}

/// The little-endian `u16` that starts at `pos`.
pub open spec fn u16_at(data: Seq<u8>, pos: int) -> u16 {
    le_u16(data.subrange(pos, pos + 2)) as u16
}

/// The little-endian `u32` that starts at `pos`.
pub open spec fn u32_at(data: Seq<u8>, pos: int) -> u32 {
    le_u32(data.subrange(pos, pos + 4)) as u32
}

/// The little-endian `i32` that starts at `pos`.
pub open spec fn i32_at(data: Seq<u8>, pos: int) -> i32 {
    le_i32(data.subrange(pos, pos + 4)) as i32
}

/// Whether `n` bytes starting at `pos` lie inside `data`.
pub open spec fn in_bounds(data: Seq<u8>, pos: int, n: int) -> bool {
    0 <= pos && 0 <= n && pos + n <= data.len()
}

/// The index of the first zero byte at or after `from`, or the length of
/// `data` where there is none.
pub open spec fn terminator(data: Seq<u8>, from: int) -> int
    decreases data.len() - from,
{
    if from < 0 || from >= data.len() {
        data.len() as int
    } else if data[from] == 0 {
        from
    } else {
        terminator(data, from + 1)
    }
}

/// The zero-terminated name that starts at `pos`: the bytes before the
/// first zero byte, or `MissingTerminator` where no zero byte follows.
pub open spec fn string_at(data: Seq<u8>, pos: int) -> Result<Seq<u8>, DecodeError> {
    if terminator(data, pos) < data.len() {
        Ok(data.subrange(pos, terminator(data, pos)))
    } else {
        Err(DecodeError::MissingTerminator)
    }
}

/// The first zero byte at or after `from` lies between `from` and the end,
/// and no byte before it is zero.
pub proof fn lemma_terminator(data: Seq<u8>, from: int)
    requires
        0 <= from <= data.len(),
    ensures
        from <= terminator(data, from) <= data.len(),
        terminator(data, from) < data.len() ==> data[terminator(data, from)] == 0,
        forall|i: int| from <= i < terminator(data, from) ==> data[i] != 0,
    decreases data.len() - from,
{
    if from < data.len() && data[from] != 0 {
        lemma_terminator(data, from + 1);
    }
}

/// What a [`Buffer`] is to a contract: its bytes and the position of its
/// cursor.
pub struct BufferView {
    pub data: Seq<u8>,
    pub cursor: int,
}

/// A byte buffer with a cursor. Seeks move the cursor; reads look at the
/// bytes that follow it and leave it where it is. The cursor never leaves
/// the buffer: `0 <= cursor <= len`.
pub struct Buffer {
    data: Vec<u8>,
    cursor: usize,
}

impl View for Buffer {
    type V = BufferView;

    closed spec fn view(&self) -> BufferView {
        BufferView { data: self.data@, cursor: self.cursor as int }
    }
}

impl Buffer {
    #[verifier::type_invariant]
    spec fn cursor_inside(self) -> bool {
        self.cursor <= self.data.len()
    }

    /// A buffer over `data` with the cursor at its first byte.
    pub fn new(data: Vec<u8>) -> (r: Self)
        ensures
            r@.data == data@,
            r@.cursor == 0,
    {
        Buffer { data, cursor: 0 }
    }

    /// The number of bytes in the buffer.
    pub fn len(&self) -> (r: usize)
        ensures
            r == self@.data.len(),
    {
        self.data.len()
    }

    /// Where the cursor stands.
    pub fn position(&self) -> (r: usize)
        ensures
            r == self@.cursor,
            r <= self@.data.len(),
    {
        proof {
            use_type_invariant(self);
        }
        self.cursor
    }

    /// Moves the cursor to `position`, which may be the end of the buffer
    /// but nothing beyond it; a position beyond it is `OutOfBounds` and
    /// leaves the cursor where it was.
    pub fn seek_to(&mut self, position: usize) -> (r: Result<(), DecodeError>)
        ensures
            final(self)@.data == old(self)@.data,
            position <= old(self)@.data.len() ==> r == Ok::<(), DecodeError>(())
                && final(self)@.cursor == position,
            position > old(self)@.data.len() ==> r == Err::<(), DecodeError>(
                DecodeError::OutOfBounds,
            ) && final(self)@.cursor == old(self)@.cursor,
    {
        if position <= self.data.len() {
            self.cursor = position;
            Ok(())
        } else {
            Err(DecodeError::OutOfBounds)
        }
    }

    /// Moves the cursor to the absolute offset `index`, as [`Buffer::seek_to`]
    /// does.
    pub fn seek(&mut self, index: u32) -> (r: Result<(), DecodeError>)
        ensures
            final(self)@.data == old(self)@.data,
            index <= old(self)@.data.len() ==> r == Ok::<(), DecodeError>(())
                && final(self)@.cursor == index,
            index > old(self)@.data.len() ==> r == Err::<(), DecodeError>(
                DecodeError::OutOfBounds,
            ) && final(self)@.cursor == old(self)@.cursor,
    {
        self.seek_to(index as usize)
    }

    /// Moves the cursor by `index` bytes, forwards or backwards. A target
    /// before the first byte or beyond the end is `OutOfBounds` and leaves
    /// the cursor where it was.
    pub fn seek_relative(&mut self, index: i64) -> (r: Result<(), DecodeError>)
        ensures
            final(self)@.data == old(self)@.data,
            0 <= old(self)@.cursor + index <= old(self)@.data.len() ==> r == Ok::<
                (),
                DecodeError,
            >(()) && final(self)@.cursor == old(self)@.cursor + index,
            !(0 <= old(self)@.cursor + index <= old(self)@.data.len()) ==> r == Err::<
                (),
                DecodeError,
            >(DecodeError::OutOfBounds) && final(self)@.cursor == old(self)@.cursor,
    {
        proof {
            use_type_invariant(&*self);
        }
        if index >= 0 {
            let forward: u64 = index as u64;
            let room: u64 = (self.data.len() - self.cursor) as u64;
            if forward <= room {
                self.cursor = self.cursor + forward as usize;
                Ok(())
            } else {
                Err(DecodeError::OutOfBounds)
            }
        } else {
            let back: u64 = if index == i64::MIN {
                0x8000_0000_0000_0000u64
            } else {
                (-index) as u64
            };
            if back <= self.cursor as u64 {
                self.cursor = self.cursor - back as usize;
                Ok(())
            } else {
                Err(DecodeError::OutOfBounds)
            }
        }
    }

    /// The `n_bytes` bytes that follow the cursor, or `OutOfBounds` where
    /// fewer are left. The cursor stays.
    pub fn read(&self, n_bytes: usize) -> (r: Result<&[u8], DecodeError>)
        ensures
            in_bounds(self@.data, self@.cursor, n_bytes as int) ==> r.is_ok() && r.unwrap()@
                == self@.data.subrange(self@.cursor, self@.cursor + n_bytes),
            !in_bounds(self@.data, self@.cursor, n_bytes as int) ==> r == Err::<
                &[u8],
                DecodeError,
            >(DecodeError::OutOfBounds),
    {
        proof {
            use_type_invariant(self);
        }
        if n_bytes <= self.data.len() - self.cursor {
            Ok(slice_subrange(self.data.as_slice(), self.cursor, self.cursor + n_bytes))
        } else {
            Err(DecodeError::OutOfBounds)
        }
    }

    /// The zero-terminated name that starts at the cursor, without its
    /// terminator, or `MissingTerminator` where no zero byte follows the
    /// cursor. The cursor stays.
    pub fn read_string(&self) -> (r: Result<Vec<u8>, DecodeError>)
        ensures
            r is Ok == string_at(self@.data, self@.cursor) is Ok,
            r matches Ok(name) ==> string_at(self@.data, self@.cursor) == Ok::<
                Seq<u8>,
                DecodeError,
            >(name@),
            r matches Err(e) ==> e == DecodeError::MissingTerminator,
    {
        proof {
            use_type_invariant(self);
        }
        let mut name: Vec<u8> = Vec::new();
        let mut i: usize = self.cursor;
        while i < self.data.len()
            invariant
                self.cursor <= i <= self.data.len(),
                terminator(self.data@, self.cursor as int) == terminator(self.data@, i as int),
                name@ == self.data@.subrange(self.cursor as int, i as int),
            decreases self.data.len() - i,
        {
            let byte: u8 = self.data[i];
            if byte == 0 {
                return Ok(name);
            }
            name.push(byte);
            i = i + 1;
        }
        Err(DecodeError::MissingTerminator)
    }

    /// The byte at the cursor. The cursor stays.
    pub fn read_u8(&self) -> (r: Result<u8, DecodeError>)
        ensures
            in_bounds(self@.data, self@.cursor, 1) ==> r == Ok::<u8, DecodeError>(
                u8_at(self@.data, self@.cursor),
            ),
            !in_bounds(self@.data, self@.cursor, 1) ==> r == Err::<u8, DecodeError>(
                DecodeError::OutOfBounds,
            ),
    {
        proof {
            use_type_invariant(self);
        }
        if self.cursor < self.data.len() {
            Ok(self.data[self.cursor])
        } else {
            Err(DecodeError::OutOfBounds)
        }
    }

    /// The little-endian `u16` at the cursor. The cursor stays.
    pub fn read_u16(&self) -> (r: Result<u16, DecodeError>)
        ensures
            in_bounds(self@.data, self@.cursor, 2) ==> r == Ok::<u16, DecodeError>(
                u16_at(self@.data, self@.cursor),
            ),
            !in_bounds(self@.data, self@.cursor, 2) ==> r == Err::<u16, DecodeError>(
                DecodeError::OutOfBounds,
            ),
    {
        match self.read(2) {
            Ok(bytes) => match decode_u16(bytes) {
                Some(value) => Ok(value),
                None => Err(DecodeError::OutOfBounds),
            },
            Err(e) => Err(e),
        }
    }

    /// The little-endian `u32` at the cursor. The cursor stays.
    pub fn read_u32(&self) -> (r: Result<u32, DecodeError>)
        ensures
            in_bounds(self@.data, self@.cursor, 4) ==> r == Ok::<u32, DecodeError>(
                u32_at(self@.data, self@.cursor),
            ),
            !in_bounds(self@.data, self@.cursor, 4) ==> r == Err::<u32, DecodeError>(
                DecodeError::OutOfBounds,
            ),
    {
        match self.read(4) {
            Ok(bytes) => match decode_u32(bytes) {
                Some(value) => Ok(value),
                None => Err(DecodeError::OutOfBounds),
            },
            Err(e) => Err(e),
        }
    }

    /// The little-endian two's complement `i32` at the cursor. The cursor
    /// stays.
    pub fn read_i32(&self) -> (r: Result<i32, DecodeError>)
        ensures
            in_bounds(self@.data, self@.cursor, 4) ==> r == Ok::<i32, DecodeError>(
                i32_at(self@.data, self@.cursor),
            ),
            !in_bounds(self@.data, self@.cursor, 4) ==> r == Err::<i32, DecodeError>(
                DecodeError::OutOfBounds,
            ),
    {
        match self.read(4) {
            Ok(bytes) => match decode_i32(bytes) {
                Some(value) => Ok(value),
                None => Err(DecodeError::OutOfBounds),
            },
            Err(e) => Err(e),
        }
    }
}

} // verus!
