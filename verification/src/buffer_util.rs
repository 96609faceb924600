//! Bounds-checked big-endian reads from a byte slice, the two variable-length
//! integer encodings of WOFF2, and helpers that append to a byte vector.

use vstd::prelude::*;
use vstd::slice::slice_subrange;
use crate::magic_numbers::Tag;

verus! {

/// A read ran past the end of the data.
#[derive(Debug, Clone, Copy, PartialEq, Eq)]
pub struct TruncatedError {}

/// Why a base-128 integer was rejected.
#[derive(Debug, Clone, Copy, PartialEq, Eq)]
pub enum Base128Error {
    LeadingZero,
    MoreThan5Bytes,
    Truncated,
    Overflow,
}

impl Base128Error {
    /// Every truncated read becomes `Base128Error::Truncated`.
    pub fn from(e: TruncatedError) -> (r: Self)
        ensures r == Base128Error::Truncated,
    {
        Base128Error::Truncated
    }

    /// What the error says.
    pub open spec fn spec_message(self) -> Seq<char> {
        match self {
            Base128Error::LeadingZero => "Leading zero in base 128 integer"@,
            Base128Error::MoreThan5Bytes => "More than 5 bytes in base 128 integer"@,
            Base128Error::Truncated => "Truncated base 128 integer"@,
            Base128Error::Overflow => "Overflow in base 128 integer"@,
        }
    }

    /// The text of the error.
    pub fn message(&self) -> (m: String)
        ensures
            m@ == self.spec_message(),
    {
        match self {
            Base128Error::LeadingZero => "Leading zero in base 128 integer".to_owned(),
            Base128Error::MoreThan5Bytes => "More than 5 bytes in base 128 integer".to_owned(),
            Base128Error::Truncated => "Truncated base 128 integer".to_owned(),
            Base128Error::Overflow => "Overflow in base 128 integer".to_owned(),
        }
    }
}

// ---------------------------------------------------------------------------
// Fixed-width values
// ---------------------------------------------------------------------------

/// The two's-complement reading of a 16-bit word.
pub open spec fn spec_i16_of(v: u16) -> i16 {
    if v < 0x8000 { v as i16 } else { (v as int - 0x1_0000) as i16 }
}

/// The 16-bit word whose two's-complement reading is `v`.
pub open spec fn spec_u16_of(v: i16) -> u16 {
    if v >= 0 { v as u16 } else { (v as int + 0x1_0000) as u16 }
}

/// The two big-endian bytes of `v`.
pub open spec fn spec_u16_bytes(v: u16) -> Seq<u8> {
    seq![(v / 0x100) as u8, (v % 0x100) as u8]
}

/// The four big-endian bytes of `v`.
pub open spec fn spec_u32_bytes(v: u32) -> Seq<u8> {
    seq![
        (v / 0x100_0000) as u8,
        ((v / 0x1_0000) % 0x100) as u8,
        ((v / 0x100) % 0x100) as u8,
        (v % 0x100) as u8,
    ]
}

/// `n` zero bytes.
pub open spec fn zeros(n: nat) -> Seq<u8> {
    Seq::new(n, |i: int| 0u8)
}

/// How many bytes bring a length of `len` up to a multiple of four.
pub open spec fn pad_len(len: nat) -> nat {
    ((4 - len % 4) % 4) as nat
}

/// Reads a 16-bit word as a number in two's complement.
pub fn i16_of(v: u16) -> (r: i16)
    ensures
        r == spec_i16_of(v),
{
    if v < 0x8000 {
        v as i16
    } else {
        (v as i32 - 0x1_0000) as i16
    }
}

/// The 16-bit word of a number in two's complement.
pub fn u16_of(v: i16) -> (r: u16)
    ensures
        r == spec_u16_of(v),
{
    if v >= 0 {
        v as u16
    } else {
        (v as i32 + 0x1_0000) as u16
    }
}

// ---------------------------------------------------------------------------
// What a read at a position gives: the value and the position after it
// ---------------------------------------------------------------------------

/// The byte at `pos`, where there is one.
pub open spec fn spec_try_u8(s: Seq<u8>, pos: int) -> Option<(u8, int)> {
    if 0 <= pos && pos + 1 <= s.len() {
        Some((s[pos], pos + 1))
    } else {
        None
    }
}

/// The big-endian `u16` at `pos`, where two bytes are left.
pub open spec fn spec_try_u16(s: Seq<u8>, pos: int) -> Option<(u16, int)> {
    if 0 <= pos && pos + 2 <= s.len() {
        Some((spec_u16_at(s, pos), pos + 2))
    } else {
        None
    }
}

/// The big-endian `i16` at `pos`, where two bytes are left.
pub open spec fn spec_try_i16(s: Seq<u8>, pos: int) -> Option<(i16, int)> {
    match spec_try_u16(s, pos) {
        Some((v, p)) => Some((spec_i16_of(v), p)),
        None => None,
    }
}

/// The big-endian `u32` at `pos`, where four bytes are left.
pub open spec fn spec_try_u32(s: Seq<u8>, pos: int) -> Option<(u32, int)> {
    if 0 <= pos && pos + 4 <= s.len() {
        Some((spec_u32_at(s, pos), pos + 4))
    } else {
        None
    }
}

/// The big-endian `u16` at `i`.
pub open spec fn spec_u16_at(s: Seq<u8>, i: int) -> u16 {
    (s[i] as int * 0x100 + s[i + 1] as int) as u16
}

/// The big-endian `u32` at `i`.
pub open spec fn spec_u32_at(s: Seq<u8>, i: int) -> u32 {
    (s[i] as int * 0x100_0000 + s[i + 1] as int * 0x1_0000 + s[i + 2] as int * 0x100 + s[i
        + 3] as int) as u32
}

/// The 255UInt16 at `pos`: a code byte of 253 announces a big-endian word,
/// 255 a byte to which 253 is added, 254 a byte to which 506 is added; any
/// other code byte is the value itself.
pub open spec fn spec_try_255_u16(s: Seq<u8>, pos: int) -> Option<(u16, int)> {
    match spec_try_u8(s, pos) {
        None => None,
        Some((code, p)) => if code == 253 {
            spec_try_u16(s, p)
        } else if code == 255 {
            match spec_try_u8(s, p) {
                Some((b, q)) => Some(((b as int + 253) as u16, q)),
                None => None,
            }
        } else if code == 254 {
            match spec_try_u8(s, p) {
                Some((b, q)) => Some(((b as int + 506) as u16, q)),
                None => None,
            }
        } else {
            Some((code as u16, p))
        },
    }
}

/// The base-128 integer at `start`, when `read` of its bytes have been taken
/// and have given `accum`. Each byte carries seven bits, most significant
/// first; its high bit says that another byte follows.
pub open spec fn spec_base_128_from(s: Seq<u8>, start: int, read: int, accum: u32) -> Result<
    (u32, int),
    Base128Error,
>
    decreases 5 - read,
{
    if read >= 5 || read < 0 {
        Err(Base128Error::MoreThan5Bytes)
    } else if start < 0 || start + read >= s.len() {
        Err(Base128Error::Truncated)
    } else {
        let byte = s[start + read];
        if read == 0 && byte == 0x80 {
            Err(Base128Error::LeadingZero)
        } else if accum >= 0x200_0000 {
            Err(Base128Error::Overflow)
        } else {
            let next = (accum as int * 0x80 + byte as int % 0x80) as u32;
            if byte < 0x80 {
                Ok((next, start + read + 1))
            } else {
                spec_base_128_from(s, start, read + 1, next)
            }
        }
    }
}

/// The base-128 integer at `pos`.
pub open spec fn spec_try_base_128(s: Seq<u8>, pos: int) -> Result<(u32, int), Base128Error> {
    spec_base_128_from(s, pos, 0, 0)
}

/// The shortest base-128 encoding of `v`.
pub open spec fn spec_base_128_encoding(v: u32) -> Seq<u8> {
    if v < 0x80 {
        seq![v as u8]
    } else if v < 0x4000 {
        seq![(0x80 + v / 0x80) as u8, (v % 0x80) as u8]
    } else if v < 0x20_0000 {
        seq![(0x80 + v / 0x4000) as u8, (0x80 + (v / 0x80) % 0x80) as u8, (v % 0x80) as u8]
    } else if v < 0x1000_0000 {
        seq![
            (0x80 + v / 0x20_0000) as u8,
            (0x80 + (v / 0x4000) % 0x80) as u8,
            (0x80 + (v / 0x80) % 0x80) as u8,
            (v % 0x80) as u8,
        ]
    } else {
        seq![
            (0x80 + v / 0x1000_0000) as u8,
            (0x80 + (v / 0x20_0000) % 0x80) as u8,
            (0x80 + (v / 0x4000) % 0x80) as u8,
            (0x80 + (v / 0x80) % 0x80) as u8,
            (v % 0x80) as u8,
        ]
    }
}

/// The canonical 255UInt16 encoding of `v`: the shortest one, and of two
/// equally short ones the one with code byte 255.
pub open spec fn spec_255_u16_encoding(v: u16) -> Seq<u8> {
    if v < 253 {
        seq![v as u8]
    } else if v < 506 {
        seq![255u8, (v - 253) as u8]
    } else if v < 762 {
        seq![254u8, (v - 506) as u8]
    } else {
        seq![253u8, (v / 0x100) as u8, (v % 0x100) as u8]
    }
}

// ---------------------------------------------------------------------------
// The cursor
// ---------------------------------------------------------------------------

/// A forward-only reading position in a byte slice.
pub struct ByteCursor<'a> {
    pub data: &'a [u8],
    pub pos: usize,
}

impl<'a> ByteCursor<'a> {
    /// The position does not lie beyond the end of the data.
    pub open spec fn wf(&self) -> bool {
        self.pos <= self.data@.len()
    }

    /// A cursor at the start of `data`.
    pub fn new(data: &'a [u8]) -> (c: Self)
        ensures
            c.data@ == data@,
            c.pos == 0,
            c.wf(),
    {
        ByteCursor { data, pos: 0 }
    }

    /// The number of bytes not yet read.
    pub fn remaining(&self) -> (n: usize)
        requires
            self.wf(),
        ensures
            n == self.data@.len() - self.pos,
    {
        self.data.len() - self.pos
    }

    /// Reads one byte; fails, and stays in place, where none is left.
    pub fn try_get_u8(&mut self) -> (r: Result<u8, TruncatedError>)
        requires
            old(self).wf(),
        ensures
            final(self).wf(),
            final(self).data@ == old(self).data@,
            match r {
                Ok(v) => spec_try_u8(old(self).data@, old(self).pos as int) == Some(
                    (v, final(self).pos as int),
                ),
                Err(_) => spec_try_u8(old(self).data@, old(self).pos as int).is_none() && final(self).pos == old(self).pos,
            },
    {
        if self.data.len() - self.pos < 1 {
            return Err(TruncatedError {  });
        }
        let v = self.data[self.pos];
        self.pos = self.pos + 1;
        Ok(v)
    }

    /// Reads a big-endian `u16`; fails, and stays in place, where fewer than
    /// two bytes are left.
    pub fn try_get_u16(&mut self) -> (r: Result<u16, TruncatedError>)
        requires
            old(self).wf(),
        ensures
            final(self).wf(),
            final(self).data@ == old(self).data@,
            match r {
                Ok(v) => spec_try_u16(old(self).data@, old(self).pos as int) == Some(
                    (v, final(self).pos as int),
                ),
                Err(_) => spec_try_u16(old(self).data@, old(self).pos as int).is_none() && final(self).pos == old(self).pos,
            },
    {
        if self.data.len() - self.pos < 2 {
            return Err(TruncatedError {  });
        }
        let b0 = self.data[self.pos];
        let b1 = self.data[self.pos + 1];
        self.pos = self.pos + 2;
        Ok(b0 as u16 * 0x100 + b1 as u16)
    }

    /// Reads a big-endian two's-complement `i16`.
    pub fn try_get_i16(&mut self) -> (r: Result<i16, TruncatedError>)
        requires
            old(self).wf(),
        ensures
            final(self).wf(),
            final(self).data@ == old(self).data@,
            match r {
                Ok(v) => spec_try_i16(old(self).data@, old(self).pos as int) == Some(
                    (v, final(self).pos as int),
                ),
                Err(_) => spec_try_i16(old(self).data@, old(self).pos as int).is_none() && final(self).pos == old(self).pos,
            },
    {
        match self.try_get_u16() {
            Ok(v) => Ok(i16_of(v)),
            Err(e) => Err(e),
        }
    }

    /// Reads a big-endian `u32`; fails, and stays in place, where fewer than
    /// four bytes are left.
    pub fn try_get_u32(&mut self) -> (r: Result<u32, TruncatedError>)
        requires
            old(self).wf(),
        ensures
            final(self).wf(),
            final(self).data@ == old(self).data@,
            match r {
                Ok(v) => spec_try_u32(old(self).data@, old(self).pos as int) == Some(
                    (v, final(self).pos as int),
                ),
                Err(_) => spec_try_u32(old(self).data@, old(self).pos as int).is_none() && final(self).pos == old(self).pos,
            },
    {
        if self.data.len() - self.pos < 4 {
            return Err(TruncatedError {  });
        }
        let b0 = self.data[self.pos];
        let b1 = self.data[self.pos + 1];
        let b2 = self.data[self.pos + 2];
        let b3 = self.data[self.pos + 3];
        self.pos = self.pos + 4;
        Ok(b0 as u32 * 0x100_0000 + b1 as u32 * 0x1_0000 + b2 as u32 * 0x100 + b3 as u32)
    }

    /// Reads the next four bytes as a tag.
    pub fn get_four_cc(&mut self) -> (tag: Tag)
        requires
            old(self).wf(),
            old(self).pos + 4 <= old(self).data@.len(),
        ensures
            final(self).wf(),
            final(self).data@ == old(self).data@,
            spec_try_u32(old(self).data@, old(self).pos as int) == Some(
                (tag.0, final(self).pos as int),
            ),
    {
        match self.try_get_u32() {
            Ok(v) => Tag(v),
            Err(_) => Tag(0),
        }
    }

    /// Reads the next four bytes as a tag; fails, and stays in place, where
    /// fewer are left.
    pub fn try_get_four_cc(&mut self) -> (r: Result<Tag, TruncatedError>)
        requires
            old(self).wf(),
        ensures
            final(self).wf(),
            final(self).data@ == old(self).data@,
            match r {
                Ok(tag) => spec_try_u32(old(self).data@, old(self).pos as int) == Some(
                    (tag.0, final(self).pos as int),
                ),
                Err(_) => spec_try_u32(old(self).data@, old(self).pos as int).is_none() && final(self).pos == old(self).pos,
            },
    {
        match self.try_get_u32() {
            Ok(v) => Ok(Tag(v)),
            Err(e) => Err(e),
        }
    }

    /// Reads a base-128 integer of at most five bytes.
    pub fn try_get_base_128(&mut self) -> (r: Result<u32, Base128Error>)
        requires
            old(self).wf(),
        ensures
            final(self).wf(),
            final(self).data@ == old(self).data@,
            old(self).pos <= final(self).pos,
            match r {
                Ok(v) => spec_try_base_128(old(self).data@, old(self).pos as int) == Ok::<
                    (u32, int),
                    Base128Error,
                >((v, final(self).pos as int)),
                Err(e) => spec_try_base_128(old(self).data@, old(self).pos as int) == Err::<
                    (u32, int),
                    Base128Error,
                >(e),
            },
    {
        let ghost start = self.pos as int;
        let mut accum: u32 = 0;
        let mut i: usize = 0;
        while i < 5
            invariant
                i <= 5,
                self.wf(),
                self.data@ == old(self).data@,
                self.pos == start + i,
                start == old(self).pos,
                spec_try_base_128(self.data@, start) == spec_base_128_from(
                    self.data@,
                    start,
                    i as int,
                    accum,
                ),
            decreases 5 - i,
        {
            let byte = match self.try_get_u8() {
                Ok(b) => b,
                Err(e) => {
                    return Err(Base128Error::from(e));
                },
            };
            if i == 0 && byte == 0x80 {
                return Err(Base128Error::LeadingZero);
            }
            if accum >= 0x200_0000 {
                return Err(Base128Error::Overflow);
            }
            accum = accum * 0x80 + (byte % 0x80) as u32;
            if byte < 0x80 {
                return Ok(accum);
            }
            i = i + 1;
        }
        Err(Base128Error::MoreThan5Bytes)
    }

    /// Reads a 255UInt16.
    pub fn try_get_255_u16(&mut self) -> (r: Result<u16, TruncatedError>)
        requires
            old(self).wf(),
        ensures
            final(self).wf(),
            final(self).data@ == old(self).data@,
            old(self).pos <= final(self).pos,
            match r {
                Ok(v) => spec_try_255_u16(old(self).data@, old(self).pos as int) == Some(
                    (v, final(self).pos as int),
                ),
                Err(_) => spec_try_255_u16(old(self).data@, old(self).pos as int).is_none(),
            },
    {
        let code = match self.try_get_u8() {
            Ok(c) => c,
            Err(e) => {
                return Err(e);
            },
        };
        if code == 253 {
            self.try_get_u16()
        } else if code == 255 {
            match self.try_get_u8() {
                Ok(b) => Ok(b as u16 + 253),
                Err(e) => Err(e),
            }
        } else if code == 254 {
            match self.try_get_u8() {
                Ok(b) => Ok(b as u16 + 506),
                Err(e) => Err(e),
            }
        } else {
            Ok(code as u16)
        }
    }

    /// Appends the next `num_bytes` bytes to `dest`; fails, with nothing read
    /// or written, where fewer are left.
    pub fn try_copy_to_buf(&mut self, dest: &mut Vec<u8>, num_bytes: usize) -> (r: Result<
        (),
        TruncatedError,
    >)
        requires
            old(self).wf(),
        ensures
            final(self).wf(),
            final(self).data@ == old(self).data@,
            match r {
                Ok(_) => old(self).pos + num_bytes <= old(self).data@.len() && final(self).pos
                    == old(self).pos + num_bytes && final(dest)@ == old(dest)@ + old(self).data@.subrange(old(self).pos as int, old(self).pos + num_bytes),
                Err(_) => old(self).pos + num_bytes > old(self).data@.len() && final(self).pos
                    == old(self).pos && final(dest)@ == old(dest)@,
            },
    {
        if self.data.len() - self.pos < num_bytes {
            return Err(TruncatedError {  });
        }
        let chunk = slice_subrange(self.data, self.pos, self.pos + num_bytes);
        dest.extend_from_slice(chunk);
        self.pos = self.pos + num_bytes;
        Ok(())
    }
}

// ---------------------------------------------------------------------------
// Appending to a byte vector
// ---------------------------------------------------------------------------

/// Appends `v` as two big-endian bytes.
pub fn put_u16(buffer: &mut Vec<u8>, v: u16)
    ensures
        final(buffer)@ == old(buffer)@ + spec_u16_bytes(v),
{
    buffer.push((v / 0x100) as u8);
    buffer.push((v % 0x100) as u8);
    assert(buffer@ =~= old(buffer)@ + spec_u16_bytes(v));
}

/// Appends `v` as two big-endian bytes in two's complement.
pub fn put_i16(buffer: &mut Vec<u8>, v: i16)
    ensures
        final(buffer)@ == old(buffer)@ + spec_u16_bytes(spec_u16_of(v)),
{
    put_u16(buffer, u16_of(v));
}

/// Appends `v` as four big-endian bytes.
pub fn put_u32(buffer: &mut Vec<u8>, v: u32)
    ensures
        final(buffer)@ == old(buffer)@ + spec_u32_bytes(v),
{
    buffer.push((v / 0x100_0000) as u8);
    buffer.push(((v / 0x1_0000) % 0x100) as u8);
    buffer.push(((v / 0x100) % 0x100) as u8);
    buffer.push((v % 0x100) as u8);
    assert(buffer@ =~= old(buffer)@ + spec_u32_bytes(v));
}

/// Appends all of `bytes`.
pub fn put_slice(buffer: &mut Vec<u8>, bytes: &[u8])
    ensures
        final(buffer)@ == old(buffer)@ + bytes@,
{
    buffer.extend_from_slice(bytes);
}

/// Pads the buffer with zeros so that its length is a multiple of four.
pub fn pad_to_multiple_of_four(buffer: &mut Vec<u8>)
    ensures
        final(buffer)@ == old(buffer)@ + zeros(pad_len(old(buffer)@.len())),
        final(buffer)@.len() % 4 == 0,
{
    while buffer.len() % 4 != 0
        invariant
            buffer@.len() >= old(buffer)@.len(),
            buffer@.len() - old(buffer)@.len() + pad_len(buffer@.len()) == pad_len(
                old(buffer)@.len(),
            ),
            buffer@ =~= old(buffer)@ + zeros((buffer@.len() - old(buffer)@.len()) as nat),
        decreases pad_len(buffer@.len()),
    {
        buffer.push(0u8);
    }
    assert(buffer@ =~= old(buffer)@ + zeros(pad_len(old(buffer)@.len())));
}

// ---------------------------------------------------------------------------
// What holds of the two variable-length encodings
// ---------------------------------------------------------------------------

/// One byte of a base-128 integer: with the top seven bits of the
/// accumulator in use the integer is rejected, as too large for 32 bits;
/// else the byte's low seven bits are taken in below it, and the byte's high
/// bit says whether this was the last.
pub proof fn lemma_base_128_step(s: Seq<u8>, start: int, read: int, accum: u32)
    requires
        0 <= read < 5,
        0 <= start,
        start + read < s.len(),
        !(read == 0 && s[start + read] == 0x80),
    ensures
        accum >= 0x200_0000 ==> spec_base_128_from(s, start, read, accum) == Err::<
            (u32, int),
            Base128Error,
        >(Base128Error::Overflow),
        accum < 0x200_0000 ==> accum * 0x80 + s[start + read] % 0x80 <= u32::MAX,
        accum < 0x200_0000 && s[start + read] < 0x80 ==> spec_base_128_from(s, start, read, accum)
            == Ok::<(u32, int), Base128Error>(
            ((accum * 0x80 + s[start + read]) as u32, start + read + 1),
        ),
        accum < 0x200_0000 && s[start + read] >= 0x80 ==> spec_base_128_from(
            s,
            start,
            read,
            accum,
        ) == spec_base_128_from(
            s,
            start,
            read + 1,
            (accum * 0x80 + s[start + read] - 0x80) as u32,
        ),
{
}

/// Each group of seven bits of `v` sits below the groups above it.
proof fn lemma_base_128_digits(v: u32)
    ensures
        (v / 0x80) * 0x80 + v % 0x80 == v,
        (v / 0x4000) * 0x80 + (v / 0x80) % 0x80 == v / 0x80,
        (v / 0x20_0000) * 0x80 + (v / 0x4000) % 0x80 == v / 0x4000,
        (v / 0x1000_0000) * 0x80 + (v / 0x20_0000) % 0x80 == v / 0x20_0000,
        v / 0x1000_0000 < 0x10,
{
}

/// Decoding the shortest base-128 encoding of `v`, whatever follows it, gives
/// `v` back and stops right behind the encoding.
pub proof fn lemma_base_128_round_trip(v: u32, before: Seq<u8>, after: Seq<u8>)
    ensures
        spec_try_base_128(before + spec_base_128_encoding(v) + after, before.len() as int) == Ok::<
            (u32, int),
            Base128Error,
        >((v, (before.len() + spec_base_128_encoding(v).len()) as int)),
{
    let e = spec_base_128_encoding(v);
    let s = before + e + after;
    let start = before.len() as int;
    assert forall|i: int| 0 <= i < e.len() implies s[start + i] == e[i] by {}
    let n = e.len() as int;
    let d4 = (v / 0x1000_0000) as u32;
    let d3 = (v / 0x20_0000) as u32;
    let d2 = (v / 0x4000) as u32;
    let d1 = (v / 0x80) as u32;
    // the accumulator before each of the n bytes, from the first to the last
    let a0: u32 = 0;
    let a1: u32 = if n == 5 { d4 } else if n == 4 { d3 } else if n == 3 { d2 } else { d1 };
    let a2: u32 = if n == 5 { d3 } else if n == 4 { d2 } else { d1 };
    let a3: u32 = if n == 5 { d2 } else { d1 };
    let a4: u32 = d1;
    lemma_base_128_digits(v);
    assert(s[start] == e[0]);
    lemma_base_128_step(s, start, 0, a0);
    if n >= 2 {
        assert(s[start + 1] == e[1]);
        lemma_base_128_step(s, start, 1, a1);
    }
    if n >= 3 {
        assert(s[start + 2] == e[2]);
        lemma_base_128_step(s, start, 2, a2);
    }
    if n >= 4 {
        assert(s[start + 3] == e[3]);
        lemma_base_128_step(s, start, 3, a3);
    }
    if n >= 5 {
        assert(s[start + 4] == e[4]);
        lemma_base_128_step(s, start, 4, a4);
    }
}

/// An encoding that starts with the byte `0x80` is rejected.
pub proof fn lemma_base_128_leading_zero_rejected(s: Seq<u8>, pos: int)
    requires
        0 <= pos < s.len(),
        s[pos] == 0x80,
    ensures
        spec_try_base_128(s, pos) == Err::<(u32, int), Base128Error>(Base128Error::LeadingZero),
{
}

/// An encoding whose first five bytes all announce another byte is rejected.
pub proof fn lemma_base_128_six_bytes_rejected(s: Seq<u8>, pos: int)
    requires
        0 <= pos,
        pos + 5 <= s.len(),
        forall|i: int| pos <= i < pos + 5 ==> s[i] >= 0x80,
    ensures
        spec_try_base_128(s, pos).is_err(),
{
    reveal_with_fuel(spec_base_128_from, 6);
}

/// Decoding the canonical 255UInt16 encoding of `v`, whatever follows it,
/// gives `v` back and stops right behind the encoding.
pub proof fn lemma_255_u16_round_trip(v: u16, before: Seq<u8>, after: Seq<u8>)
    ensures
        spec_try_255_u16(before + spec_255_u16_encoding(v) + after, before.len() as int) == Some(
            (v, (before.len() + spec_255_u16_encoding(v).len()) as int),
        ),
{
    let e = spec_255_u16_encoding(v);
    let s = before + e + after;
    let start = before.len() as int;
    assert forall|i: int| 0 <= i < e.len() implies s[start + i] == e[i] by {}
    assert(s[start] == e[0]);
    if v >= 253 {
        assert(s[start + 1] == e[1]);
    }
    if v >= 762 {
        assert(s[start + 2] == e[2]);
    }
}

} // verus!
