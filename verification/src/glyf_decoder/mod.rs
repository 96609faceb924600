//! The inverse of the `glyf` transform: from the seven substreams of a
//! transformed `glyf` table back to the `glyf` and `loca` tables.

pub mod x_y_triplet;

use vstd::prelude::*;
use vstd::slice::slice_subrange;
use bitvec::order::Msb0;
use bitvec::slice::BitSlice;
use crate::buffer_util::{
    pad_len, pad_to_multiple_of_four, put_i16, put_slice, put_u16, put_u32, spec_try_255_u16,
    spec_try_i16, spec_try_u16, spec_try_u32, spec_try_u8, spec_u16_at, spec_u16_bytes,
    spec_u16_of, spec_u32_at, spec_u32_bytes, zeros, ByteCursor, TruncatedError,
};
use self::x_y_triplet::{coord_lut, spec_coord_lut};

verus! {

/// Why a transformed `glyf` table was rejected.
#[derive(Debug, Clone, Copy, PartialEq, Eq)]
pub enum GlyfDecoderError {
    /// A substream, or the table itself, ends too early.
    Truncated,
    /// A composite glyph has no bounding box in the bbox stream.
    CompositeGlyphWithoutBbox,
    /// A substream holds more than the glyphs took.
    ExtraData,
    /// A glyph starts where the `loca` format cannot point: beyond 2 * 65535
    /// in the short format, beyond `u32::MAX` in the long one.
    OffsetOverflow,
}

impl GlyfDecoderError {
    /// Every truncated read becomes `GlyfDecoderError::Truncated`.
    pub fn from(e: TruncatedError) -> (r: Self)
        ensures
            r == GlyfDecoderError::Truncated,
    {
        GlyfDecoderError::Truncated
    }

    /// What the error says.
    pub open spec fn spec_message(self) -> Seq<char> {
        match self {
            GlyfDecoderError::Truncated => "Stream truncated"@,
            GlyfDecoderError::CompositeGlyphWithoutBbox => "Composite glyph without bbox"@,
            GlyfDecoderError::ExtraData => "Extra Data"@,
            GlyfDecoderError::OffsetOverflow => "Glyph offset too large"@,
        }
    }

    /// The text of the error.
    pub fn message(&self) -> (m: String)
        ensures
            m@ == self.spec_message(),
    {
        match self {
            GlyfDecoderError::Truncated => "Stream truncated".to_owned(),
            GlyfDecoderError::CompositeGlyphWithoutBbox => "Composite glyph without bbox".to_owned(),
            GlyfDecoderError::ExtraData => "Extra Data".to_owned(),
            GlyfDecoderError::OffsetOverflow => "Glyph offset too large".to_owned(),
        }
    }
}

/// The length of the table's fixed header.
pub const GLYF_HEADER_SIZE: usize = 36;

// ---------------------------------------------------------------------------
// The model: the substreams, and a position in each
// ---------------------------------------------------------------------------

/// The parts of a transformed `glyf` table.
pub struct GlyfStreams {
    pub num_glyphs: u16,
    pub index_format: u16,
    pub n_contour: Seq<u8>,
    pub n_points: Seq<u8>,
    pub flag: Seq<u8>,
    pub glyph: Seq<u8>,
    pub composite: Seq<u8>,
    pub bbox_bitmap: Seq<u8>,
    pub bbox: Seq<u8>,
    pub instruction: Seq<u8>,
    pub overlap_bitmap: Option<Seq<u8>>,
}

/// How far each of the seven substreams has been read.
pub struct GlyfCursor {
    pub n_contour: int,
    pub n_points: int,
    pub flag: int,
    pub glyph: int,
    pub composite: int,
    pub bbox: int,
    pub instruction: int,
}

/// The bit at `index` of a bitmap whose bytes hold their bits from the most
/// significant down.
pub open spec fn spec_msb0_bit(bytes: Seq<u8>, index: int) -> bool {
    (bytes[index / 8] >> ((7 - index % 8) as u8)) & 1u8 == 1u8
}

/// The bytes that a bitmap of `bits` bits takes: whole 32-bit words.
pub open spec fn spec_bit_stream_byte_length(bits: u16) -> u16 {
    ((bits / 32 + if bits % 32 != 0 { 1int } else { 0int }) * 4) as u16
}

/// Calculates the bytes that a bitmap of so many bits takes.
pub fn bit_stream_byte_length(bit_stream_bit_length: u16) -> (r: u16)
    ensures
        r == spec_bit_stream_byte_length(bit_stream_bit_length),
        r <= 8192,
        r * 8 >= bit_stream_bit_length,
{
    let extra: u16 = if bit_stream_bit_length % 32 != 0 { 1 } else { 0 };
    (bit_stream_bit_length / 32 + extra) * 4
}

/// The substreams of the transformed table `t`. The header gives their
/// lengths; they follow it back to back: contours, points, flags, glyph
/// data, composites, the bbox bitmap and the bboxes (whose two lengths the
/// header gives as one), instructions and, where bit 0 of the option flags
/// is set, the overlap bitmap. A table too short for its header, a bbox
/// length under that of the bitmap, and a table shorter than the lengths add
/// up to are truncated.
pub open spec fn spec_glyf_streams(t: Seq<u8>) -> Result<GlyfStreams, GlyfDecoderError> {
    if t.len() < 36 {
        Err(GlyfDecoderError::Truncated)
    } else {
        let option_flags = spec_u16_at(t, 2);
        let num_glyphs = spec_u16_at(t, 4);
        let bitmap_len = spec_bit_stream_byte_length(num_glyphs) as int;
        let overlap_len = if option_flags % 2 == 1 { bitmap_len } else { 0 };
        let n_contour_start = 36int;
        let n_points_start = n_contour_start + spec_u32_at(t, 8);
        let flag_start = n_points_start + spec_u32_at(t, 12);
        let glyph_start = flag_start + spec_u32_at(t, 16);
        let composite_start = glyph_start + spec_u32_at(t, 20);
        let bbox_bitmap_start = composite_start + spec_u32_at(t, 24);
        let bbox_start = bbox_bitmap_start + bitmap_len;
        let instruction_start = bbox_bitmap_start + spec_u32_at(t, 28);
        let overlap_start = instruction_start + spec_u32_at(t, 32);
        let end = overlap_start + overlap_len;
        if spec_u32_at(t, 28) < bitmap_len || t.len() < end {
            Err(GlyfDecoderError::Truncated)
        } else {
            Ok(
                GlyfStreams {
                    num_glyphs,
                    index_format: spec_u16_at(t, 6),
                    n_contour: t.subrange(n_contour_start, n_points_start),
                    n_points: t.subrange(n_points_start, flag_start),
                    flag: t.subrange(flag_start, glyph_start),
                    glyph: t.subrange(glyph_start, composite_start),
                    composite: t.subrange(composite_start, bbox_bitmap_start),
                    bbox_bitmap: t.subrange(bbox_bitmap_start, bbox_start),
                    bbox: t.subrange(bbox_start, instruction_start),
                    instruction: t.subrange(instruction_start, overlap_start),
                    overlap_bitmap: if option_flags % 2 == 1 {
                        Some(t.subrange(overlap_start, end))
                    } else {
                        None
                    },
                },
            )
        }
    }
}

/// The start of every substream.
pub open spec fn spec_cursor_start() -> GlyfCursor {
    GlyfCursor {
        n_contour: 0,
        n_points: 0,
        flag: 0,
        glyph: 0,
        composite: 0,
        bbox: 0,
        instruction: 0,
    }
}

/// Every substream is read to its end.
pub open spec fn spec_has_read_all(st: GlyfStreams, c: GlyfCursor) -> bool {
    &&& c.n_contour == st.n_contour.len()
    &&& c.n_points == st.n_points.len()
    &&& c.flag == st.flag.len()
    &&& c.glyph == st.glyph.len()
    &&& c.composite == st.composite.len()
    &&& c.bbox == st.bbox.len()
    &&& c.instruction == st.instruction.len()
}

/// Reads one bit of a bitmap with `bitvec`: `BitSlice::<u8, Msb0>::from_slice`
/// and the index operator of the bit slice. In the `Msb0` order bit 0 is the
/// highest bit of the first byte. Both calls panic only on a slice of more
/// than `usize::MAX / 64` bytes or an index beyond the last bit.
#[verifier::external_body]
fn msb0_bit(bytes: &[u8], index: usize) -> (bit: bool)
    requires
        bytes@.len() <= 8192,
        index < bytes@.len() * 8,
    ensures
        bit == spec_msb0_bit(bytes@, index as int),
{
    BitSlice::<u8, Msb0>::from_slice(bytes)[index]
}

// ---------------------------------------------------------------------------
// The decoder
// ---------------------------------------------------------------------------

/// A transformed `glyf` table cut into its substreams, with a cursor in each.
pub struct Woff2GlyfDecoder<'a> {
    pub num_glyphs: u16,
    pub n_contour_stream: ByteCursor<'a>,
    pub n_points_stream: ByteCursor<'a>,
    pub flag_stream: ByteCursor<'a>,
    pub glyph_stream: ByteCursor<'a>,
    pub composite_stream: ByteCursor<'a>,
    pub bbox_bitmap: &'a [u8],
    pub bbox_stream: ByteCursor<'a>,
    pub instruction_stream: ByteCursor<'a>,
    pub overlap_bitmap: Option<&'a [u8]>,
    pub index_format: u16,
}

impl<'a> Woff2GlyfDecoder<'a> {
    /// The substreams that the decoder reads.
    pub open spec fn streams(&self) -> GlyfStreams {
        GlyfStreams {
            num_glyphs: self.num_glyphs,
            index_format: self.index_format,
            n_contour: self.n_contour_stream.data@,
            n_points: self.n_points_stream.data@,
            flag: self.flag_stream.data@,
            glyph: self.glyph_stream.data@,
            composite: self.composite_stream.data@,
            bbox_bitmap: self.bbox_bitmap@,
            bbox: self.bbox_stream.data@,
            instruction: self.instruction_stream.data@,
            overlap_bitmap: match self.overlap_bitmap {
                Some(b) => Some(b@),
                None => None,
            },
        }
    }

    /// Where the decoder stands in each substream.
    pub open spec fn cursor(&self) -> GlyfCursor {
        GlyfCursor {
            n_contour: self.n_contour_stream.pos as int,
            n_points: self.n_points_stream.pos as int,
            flag: self.flag_stream.pos as int,
            glyph: self.glyph_stream.pos as int,
            composite: self.composite_stream.pos as int,
            bbox: self.bbox_stream.pos as int,
            instruction: self.instruction_stream.pos as int,
        }
    }

    /// No cursor is beyond its substream, and each bitmap has a bit for
    /// every glyph.
    pub open spec fn wf(&self) -> bool {
        &&& self.n_contour_stream.wf()
        &&& self.n_points_stream.wf()
        &&& self.flag_stream.wf()
        &&& self.glyph_stream.wf()
        &&& self.composite_stream.wf()
        &&& self.bbox_stream.wf()
        &&& self.instruction_stream.wf()
        &&& self.bbox_bitmap@.len() == spec_bit_stream_byte_length(self.num_glyphs)
        &&& match self.overlap_bitmap {
            Some(b) => b@.len() == spec_bit_stream_byte_length(self.num_glyphs),
            None => true,
        }
    }

    /// Whether every substream is read to its end.
    pub fn has_read_all(&self) -> (r: bool)
        requires
            self.wf(),
        ensures
            r == spec_has_read_all(self.streams(), self.cursor()),
    {
        self.n_contour_stream.remaining() == 0 && self.n_points_stream.remaining() == 0
            && self.flag_stream.remaining() == 0 && self.glyph_stream.remaining() == 0
            && self.composite_stream.remaining() == 0 && self.bbox_stream.remaining() == 0
            && self.instruction_stream.remaining() == 0
    }

    /// Cuts a transformed `glyf` table into its substreams.
    pub fn new(transformed_glyf_table: &'a [u8]) -> (r: Result<Self, GlyfDecoderError>)
        ensures
            match r {
                Ok(d) => d.wf() && spec_glyf_streams(transformed_glyf_table@) == Ok::<
                    GlyfStreams,
                    GlyfDecoderError,
                >(d.streams()) && d.cursor() == spec_cursor_start(),
                Err(e) => spec_glyf_streams(transformed_glyf_table@) == Err::<
                    GlyfStreams,
                    GlyfDecoderError,
                >(e),
            },
    {
        let t = transformed_glyf_table;
        if t.len() < GLYF_HEADER_SIZE {
            return Err(GlyfDecoderError::Truncated);
        }
        let option_flags: u16 = t[2] as u16 * 0x100 + t[3] as u16;
        let num_glyphs: u16 = t[4] as u16 * 0x100 + t[5] as u16;
        let index_format: u16 = t[6] as u16 * 0x100 + t[7] as u16;
        let n_contour_stream_size = header_word(t, 8);
        let n_points_stream_size = header_word(t, 12);
        let flag_stream_size = header_word(t, 16);
        let glyph_stream_size = header_word(t, 20);
        let composite_stream_size = header_word(t, 24);
        let bbox_total_size = header_word(t, 28);
        let instruction_stream_size = header_word(t, 32);
        let bitmap_stream_length = bit_stream_byte_length(num_glyphs);
        let has_overlap_bit_stream = option_flags % 2 == 1;
        let overlap_simple_bit_stream_size: u16 = if has_overlap_bit_stream {
            bitmap_stream_length
        } else {
            0
        };
        if bbox_total_size < bitmap_stream_length as u32 {
            return Err(GlyfDecoderError::Truncated);
        }
        let total: u64 = GLYF_HEADER_SIZE as u64 + n_contour_stream_size as u64
            + n_points_stream_size as u64 + flag_stream_size as u64 + glyph_stream_size as u64
            + composite_stream_size as u64 + bbox_total_size as u64
            + instruction_stream_size as u64 + overlap_simple_bit_stream_size as u64;
        if (t.len() as u64) < total {
            return Err(GlyfDecoderError::Truncated);
        }
        let n_contour_stream_start: usize = GLYF_HEADER_SIZE;
        let n_points_stream_start: usize = n_contour_stream_start + n_contour_stream_size as usize;
        let flag_stream_start: usize = n_points_stream_start + n_points_stream_size as usize;
        let glyph_stream_start: usize = flag_stream_start + flag_stream_size as usize;
        let composite_stream_start: usize = glyph_stream_start + glyph_stream_size as usize;
        let bbox_bitmap_start: usize = composite_stream_start + composite_stream_size as usize;
        let bbox_stream_start: usize = bbox_bitmap_start + bitmap_stream_length as usize;
        let instruction_stream_start: usize = bbox_bitmap_start + bbox_total_size as usize;
        let overlap_bit_stream_start: usize = instruction_stream_start
            + instruction_stream_size as usize;
        let overlap_bit_stream_end: usize = overlap_bit_stream_start
            + overlap_simple_bit_stream_size as usize;
        let overlap_bitmap = if has_overlap_bit_stream {
            Some(slice_subrange(t, overlap_bit_stream_start, overlap_bit_stream_end))
        } else {
            None
        };
        Ok(
            Woff2GlyfDecoder {
                num_glyphs,
                n_contour_stream: ByteCursor::new(
                    slice_subrange(t, n_contour_stream_start, n_points_stream_start),
                ),
                n_points_stream: ByteCursor::new(
                    slice_subrange(t, n_points_stream_start, flag_stream_start),
                ),
                flag_stream: ByteCursor::new(
                    slice_subrange(t, flag_stream_start, glyph_stream_start),
                ),
                glyph_stream: ByteCursor::new(
                    slice_subrange(t, glyph_stream_start, composite_stream_start),
                ),
                composite_stream: ByteCursor::new(
                    slice_subrange(t, composite_stream_start, bbox_bitmap_start),
                ),
                bbox_bitmap: slice_subrange(t, bbox_bitmap_start, bbox_stream_start),
                bbox_stream: ByteCursor::new(
                    slice_subrange(t, bbox_stream_start, instruction_stream_start),
                ),
                instruction_stream: ByteCursor::new(
                    slice_subrange(t, instruction_stream_start, overlap_bit_stream_start),
                ),
                overlap_bitmap,
                index_format,
            },
        )
    }
}

/// Reads the big-endian `u32` at byte `i` of a table's header.
fn header_word(t: &[u8], i: usize) -> (r: u32)
    requires
        i + 4 <= t@.len(),
    ensures
        r == spec_u32_at(t@, i as int),
{
    t[i] as u32 * 0x100_0000 + t[i + 1] as u32 * 0x1_0000 + t[i + 2] as u32 * 0x100 + t[i
        + 3] as u32
}

// ---------------------------------------------------------------------------
// Simple glyphs
// ---------------------------------------------------------------------------

/// What the points read so far have given of a simple glyph.
pub struct Outline {
    pub end_points: Seq<u8>,
    pub flags: Seq<u8>,
    pub xs: Seq<u8>,
    pub ys: Seq<u8>,
    pub total_points: u16,
    pub x: i16,
    pub y: i16,
    pub x_min: i16,
    pub y_min: i16,
    pub x_max: i16,
    pub y_max: i16,
    pub extents_set: bool,
}

/// A bounding box: x_min, y_min, x_max, y_max.
pub struct BBox {
    pub x_min: i16,
    pub y_min: i16,
    pub x_max: i16,
    pub y_max: i16,
}

/// The outline before its first point.
pub open spec fn spec_outline_start() -> Outline {
    Outline {
        end_points: Seq::empty(),
        flags: Seq::empty(),
        xs: Seq::empty(),
        ys: Seq::empty(),
        total_points: 0,
        x: 0,
        y: 0,
        x_min: 0,
        y_min: 0,
        x_max: 0,
        y_max: 0,
        extents_set: false,
    }
}

/// `a + b` in 16-bit two's complement.
pub open spec fn spec_wrapping_add_i16(a: i16, b: i16) -> i16 {
    if a + b > i16::MAX {
        (a + b - 0x1_0000) as i16
    } else if a + b < i16::MIN {
        (a + b + 0x1_0000) as i16
    } else {
        (a + b) as i16
    }
}

/// The bytes of one coordinate delta in a `glyf` table: none for zero, one
/// byte for a magnitude up to 255, else the two bytes of the delta.
pub open spec fn spec_delta_bytes(d: i16) -> Seq<u8> {
    if d == 0 {
        Seq::empty()
    } else if 1 <= d <= 255 {
        seq![d as u8]
    } else if -255 <= d <= -1 {
        seq![(-d) as u8]
    } else {
        spec_u16_bytes(spec_u16_of(d))
    }
}

/// The flag bits of one coordinate delta: `same_bit` alone for zero, both
/// bits for a short positive delta, `short_bit` alone for a short negative
/// one, neither for a delta of two bytes.
pub open spec fn spec_delta_flags(d: i16, short_bit: u8, same_bit: u8) -> u8 {
    if d == 0 {
        same_bit
    } else if 1 <= d <= 255 {
        short_bit | same_bit
    } else if -255 <= d <= -1 {
        short_bit
    } else {
        0
    }
}

/// The outline with one more point, `dx` and `dy` away from the last.
#[verifier::opaque]
pub open spec fn spec_add_point(o: Outline, on_curve: bool, dx: i16, dy: i16, overlap: u8)
    -> Outline {
    let x = spec_wrapping_add_i16(o.x, dx);
    let y = spec_wrapping_add_i16(o.y, dy);
    let on_curve_flag = if on_curve { 1u8 } else { 0u8 };
    Outline {
        end_points: o.end_points,
        flags: o.flags.push(
            on_curve_flag | spec_delta_flags(dx, 0x02, 0x10) | spec_delta_flags(dy, 0x04, 0x20)
                | overlap,
        ),
        xs: o.xs + spec_delta_bytes(dx),
        ys: o.ys + spec_delta_bytes(dy),
        total_points: o.total_points,
        x,
        y,
        x_min: if o.extents_set && o.x_min <= x { o.x_min } else { x },
        y_min: if o.extents_set && o.y_min <= y { o.y_min } else { y },
        x_max: if o.extents_set && o.x_max >= x { o.x_max } else { x },
        y_max: if o.extents_set && o.y_max >= y { o.y_max } else { y },
        extents_set: true,
    }
}

/// The `n` bytes at `pos` as one big-endian number, for `n` from 1 to 4.
pub open spec fn spec_try_packed(s: Seq<u8>, pos: int, n: u8) -> Option<(u32, int)> {
    if n == 1 {
        match spec_try_u8(s, pos) {
            Some((b, p)) => Some((b as u32, p)),
            None => None,
        }
    } else if n == 2 {
        match spec_try_u16(s, pos) {
            Some((w, p)) => Some((w as u32, p)),
            None => None,
        }
    } else if n == 3 {
        if pos + 3 <= s.len() {
            match spec_try_u8(s, pos) {
                Some((b, p)) => match spec_try_u16(s, p) {
                    Some((w, q)) => Some(((b as int * 0x1_0000 + w as int) as u32, q)),
                    None => None,
                },
                None => None,
            }
        } else {
            None
        }
    } else {
        spec_try_u32(s, pos)
    }
}

/// One point: a flag byte from the flag stream, whose low seven bits choose
/// the triplet and whose high bit, when clear, says that the point is on the
/// curve; then the triplet's bytes from the glyph stream.
#[verifier::opaque]
pub open spec fn spec_point(st: GlyfStreams, c: GlyfCursor, o: Outline, overlap: u8) -> Result<
    (GlyfCursor, Outline),
    GlyfDecoderError,
> {
    match spec_try_u8(st.flag, c.flag) {
        None => Err(GlyfDecoderError::Truncated),
        Some((flags, flag_pos)) => {
            let t = spec_coord_lut(flags % 128);
            match spec_try_packed(st.glyph, c.glyph, t.byte_count) {
                None => Err(GlyfDecoderError::Truncated),
                Some((data, glyph_pos)) => Ok(
                    (
                        GlyfCursor { flag: flag_pos, glyph: glyph_pos, ..c },
                        spec_add_point(o, flags < 128, t.spec_dx(data), t.spec_dy(data), overlap),
                    ),
                ),
            }
        },
    }
}

/// `n` points, one after the other.
pub open spec fn spec_points(st: GlyfStreams, c: GlyfCursor, o: Outline, overlap: u8, n: nat)
    -> Result<(GlyfCursor, Outline), GlyfDecoderError>
    decreases n,
{
    if n == 0 {
        Ok((c, o))
    } else {
        match spec_point(st, c, o, overlap) {
            Err(e) => Err(e),
            Ok((c1, o1)) => spec_points(st, c1, o1, overlap, (n - 1) as nat),
        }
    }
}

/// The outline at the start of a contour of `n` points: the count of points
/// goes up by `n`, modulo 2^16, and the index of the contour's last point is
/// written down.
#[verifier::opaque]
pub open spec fn spec_start_contour(o: Outline, n: u16) -> Outline {
    let total = ((o.total_points + n) % 0x1_0000) as u16;
    let last = ((total + 0xFFFF) % 0x1_0000) as u16;
    Outline { end_points: o.end_points + spec_u16_bytes(last), total_points: total, ..o }
}

/// One contour: its number of points, a 255UInt16 from the point-count
/// stream, then the points.
#[verifier::opaque]
pub open spec fn spec_contour(st: GlyfStreams, c: GlyfCursor, o: Outline, overlap: u8) -> Result<
    (GlyfCursor, Outline),
    GlyfDecoderError,
> {
    match spec_try_255_u16(st.n_points, c.n_points) {
        None => Err(GlyfDecoderError::Truncated),
        Some((n, pos)) => spec_points(
            st,
            GlyfCursor { n_points: pos, ..c },
            spec_start_contour(o, n),
            overlap,
            n as nat,
        ),
    }
}

/// `n` contours, one after the other.
pub open spec fn spec_contours(st: GlyfStreams, c: GlyfCursor, o: Outline, overlap: u8, n: nat)
    -> Result<(GlyfCursor, Outline), GlyfDecoderError>
    decreases n,
{
    if n == 0 {
        Ok((c, o))
    } else {
        match spec_contour(st, c, o, overlap) {
            Err(e) => Err(e),
            Ok((c1, o1)) => spec_contours(st, c1, o1, overlap, (n - 1) as nat),
        }
    }
}

/// The four `i16`s of a bounding box at `pos`.
#[verifier::opaque]
pub open spec fn spec_try_bbox(s: Seq<u8>, pos: int) -> Option<(BBox, int)> {
    match spec_try_i16(s, pos) {
        None => None,
        Some((x_min, p1)) => match spec_try_i16(s, p1) {
            None => None,
            Some((y_min, p2)) => match spec_try_i16(s, p2) {
                None => None,
                Some((x_max, p3)) => match spec_try_i16(s, p3) {
                    None => None,
                    Some((y_max, p4)) => Some((BBox { x_min, y_min, x_max, y_max }, p4)),
                },
            },
        },
    }
}

/// The eight bytes of a bounding box.
pub open spec fn spec_bbox_bytes(b: BBox) -> Seq<u8> {
    spec_u16_bytes(spec_u16_of(b.x_min)) + spec_u16_bytes(spec_u16_of(b.y_min)) + spec_u16_bytes(
        spec_u16_of(b.x_max),
    ) + spec_u16_bytes(spec_u16_of(b.y_max))
}

/// The length of a glyph's instructions, a 255UInt16 from the glyph stream,
/// and that many bytes from the instruction stream.
#[verifier::opaque]
pub open spec fn spec_instructions(st: GlyfStreams, c: GlyfCursor) -> Result<
    (GlyfCursor, u16, Seq<u8>),
    GlyfDecoderError,
> {
    match spec_try_255_u16(st.glyph, c.glyph) {
        None => Err(GlyfDecoderError::Truncated),
        Some((len, pos)) => if c.instruction + len > st.instruction.len() {
            Err(GlyfDecoderError::Truncated)
        } else {
            Ok(
                (
                    GlyfCursor { glyph: pos, instruction: c.instruction + len, ..c },
                    len,
                    st.instruction.subrange(c.instruction, c.instruction + len),
                ),
            )
        },
    }
}

/// The bit that the overlap bitmap, where there is one, adds to every flag
/// of glyph `g`.
pub open spec fn spec_overlap_flag(st: GlyfStreams, g: u16) -> u8 {
    match st.overlap_bitmap {
        Some(b) => if spec_msb0_bit(b, g as int) { 0x40u8 } else { 0u8 },
        None => 0u8,
    }
}

/// A simple glyph of `n` contours, appended to `out`: the contours and their
/// points, the instructions, then the bounding box, which is read from the
/// bbox stream where the bbox bitmap has the glyph's bit set and is else the
/// one that the points span. The glyph's bytes are the number of contours,
/// the box, the contours' last points, the instructions with their length,
/// the flags, and the two coordinate arrays.
#[verifier::opaque]
pub open spec fn spec_simple_glyph(
    st: GlyfStreams,
    c: GlyfCursor,
    out: Seq<u8>,
    n: i16,
    g: u16,
) -> Result<(GlyfCursor, Seq<u8>), GlyfDecoderError> {
    let count = if n > 0 { n as nat } else { 0nat };
    match spec_contours(st, c, spec_outline_start(), spec_overlap_flag(st, g), count) {
        Err(e) => Err(e),
        Ok((c1, o)) => match spec_instructions(st, c1) {
            Err(e) => Err(e),
            Ok((c2, len, instructions)) => {
                let spanned = Some(
                    (BBox { x_min: o.x_min, y_min: o.y_min, x_max: o.x_max, y_max: o.y_max }, c2.bbox),
                );
                let bbox = if spec_msb0_bit(st.bbox_bitmap, g as int) {
                    spec_try_bbox(st.bbox, c2.bbox)
                } else {
                    spanned
                };
                match bbox {
                    None => Err(GlyfDecoderError::Truncated),
                    Some((b, pos)) => Ok(
                        (
                            GlyfCursor { bbox: pos, ..c2 },
                            out + spec_u16_bytes(spec_u16_of(n)) + spec_bbox_bytes(b) + o.end_points
                                + spec_u16_bytes(len) + instructions + o.flags + o.xs + o.ys,
                        ),
                    ),
                }
            },
        },
    }
}

/// The arrays and running values of a simple glyph while its points are read.
pub struct OutlineBuilder {
    pub end_points: Vec<u8>,
    pub flags: Vec<u8>,
    pub xs: Vec<u8>,
    pub ys: Vec<u8>,
    pub total_points: u16,
    pub x: i16,
    pub y: i16,
    pub x_min: i16,
    pub y_min: i16,
    pub x_max: i16,
    pub y_max: i16,
    pub extents_set: bool,
}

impl View for OutlineBuilder {
    type V = Outline;

    open spec fn view(&self) -> Outline {
        Outline {
            end_points: self.end_points@,
            flags: self.flags@,
            xs: self.xs@,
            ys: self.ys@,
            total_points: self.total_points,
            x: self.x,
            y: self.y,
            x_min: self.x_min,
            y_min: self.y_min,
            x_max: self.x_max,
            y_max: self.y_max,
            extents_set: self.extents_set,
        }
    }
}

/// Appends the bytes of one coordinate delta and gives its flag bits.
fn push_delta(stream: &mut Vec<u8>, d: i16, short_bit: u8, same_bit: u8) -> (flags: u8)
    ensures
        final(stream)@ == old(stream)@ + spec_delta_bytes(d),
        flags == spec_delta_flags(d, short_bit, same_bit),
{
    if d == 0 {
        assert(stream@ =~= old(stream)@ + spec_delta_bytes(d));
        same_bit
    } else if 1 <= d && d <= 255 {
        stream.push(d as u8);
        assert(stream@ =~= old(stream)@ + spec_delta_bytes(d));
        short_bit | same_bit
    } else if -255 <= d && d <= -1 {
        stream.push((-d) as u8);
        assert(stream@ =~= old(stream)@ + spec_delta_bytes(d));
        short_bit
    } else {
        put_i16(stream, d);
        0
    }
}

fn wrapping_add_i16(a: i16, b: i16) -> (r: i16)
    ensures
        r == spec_wrapping_add_i16(a, b),
{
    let s: i32 = a as i32 + b as i32;
    if s > 0x7FFF {
        (s - 0x1_0000) as i16
    } else if s < -0x8000 {
        (s + 0x1_0000) as i16
    } else {
        s as i16
    }
}

/// Reads `byte_count` bytes as one big-endian number.
fn try_get_packed(stream: &mut ByteCursor, byte_count: u8) -> (r: Result<u32, TruncatedError>)
    requires
        old(stream).wf(),
        1 <= byte_count <= 4,
    ensures
        final(stream).wf(),
        final(stream).data@ == old(stream).data@,
        match r {
            Ok(v) => spec_try_packed(old(stream).data@, old(stream).pos as int, byte_count)
                == Some((v, final(stream).pos as int)),
            Err(_) => spec_try_packed(old(stream).data@, old(stream).pos as int, byte_count)
                .is_none() && final(stream).pos == old(stream).pos,
        },
{
    if byte_count == 1 {
        match stream.try_get_u8() {
            Ok(b) => Ok(b as u32),
            Err(e) => Err(e),
        }
    } else if byte_count == 2 {
        match stream.try_get_u16() {
            Ok(w) => Ok(w as u32),
            Err(e) => Err(e),
        }
    } else if byte_count == 3 {
        if stream.remaining() < 3 {
            return Err(TruncatedError {  });
        }
        let b = match stream.try_get_u8() {
            Ok(b) => b,
            Err(e) => {
                return Err(e);
            },
        };
        match stream.try_get_u16() {
            Ok(w) => Ok(b as u32 * 0x1_0000 + w as u32),
            Err(e) => Err(e),
        }
    } else {
        stream.try_get_u32()
    }
}

/// Reads the four `i16`s of a bounding box.
fn try_get_bbox(stream: &mut ByteCursor) -> (r: Result<(i16, i16, i16, i16), TruncatedError>)
    requires
        old(stream).wf(),
    ensures
        final(stream).wf(),
        final(stream).data@ == old(stream).data@,
        match r {
            Ok(b) => spec_try_bbox(old(stream).data@, old(stream).pos as int) == Some(
                (BBox { x_min: b.0, y_min: b.1, x_max: b.2, y_max: b.3 }, final(stream).pos as int),
            ),
            Err(_) => spec_try_bbox(old(stream).data@, old(stream).pos as int).is_none(),
        },
{
    proof {
        reveal(spec_try_bbox);
    }
    let x_min = match stream.try_get_i16() {
        Ok(v) => v,
        Err(e) => {
            return Err(e);
        },
    };
    let y_min = match stream.try_get_i16() {
        Ok(v) => v,
        Err(e) => {
            return Err(e);
        },
    };
    let x_max = match stream.try_get_i16() {
        Ok(v) => v,
        Err(e) => {
            return Err(e);
        },
    };
    let y_max = match stream.try_get_i16() {
        Ok(v) => v,
        Err(e) => {
            return Err(e);
        },
    };
    Ok((x_min, y_min, x_max, y_max))
}

impl OutlineBuilder {
    /// An outline without points.
    pub fn new() -> (o: Self)
        ensures
            o@ == spec_outline_start(),
    {
        OutlineBuilder {
            end_points: Vec::new(),
            flags: Vec::new(),
            xs: Vec::new(),
            ys: Vec::new(),
            total_points: 0,
            x: 0,
            y: 0,
            x_min: 0,
            y_min: 0,
            x_max: 0,
            y_max: 0,
            extents_set: false,
        }
    }

    /// Takes in a contour's number of points.
    pub fn start_contour(&mut self, number_of_points: u16)
        ensures
            final(self)@ == spec_start_contour(old(self)@, number_of_points),
    {
        proof {
            reveal(spec_start_contour);
        }
        self.total_points = self.total_points.wrapping_add(number_of_points);
        put_u16(&mut self.end_points, self.total_points.wrapping_sub(1));
    }

    /// Takes in one point.
    pub fn add_point(&mut self, on_curve: bool, dx: i16, dy: i16, overlap: u8)
        ensures
            final(self)@ == spec_add_point(old(self)@, on_curve, dx, dy, overlap),
    {
        proof {
            reveal(spec_add_point);
        }
        let x = wrapping_add_i16(self.x, dx);
        let y = wrapping_add_i16(self.y, dy);
        if self.extents_set {
            if x < self.x_min {
                self.x_min = x;
            }
            if y < self.y_min {
                self.y_min = y;
            }
            if x > self.x_max {
                self.x_max = x;
            }
            if y > self.y_max {
                self.y_max = y;
            }
        } else {
            self.x_min = x;
            self.x_max = x;
            self.y_min = y;
            self.y_max = y;
            self.extents_set = true;
        }
        self.x = x;
        self.y = y;
        let on_curve_flag: u8 = if on_curve { 0x01 } else { 0x00 };
        let x_flags = push_delta(&mut self.xs, dx, 0x02, 0x10);
        let y_flags = push_delta(&mut self.ys, dy, 0x04, 0x20);
        self.flags.push(on_curve_flag | x_flags | y_flags | overlap);
    }
}

// ---------------------------------------------------------------------------
// Composite glyphs
// ---------------------------------------------------------------------------

/// The bytes that follow a component's flag word: two arguments of one byte
/// each, or of two where bit 0 is set, and a scale of two bytes (bit 3), two
/// scales (bit 6) or a two-by-two matrix (bit 7).
pub open spec fn spec_component_size(flag_word: u16) -> int {
    4 + (if flag_word & 0x0001 == 0x0001 { 2int } else { 0int })
        + (if flag_word & 0x0008 == 0x0008 {
        2int
    } else if flag_word & 0x0040 == 0x0040 {
        4int
    } else if flag_word & 0x0080 == 0x0080 {
        8int
    } else {
        0int
    })
}

/// The components of a composite glyph, from the composite stream: each one
/// is a flag word and the bytes that follow it, copied as they are; bit 5 of
/// the flag word says that another component follows, bit 8 that the glyph
/// has instructions. `have` says whether an earlier component had bit 8 set.
pub open spec fn spec_components(st: GlyfStreams, c: GlyfCursor, out: Seq<u8>, have: bool)
    -> Result<(GlyfCursor, Seq<u8>, bool), GlyfDecoderError>
    decreases st.composite.len() - c.composite,
{
    match spec_try_u16(st.composite, c.composite) {
        None => Err(GlyfDecoderError::Truncated),
        Some((flag_word, pos)) => {
            let size = spec_component_size(flag_word);
            if pos + size > st.composite.len() {
                Err(GlyfDecoderError::Truncated)
            } else {
                let c1 = GlyfCursor { composite: pos + size, ..c };
                let out1 = out + spec_u16_bytes(flag_word) + st.composite.subrange(pos, pos + size);
                let have1 = have || flag_word & 0x0100 == 0x0100;
                if flag_word & 0x0020 == 0 {
                    Ok((c1, out1, have1))
                } else {
                    spec_components(st, c1, out1, have1)
                }
            }
        },
    }
}

/// A composite glyph, appended to `out`: -1 for the number of contours, the
/// bounding box from the bbox stream, which the bbox bitmap must announce,
/// the components and, where one of them says so, the instructions with
/// their length.
#[verifier::opaque]
pub open spec fn spec_composite_glyph(st: GlyfStreams, c: GlyfCursor, out: Seq<u8>, g: u16)
    -> Result<(GlyfCursor, Seq<u8>), GlyfDecoderError> {
    if !spec_msb0_bit(st.bbox_bitmap, g as int) {
        Err(GlyfDecoderError::CompositeGlyphWithoutBbox)
    } else {
        match spec_try_bbox(st.bbox, c.bbox) {
            None => Err(GlyfDecoderError::Truncated),
            Some((b, pos)) => match spec_components(
                st,
                GlyfCursor { bbox: pos, ..c },
                out + spec_u16_bytes(0xFFFF) + spec_bbox_bytes(b),
                false,
            ) {
                Err(e) => Err(e),
                Ok((c1, out1, have)) => if have {
                    match spec_instructions(st, c1) {
                        Err(e) => Err(e),
                        Ok((c2, len, instructions)) => Ok(
                            (c2, out1 + spec_u16_bytes(len) + instructions),
                        ),
                    }
                } else {
                    Ok((c1, out1))
                },
            },
        }
    }
}

// ---------------------------------------------------------------------------
// All glyphs
// ---------------------------------------------------------------------------

/// Glyph `g`, appended to `out`: its number of contours, an `i16` from the
/// contour stream, says that it is empty (0, no bytes), simple (above 0) or
/// composite (below 0).
#[verifier::opaque]
pub open spec fn spec_glyph(st: GlyfStreams, c: GlyfCursor, out: Seq<u8>, g: u16) -> Result<
    (GlyfCursor, Seq<u8>),
    GlyfDecoderError,
> {
    match spec_try_i16(st.n_contour, c.n_contour) {
        None => Err(GlyfDecoderError::Truncated),
        Some((n, pos)) => {
            let c1 = GlyfCursor { n_contour: pos, ..c };
            if n == 0 {
                Ok((c1, out))
            } else if n > 0 {
                spec_simple_glyph(st, c1, out, n, g)
            } else {
                spec_composite_glyph(st, c1, out, g)
            }
        },
    }
}

/// The `loca` entry for a glyph that starts at `offset`: the offset as a
/// `u32` in the long format, half of it as a `u16` in the short format
/// (index format 0).
#[verifier::opaque]
pub open spec fn spec_loca_entry(st: GlyfStreams, offset: nat) -> Result<
    Seq<u8>,
    GlyfDecoderError,
> {
    if st.index_format > 0 {
        if offset <= u32::MAX {
            Ok(spec_u32_bytes(offset as u32))
        } else {
            Err(GlyfDecoderError::OffsetOverflow)
        }
    } else {
        if offset / 2 <= u16::MAX {
            Ok(spec_u16_bytes((offset / 2) as u16))
        } else {
            Err(GlyfDecoderError::OffsetOverflow)
        }
    }
}

/// The glyphs from `g` on: for each, its `loca` entry, its bytes, and zeros
/// up to a multiple of four.
pub open spec fn spec_glyphs(st: GlyfStreams, c: GlyfCursor, glyf: Seq<u8>, loca: Seq<u8>, g: nat)
    -> Result<(GlyfCursor, Seq<u8>, Seq<u8>), GlyfDecoderError>
    decreases st.num_glyphs - g,
{
    if g >= st.num_glyphs {
        Ok((c, glyf, loca))
    } else {
        match spec_loca_entry(st, glyf.len()) {
            Err(e) => Err(e),
            Ok(entry) => match spec_glyph(st, c, glyf, g as u16) {
                Err(e) => Err(e),
                Ok((c1, glyf1)) => spec_glyphs(
                    st,
                    c1,
                    glyf1 + zeros(pad_len(glyf1.len())),
                    loca + entry,
                    g + 1,
                ),
            },
        }
    }
}

/// The `glyf` and `loca` tables of all glyphs: after the last glyph `loca`
/// gets one more entry, the length of `glyf`.
pub open spec fn spec_all_glyphs(st: GlyfStreams, c: GlyfCursor) -> Result<
    (GlyfCursor, Seq<u8>, Seq<u8>),
    GlyfDecoderError,
> {
    match spec_glyphs(st, c, Seq::empty(), Seq::empty(), 0) {
        Err(e) => Err(e),
        Ok((c1, glyf, loca)) => match spec_loca_entry(st, glyf.len()) {
            Err(e) => Err(e),
            Ok(entry) => Ok((c1, glyf, loca + entry)),
        },
    }
}

/// The `glyf` and `loca` tables that the transformed table `t` stands for.
/// A table whose substreams hold more than its glyphs take is rejected.
pub open spec fn spec_decode_glyf(t: Seq<u8>) -> Result<(Seq<u8>, Seq<u8>), GlyfDecoderError> {
    match spec_glyf_streams(t) {
        Err(e) => Err(e),
        Ok(st) => match spec_all_glyphs(st, spec_cursor_start()) {
            Err(e) => Err(e),
            Ok((c, glyf, loca)) => if spec_has_read_all(st, c) {
                Ok((glyf, loca))
            } else {
                Err(GlyfDecoderError::ExtraData)
            },
        },
    }
}

impl<'a> Woff2GlyfDecoder<'a> {
    /// Whether the bbox bitmap has the bit of glyph `glyph_index` set.
    fn has_bbox(&self, glyph_index: u16) -> (r: bool)
        requires
            self.wf(),
            glyph_index < self.num_glyphs,
        ensures
            r == spec_msb0_bit(self.streams().bbox_bitmap, glyph_index as int),
    {
        msb0_bit(self.bbox_bitmap, glyph_index as usize)
    }

    /// The overlap bit for the flags of glyph `glyph_index`.
    fn overlap_flag(&self, glyph_index: u16) -> (r: u8)
        requires
            self.wf(),
            glyph_index < self.num_glyphs,
        ensures
            r == spec_overlap_flag(self.streams(), glyph_index),
    {
        match self.overlap_bitmap {
            Some(bitmap) => if msb0_bit(bitmap, glyph_index as usize) {
                0x40
            } else {
                0x00
            },
            None => 0x00,
        }
    }

    /// Reads one point into the outline.
    fn parse_point(&mut self, outline: &mut OutlineBuilder, overlap: u8) -> (r: Result<
        (),
        GlyfDecoderError,
    >)
        requires
            old(self).wf(),
        ensures
            final(self).wf(),
            final(self).streams() == old(self).streams(),
            match r {
                Ok(_) => spec_point(old(self).streams(), old(self).cursor(), old(outline)@, overlap)
                    == Ok::<_, GlyfDecoderError>((final(self).cursor(), final(outline)@)),
                Err(e) => spec_point(old(self).streams(), old(self).cursor(), old(outline)@, overlap)
                    == Err::<(GlyfCursor, Outline), _>(e),
            },
    {
        proof {
            reveal(spec_point);
        }
        let flags = match self.flag_stream.try_get_u8() {
            Ok(v) => v,
            Err(e) => {
                return Err(GlyfDecoderError::from(e));
            },
        };
        let triplet = coord_lut(flags % 128);
        let data = match try_get_packed(&mut self.glyph_stream, triplet.byte_count) {
            Ok(v) => v,
            Err(e) => {
                return Err(GlyfDecoderError::from(e));
            },
        };
        let dx = triplet.dx(data);
        let dy = triplet.dy(data);
        outline.add_point(flags < 128, dx, dy, overlap);
        Ok(())
    }

    /// Reads one contour into the outline.
    #[verifier::loop_isolation(false)]
    fn parse_contour(&mut self, outline: &mut OutlineBuilder, overlap: u8) -> (r: Result<
        (),
        GlyfDecoderError,
    >)
        requires
            old(self).wf(),
        ensures
            final(self).wf(),
            final(self).streams() == old(self).streams(),
            match r {
                Ok(_) => spec_contour(
                    old(self).streams(),
                    old(self).cursor(),
                    old(outline)@,
                    overlap,
                ) == Ok::<_, GlyfDecoderError>((final(self).cursor(), final(outline)@)),
                Err(e) => spec_contour(
                    old(self).streams(),
                    old(self).cursor(),
                    old(outline)@,
                    overlap,
                ) == Err::<(GlyfCursor, Outline), _>(e),
            },
    {
        proof {
            reveal(spec_contour);
        }
        let number_of_points = match self.n_points_stream.try_get_255_u16() {
            Ok(v) => v,
            Err(e) => {
                return Err(GlyfDecoderError::from(e));
            },
        };
        outline.start_contour(number_of_points);
        let ghost st = self.streams();
        let ghost c0 = self.cursor();
        let ghost o0 = outline@;
        let mut i: u16 = 0;
        while i < number_of_points
            invariant
                i <= number_of_points,
                self.wf(),
                self.streams() == st,
                spec_points(st, c0, o0, overlap, number_of_points as nat) == spec_points(
                    st,
                    self.cursor(),
                    outline@,
                    overlap,
                    (number_of_points - i) as nat,
                ),
            decreases number_of_points - i,
        {
            match self.parse_point(outline, overlap) {
                Ok(_) => {},
                Err(e) => {
                    return Err(e);
                },
            }
            i = i + 1;
        }
        Ok(())
    }

    /// Reads a glyph's instructions: their length from the glyph stream, and
    /// the bytes from the instruction stream.
    fn parse_instructions(&mut self) -> (r: Result<(u16, Vec<u8>), GlyfDecoderError>)
        requires
            old(self).wf(),
        ensures
            final(self).wf(),
            final(self).streams() == old(self).streams(),
            match r {
                Ok((len, bytes)) => spec_instructions(old(self).streams(), old(self).cursor())
                    == Ok::<_, GlyfDecoderError>((final(self).cursor(), len, bytes@)),
                Err(e) => spec_instructions(old(self).streams(), old(self).cursor()) == Err::<
                    (GlyfCursor, u16, Seq<u8>),
                    _,
                >(e),
            },
    {
        proof {
            reveal(spec_instructions);
        }
        let instruction_length = match self.glyph_stream.try_get_255_u16() {
            Ok(v) => v,
            Err(e) => {
                return Err(GlyfDecoderError::from(e));
            },
        };
        let mut instructions: Vec<u8> = Vec::new();
        match self.instruction_stream.try_copy_to_buf(
            &mut instructions,
            instruction_length as usize,
        ) {
            Ok(_) => {},
            Err(e) => {
                return Err(GlyfDecoderError::from(e));
            },
        }
        assert(instructions@ =~= self.instruction_stream.data@.subrange(
            old(self).instruction_stream.pos as int,
            old(self).instruction_stream.pos + instruction_length,
        ));
        Ok((instruction_length, instructions))
    }

    /// Decodes a simple glyph and appends it to the output.
    #[verifier::loop_isolation(false)]
    pub fn parse_simple_glyph(
        &mut self,
        number_of_contours: i16,
        glyph_index: u16,
        output_buffer: &mut Vec<u8>,
    ) -> (r: Result<(), GlyfDecoderError>)
        requires
            old(self).wf(),
            glyph_index < old(self).num_glyphs,
        ensures
            final(self).wf(),
            final(self).streams() == old(self).streams(),
            match r {
                Ok(_) => spec_simple_glyph(
                    old(self).streams(),
                    old(self).cursor(),
                    old(output_buffer)@,
                    number_of_contours,
                    glyph_index,
                ) == Ok::<_, GlyfDecoderError>((final(self).cursor(), final(output_buffer)@)),
                Err(e) => spec_simple_glyph(
                    old(self).streams(),
                    old(self).cursor(),
                    old(output_buffer)@,
                    number_of_contours,
                    glyph_index,
                ) == Err::<(GlyfCursor, Seq<u8>), _>(e),
            },
    {
        proof {
            reveal(spec_simple_glyph);
        }
        let overlap_simple_flag = self.overlap_flag(glyph_index);
        let mut outline = OutlineBuilder::new();
        let ghost st = self.streams();
        let ghost c0 = self.cursor();
        let ghost count = if number_of_contours > 0 { number_of_contours as nat } else { 0nat };
        let mut i: i16 = 0;
        while i < number_of_contours
            invariant
                0 <= i <= count,
                count == if number_of_contours > 0 { number_of_contours as nat } else { 0nat },
                self.wf(),
                self.streams() == st,
                self.num_glyphs == old(self).num_glyphs,
                spec_contours(st, c0, spec_outline_start(), overlap_simple_flag, count)
                    == spec_contours(
                    st,
                    self.cursor(),
                    outline@,
                    overlap_simple_flag,
                    (count - i) as nat,
                ),
            decreases number_of_contours - i,
        {
            match self.parse_contour(&mut outline, overlap_simple_flag) {
                Ok(_) => {},
                Err(e) => {
                    return Err(e);
                },
            }
            i = i + 1;
        }
        let (instruction_length, instructions) = match self.parse_instructions() {
            Ok(v) => v,
            Err(e) => {
                return Err(e);
            },
        };
        let mut bbox = (outline.x_min, outline.y_min, outline.x_max, outline.y_max);
        if self.has_bbox(glyph_index) {
            bbox = match try_get_bbox(&mut self.bbox_stream) {
                Ok(b) => b,
                Err(e) => {
                    return Err(GlyfDecoderError::from(e));
                },
            };
        }
        put_i16(output_buffer, number_of_contours);
        put_bbox(output_buffer, bbox);
        put_slice(output_buffer, outline.end_points.as_slice());
        put_u16(output_buffer, instruction_length);
        put_slice(output_buffer, instructions.as_slice());
        put_slice(output_buffer, outline.flags.as_slice());
        put_slice(output_buffer, outline.xs.as_slice());
        put_slice(output_buffer, outline.ys.as_slice());
        Ok(())
    }

    /// Decodes a composite glyph and appends it to the output.
    #[verifier::loop_isolation(false)]
    pub fn parse_composite_glyph(&mut self, glyph_index: u16, output_buffer: &mut Vec<u8>) -> (r:
        Result<(), GlyfDecoderError>)
        requires
            old(self).wf(),
            glyph_index < old(self).num_glyphs,
        ensures
            final(self).wf(),
            final(self).streams() == old(self).streams(),
            match r {
                Ok(_) => spec_composite_glyph(
                    old(self).streams(),
                    old(self).cursor(),
                    old(output_buffer)@,
                    glyph_index,
                ) == Ok::<_, GlyfDecoderError>((final(self).cursor(), final(output_buffer)@)),
                Err(e) => spec_composite_glyph(
                    old(self).streams(),
                    old(self).cursor(),
                    old(output_buffer)@,
                    glyph_index,
                ) == Err::<(GlyfCursor, Seq<u8>), _>(e),
            },
    {
        proof {
            reveal(spec_composite_glyph);
        }
        if !self.has_bbox(glyph_index) {
            return Err(GlyfDecoderError::CompositeGlyphWithoutBbox);
        }
        let bbox = match try_get_bbox(&mut self.bbox_stream) {
            Ok(b) => b,
            Err(e) => {
                return Err(GlyfDecoderError::from(e));
            },
        };
        put_u16(output_buffer, 0xFFFF);
        put_bbox(output_buffer, bbox);
        let ghost st = self.streams();
        let ghost c0 = self.cursor();
        let ghost out0 = output_buffer@;
        let mut have_instructions = false;
        let mut more = true;
        while more
            invariant
                self.wf(),
                self.streams() == st,
                more ==> spec_components(st, c0, out0, false) == spec_components(
                    st,
                    self.cursor(),
                    output_buffer@,
                    have_instructions,
                ),
                !more ==> spec_components(st, c0, out0, false) == Ok::<_, GlyfDecoderError>(
                    (self.cursor(), output_buffer@, have_instructions),
                ),
            decreases
                    self.composite_stream.data@.len() - self.composite_stream.pos + if more {
                        1int
                    } else {
                        0int
                    },
        {
            let flag_word = match self.composite_stream.try_get_u16() {
                Ok(v) => v,
                Err(e) => {
                    return Err(GlyfDecoderError::from(e));
                },
            };
            let mut num_bytes: usize = 4;
            if flag_word & 0x0001 == 0x0001 {
                num_bytes = num_bytes + 2;
            }
            if flag_word & 0x0008 == 0x0008 {
                num_bytes = num_bytes + 2;
            } else if flag_word & 0x0040 == 0x0040 {
                num_bytes = num_bytes + 4;
            } else if flag_word & 0x0080 == 0x0080 {
                num_bytes = num_bytes + 8;
            }
            put_u16(output_buffer, flag_word);
            match self.composite_stream.try_copy_to_buf(output_buffer, num_bytes) {
                Ok(_) => {},
                Err(e) => {
                    return Err(GlyfDecoderError::from(e));
                },
            }
            if flag_word & 0x0100 == 0x0100 {
                have_instructions = true;
            }
            if flag_word & 0x0020 == 0 {
                more = false;
            }
        }
        if have_instructions {
            let (instruction_length, instructions) = match self.parse_instructions() {
                Ok(v) => v,
                Err(e) => {
                    return Err(e);
                },
            };
            put_u16(output_buffer, instruction_length);
            put_slice(output_buffer, instructions.as_slice());
        }
        Ok(())
    }

    /// Decodes the next glyph, of index `glyph_index`, and appends it to the
    /// output.
    pub fn parse_next_glyph(&mut self, glyph_index: u16, output_vector: &mut Vec<u8>) -> (r: Result<
        (),
        GlyfDecoderError,
    >)
        requires
            old(self).wf(),
            glyph_index < old(self).num_glyphs,
        ensures
            final(self).wf(),
            final(self).streams() == old(self).streams(),
            match r {
                Ok(_) => spec_glyph(
                    old(self).streams(),
                    old(self).cursor(),
                    old(output_vector)@,
                    glyph_index,
                ) == Ok::<_, GlyfDecoderError>((final(self).cursor(), final(output_vector)@)),
                Err(e) => spec_glyph(
                    old(self).streams(),
                    old(self).cursor(),
                    old(output_vector)@,
                    glyph_index,
                ) == Err::<(GlyfCursor, Seq<u8>), _>(e),
            },
    {
        proof {
            reveal(spec_glyph);
        }
        let number_of_contours = match self.n_contour_stream.try_get_i16() {
            Ok(v) => v,
            Err(e) => {
                return Err(GlyfDecoderError::from(e));
            },
        };
        if number_of_contours == 0 {
            Ok(())
        } else if number_of_contours > 0 {
            self.parse_simple_glyph(number_of_contours, glyph_index, output_vector)
        } else {
            self.parse_composite_glyph(glyph_index, output_vector)
        }
    }

    /// Appends to `loca` the entry for a glyph that starts at `offset`.
    fn put_loca_entry(&self, loca: &mut Vec<u8>, offset: usize) -> (r: Result<
        (),
        GlyfDecoderError,
    >)
        ensures
            match r {
                Ok(_) => spec_loca_entry(self.streams(), offset as nat) == Ok::<
                    _,
                    GlyfDecoderError,
                >(final(loca)@.subrange(old(loca)@.len() as int, final(loca)@.len() as int))
                    && final(loca)@.subrange(0, old(loca)@.len() as int) == old(loca)@
                    && final(loca)@.len() >= old(loca)@.len(),
                Err(e) => spec_loca_entry(self.streams(), offset as nat) == Err::<Seq<u8>, _>(e),
            },
    {
        proof {
            reveal(spec_loca_entry);
        }
        if self.index_format > 0 {
            if offset > 0xFFFF_FFFF {
                return Err(GlyfDecoderError::OffsetOverflow);
            }
            put_u32(loca, offset as u32);
            assert(loca@.subrange(old(loca)@.len() as int, loca@.len() as int) =~= spec_u32_bytes(
                offset as u32,
            ));
        } else {
            if offset / 2 > 0xFFFF {
                return Err(GlyfDecoderError::OffsetOverflow);
            }
            put_u16(loca, (offset / 2) as u16);
            assert(loca@.subrange(old(loca)@.len() as int, loca@.len() as int) =~= spec_u16_bytes(
                (offset / 2) as u16,
            ));
        }
        assert(loca@.subrange(0, old(loca)@.len() as int) =~= old(loca)@);
        Ok(())
    }

    /// Decodes all glyphs, and gives the `glyf` table and the `loca` table.
    #[verifier::loop_isolation(false)]
    pub fn parse_all_glyphs(&mut self) -> (r: Result<(Vec<u8>, Vec<u8>), GlyfDecoderError>)
        requires
            old(self).wf(),
        ensures
            final(self).wf(),
            final(self).streams() == old(self).streams(),
            match r {
                Ok((glyf, loca)) => spec_all_glyphs(old(self).streams(), old(self).cursor())
                    == Ok::<_, GlyfDecoderError>((final(self).cursor(), glyf@, loca@)),
                Err(e) => spec_all_glyphs(old(self).streams(), old(self).cursor()) == Err::<
                    (GlyfCursor, Seq<u8>, Seq<u8>),
                    _,
                >(e),
            },
    {
        let mut output_glyf_table: Vec<u8> = Vec::new();
        let mut output_loca_table: Vec<u8> = Vec::new();
        let ghost st = self.streams();
        let ghost c0 = self.cursor();
        let mut glyph_index: u16 = 0;
        while glyph_index < self.num_glyphs
            invariant
                glyph_index <= self.num_glyphs,
                self.wf(),
                self.streams() == st,
                spec_glyphs(st, c0, Seq::empty(), Seq::empty(), 0) == spec_glyphs(
                    st,
                    self.cursor(),
                    output_glyf_table@,
                    output_loca_table@,
                    glyph_index as nat,
                ),
            decreases self.num_glyphs - glyph_index,
        {
            let ghost loca_before = output_loca_table@;
            match self.put_loca_entry(&mut output_loca_table, output_glyf_table.len()) {
                Ok(_) => {},
                Err(e) => {
                    return Err(e);
                },
            }
            proof {
                let entry = output_loca_table@.subrange(
                    loca_before.len() as int,
                    output_loca_table@.len() as int,
                );
                assert(output_loca_table@ =~= loca_before + entry);
            }
            match self.parse_next_glyph(glyph_index, &mut output_glyf_table) {
                Ok(_) => {},
                Err(e) => {
                    return Err(e);
                },
            }
            pad_to_multiple_of_four(&mut output_glyf_table);
            glyph_index = glyph_index + 1;
        }
        let ghost loca_before = output_loca_table@;
        match self.put_loca_entry(&mut output_loca_table, output_glyf_table.len()) {
            Ok(_) => {},
            Err(e) => {
                return Err(e);
            },
        }
        proof {
            let entry = output_loca_table@.subrange(
                loca_before.len() as int,
                output_loca_table@.len() as int,
            );
            assert(output_loca_table@ =~= loca_before + entry);
        }
        Ok((output_glyf_table, output_loca_table))
    }
}

/// Appends the eight bytes of a bounding box.
fn put_bbox(buffer: &mut Vec<u8>, bbox: (i16, i16, i16, i16))
    ensures
        final(buffer)@ == old(buffer)@ + spec_bbox_bytes(
            BBox { x_min: bbox.0, y_min: bbox.1, x_max: bbox.2, y_max: bbox.3 },
        ),
{
    put_i16(buffer, bbox.0);
    put_i16(buffer, bbox.1);
    put_i16(buffer, bbox.2);
    put_i16(buffer, bbox.3);
    assert(buffer@ =~= old(buffer)@ + spec_bbox_bytes(
        BBox { x_min: bbox.0, y_min: bbox.1, x_max: bbox.2, y_max: bbox.3 },
    ));
}

/// Decodes a transformed `glyf` table into the `glyf` table and the `loca`
/// table that it stands for.
pub fn decode_glyf_table(glyf_table: &[u8]) -> (r: Result<(Vec<u8>, Vec<u8>), GlyfDecoderError>)
    ensures
        match r {
            Ok((glyf, loca)) => spec_decode_glyf(glyf_table@) == Ok::<_, GlyfDecoderError>(
                (glyf@, loca@),
            ),
            Err(e) => spec_decode_glyf(glyf_table@) == Err::<(Seq<u8>, Seq<u8>), _>(e),
        },
{
    let mut decoder = match Woff2GlyfDecoder::new(glyf_table) {
        Ok(d) => d,
        Err(e) => {
            return Err(e);
        },
    };
    let res = match decoder.parse_all_glyphs() {
        Ok(v) => v,
        Err(e) => {
            return Err(e);
        },
    };
    if decoder.has_read_all() {
        Ok(res)
    } else {
        Err(GlyfDecoderError::ExtraData)
    }
}

// ---------------------------------------------------------------------------
// The shape of what comes out
// ---------------------------------------------------------------------------

/// Every glyph ends at a multiple of four, and `loca` gets one entry for
/// each glyph: four bytes in the long format, two in the short one.
pub proof fn lemma_glyphs_shape(
    st: GlyfStreams,
    c: GlyfCursor,
    glyf: Seq<u8>,
    loca: Seq<u8>,
    g: nat,
)
    requires
        glyf.len() % 4 == 0,
        g <= st.num_glyphs,
    ensures
        match spec_glyphs(st, c, glyf, loca, g) {
            Ok((c1, glyf1, loca1)) => glyf1.len() % 4 == 0 && loca1.len() == loca.len() + (
            if st.index_format > 0 {
                4 * (st.num_glyphs - g)
            } else {
                2 * (st.num_glyphs - g)
            }),
            Err(_) => true,
        },
    decreases st.num_glyphs - g,
{
    reveal(spec_loca_entry);
    if g < st.num_glyphs {
        match spec_loca_entry(st, glyf.len()) {
            Ok(entry) => {
                match spec_glyph(st, c, glyf, g as u16) {
                    Ok((c1, glyf1)) => {
                        let padded = glyf1 + zeros(pad_len(glyf1.len()));
                        assert(padded.len() % 4 == 0);
                        lemma_glyphs_shape(st, c1, padded, loca + entry, g + 1);
                    },
                    Err(_) => {},
                }
            },
            Err(_) => {},
        }
    }
}

/// The `glyf` table that is decoded has a length that is a multiple of
/// four, and the `loca` table one entry more than there are glyphs.
pub proof fn lemma_decode_glyf_shape(t: Seq<u8>)
    ensures
        match (spec_decode_glyf(t), spec_glyf_streams(t)) {
            (Ok((glyf, loca)), Ok(st)) => glyf.len() % 4 == 0 && loca.len() == (if st.index_format
                > 0 {
                4 * (st.num_glyphs + 1)
            } else {
                2 * (st.num_glyphs + 1)
            }),
            (Ok(_), Err(_)) => false,
            (Err(_), _) => true,
        },
{
    reveal(spec_loca_entry);
    match spec_glyf_streams(t) {
        Ok(st) => {
            lemma_glyphs_shape(st, spec_cursor_start(), Seq::empty(), Seq::empty(), 0);
        },
        Err(_) => {},
    }
}

} // verus!
