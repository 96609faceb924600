//! Decoding WOFF2 files: from the bytes of a WOFF2 file to the bytes of the
//! OpenType font, or font collection, that it stands for.

use vstd::prelude::*;
use vstd::slice::slice_subrange;
use vstd::string::StringExecFns;
use crate::buffer_util::{put_slice, zeros, ByteCursor};
use crate::checksum::{
    calculate_font_checksum_adjustment, font_checksum_adjustment, lemma_checksum_adjusted,
    spec_patch_u32, table_checksum, ChecksumError, CHECKSUM_MINUEND,
};
use crate::magic_numbers::{
    Tag, HEAD_TAG, TTF_CFF_FLAVOR, TTF_COLLECTION_FLAVOR, TTF_TRUE_TYPE_FLAVOR, WOFF2_SIGNATURE,
};
use crate::ttf_header::{
    calculate_header_size, lemma_find_table, lemma_sort_by_tag, lemma_table_directory_bytes_len,
    spec_find_table_from, spec_header_size, spec_sort_by_tag, spec_table_directory_bytes,
    TableDirectory, TableRecord,
};
use crate::woff2::collection_directory::{
    lemma_collection_bytes_len, spec_collection_bytes, spec_collection_header,
    spec_collection_header_size, spec_directories_size, spec_fonts_wf, CollectionHeader,
    CollectionHeaderError, FontModel,
};
use crate::woff2::header::{spec_woff2_header, Woff2Header, Woff2HeaderError};
use crate::woff2::table_directory::{
    lemma_tiles_within, lemma_write_tables_ok, spec_directory, spec_record_ok, spec_records_ok,
    spec_tiles, spec_write_tables, TableDirectoryEntry, TableDirectoryError, Woff2TableDirectory,
    WriteTablesError,
};

verus! {

/// Why a WOFF2 file could not be decoded.
#[derive(Debug, PartialEq, Eq)]
pub enum DecodeError {
    /// The file breaks the format; the text says how.
    Invalid(String),
    /// The file uses a feature that this decoder does not have.
    Unsupported(&'static str),
}

/// A `DecodeError` with its texts as sequences of characters.
pub enum DecodeFailure {
    Invalid(Seq<char>),
    Unsupported(Seq<char>),
}

impl View for DecodeError {
    type V = DecodeFailure;

    open spec fn view(&self) -> DecodeFailure {
        match self {
            DecodeError::Invalid(m) => DecodeFailure::Invalid(m@),
            DecodeError::Unsupported(f) => DecodeFailure::Unsupported(f@),
        }
    }
}

impl DecodeError {
    /// The error for tables that could not be written: a feature that the
    /// decoder lacks is unsupported; with every other error the file is
    /// invalid, and the text is that of the error.
    pub open spec fn spec_from_write_tables_error(e: WriteTablesError) -> DecodeFailure {
        match e {
            WriteTablesError::Unsupported(feature) => DecodeFailure::Unsupported(feature@),
            _ => DecodeFailure::Invalid(e.spec_message()),
        }
    }

    /// What the error says.
    pub open spec fn spec_message(self) -> Seq<char> {
        match self {
            DecodeError::Invalid(m) => "Invalid Woff2 File "@ + m@,
            DecodeError::Unsupported(f) => "Unsupported feature "@ + f@,
        }
    }

    /// The text of the error.
    pub fn message(&self) -> (m: String)
        ensures
            m@ == self.spec_message(),
    {
        match self {
            DecodeError::Invalid(m) => "Invalid Woff2 File ".to_owned().concat(m.as_str()),
            DecodeError::Unsupported(f) => "Unsupported feature ".to_owned().concat(f),
        }
    }

    /// A `head` table too short for its checksum adjustment makes the file invalid.
    pub fn from_checksum_error(e: ChecksumError) -> (r: Self)
        ensures
            r@ == DecodeFailure::Invalid(e.spec_message()),
    {
        DecodeError::Invalid(e.message())
    }

    /// A rejected collection directory makes the file invalid.
    pub fn from_collection_header_error(e: CollectionHeaderError) -> (r: Self)
        ensures
            r@ == DecodeFailure::Invalid(e.spec_message()),
    {
        DecodeError::Invalid(e.message())
    }

    /// A rejected table directory makes the file invalid.
    pub fn from_table_directory_error(e: TableDirectoryError) -> (r: Self)
        ensures
            r@ == DecodeFailure::Invalid(e.spec_message()),
    {
        DecodeError::Invalid(e.message())
    }

    /// A rejected header makes the file invalid.
    pub fn from_woff2_header_error(e: Woff2HeaderError) -> (r: Self)
        ensures
            r@ == DecodeFailure::Invalid(e.spec_message()),
    {
        DecodeError::Invalid(e.message())
    }

    /// The error for tables that could not be written.
    pub fn from_write_tables_error(e: WriteTablesError) -> (r: Self)
        ensures
            r@ == Self::spec_from_write_tables_error(e),
    {
        match e {
            WriteTablesError::Unsupported(feature) => DecodeError::Unsupported(feature),
            _ => DecodeError::Invalid(e.message()),
        }
    }
}

/// Whether the bytes start with the signature of WOFF2, `wOF2`.
pub open spec fn spec_is_woff2(s: Seq<u8>) -> bool {
    s.len() >= 4 && s[0] == 0x77 && s[1] == 0x4F && s[2] == 0x46 && s[3] == 0x32
}

/// Returns whether the buffer starts with the WOFF2 magic number.
pub fn is_woff2(input_buffer: &[u8]) -> (r: bool)
    ensures
        r == spec_is_woff2(input_buffer@),
{
    input_buffer.len() >= 4 && input_buffer[0] == 0x77 && input_buffer[1] == 0x4F
        && input_buffer[2] == 0x46 && input_buffer[3] == 0x32
}

// ---------------------------------------------------------------------------
// What stands before the compressed stream
// ---------------------------------------------------------------------------

/// The header and the directories of a WOFF2 file, and where its
/// compressed stream starts.
pub struct FrontModel {
    pub header: Woff2Header,
    pub tables: Seq<TableDirectoryEntry>,
    pub uncompressed_length: u32,
    pub fonts: Option<Seq<FontModel>>,
    pub stream_start: int,
}

/// The header and the directories of a WOFF2 file, and where its
/// compressed stream starts.
pub struct Woff2Front {
    pub header: Woff2Header,
    pub table_directory: Woff2TableDirectory,
    pub collection_header: Option<CollectionHeader>,
    pub stream_start: usize,
}

impl View for Woff2Front {
    type V = FrontModel;

    open spec fn view(&self) -> FrontModel {
        FrontModel {
            header: self.header,
            tables: self.table_directory.tables@,
            uncompressed_length: self.table_directory.uncompressed_length,
            fonts: match self.collection_header {
                Some(h) => Some(h.spec_fonts()),
                None => None,
            },
            stream_start: self.stream_start as int,
        }
    }
}

impl Woff2Front {
    /// The tables lie back to back in the decompressed data, and the fonts
    /// of a collection point into the table directory.
    pub open spec fn wf(&self) -> bool {
        &&& self.table_directory.wf()
        &&& self.table_directory.tables@.len() <= u16::MAX
        &&& match self.collection_header {
            Some(h) => spec_fonts_wf(h.spec_fonts(), self.table_directory.tables@.len() as int),
            None => true,
        }
    }
}

/// Whether the flavor is one of a font collection, of CFF outlines or of
/// TrueType outlines.
pub open spec fn spec_known_flavor(flavor: Tag) -> bool {
    flavor.0 == TTF_COLLECTION_FLAVOR || flavor.0 == TTF_CFF_FLAVOR || flavor.0
        == TTF_TRUE_TYPE_FLAVOR
}

/// The front of the file `input`: the header, whose signature must be
/// `wOF2` and whose flavor must be a known one; the table directory; and,
/// for the flavor `ttcf`, the collection directory.
pub open spec fn spec_parse_front(input: Seq<u8>) -> Result<FrontModel, DecodeFailure> {
    match spec_woff2_header(input, 0) {
        None => Err(DecodeFailure::Invalid(Woff2HeaderError::Truncated.spec_message())),
        Some(header) => if header.signature.0 != WOFF2_SIGNATURE {
            Err(DecodeFailure::Invalid(Woff2HeaderError::InvalidMagicWord.spec_message()))
        } else if !spec_known_flavor(header.flavor) {
            Err(DecodeFailure::Invalid("Invalid font flavor"@))
        } else {
            match spec_directory(input, 48, header.num_tables) {
                Err(e) => Err(DecodeFailure::Invalid(e.spec_message())),
                Ok((tables, uncompressed_length, pos)) => if header.flavor.0
                    == TTF_COLLECTION_FLAVOR {
                    match spec_collection_header(input, pos, header.num_tables) {
                        Err(e) => Err(DecodeFailure::Invalid(e.spec_message())),
                        Ok((version, fonts, stream_start)) => Ok(
                            FrontModel {
                                header,
                                tables,
                                uncompressed_length,
                                fonts: Some(fonts),
                                stream_start,
                            },
                        ),
                    }
                } else {
                    Ok(
                        FrontModel {
                            header,
                            tables,
                            uncompressed_length,
                            fonts: None,
                            stream_start: pos,
                        },
                    )
                },
            }
        },
    }
}

/// Whether the file `input` has a front, and that of a single font, not of
/// a collection.
pub open spec fn spec_is_single_font(input: Seq<u8>) -> bool {
    match spec_parse_front(input) {
        Ok(front) => front.fonts.is_none(),
        Err(_) => false,
    }
}

/// Reads the header and the directories of a WOFF2 file.
pub fn parse_front(input_buffer: &[u8]) -> (r: Result<Woff2Front, DecodeError>)
    ensures
        match r {
            Ok(front) => spec_parse_front(input_buffer@) == Ok::<_, DecodeFailure>(front@)
                && front.wf() && front.stream_start <= input_buffer@.len(),
            Err(e) => spec_parse_front(input_buffer@) == Err::<FrontModel, _>(e@),
        },
{
    let mut buffer = ByteCursor::new(input_buffer);
    let header = match Woff2Header::from_buf(&mut buffer) {
        Ok(h) => h,
        Err(e) => {
            return Err(DecodeError::from_woff2_header_error(e));
        },
    };
    match header.is_valid_header() {
        Ok(_) => {},
        Err(e) => {
            return Err(DecodeError::from_woff2_header_error(e));
        },
    }
    if !(header.flavor.0 == TTF_COLLECTION_FLAVOR || header.flavor.0 == TTF_CFF_FLAVOR
        || header.flavor.0 == TTF_TRUE_TYPE_FLAVOR) {
        return Err(DecodeError::Invalid("Invalid font flavor".to_owned()));
    }
    let table_directory = match Woff2TableDirectory::from_buf(&mut buffer, header.num_tables) {
        Ok(d) => d,
        Err(e) => {
            return Err(DecodeError::from_table_directory_error(e));
        },
    };
    let collection_header = if header.flavor.0 == TTF_COLLECTION_FLAVOR {
        match CollectionHeader::from_buf(&mut buffer, header.num_tables) {
            Ok(h) => Some(h),
            Err(e) => {
                return Err(DecodeError::from_collection_header_error(e));
            },
        }
    } else {
        None
    };
    Ok(Woff2Front { header, table_directory, collection_header, stream_start: buffer.pos })
}

// ---------------------------------------------------------------------------
// The compressed stream
// ---------------------------------------------------------------------------

/// What the Brotli decompressor makes of the bytes `input`: the
/// decompressed bytes and the number of bytes of `input` that it took, or
/// the text of its error.
pub uninterp spec fn brotli_decompressed(input: Seq<u8>) -> Result<(Seq<u8>, nat), Seq<char>>;

/// Decompresses with `brotli::BrotliDecompress`, which reads `input`
/// through a `std::io::Cursor`, in pieces of up to 4096 bytes, until the
/// stream ends. Nothing is claimed of the result but that it depends on the
/// bytes of `input` alone: it is `brotli_decompressed` of them. The bytes
/// taken are the position of the cursor afterwards; an error is given as
/// its text.
#[verifier::external_body]
fn brotli_decompress(input: &[u8]) -> (r: Result<(Vec<u8>, usize), String>)
    ensures
        match r {
            Ok((decompressed, taken)) => brotli_decompressed(input@) == Ok::<_, Seq<char>>(
                (decompressed@, taken as nat),
            ),
            Err(m) => brotli_decompressed(input@) == Err::<(Seq<u8>, nat), _>(m@),
        },
{
    let mut reader = std::io::Cursor::new(input);
    let mut decompressed: Vec<u8> = Vec::new();
    match brotli::BrotliDecompress(&mut reader, &mut decompressed) {
        Ok(()) => Ok((decompressed, reader.position() as usize)),
        Err(e) => Err(e.to_string()),
    }
}

// ---------------------------------------------------------------------------
// Putting the font together
// ---------------------------------------------------------------------------

/// Whether the font, or some font of the collection, has 4096 tables or
/// more: too many for the search range of a table directory, which is a
/// `u16`.
#[verifier::opaque]
pub open spec fn spec_too_many_tables(front: FrontModel) -> bool {
    match front.fonts {
        Some(fonts) => exists|i: int|
            0 <= i < fonts.len() && (#[trigger] fonts[i]).table_indices.len() >= 4096,
        None => front.tables.len() >= 4096,
    }
}

/// The size of what stands before the tables in the font: the header of
/// the collection with the table directories of its fonts, or the table
/// directory of the one font.
pub open spec fn spec_header_end(front: FrontModel) -> nat {
    match front.fonts {
        Some(fonts) => spec_collection_header_size(fonts),
        None => spec_header_size(front.tables.len()),
    }
}

/// The font with its checksum adjustment: the table directory and the
/// tables `body`, and in the `head` table, the first of that tag in the
/// sorted directory, the adjustment of the whole. A font without a `head`
/// table is invalid.
#[verifier::opaque]
pub open spec fn spec_single_font(flavor: Tag, records: Seq<TableRecord>, body: Seq<u8>) -> Result<
    Seq<u8>,
    DecodeFailure,
> {
    match spec_find_table_from(spec_sort_by_tag(records), Tag(HEAD_TAG), 0) {
        None => Err(DecodeFailure::Invalid("Missing `head` table"@)),
        Some(head) => {
            let font = spec_table_directory_bytes(flavor, records) + body;
            Ok(spec_patch_u32(font, head.offset + 8, font_checksum_adjustment(font)))
        },
    }
}

/// The font that the front of a WOFF2 file and its decompressed tables
/// stand for, `taken` bytes of the file having been decompressed:
/// - `taken` must be one more than the compressed size that the header gives;
/// - the decompressed data must hold all the tables of the directory;
/// - no font may have 4096 tables or more;
/// - the tables are written behind the place of the header, as
///   `spec_write_tables` says;
/// - a collection gets its header, a single font its table directory and
///   its checksum adjustment.
pub open spec fn spec_assemble(front: FrontModel, decompressed: Seq<u8>, taken: nat) -> Result<
    Seq<u8>,
    DecodeFailure,
> {
    if taken != front.header.total_compressed_size + 1 {
        Err(DecodeFailure::Invalid("Compressed stream size does not match header"@))
    } else if decompressed.len() < front.uncompressed_length {
        Err(DecodeFailure::Invalid("Decompressed stream shorter than the tables"@))
    } else if spec_too_many_tables(front) {
        Err(DecodeFailure::Invalid("Too many tables"@))
    } else {
        let header_end = spec_header_end(front);
        match spec_write_tables(front.tables, decompressed, zeros(header_end), Seq::empty(), 0) {
            Err(e) => Err(DecodeError::spec_from_write_tables_error(e)),
            Ok((out, records)) => {
                let body = out.subrange(header_end as int, out.len() as int);
                match front.fonts {
                    Some(fonts) => Ok(spec_collection_bytes(fonts, records) + body),
                    None => spec_single_font(front.header.flavor, records, body),
                }
            },
        }
    }
}

/// The font that the WOFF2 file `input` stands for: its front is read, what
/// follows the front is decompressed, and the font is put together.
pub open spec fn spec_convert(input: Seq<u8>) -> Result<Seq<u8>, DecodeFailure> {
    match spec_parse_front(input) {
        Err(e) => Err(e),
        Ok(front) => match brotli_decompressed(
            input.subrange(front.stream_start, input.len() as int),
        ) {
            Err(m) => Err(DecodeFailure::Invalid(m)),
            Ok((decompressed, taken)) => spec_assemble(front, decompressed, taken),
        },
    }
}

/// A buffer of `n` zero bytes.
fn zero_buffer(n: usize) -> (buffer: Vec<u8>)
    ensures
        buffer@ == zeros(n as nat),
{
    let mut buffer: Vec<u8> = Vec::new();
    let mut i: usize = 0;
    while i < n
        invariant
            i <= n,
            buffer@ =~= zeros(i as nat),
        decreases n - i,
    {
        buffer.push(0u8);
        i = i + 1;
    }
    buffer
}

/// Writes `value` over the four bytes from `at` on.
fn patch_u32(buffer: &mut Vec<u8>, at: usize, value: u32)
    requires
        at + 4 <= old(buffer)@.len(),
    ensures
        final(buffer)@ == spec_patch_u32(old(buffer)@, at as int, value),
{
    let _len = buffer.len();
    buffer.set(at, (value / 0x100_0000) as u8);
    buffer.set(at + 1, ((value / 0x1_0000) % 0x100) as u8);
    buffer.set(at + 2, ((value / 0x100) % 0x100) as u8);
    buffer.set(at + 3, (value % 0x100) as u8);
    assert(buffer@ =~= spec_patch_u32(old(buffer)@, at as int, value));
}

/// Whether the font, or some font of the collection, has 4096 tables or more.
#[verifier::loop_isolation(false)]
fn too_many_tables(front: &Woff2Front) -> (r: bool)
    ensures
        r == spec_too_many_tables(front@),
{
    proof {
        reveal(spec_too_many_tables);
    }
    match &front.collection_header {
        Some(h) => {
            assert(front@.fonts == Some(h.spec_fonts()));
            let mut i: usize = 0;
            while i < h.fonts.len()
                invariant
                    i <= h.fonts@.len(),
                    forall|k: int|
                        0 <= k < i ==> (#[trigger] h.spec_fonts()[k]).table_indices.len() < 4096,
                decreases h.fonts@.len() - i,
            {
                assert(h.spec_fonts()[i as int] == h.fonts@[i as int]@);
                if h.fonts[i].table_indices.len() >= 4096 {
                    proof {
                        let fonts = front@.fonts.unwrap();
                        assert(0 <= i < fonts.len() && fonts[i as int].table_indices.len()
                            >= 4096);
                    }
                    return true;
                }
                i = i + 1;
            }
            false
        },
        None => front.table_directory.tables.len() >= 4096,
    }
}

/// The collection's header is smaller than 2^32 bytes where no font has
/// 4096 tables or more.
proof fn lemma_collection_header_size_bound(fonts: Seq<FontModel>)
    requires
        forall|i: int| 0 <= i < fonts.len() ==> (#[trigger] fonts[i]).table_indices.len() < 4096,
    ensures
        spec_directories_size(fonts) <= 65532 * fonts.len(),
        spec_directories_size(fonts) % 4 == 0,
    decreases fonts.len(),
{
    if fonts.len() > 0 {
        assert forall|i: int| 0 <= i < fonts.drop_last().len() implies (
        #[trigger] fonts.drop_last()[i]).table_indices.len() < 4096 by {
            assert(fonts.drop_last()[i] == fonts[i]);
        }
        lemma_collection_header_size_bound(fonts.drop_last());
    }
}

/// In a single font whose records are right, the `head` table that the
/// sorted directory finds first lies wholly within the font, and with the
/// adjustment written into it the font has the checksum `0xB1B0AFBA`.
pub proof fn lemma_single_font_checksum(
    flavor: Tag,
    records: Seq<TableRecord>,
    out: Seq<u8>,
    header_end: int,
    head: TableRecord,
)
    requires
        header_end == spec_header_size(records.len()),
        header_end <= out.len(),
        spec_records_ok(out, records, header_end),
        spec_find_table_from(spec_sort_by_tag(records), Tag(HEAD_TAG), 0) == Some(head),
    ensures
        head.offset + 12 <= out.len(),
        head.offset + head.length <= out.len(),
        (spec_table_directory_bytes(flavor, records) + out.subrange(
            header_end,
            out.len() as int,
        )).len() == out.len(),
        table_checksum(
            spec_patch_u32(
                spec_table_directory_bytes(flavor, records) + out.subrange(
                    header_end,
                    out.len() as int,
                ),
                head.offset + 8,
                font_checksum_adjustment(
                    spec_table_directory_bytes(flavor, records) + out.subrange(
                        header_end,
                        out.len() as int,
                    ),
                ),
            ),
        ) == CHECKSUM_MINUEND,
{
    let body = out.subrange(header_end, out.len() as int);
    let font = spec_table_directory_bytes(flavor, records) + body;
    lemma_table_directory_bytes_len(flavor, records);
    lemma_sort_by_tag(records);
    let sorted = spec_sort_by_tag(records);
    lemma_find_table(sorted, Tag(HEAD_TAG), 0);
    assert(sorted.contains(head));
    lemma_head_is_a_record(records, head);
    let k = choose|k: int| 0 <= k < records.len() && records[k] == head;
    assert(spec_record_ok(out, records[k], header_end));
    assert(font.len() == out.len());
    assert forall|j: int| head.offset + 8 <= j < head.offset + 12 implies font[j] == 0 by {
        assert(font[j] == body[j - header_end]);
        assert(body[j - header_end] == out[j]);
    }
    lemma_checksum_adjusted(font, head.offset + 8);
}

/// The font starts with the table directory of the records, and every
/// record points at a multiple of four behind the directory and within the
/// font.
pub open spec fn spec_font_layout(font: Seq<u8>, flavor: Tag, records: Seq<TableRecord>) -> bool {
    &&& spec_header_size(records.len()) <= font.len()
    &&& font.subrange(0, spec_header_size(records.len()) as int) == spec_table_directory_bytes(
        flavor,
        records,
    )
    &&& forall|k: int|
        0 <= k < records.len() ==> (#[trigger] records[k]).offset % 4 == 0 && spec_header_size(
            records.len(),
        ) <= records[k].offset && records[k].offset + records[k].length <= font.len()
}

/// A single font that is put together has the checksum `0xB1B0AFBA` and a
/// length that is a multiple of four; it starts with the table directory,
/// whose records are sorted by tag, and each of its tables lies at a
/// multiple of four.
pub proof fn lemma_assembled_single_font(front: FrontModel, decompressed: Seq<u8>, taken: nat)
    requires
        front.fonts.is_none(),
        spec_tiles(front.tables, front.uncompressed_length as int),
    ensures
        match spec_assemble(front, decompressed, taken) {
            Ok(font) => table_checksum(font) == CHECKSUM_MINUEND && font.len() % 4 == 0
                && match spec_write_tables(
                front.tables,
                decompressed,
                zeros(spec_header_end(front)),
                Seq::empty(),
                0,
            ) {
                Ok((out, records)) => spec_font_layout(font, front.header.flavor, records)
                    && records.len() == front.tables.len(),
                Err(_) => false,
            },
            Err(_) => true,
        },
{
    let header_end = spec_header_end(front);
    let flavor = front.header.flavor;
    match spec_assemble(front, decompressed, taken) {
        Ok(font) => {
            reveal(spec_single_font);
            lemma_tiles_within(front.tables, front.uncompressed_length as int);
            let start = zeros(header_end);
            assert(spec_records_ok(start, Seq::<TableRecord>::empty(), header_end as int));
            lemma_write_tables_ok(
                front.tables,
                decompressed,
                start,
                Seq::empty(),
                0,
                header_end as int,
            );
            match spec_write_tables(front.tables, decompressed, start, Seq::empty(), 0) {
                Ok((out, records)) => {
                    let body = out.subrange(header_end as int, out.len() as int);
                    let whole = spec_table_directory_bytes(flavor, records) + body;
                    let head = spec_find_table_from(
                        spec_sort_by_tag(records),
                        Tag(HEAD_TAG),
                        0,
                    ).unwrap();
                    lemma_single_font_checksum(flavor, records, out, header_end as int, head);
                    lemma_table_directory_bytes_len(flavor, records);
                    lemma_find_table(spec_sort_by_tag(records), Tag(HEAD_TAG), 0);
                    lemma_head_is_a_record(records, head);
                    assert(font == spec_patch_u32(
                        whole,
                        head.offset + 8,
                        font_checksum_adjustment(whole),
                    ));
                    assert(font.subrange(0, header_end as int) =~= spec_table_directory_bytes(
                        flavor,
                        records,
                    ));
                },
                Err(_) => {},
            }
        },
        Err(_) => {},
    }
}

/// A collection that is put together has a length that is a multiple of
/// four; it starts with the header of the collection and the table
/// directories of its fonts, and each table of the file lies behind them, at
/// a multiple of four, with the checksum that its record gives.
pub proof fn lemma_assembled_collection(front: FrontModel, decompressed: Seq<u8>, taken: nat)
    requires
        front.fonts.is_some(),
        spec_tiles(front.tables, front.uncompressed_length as int),
    ensures
        match spec_assemble(front, decompressed, taken) {
            Ok(font) => font.len() % 4 == 0 && match spec_write_tables(
                front.tables,
                decompressed,
                zeros(spec_header_end(front)),
                Seq::empty(),
                0,
            ) {
                Ok((out, records)) => font.subrange(0, spec_header_end(front) as int)
                    == spec_collection_bytes(front.fonts.unwrap(), records) && spec_records_ok(
                    font,
                    records,
                    spec_header_end(front) as int,
                ) && records.len() == front.tables.len(),
                Err(_) => false,
            },
            Err(_) => true,
        },
{
    let header_end = spec_header_end(front);
    let fonts = front.fonts.unwrap();
    match spec_assemble(front, decompressed, taken) {
        Ok(font) => {
            reveal(spec_too_many_tables);
            lemma_tiles_within(front.tables, front.uncompressed_length as int);
            lemma_collection_header_size_bound(fonts);
            let start = zeros(header_end);
            assert(spec_records_ok(start, Seq::<TableRecord>::empty(), header_end as int));
            lemma_write_tables_ok(
                front.tables,
                decompressed,
                start,
                Seq::empty(),
                0,
                header_end as int,
            );
            match spec_write_tables(front.tables, decompressed, start, Seq::empty(), 0) {
                Ok((out, records)) => {
                    let body = out.subrange(header_end as int, out.len() as int);
                    lemma_collection_bytes_len(fonts, records);
                    assert(font == spec_collection_bytes(fonts, records) + body);
                    assert(font.subrange(0, header_end as int) =~= spec_collection_bytes(
                        fonts,
                        records,
                    ));
                    assert forall|k: int| 0 <= k < records.len() implies spec_record_ok(
                        font,
                        #[trigger] records[k],
                        header_end as int,
                    ) by {
                        let r = records[k];
                        assert(spec_record_ok(out, r, header_end as int));
                        assert(font.subrange(r.offset as int, r.offset + r.length)
                            =~= out.subrange(r.offset as int, r.offset + r.length));
                        assert forall|j: int| r.offset + 8 <= j < r.offset + 12 && r.tag.0
                            == HEAD_TAG implies font[j] == 0 by {
                            assert(font[j] == body[j - header_end]);
                        }
                    }
                },
                Err(_) => {},
            }
        },
        Err(_) => {},
    }
}

/// A record that the sorted directory holds is one of the records.
proof fn lemma_head_is_a_record(records: Seq<TableRecord>, head: TableRecord)
    requires
        spec_sort_by_tag(records).contains(head),
    ensures
        records.contains(head),
{
    broadcast use vstd::seq_lib::to_multiset_contains;

    lemma_sort_by_tag(records);
    let sorted = spec_sort_by_tag(records);
    assert(sorted.to_multiset().count(head) > 0);
    assert(records.to_multiset().count(head) > 0);
}

/// Writes a single font: the table directory, the tables that lie behind
/// the place of the header in `out_buffer`, and the checksum adjustment.
fn write_single_font(
    flavor: Tag,
    ttf_tables: Vec<TableRecord>,
    out_buffer: &Vec<u8>,
    header_end: usize,
) -> (r: Result<Vec<u8>, DecodeError>)
    requires
        ttf_tables@.len() < 4096,
        header_end == spec_header_size(ttf_tables@.len()),
        header_end <= out_buffer@.len(),
        spec_records_ok(out_buffer@, ttf_tables@, header_end as int),
    ensures
        match r {
            Ok(font) => spec_single_font(
                flavor,
                ttf_tables@,
                out_buffer@.subrange(header_end as int, out_buffer@.len() as int),
            ) == Ok::<_, DecodeFailure>(font@) && table_checksum(font@) == CHECKSUM_MINUEND,
            Err(e) => spec_single_font(
                flavor,
                ttf_tables@,
                out_buffer@.subrange(header_end as int, out_buffer@.len() as int),
            ) == Err::<Seq<u8>, _>(e@),
        },
{
    let ghost out = out_buffer@;
    let ghost records = ttf_tables@;
    let ghost body = out.subrange(header_end as int, out.len() as int);
    proof {
        reveal(spec_single_font);
    }
    if ttf_tables.len() == 0 {
        assert(spec_sort_by_tag(records) =~= Seq::empty());
        return Err(DecodeError::Invalid("Missing `head` table".to_owned()));
    }
    let mut font: Vec<u8> = Vec::new();
    let ttf_header = TableDirectory::new(flavor, ttf_tables);
    ttf_header.write_to_buf(&mut font);
    put_slice(&mut font, slice_subrange(out_buffer.as_slice(), header_end, out_buffer.len()));
    // calculate the font's checksum adjustment and store it in the `head` table
    let head_table_record = match ttf_header.find_table(Tag(HEAD_TAG)) {
        Some(r) => r,
        None => {
            return Err(DecodeError::Invalid("Missing `head` table".to_owned()));
        },
    };
    proof {
        lemma_single_font_checksum(flavor, records, out, header_end as int, head_table_record);
    }
    let checksum_adjustment = calculate_font_checksum_adjustment(font.as_slice());
    let _len = out_buffer.len();
    let (head_start, _head_end) = head_table_record.get_range();
    patch_u32(&mut font, head_start + 8, checksum_adjustment);
    Ok(font)
}

/// Puts the font together from the front of a WOFF2 file and its
/// decompressed tables, `compressed_size` bytes of the file having been
/// decompressed. A single font that comes out of it has the checksum
/// `0xB1B0AFBA`.
pub fn assemble_font(front: &Woff2Front, decompressed_tables: &[u8], compressed_size: usize) -> (r:
    Result<Vec<u8>, DecodeError>)
    requires
        front.wf(),
    ensures
        match r {
            Ok(font) => spec_assemble(front@, decompressed_tables@, compressed_size as nat)
                == Ok::<_, DecodeFailure>(font@) && (front.collection_header.is_none()
                ==> table_checksum(font@) == CHECKSUM_MINUEND),
            Err(e) => spec_assemble(front@, decompressed_tables@, compressed_size as nat) == Err::<
                Seq<u8>,
                _,
            >(e@),
        },
{
    if compressed_size as u64 != front.header.total_compressed_size as u64 + 1 {
        return Err(
            DecodeError::Invalid("Compressed stream size does not match header".to_owned()),
        );
    }
    if (decompressed_tables.len() as u64) < front.table_directory.uncompressed_length as u64 {
        return Err(
            DecodeError::Invalid("Decompressed stream shorter than the tables".to_owned()),
        );
    }
    if too_many_tables(front) {
        return Err(DecodeError::Invalid("Too many tables".to_owned()));
    }
    proof {
        lemma_tiles_within(
            front.table_directory.tables@,
            front.table_directory.uncompressed_length as int,
        );
        reveal(spec_too_many_tables);
        if front.collection_header.is_some() {
            lemma_collection_header_size_bound(front@.fonts.unwrap());
        }
    }
    // the place of the header, which is written once the tables lie where
    // its records point
    let header_end: usize = match &front.collection_header {
        Some(h) => h.calculate_header_size(),
        None => calculate_header_size(front.table_directory.tables.len()),
    };
    let mut out_buffer = zero_buffer(header_end);
    let ttf_tables = match front.table_directory.write_to_buf(
        &mut out_buffer,
        decompressed_tables,
    ) {
        Ok(t) => t,
        Err(e) => {
            return Err(DecodeError::from_write_tables_error(e));
        },
    };
    let ghost out = out_buffer@;
    let ghost records = ttf_tables@;
    let ghost body = out.subrange(header_end as int, out.len() as int);
    let mut font: Vec<u8> = Vec::new();
    match &front.collection_header {
        Some(h) => {
            h.write_to_buf(&mut font, ttf_tables.as_slice());
            put_slice(&mut font, slice_subrange(out_buffer.as_slice(), header_end, out_buffer.len()));
            Ok(font)
        },
        None => write_single_font(front.header.flavor, ttf_tables, &out_buffer, header_end),
    }
}

/// Two conversions of the same bytes end alike: with the same font, or
/// with the same error.
pub proof fn lemma_convert_deterministic(
    input: Seq<u8>,
    first: Result<Seq<u8>, DecodeFailure>,
    second: Result<Seq<u8>, DecodeFailure>,
)
    requires
        first == spec_convert(input),
        second == spec_convert(input),
    ensures
        first == second,
{
}

/// Converts the WOFF2 font in `input_buffer` into an OpenType font. A single
/// font that comes out of it has the checksum `0xB1B0AFBA`.
pub fn convert_woff2_to_ttf(input_buffer: &[u8]) -> (r: Result<Vec<u8>, DecodeError>)
    ensures
        match r {
            Ok(font) => spec_convert(input_buffer@) == Ok::<_, DecodeFailure>(font@) && (
            spec_is_single_font(input_buffer@) ==> table_checksum(font@) == CHECKSUM_MINUEND),
            Err(e) => spec_convert(input_buffer@) == Err::<Seq<u8>, _>(e@),
        },
{
    let front = match parse_front(input_buffer) {
        Ok(f) => f,
        Err(e) => {
            return Err(e);
        },
    };
    let stream = slice_subrange(input_buffer, front.stream_start, input_buffer.len());
    let (decompressed_tables, compressed_size) = match brotli_decompress(stream) {
        Ok(p) => p,
        Err(m) => {
            return Err(DecodeError::Invalid(m));
        },
    };
    assemble_font(&front, decompressed_tables.as_slice(), compressed_size)
}

} // verus!
