//! The WOFF2 table directory, and the tables that it stands for.

use vstd::prelude::*;
use vstd::slice::{slice_subrange, slice_to_vec};
use vstd::string::StringExecFns;
use crate::buffer_util::{
    pad_len, pad_to_multiple_of_four, put_slice, spec_try_base_128, spec_try_u32, spec_try_u8,
    zeros, Base128Error, ByteCursor,
};
use crate::checksum::{
    calculate_checksum, set_checksum_adjustment, spec_patch_u32, table_checksum, ChecksumError,
};
use crate::glyf_decoder::{decode_glyf_table, spec_decode_glyf, GlyfDecoderError};
use crate::magic_numbers::{Tag, GLYF_TAG, HEAD_TAG, HMTX_TAG, LOCA_TAG};
use crate::ttf_header::TableRecord;

verus! {

#[derive(Debug, Clone, Copy, PartialEq, Eq)]
pub enum TableDirectoryError {
    Truncated,
    InvalidNumeric,
}

impl TableDirectoryError {
    /// The directory's error for a rejected base-128 integer: truncated
    /// where the integer was, else an invalid number.
    pub open spec fn spec_from(e: Base128Error) -> TableDirectoryError {
        match e {
            Base128Error::Truncated => TableDirectoryError::Truncated,
            _ => TableDirectoryError::InvalidNumeric,
        }
    }

    /// The directory's error for a rejected base-128 integer.
    pub fn from(e: Base128Error) -> (r: Self)
        ensures
            r == Self::spec_from(e),
    {
        match e {
            Base128Error::Truncated => TableDirectoryError::Truncated,
            _ => TableDirectoryError::InvalidNumeric,
        }
    }

    /// What the error says.
    pub open spec fn spec_message(self) -> Seq<char> {
        match self {
            TableDirectoryError::Truncated => "Table Directory truncated"@,
            TableDirectoryError::InvalidNumeric => "Invalid numeric value"@,
        }
    }

    /// The text of the error.
    pub fn message(&self) -> (m: String)
        ensures
            m@ == self.spec_message(),
    {
        match self {
            TableDirectoryError::Truncated => "Table Directory truncated".to_owned(),
            TableDirectoryError::InvalidNumeric => "Invalid numeric value".to_owned(),
        }
    }
}

/// The tag that an index below 63 stands for in a directory entry.
pub open spec fn spec_known_table_tag(index: u8) -> u32 {
    if index == 0 {
        // cmap
        0x636D_6170
    } else if index == 1 {
        // head
        0x6865_6164
    } else if index == 2 {
        // hhea
        0x6868_6561
    } else if index == 3 {
        // hmtx
        0x686D_7478
    } else if index == 4 {
        // maxp
        0x6D61_7870
    } else if index == 5 {
        // name
        0x6E61_6D65
    } else if index == 6 {
        // OS/2
        0x4F53_2F32
    } else if index == 7 {
        // post
        0x706F_7374
    } else if index == 8 {
        // cvt 
        0x6376_7420
    } else if index == 9 {
        // fpgm
        0x6670_676D
    } else if index == 10 {
        // glyf
        0x676C_7966
    } else if index == 11 {
        // loca
        0x6C6F_6361
    } else if index == 12 {
        // prep
        0x7072_6570
    } else if index == 13 {
        // CFF 
        0x4346_4620
    } else if index == 14 {
        // VORG
        0x564F_5247
    } else if index == 15 {
        // EBDT
        0x4542_4454
    } else if index == 16 {
        // EBLC
        0x4542_4C43
    } else if index == 17 {
        // gasp
        0x6761_7370
    } else if index == 18 {
        // hdmx
        0x6864_6D78
    } else if index == 19 {
        // kern
        0x6B65_726E
    } else if index == 20 {
        // LTSH
        0x4C54_5348
    } else if index == 21 {
        // PCLT
        0x5043_4C54
    } else if index == 22 {
        // VDMX
        0x5644_4D58
    } else if index == 23 {
        // vhea
        0x7668_6561
    } else if index == 24 {
        // vmtx
        0x766D_7478
    } else if index == 25 {
        // BASE
        0x4241_5345
    } else if index == 26 {
        // GDEF
        0x4744_4546
    } else if index == 27 {
        // GPOS
        0x4750_4F53
    } else if index == 28 {
        // GSUB
        0x4753_5542
    } else if index == 29 {
        // EBSC
        0x4542_5343
    } else if index == 30 {
        // JSTF
        0x4A53_5446
    } else if index == 31 {
        // MATH
        0x4D41_5448
    } else if index == 32 {
        // CBDT
        0x4342_4454
    } else if index == 33 {
        // CBLC
        0x4342_4C43
    } else if index == 34 {
        // COLR
        0x434F_4C52
    } else if index == 35 {
        // CPAL
        0x4350_414C
    } else if index == 36 {
        // SVG 
        0x5356_4720
    } else if index == 37 {
        // sbix
        0x7362_6978
    } else if index == 38 {
        // acnt
        0x6163_6E74
    } else if index == 39 {
        // avar
        0x6176_6172
    } else if index == 40 {
        // bdat
        0x6264_6174
    } else if index == 41 {
        // bloc
        0x626C_6F63
    } else if index == 42 {
        // bsln
        0x6273_6C6E
    } else if index == 43 {
        // cvar
        0x6376_6172
    } else if index == 44 {
        // fdsc
        0x6664_7363
    } else if index == 45 {
        // feat
        0x6665_6174
    } else if index == 46 {
        // fmtx
        0x666D_7478
    } else if index == 47 {
        // fvar
        0x6676_6172
    } else if index == 48 {
        // gvar
        0x6776_6172
    } else if index == 49 {
        // hsty
        0x6873_7479
    } else if index == 50 {
        // just
        0x6A75_7374
    } else if index == 51 {
        // lcar
        0x6C63_6172
    } else if index == 52 {
        // mort
        0x6D6F_7274
    } else if index == 53 {
        // morx
        0x6D6F_7278
    } else if index == 54 {
        // opbd
        0x6F70_6264
    } else if index == 55 {
        // prop
        0x7072_6F70
    } else if index == 56 {
        // trak
        0x7472_616B
    } else if index == 57 {
        // Zapf
        0x5A61_7066
    } else if index == 58 {
        // Silf
        0x5369_6C66
    } else if index == 59 {
        // Glat
        0x476C_6174
    } else if index == 60 {
        // Gloc
        0x476C_6F63
    } else if index == 61 {
        // Feat
        0x4665_6174
    } else {
        // Sill
        0x5369_6C6C
    }
}

/// Looks up the tag that an index below 63 stands for.
pub fn known_table_tag(index: u8) -> (tag: Tag)
    requires
        index < 63,
    ensures
        tag.0 == spec_known_table_tag(index),
{
    Tag(match index {
        0 => 0x636D_6170,
        1 => 0x6865_6164,
        2 => 0x6868_6561,
        3 => 0x686D_7478,
        4 => 0x6D61_7870,
        5 => 0x6E61_6D65,
        6 => 0x4F53_2F32,
        7 => 0x706F_7374,
        8 => 0x6376_7420,
        9 => 0x6670_676D,
        10 => 0x676C_7966,
        11 => 0x6C6F_6361,
        12 => 0x7072_6570,
        13 => 0x4346_4620,
        14 => 0x564F_5247,
        15 => 0x4542_4454,
        16 => 0x4542_4C43,
        17 => 0x6761_7370,
        18 => 0x6864_6D78,
        19 => 0x6B65_726E,
        20 => 0x4C54_5348,
        21 => 0x5043_4C54,
        22 => 0x5644_4D58,
        23 => 0x7668_6561,
        24 => 0x766D_7478,
        25 => 0x4241_5345,
        26 => 0x4744_4546,
        27 => 0x4750_4F53,
        28 => 0x4753_5542,
        29 => 0x4542_5343,
        30 => 0x4A53_5446,
        31 => 0x4D41_5448,
        32 => 0x4342_4454,
        33 => 0x4342_4C43,
        34 => 0x434F_4C52,
        35 => 0x4350_414C,
        36 => 0x5356_4720,
        37 => 0x7362_6978,
        38 => 0x6163_6E74,
        39 => 0x6176_6172,
        40 => 0x6264_6174,
        41 => 0x626C_6F63,
        42 => 0x6273_6C6E,
        43 => 0x6376_6172,
        44 => 0x6664_7363,
        45 => 0x6665_6174,
        46 => 0x666D_7478,
        47 => 0x6676_6172,
        48 => 0x6776_6172,
        49 => 0x6873_7479,
        50 => 0x6A75_7374,
        51 => 0x6C63_6172,
        52 => 0x6D6F_7274,
        53 => 0x6D6F_7278,
        54 => 0x6F70_6264,
        55 => 0x7072_6F70,
        56 => 0x7472_616B,
        57 => 0x5A61_7066,
        58 => 0x5369_6C66,
        59 => 0x476C_6174,
        60 => 0x476C_6F63,
        61 => 0x4665_6174,
        _ => 0x5369_6C6C,
    })
}

/// A WOFF2 table directory entry.
#[derive(Debug, Copy, Clone)]
pub struct TableDirectoryEntry {
    pub transformed: bool,
    pub tag: Tag,
    /// The original length of the table (before any transformations)
    pub dest_length: u32,
    /// The length of the table in the decompressed table data
    pub src_length: u32,
    /// The starting offset of the table in the decompressed table data
    pub src_offset: u32,
}

impl TableDirectoryEntry {
    /// The table's first byte in the decompressed table data, and the byte
    /// behind its last.
    pub fn get_source_range(&self) -> (r: (usize, usize))
        requires
            self.src_offset + self.src_length <= usize::MAX,
        ensures
            r.0 == self.src_offset,
            r.1 == self.src_offset + self.src_length,
    {
        (self.src_offset as usize, self.src_offset as usize + self.src_length as usize)
    }

    /// The table's bytes in the decompressed table data.
    pub open spec fn spec_source(&self, data: Seq<u8>) -> Seq<u8> {
        data.subrange(self.src_offset as int, self.src_offset + self.src_length)
    }
}

/// A directory entry as it is read, before its place in the decompressed
/// data is known.
#[derive(Debug, Copy, Clone)]
pub struct PartialTableDirectoryEntry {
    pub transformed: bool,
    pub tag: Tag,
    pub orig_length: u32,
    pub transform_length: Option<u32>,
}

/// Whether the two high bits of an entry's flag byte say that the table is
/// stored as it is: for `glyf` and `loca` that is version 3, for every other
/// table version 0.
pub open spec fn spec_is_null_transform(tag: Tag, flags: u8) -> bool {
    if tag.0 == GLYF_TAG || tag.0 == LOCA_TAG {
        flags / 64 == 3
    } else {
        flags / 64 == 0
    }
}

/// The tag of an entry with flag byte `flags`, read at `pos`: four bytes
/// where the low six bits are 63, else the known tag of that index.
pub open spec fn spec_entry_tag(s: Seq<u8>, pos: int, flags: u8) -> Option<(Tag, int)> {
    if flags % 64 == 63 {
        match spec_try_u32(s, pos) {
            Some((v, p)) => Some((Tag(v), p)),
            None => None,
        }
    } else {
        Some((Tag(spec_known_table_tag(flags % 64)), pos))
    }
}

/// The directory entry at `pos`: the flag byte, the tag, the original
/// length and, for a transformed table, the transformed length.
#[verifier::opaque]
pub open spec fn spec_partial_entry(s: Seq<u8>, pos: int) -> Result<
    (PartialTableDirectoryEntry, int),
    TableDirectoryError,
> {
    match spec_try_u8(s, pos) {
        None => Err(TableDirectoryError::Truncated),
        Some((flags, p1)) => match spec_entry_tag(s, p1, flags) {
            None => Err(TableDirectoryError::Truncated),
            Some((tag, p2)) => match spec_try_base_128(s, p2) {
                Err(e) => Err(TableDirectoryError::spec_from(e)),
                Ok((orig_length, p3)) => if spec_is_null_transform(tag, flags) {
                    Ok(
                        (
                            PartialTableDirectoryEntry {
                                transformed: false,
                                tag,
                                orig_length,
                                transform_length: None,
                            },
                            p3,
                        ),
                    )
                } else {
                    match spec_try_base_128(s, p3) {
                        Err(e) => Err(TableDirectoryError::spec_from(e)),
                        Ok((transform_length, p4)) => Ok(
                            (
                                PartialTableDirectoryEntry {
                                    transformed: true,
                                    tag,
                                    orig_length,
                                    transform_length: Some(transform_length),
                                },
                                p4,
                            ),
                        ),
                    }
                },
            },
        },
    }
}

/// The entry whose table starts at `src_offset` in the decompressed data:
/// there the table has its transformed length, or its original length where
/// it is not transformed.
pub open spec fn spec_complete_entry(p: PartialTableDirectoryEntry, src_offset: u32)
    -> TableDirectoryEntry {
    TableDirectoryEntry {
        transformed: p.transformed,
        tag: p.tag,
        dest_length: p.orig_length,
        src_length: match p.transform_length {
            Some(l) => l,
            None => p.orig_length,
        },
        src_offset,
    }
}

/// The `remaining` entries from `pos` on, behind `tables`, which take the
/// first `src_offset` bytes of the decompressed data: each table starts
/// where the one before it ends. A directory whose tables take more than
/// `u32::MAX` bytes has an invalid number.
pub open spec fn spec_directory_from(
    s: Seq<u8>,
    pos: int,
    tables: Seq<TableDirectoryEntry>,
    src_offset: u32,
    remaining: nat,
) -> Result<(Seq<TableDirectoryEntry>, u32, int), TableDirectoryError>
    decreases remaining,
{
    if remaining == 0 {
        Ok((tables, src_offset, pos))
    } else {
        match spec_partial_entry(s, pos) {
            Err(e) => Err(e),
            Ok((p, next)) => {
                let entry = spec_complete_entry(p, src_offset);
                if src_offset + entry.src_length > u32::MAX {
                    Err(TableDirectoryError::InvalidNumeric)
                } else {
                    spec_directory_from(
                        s,
                        next,
                        tables.push(entry),
                        (src_offset + entry.src_length) as u32,
                        (remaining - 1) as nat,
                    )
                }
            },
        }
    }
}

/// The directory of `num_tables` entries at `pos`: the entries, the length
/// of the decompressed data, and the position behind the directory.
pub open spec fn spec_directory(s: Seq<u8>, pos: int, num_tables: u16) -> Result<
    (Seq<TableDirectoryEntry>, u32, int),
    TableDirectoryError,
> {
    spec_directory_from(s, pos, Seq::empty(), 0, num_tables as nat)
}

/// The tables lie back to back in the first `total` bytes of the
/// decompressed data, in the order of the entries.
pub open spec fn spec_tiles(tables: Seq<TableDirectoryEntry>, total: int) -> bool
    decreases tables.len(),
{
    if tables.len() == 0 {
        total == 0
    } else {
        tables.last().src_offset + tables.last().src_length == total && spec_tiles(
            tables.drop_last(),
            tables.last().src_offset as int,
        )
    }
}

/// Tables that lie back to back all end within the total length.
pub proof fn lemma_tiles_within(tables: Seq<TableDirectoryEntry>, total: int)
    requires
        spec_tiles(tables, total),
    ensures
        0 <= total,
        forall|i: int|
            0 <= i < tables.len() ==> (#[trigger] tables[i]).src_offset + tables[i].src_length
                <= total,
    decreases tables.len(),
{
    if tables.len() > 0 {
        lemma_tiles_within(tables.drop_last(), tables.last().src_offset as int);
        assert forall|i: int| 0 <= i < tables.len() implies (#[trigger] tables[i]).src_offset
            + tables[i].src_length <= total by {
            if i < tables.len() - 1 {
                assert(tables[i] == tables.drop_last()[i]);
            }
        }
    }
}

impl PartialTableDirectoryEntry {
    /// Reads one directory entry.
    pub fn from_buf(buffer: &mut ByteCursor) -> (r: Result<Self, TableDirectoryError>)
        requires
            old(buffer).wf(),
        ensures
            final(buffer).wf(),
            final(buffer).data@ == old(buffer).data@,
            match r {
                Ok(p) => spec_partial_entry(old(buffer).data@, old(buffer).pos as int) == Ok::<
                    _,
                    TableDirectoryError,
                >((p, final(buffer).pos as int)),
                Err(e) => spec_partial_entry(old(buffer).data@, old(buffer).pos as int) == Err::<
                    (PartialTableDirectoryEntry, int),
                    _,
                >(e),
            },
    {
        proof {
            reveal(spec_partial_entry);
        }
        let flags = match buffer.try_get_u8() {
            Ok(v) => v,
            Err(_) => {
                return Err(TableDirectoryError::Truncated);
            },
        };
        let table_ref = flags % 64;
        let tag = if table_ref == 63 {
            match buffer.try_get_four_cc() {
                Ok(t) => t,
                Err(_) => {
                    return Err(TableDirectoryError::Truncated);
                },
            }
        } else {
            known_table_tag(table_ref)
        };
        let orig_length = match buffer.try_get_base_128() {
            Ok(v) => v,
            Err(e) => {
                return Err(TableDirectoryError::from(e));
            },
        };
        let is_null_transform = if tag.0 == GLYF_TAG || tag.0 == LOCA_TAG {
            flags / 64 == 3
        } else {
            flags / 64 == 0
        };
        let transform_length = if is_null_transform {
            None
        } else {
            match buffer.try_get_base_128() {
                Ok(v) => Some(v),
                Err(e) => {
                    return Err(TableDirectoryError::from(e));
                },
            }
        };
        Ok(
            PartialTableDirectoryEntry {
                transformed: !is_null_transform,
                tag,
                orig_length,
                transform_length,
            },
        )
    }
}

/// A WOFF2 table directory.
pub struct Woff2TableDirectory {
    pub tables: Vec<TableDirectoryEntry>,
    pub uncompressed_length: u32,
}

impl Woff2TableDirectory {
    /// The tables lie back to back in the decompressed data, whose length is
    /// `uncompressed_length`.
    pub open spec fn wf(&self) -> bool {
        spec_tiles(self.tables@, self.uncompressed_length as int)
    }

    /// Reads the table directory from the buffer: the directory entries and
    /// the total length of the uncompressed data.
    #[verifier::loop_isolation(false)]
    pub fn from_buf(buffer: &mut ByteCursor, num_tables: u16) -> (r: Result<
        Self,
        TableDirectoryError,
    >)
        requires
            old(buffer).wf(),
        ensures
            final(buffer).wf(),
            final(buffer).data@ == old(buffer).data@,
            match r {
                Ok(d) => spec_directory(old(buffer).data@, old(buffer).pos as int, num_tables)
                    == Ok::<_, TableDirectoryError>(
                    (d.tables@, d.uncompressed_length, final(buffer).pos as int),
                ) && d.wf() && d.tables@.len() == num_tables,
                Err(e) => spec_directory(old(buffer).data@, old(buffer).pos as int, num_tables)
                    == Err::<(Seq<TableDirectoryEntry>, u32, int), _>(e),
            },
    {
        let mut tables: Vec<TableDirectoryEntry> = Vec::new();
        let mut src_offset: u32 = 0;
        let ghost s = buffer.data@;
        let ghost start = buffer.pos as int;
        let mut i: u16 = 0;
        while i < num_tables
            invariant
                i <= num_tables,
                buffer.wf(),
                buffer.data@ == s,
                tables@.len() == i,
                spec_tiles(tables@, src_offset as int),
                spec_directory(s, start, num_tables) == spec_directory_from(
                    s,
                    buffer.pos as int,
                    tables@,
                    src_offset,
                    (num_tables - i) as nat,
                ),
            decreases num_tables - i,
        {
            let entry = match PartialTableDirectoryEntry::from_buf(buffer) {
                Ok(e) => e,
                Err(e) => {
                    return Err(e);
                },
            };
            let src_length = match entry.transform_length {
                Some(l) => l,
                None => entry.orig_length,
            };
            let complete_entry = TableDirectoryEntry {
                transformed: entry.transformed,
                tag: entry.tag,
                dest_length: entry.orig_length,
                src_length,
                src_offset,
            };
            if src_length > u32::MAX - src_offset {
                return Err(TableDirectoryError::InvalidNumeric);
            }
            proof {
                assert(tables@.push(complete_entry).drop_last() =~= tables@);
            }
            tables.push(complete_entry);
            src_offset = src_offset + src_length;
            i = i + 1;
        }
        Ok(Woff2TableDirectory { tables, uncompressed_length: src_offset })
    }
}

// ---------------------------------------------------------------------------
// Writing the tables
// ---------------------------------------------------------------------------

/// Why the tables of a directory could not be written.
#[derive(Debug, Clone, Copy, PartialEq, Eq)]
pub enum WriteTablesError {
    /// A `glyf` table is not followed by a `loca` table.
    MissingLocaTable,
    /// A `loca` table is not preceded by a `glyf` table.
    MissingGlyfTable,
    /// Of `glyf` and `loca` one is transformed and the other is not.
    GlyfLocaDifferentTransform,
    /// The `head` table has fewer than 12 bytes.
    TruncatedHeadTable,
    /// A feature that this decoder does not have.
    Unsupported(&'static str),
    /// The transformed `glyf` table was rejected.
    GlyfDecoderError(GlyfDecoderError),
    /// A table starts beyond `u32::MAX`, or is longer than that.
    OffsetOverflow,
}

impl WriteTablesError {
    /// A `head` table too short for its checksum adjustment is truncated.
    pub fn from(e: ChecksumError) -> (r: WriteTablesError)
        ensures
            r == WriteTablesError::TruncatedHeadTable,
    {
        WriteTablesError::TruncatedHeadTable
    }

    /// What the error says.
    pub open spec fn spec_message(self) -> Seq<char> {
        match self {
            WriteTablesError::MissingLocaTable => "glyf table not followed by loca table"@,
            WriteTablesError::MissingGlyfTable => "loca table not preceded by glyf table"@,
            WriteTablesError::GlyfLocaDifferentTransform => "glyf table and loca table have different transformations"@,
            WriteTablesError::TruncatedHeadTable => "Truncated `head` table"@,
            WriteTablesError::Unsupported(feature) => "Unsupported feature: "@ + feature@,
            WriteTablesError::GlyfDecoderError(e) => e.spec_message(),
            WriteTablesError::OffsetOverflow => "Table offset too large"@,
        }
    }

    /// The text of the error.
    pub fn message(&self) -> (m: String)
        ensures
            m@ == self.spec_message(),
    {
        match self {
            WriteTablesError::MissingLocaTable => "glyf table not followed by loca table".to_owned(),
            WriteTablesError::MissingGlyfTable => "loca table not preceded by glyf table".to_owned(),
            WriteTablesError::GlyfLocaDifferentTransform => "glyf table and loca table have different transformations".to_owned(),
            WriteTablesError::TruncatedHeadTable => "Truncated `head` table".to_owned(),
            WriteTablesError::Unsupported(feature) => "Unsupported feature: ".to_owned().concat(
                feature,
            ),
            WriteTablesError::GlyfDecoderError(e) => e.message(),
            WriteTablesError::OffsetOverflow => "Table offset too large".to_owned(),
        }
    }
}

/// The output and the records with one more table, of tag `tag` and bytes
/// `bytes`: the table starts at the end of the output and is followed by
/// zeros up to a multiple of four; its record holds its checksum, its offset
/// and its length without the zeros. An offset or a length above `u32::MAX`
/// is an overflow.
#[verifier::opaque]
pub open spec fn spec_push_table(
    out: Seq<u8>,
    records: Seq<TableRecord>,
    tag: Tag,
    bytes: Seq<u8>,
) -> Result<(Seq<u8>, Seq<TableRecord>), WriteTablesError> {
    if out.len() > u32::MAX || bytes.len() > u32::MAX {
        Err(WriteTablesError::OffsetOverflow)
    } else {
        Ok(
            (
                out + bytes + zeros(pad_len((out + bytes).len())),
                records.push(
                    TableRecord {
                        tag,
                        checksum: table_checksum(bytes),
                        offset: out.len() as u32,
                        length: bytes.len() as u32,
                    },
                ),
            ),
        )
    }
}

/// The output and the records after the tables from entry `i` on, the
/// decompressed data being `data`:
/// - a `glyf` table must be followed at once by a `loca` table that is
///   transformed exactly if `glyf` is; a transformed pair is decoded from
///   the bytes of `glyf`, another pair is copied;
/// - a `loca` table without a `glyf` table before it is an error;
/// - the `head` table is copied with its checksum adjustment set to zero;
/// - a transformed `hmtx` table is not supported;
/// - every other table is copied.
pub open spec fn spec_write_tables(
    tables: Seq<TableDirectoryEntry>,
    data: Seq<u8>,
    out: Seq<u8>,
    records: Seq<TableRecord>,
    i: int,
) -> Result<(Seq<u8>, Seq<TableRecord>), WriteTablesError>
    decreases tables.len() - i,
{
    if i < 0 || i >= tables.len() {
        Ok((out, records))
    } else {
        let table = tables[i];
        if table.tag.0 == GLYF_TAG {
            if i + 1 >= tables.len() || tables[i + 1].tag.0 != LOCA_TAG {
                Err(WriteTablesError::MissingLocaTable)
            } else if tables[i + 1].transformed != table.transformed {
                Err(WriteTablesError::GlyfLocaDifferentTransform)
            } else {
                let pair = if table.transformed {
                    match spec_decode_glyf(table.spec_source(data)) {
                        Err(e) => Err(WriteTablesError::GlyfDecoderError(e)),
                        Ok(p) => Ok(p),
                    }
                } else {
                    Ok((table.spec_source(data), tables[i + 1].spec_source(data)))
                };
                match pair {
                    Err(e) => Err(e),
                    Ok((glyf, loca)) => match spec_push_table(out, records, table.tag, glyf) {
                        Err(e) => Err(e),
                        Ok((out1, records1)) => match spec_push_table(
                            out1,
                            records1,
                            tables[i + 1].tag,
                            loca,
                        ) {
                            Err(e) => Err(e),
                            Ok((out2, records2)) => spec_write_tables(
                                tables,
                                data,
                                out2,
                                records2,
                                i + 2,
                            ),
                        },
                    },
                }
            }
        } else if table.tag.0 == LOCA_TAG {
            Err(WriteTablesError::MissingGlyfTable)
        } else if table.tag.0 == HEAD_TAG {
            if table.src_length < 12 {
                Err(WriteTablesError::TruncatedHeadTable)
            } else {
                match spec_push_table(
                    out,
                    records,
                    table.tag,
                    spec_patch_u32(table.spec_source(data), 8, 0),
                ) {
                    Err(e) => Err(e),
                    Ok((out1, records1)) => spec_write_tables(tables, data, out1, records1, i + 1),
                }
            }
        } else if table.tag.0 == HMTX_TAG && table.transformed {
            Err(WriteTablesError::Unsupported("transformed hmtx table"))
        } else {
            match spec_push_table(out, records, table.tag, table.spec_source(data)) {
                Err(e) => Err(e),
                Ok((out1, records1)) => spec_write_tables(tables, data, out1, records1, i + 1),
            }
        }
    }
}

/// The record points at a table of the output that lies at or behind
/// `start`, at a multiple of four, and it holds the checksum of that table;
/// a `head` table has its checksum adjustment at zero.
pub open spec fn spec_record_ok(out: Seq<u8>, r: TableRecord, start: int) -> bool {
    &&& start <= r.offset
    &&& r.offset % 4 == 0
    &&& r.offset + r.length <= out.len()
    &&& r.checksum == table_checksum(out.subrange(r.offset as int, r.offset + r.length))
    &&& r.tag.0 == HEAD_TAG ==> r.length >= 12 && forall|j: int|
        r.offset + 8 <= j < r.offset + 12 ==> out[j] == 0
}

/// Every record is as `spec_record_ok` says.
pub open spec fn spec_records_ok(out: Seq<u8>, records: Seq<TableRecord>, start: int) -> bool {
    forall|k: int| 0 <= k < records.len() ==> spec_record_ok(out, #[trigger] records[k], start)
}

/// A record stays right when the output grows.
pub proof fn lemma_record_ok_extends(out: Seq<u8>, more: Seq<u8>, r: TableRecord, start: int)
    requires
        spec_record_ok(out, r, start),
    ensures
        spec_record_ok(out + more, r, start),
{
    assert((out + more).subrange(r.offset as int, r.offset + r.length) =~= out.subrange(
        r.offset as int,
        r.offset + r.length,
    ));
}

/// One more table keeps the records right, and the output's length a
/// multiple of four.
pub proof fn lemma_push_table_ok(
    out: Seq<u8>,
    records: Seq<TableRecord>,
    tag: Tag,
    bytes: Seq<u8>,
    start: int,
)
    requires
        spec_records_ok(out, records, start),
        out.len() % 4 == 0,
        start <= out.len(),
        spec_push_table(out, records, tag, bytes).is_ok(),
        tag.0 == HEAD_TAG ==> bytes.len() >= 12 && forall|j: int| 8 <= j < 12 ==> bytes[j] == 0,
    ensures
        spec_records_ok(
            spec_push_table(out, records, tag, bytes).unwrap().0,
            spec_push_table(out, records, tag, bytes).unwrap().1,
            start,
        ),
        spec_push_table(out, records, tag, bytes).unwrap().0.len() % 4 == 0,
        spec_push_table(out, records, tag, bytes).unwrap().1.len() == records.len() + 1,
        spec_push_table(out, records, tag, bytes).unwrap().0.subrange(0, out.len() as int) == out,
        spec_push_table(out, records, tag, bytes).unwrap().0.len() >= out.len(),
{
    reveal(spec_push_table);
    let more = bytes + zeros(pad_len((out + bytes).len()));
    let out1 = spec_push_table(out, records, tag, bytes).unwrap().0;
    let records1 = spec_push_table(out, records, tag, bytes).unwrap().1;
    assert(out1 =~= out + more);
    assert(out1.subrange(0, out.len() as int) =~= out);
    let r = records1.last();
    assert(out1.subrange(r.offset as int, r.offset + r.length) =~= bytes);
    assert forall|k: int| 0 <= k < records1.len() implies spec_record_ok(
        out1,
        #[trigger] records1[k],
        start,
    ) by {
        if k < records.len() {
            assert(records1[k] == records[k]);
            lemma_record_ok_extends(out, more, records[k], start);
        } else {
            if tag.0 == HEAD_TAG {
                assert forall|j: int| r.offset + 8 <= j < r.offset + 12 implies out1[j] == 0 by {
                    assert(out1[j] == bytes[j - out.len()]);
                }
            }
        }
    }
}

/// The tables that are written keep the records right: every table lies at
/// a multiple of four, behind what the output held before, with the
/// checksum that its record gives, and the output ends at a multiple of
/// four.
pub proof fn lemma_write_tables_ok(
    tables: Seq<TableDirectoryEntry>,
    data: Seq<u8>,
    out: Seq<u8>,
    records: Seq<TableRecord>,
    i: int,
    start: int,
)
    requires
        0 <= i,
        spec_records_ok(out, records, start),
        out.len() % 4 == 0,
        start <= out.len(),
        forall|k: int|
            0 <= k < tables.len() ==> (#[trigger] tables[k]).src_offset + tables[k].src_length
                <= data.len(),
    ensures
        match spec_write_tables(tables, data, out, records, i) {
            Ok((out1, records1)) => spec_records_ok(out1, records1, start) && out1.len() % 4 == 0
                && out1.len() >= out.len() && out1.subrange(0, out.len() as int) == out && (i
                <= tables.len() ==> records1.len() == records.len() + tables.len() - i),
            Err(_) => true,
        },
    decreases tables.len() - i, 0int,
{
    if i >= tables.len() {
        assert(out.subrange(0, out.len() as int) =~= out);
    } else {
        let table = tables[i];
        if table.tag.0 == GLYF_TAG {
            if i + 1 < tables.len() && tables[i + 1].tag.0 == LOCA_TAG && tables[i
                + 1].transformed == table.transformed {
                let next = tables[i + 1];
                let pair: Result<(Seq<u8>, Seq<u8>), WriteTablesError> = if table.transformed {
                    match spec_decode_glyf(table.spec_source(data)) {
                        Err(e) => Err(WriteTablesError::GlyfDecoderError(e)),
                        Ok(p) => Ok(p),
                    }
                } else {
                    Ok((table.spec_source(data), next.spec_source(data)))
                };
                match pair {
                    Ok((glyf, loca)) => {
                        lemma_push_two_tables_ok(
                            tables,
                            data,
                            out,
                            records,
                            i + 2,
                            start,
                            table.tag,
                            glyf,
                            next.tag,
                            loca,
                        );
                    },
                    Err(_) => {},
                }
            }
        } else if table.tag.0 == LOCA_TAG {
        } else if table.tag.0 == HEAD_TAG {
            if table.src_length >= 12 {
                let bytes = spec_patch_u32(table.spec_source(data), 8, 0);
                assert forall|j: int| 8 <= j < 12 implies bytes[j] == 0 by {}
                lemma_push_one_table_ok(tables, data, out, records, i + 1, start, table.tag, bytes);
            }
        } else if table.tag.0 == HMTX_TAG && table.transformed {
        } else {
            lemma_push_one_table_ok(
                tables,
                data,
                out,
                records,
                i + 1,
                start,
                table.tag,
                table.spec_source(data),
            );
        }
    }
}

/// One table, and the tables from entry `next` on, keep the records right.
proof fn lemma_push_one_table_ok(
    tables: Seq<TableDirectoryEntry>,
    data: Seq<u8>,
    out: Seq<u8>,
    records: Seq<TableRecord>,
    next: int,
    start: int,
    tag: Tag,
    bytes: Seq<u8>,
)
    requires
        0 < next <= tables.len(),
        spec_records_ok(out, records, start),
        out.len() % 4 == 0,
        start <= out.len(),
        tag.0 == HEAD_TAG ==> bytes.len() >= 12 && forall|j: int| 8 <= j < 12 ==> bytes[j] == 0,
        forall|k: int|
            0 <= k < tables.len() ==> (#[trigger] tables[k]).src_offset + tables[k].src_length
                <= data.len(),
    ensures
        match spec_push_table(out, records, tag, bytes) {
            Ok((out1, records1)) => match spec_write_tables(tables, data, out1, records1, next) {
                Ok((out2, records2)) => spec_records_ok(out2, records2, start) && out2.len() % 4
                    == 0 && out2.len() >= out.len() && out2.subrange(0, out.len() as int) == out
                    && records2.len() == records.len() + 1 + tables.len() - next,
                Err(_) => true,
            },
            Err(_) => true,
        },
    decreases tables.len() - next, 1int,
{
    match spec_push_table(out, records, tag, bytes) {
        Ok((out1, records1)) => {
            lemma_push_table_ok(out, records, tag, bytes, start);
            lemma_write_tables_ok(tables, data, out1, records1, next, start);
            match spec_write_tables(tables, data, out1, records1, next) {
                Ok((out2, records2)) => {
                    assert(out2.subrange(0, out.len() as int) =~= out1.subrange(
                        0,
                        out1.len() as int,
                    ).subrange(0, out.len() as int));
                },
                Err(_) => {},
            }
        },
        Err(_) => {},
    }
}

/// Two tables, and the tables from entry `next` on, keep the records right.
proof fn lemma_push_two_tables_ok(
    tables: Seq<TableDirectoryEntry>,
    data: Seq<u8>,
    out: Seq<u8>,
    records: Seq<TableRecord>,
    next: int,
    start: int,
    first_tag: Tag,
    first: Seq<u8>,
    second_tag: Tag,
    second: Seq<u8>,
)
    requires
        0 < next <= tables.len(),
        spec_records_ok(out, records, start),
        out.len() % 4 == 0,
        start <= out.len(),
        first_tag.0 != HEAD_TAG,
        second_tag.0 != HEAD_TAG,
        forall|k: int|
            0 <= k < tables.len() ==> (#[trigger] tables[k]).src_offset + tables[k].src_length
                <= data.len(),
    ensures
        match spec_push_table(out, records, first_tag, first) {
            Ok((out1, records1)) => match spec_push_table(out1, records1, second_tag, second) {
                Ok((out2, records2)) => match spec_write_tables(
                    tables,
                    data,
                    out2,
                    records2,
                    next,
                ) {
                    Ok((out3, records3)) => spec_records_ok(out3, records3, start) && out3.len()
                        % 4 == 0 && out3.len() >= out.len() && out3.subrange(0, out.len() as int)
                        == out && records3.len() == records.len() + 2 + tables.len() - next,
                    Err(_) => true,
                },
                Err(_) => true,
            },
            Err(_) => true,
        },
    decreases tables.len() - next, 2int,
{
    match spec_push_table(out, records, first_tag, first) {
        Ok((out1, records1)) => {
            lemma_push_table_ok(out, records, first_tag, first, start);
            lemma_push_one_table_ok(
                tables,
                data,
                out1,
                records1,
                next,
                start,
                second_tag,
                second,
            );
            match spec_push_table(out1, records1, second_tag, second) {
                Ok((out2, records2)) => {
                    match spec_write_tables(tables, data, out2, records2, next) {
                        Ok((out3, records3)) => {
                            assert(out3.subrange(0, out.len() as int) =~= out3.subrange(
                                0,
                                out1.len() as int,
                            ).subrange(0, out.len() as int));
                        },
                        Err(_) => {},
                    }
                },
                Err(_) => {},
            }
        },
        Err(_) => {},
    }
}

/// Appends one table to the output, and its record to the records.
pub fn push_table_record(
    tag: Tag,
    bytes: &[u8],
    out_buffer: &mut Vec<u8>,
    ttf_tables: &mut Vec<TableRecord>,
) -> (r: Result<(), WriteTablesError>)
    ensures
        match r {
            Ok(_) => spec_push_table(old(out_buffer)@, old(ttf_tables)@, tag, bytes@) == Ok::<
                _,
                WriteTablesError,
            >((final(out_buffer)@, final(ttf_tables)@)),
            Err(e) => spec_push_table(old(out_buffer)@, old(ttf_tables)@, tag, bytes@) == Err::<
                (Seq<u8>, Seq<TableRecord>),
                _,
            >(e),
        },
{
    proof {
        reveal(spec_push_table);
    }
    if out_buffer.len() > 0xFFFF_FFFF || bytes.len() > 0xFFFF_FFFF {
        return Err(WriteTablesError::OffsetOverflow);
    }
    ttf_tables.push(
        TableRecord {
            tag,
            checksum: calculate_checksum(bytes),
            offset: out_buffer.len() as u32,
            length: bytes.len() as u32,
        },
    );
    put_slice(out_buffer, bytes);
    pad_to_multiple_of_four(out_buffer);
    Ok(())
}

/// Copies one table from the decompressed data to the output, and appends
/// its record to the records.
pub fn push_simple_table_record(
    table: TableDirectoryEntry,
    decompressed_tables: &[u8],
    out_buffer: &mut Vec<u8>,
    ttf_tables: &mut Vec<TableRecord>,
) -> (r: Result<(), WriteTablesError>)
    requires
        table.src_offset + table.src_length <= decompressed_tables@.len(),
    ensures
        match r {
            Ok(_) => spec_push_table(
                old(out_buffer)@,
                old(ttf_tables)@,
                table.tag,
                table.spec_source(decompressed_tables@),
            ) == Ok::<_, WriteTablesError>((final(out_buffer)@, final(ttf_tables)@)),
            Err(e) => spec_push_table(
                old(out_buffer)@,
                old(ttf_tables)@,
                table.tag,
                table.spec_source(decompressed_tables@),
            ) == Err::<(Seq<u8>, Seq<TableRecord>), _>(e),
        },
{
    let _total = decompressed_tables.len();
    let (from, to) = table.get_source_range();
    let src = slice_subrange(decompressed_tables, from, to);
    push_table_record(table.tag, src, out_buffer, ttf_tables)
}

impl Woff2TableDirectory {
    /// Copies the tables, and decodes them where they are transformed, to
    /// the end of the output buffer, and gives the records of the tables, in
    /// the order of the directory.
    ///
    /// Transformed `glyf` and `loca` tables are decoded here. Transformed
    /// `hmtx` tables are not supported.
    #[verifier::loop_isolation(false)]
    pub fn write_to_buf(&self, out_buffer: &mut Vec<u8>, decompressed_tables: &[u8]) -> (r: Result<
        Vec<TableRecord>,
        WriteTablesError,
    >)
        requires
            old(out_buffer)@.len() % 4 == 0,
            forall|i: int|
                0 <= i < self.tables@.len() ==> (#[trigger] self.tables@[i]).src_offset
                    + self.tables@[i].src_length <= decompressed_tables@.len(),
        ensures
            match r {
                Ok(records) => spec_write_tables(
                    self.tables@,
                    decompressed_tables@,
                    old(out_buffer)@,
                    Seq::empty(),
                    0,
                ) == Ok::<_, WriteTablesError>((final(out_buffer)@, records@))
                    && records@.len() == self.tables@.len()
                    && spec_records_ok(final(out_buffer)@, records@, old(out_buffer)@.len() as int)
                    && final(out_buffer)@.len() % 4 == 0
                    && final(out_buffer)@.len() >= old(out_buffer)@.len()
                    && final(out_buffer)@.subrange(0, old(out_buffer)@.len() as int) == old(out_buffer)@,
                Err(e) => spec_write_tables(
                    self.tables@,
                    decompressed_tables@,
                    old(out_buffer)@,
                    Seq::empty(),
                    0,
                ) == Err::<(Seq<u8>, Seq<TableRecord>), _>(e),
            },
    {
        let ghost out0 = out_buffer@;
        let ghost data = decompressed_tables@;
        proof {
            assert(spec_records_ok(out0, Seq::empty(), out0.len() as int));
            lemma_write_tables_ok(self.tables@, data, out0, Seq::empty(), 0, out0.len() as int);
        }
        let num_tables = self.tables.len();
        let _total = decompressed_tables.len();
        let mut ttf_tables: Vec<TableRecord> = Vec::new();
        let mut i: usize = 0;
        while i < num_tables
            invariant
                i <= num_tables,
                num_tables == self.tables@.len(),
                ttf_tables@.len() == i,
                spec_write_tables(self.tables@, data, out0, Seq::empty(), 0) == spec_write_tables(
                    self.tables@,
                    data,
                    out_buffer@,
                    ttf_tables@,
                    i as int,
                ),
            decreases num_tables - i,
        {
            proof {
                reveal(spec_push_table);
            }
            let table = self.tables[i];
            if table.tag.0 == GLYF_TAG {
                if i + 1 >= num_tables {
                    return Err(WriteTablesError::MissingLocaTable);
                }
                let next_table = self.tables[i + 1];
                if next_table.tag.0 != LOCA_TAG {
                    return Err(WriteTablesError::MissingLocaTable);
                }
                if next_table.transformed != table.transformed {
                    return Err(WriteTablesError::GlyfLocaDifferentTransform);
                }
                if table.transformed {
                    let (from, to) = table.get_source_range();
                    let (glyf, loca) = match decode_glyf_table(
                        slice_subrange(decompressed_tables, from, to),
                    ) {
                        Ok(p) => p,
                        Err(e) => {
                            return Err(WriteTablesError::GlyfDecoderError(e));
                        },
                    };
                    match push_table_record(
                        table.tag,
                        glyf.as_slice(),
                        out_buffer,
                        &mut ttf_tables,
                    ) {
                        Ok(_) => {},
                        Err(e) => {
                            return Err(e);
                        },
                    }
                    match push_table_record(
                        next_table.tag,
                        loca.as_slice(),
                        out_buffer,
                        &mut ttf_tables,
                    ) {
                        Ok(_) => {},
                        Err(e) => {
                            return Err(e);
                        },
                    }
                } else {
                    match push_simple_table_record(
                        table,
                        decompressed_tables,
                        out_buffer,
                        &mut ttf_tables,
                    ) {
                        Ok(_) => {},
                        Err(e) => {
                            return Err(e);
                        },
                    }
                    match push_simple_table_record(
                        next_table,
                        decompressed_tables,
                        out_buffer,
                        &mut ttf_tables,
                    ) {
                        Ok(_) => {},
                        Err(e) => {
                            return Err(e);
                        },
                    }
                }
                i = i + 2;
            } else if table.tag.0 == LOCA_TAG {
                // a `loca` table is written with the `glyf` table before it
                return Err(WriteTablesError::MissingGlyfTable);
            } else if table.tag.0 == HEAD_TAG {
                let (from, to) = table.get_source_range();
                let mut head_table = slice_to_vec(slice_subrange(decompressed_tables, from, to));
                match set_checksum_adjustment(head_table.as_mut_slice(), 0) {
                    Ok(_) => {},
                    Err(e) => {
                        return Err(WriteTablesError::from(e));
                    },
                }
                match push_table_record(
                    table.tag,
                    head_table.as_slice(),
                    out_buffer,
                    &mut ttf_tables,
                ) {
                    Ok(_) => {},
                    Err(e) => {
                        return Err(e);
                    },
                }
                i = i + 1;
            } else if table.tag.0 == HMTX_TAG && table.transformed {
                return Err(WriteTablesError::Unsupported("transformed hmtx table"));
            } else {
                match push_simple_table_record(
                    table,
                    decompressed_tables,
                    out_buffer,
                    &mut ttf_tables,
                ) {
                    Ok(_) => {},
                    Err(e) => {
                        return Err(e);
                    },
                }
                i = i + 1;
            }
        }
        Ok(ttf_tables)
    }
}

} // verus!
