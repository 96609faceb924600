//! The WOFF2 collection directory, and the header of the font collection
//! that it stands for.

use vstd::prelude::*;
use crate::buffer_util::{
    put_u32, spec_try_255_u16, spec_try_u32, spec_u32_bytes, ByteCursor, TruncatedError,
};
use crate::magic_numbers::{Tag, TTF_COLLECTION_FLAVOR};
use crate::ttf_header::{
    lemma_table_directory_bytes_len, spec_table_directory_bytes, TableDirectory, TableRecord,
};

verus! {

#[derive(Debug, Clone, Copy, PartialEq, Eq)]
pub enum CollectionHeaderError {
    InvalidCollectionVersion,
    Truncated,
    NoTables,
    InvalidTableIndex,
}

impl CollectionHeaderError {
    /// Every truncated read becomes `CollectionHeaderError::Truncated`.
    pub fn from(e: TruncatedError) -> (r: Self)
        ensures
            r == CollectionHeaderError::Truncated,
    {
        CollectionHeaderError::Truncated
    }

    /// What the error says.
    pub open spec fn spec_message(self) -> Seq<char> {
        match self {
            CollectionHeaderError::InvalidCollectionVersion => "Invalid collection header version"@,
            CollectionHeaderError::Truncated => "Truncated collection header"@,
            CollectionHeaderError::NoTables => "No tables in font"@,
            CollectionHeaderError::InvalidTableIndex => "Invalid table index"@,
        }
    }

    /// The text of the error.
    pub fn message(&self) -> (m: String)
        ensures
            m@ == self.spec_message(),
    {
        match self {
            CollectionHeaderError::InvalidCollectionVersion => "Invalid collection header version".to_owned(),
            CollectionHeaderError::Truncated => "Truncated collection header".to_owned(),
            CollectionHeaderError::NoTables => "No tables in font".to_owned(),
            CollectionHeaderError::InvalidTableIndex => "Invalid table index".to_owned(),
        }
    }
}

/// The number of a collection header of version 1.0.
pub const COLLECTION_VERSION_1: u32 = 0x0001_0000;

/// The number of a collection header of version 2.0.
pub const COLLECTION_VERSION_2: u32 = 0x0002_0000;

/// The version of a collection header.
#[derive(Debug, Clone, Copy, PartialEq, Eq)]
pub enum CollectionHeaderVersion {
    V1,
    V2,
}

impl CollectionHeaderVersion {
    /// The version that the number stands for.
    pub open spec fn spec_try_from(value: u32) -> Option<CollectionHeaderVersion> {
        if value == COLLECTION_VERSION_1 {
            Some(CollectionHeaderVersion::V1)
        } else if value == COLLECTION_VERSION_2 {
            Some(CollectionHeaderVersion::V2)
        } else {
            None
        }
    }

    /// The version that the number stands for; fails where it is neither 1.0 nor 2.0.
    pub fn try_from(value: u32) -> (r: Result<Self, CollectionHeaderError>)
        ensures
            match r {
                Ok(v) => Self::spec_try_from(value) == Some(v),
                Err(e) => e == CollectionHeaderError::InvalidCollectionVersion
                    && Self::spec_try_from(value).is_none(),
            },
    {
        if value == COLLECTION_VERSION_1 {
            Ok(CollectionHeaderVersion::V1)
        } else if value == COLLECTION_VERSION_2 {
            Ok(CollectionHeaderVersion::V2)
        } else {
            Err(CollectionHeaderError::InvalidCollectionVersion)
        }
    }
}

/// One font of a collection: its flavor, and its tables as indices into the
/// WOFF2 table directory.
pub struct FontModel {
    pub flavor: Tag,
    pub table_indices: Seq<u16>,
}

/// One font of a collection.
pub struct CollectionFontEntry {
    /// The "sfnt version" of the font
    pub flavor: Tag,
    /// Indices of tables in the WOFF2 table directory
    pub table_indices: Vec<u16>,
}

impl View for CollectionFontEntry {
    type V = FontModel;

    open spec fn view(&self) -> FontModel {
        FontModel { flavor: self.flavor, table_indices: self.table_indices@ }
    }
}

/// The fonts as the contracts speak of them.
pub open spec fn spec_fonts(fonts: Seq<CollectionFontEntry>) -> Seq<FontModel> {
    fonts.map_values(|f: CollectionFontEntry| f@)
}

/// A WOFF2 collection directory.
pub struct CollectionHeader {
    pub version: CollectionHeaderVersion,
    pub fonts: Vec<CollectionFontEntry>,
}

// ---------------------------------------------------------------------------
// Reading
// ---------------------------------------------------------------------------

/// The `remaining` table indices from `pos` on, behind `indices`: each a
/// 255UInt16 below `total`, the number of tables of the file.
pub open spec fn spec_table_indices(
    s: Seq<u8>,
    pos: int,
    indices: Seq<u16>,
    remaining: nat,
    total: u16,
) -> Result<(Seq<u16>, int), CollectionHeaderError>
    decreases remaining,
{
    if remaining == 0 {
        Ok((indices, pos))
    } else {
        match spec_try_255_u16(s, pos) {
            None => Err(CollectionHeaderError::Truncated),
            Some((index, next)) => if index >= total {
                Err(CollectionHeaderError::InvalidTableIndex)
            } else {
                spec_table_indices(s, next, indices.push(index), (remaining - 1) as nat, total)
            },
        }
    }
}

/// The font at `pos`: the number of its tables, which is not zero, its
/// flavor, and the indices of its tables.
#[verifier::opaque]
pub open spec fn spec_font_entry(s: Seq<u8>, pos: int, total: u16) -> Result<
    (FontModel, int),
    CollectionHeaderError,
> {
    match spec_try_255_u16(s, pos) {
        None => Err(CollectionHeaderError::Truncated),
        Some((num_tables, p1)) => if num_tables == 0 {
            Err(CollectionHeaderError::NoTables)
        } else {
            match spec_try_u32(s, p1) {
                None => Err(CollectionHeaderError::Truncated),
                Some((flavor, p2)) => match spec_table_indices(
                    s,
                    p2,
                    Seq::empty(),
                    num_tables as nat,
                    total,
                ) {
                    Err(e) => Err(e),
                    Ok((table_indices, p3)) => Ok(
                        (FontModel { flavor: Tag(flavor), table_indices }, p3),
                    ),
                },
            }
        },
    }
}

/// The `remaining` fonts from `pos` on, behind `fonts`.
pub open spec fn spec_font_entries(
    s: Seq<u8>,
    pos: int,
    fonts: Seq<FontModel>,
    remaining: nat,
    total: u16,
) -> Result<(Seq<FontModel>, int), CollectionHeaderError>
    decreases remaining,
{
    if remaining == 0 {
        Ok((fonts, pos))
    } else {
        match spec_font_entry(s, pos, total) {
            Err(e) => Err(e),
            Ok((font, next)) => spec_font_entries(
                s,
                next,
                fonts.push(font),
                (remaining - 1) as nat,
                total,
            ),
        }
    }
}

/// The collection directory at `pos`: the version, which is 1.0 or 2.0, the
/// number of fonts, and the fonts.
pub open spec fn spec_collection_header(s: Seq<u8>, pos: int, total: u16) -> Result<
    (CollectionHeaderVersion, Seq<FontModel>, int),
    CollectionHeaderError,
> {
    match spec_try_u32(s, pos) {
        None => Err(CollectionHeaderError::Truncated),
        Some((value, p1)) => match CollectionHeaderVersion::spec_try_from(value) {
            None => Err(CollectionHeaderError::InvalidCollectionVersion),
            Some(version) => match spec_try_255_u16(s, p1) {
                None => Err(CollectionHeaderError::Truncated),
                Some((num_fonts, p2)) => match spec_font_entries(
                    s,
                    p2,
                    Seq::empty(),
                    num_fonts as nat,
                    total,
                ) {
                    Err(e) => Err(e),
                    Ok((fonts, p3)) => Ok((version, fonts, p3)),
                },
            },
        },
    }
}

/// No more fonts, and no more tables in a font, than a `u16` counts; every
/// font has a table, and every index points into a directory of `total`
/// tables.
pub open spec fn spec_fonts_wf(fonts: Seq<FontModel>, total: int) -> bool {
    &&& fonts.len() <= u16::MAX
    &&& forall|i: int|
        0 <= i < fonts.len() ==> 1 <= (#[trigger] fonts[i]).table_indices.len() <= u16::MAX
    &&& forall|i: int, j: int|
        0 <= i < fonts.len() && 0 <= j < fonts[i].table_indices.len() ==> (
        #[trigger] fonts[i].table_indices[j]) < total
}

impl CollectionFontEntry {
    /// The size of the font's table directory: twelve bytes, and sixteen
    /// for each table.
    pub open spec fn spec_directory_size(f: FontModel) -> nat {
        12 + 16 * f.table_indices.len()
    }

    /// Calculates the size of the table directory for the font.
    pub fn calculate_directory_size(&self) -> (size: usize)
        requires
            Self::spec_directory_size(self@) <= usize::MAX,
        ensures
            size == Self::spec_directory_size(self@),
    {
        12 + self.table_indices.len() * 16
    }

    /// Reads one font of the collection directory.
    #[verifier::loop_isolation(false)]
    pub fn from_buf(buf: &mut ByteCursor, total_num_tables: u16) -> (r: Result<
        Self,
        CollectionHeaderError,
    >)
        requires
            old(buf).wf(),
        ensures
            final(buf).wf(),
            final(buf).data@ == old(buf).data@,
            match r {
                Ok(f) => spec_font_entry(old(buf).data@, old(buf).pos as int, total_num_tables)
                    == Ok::<_, CollectionHeaderError>((f@, final(buf).pos as int)) && 1
                    <= f@.table_indices.len() <= u16::MAX && forall|j: int|
                    0 <= j < f@.table_indices.len() ==> (#[trigger] f@.table_indices[j])
                        < total_num_tables,
                Err(e) => spec_font_entry(old(buf).data@, old(buf).pos as int, total_num_tables)
                    == Err::<(FontModel, int), _>(e),
            },
    {
        proof {
            reveal(spec_font_entry);
        }
        let num_tables = match buf.try_get_255_u16() {
            Ok(v) => v,
            Err(e) => {
                return Err(CollectionHeaderError::from(e));
            },
        };
        if num_tables == 0 {
            return Err(CollectionHeaderError::NoTables);
        }
        let flavor = match buf.try_get_four_cc() {
            Ok(v) => v,
            Err(e) => {
                return Err(CollectionHeaderError::from(e));
            },
        };
        let ghost s = buf.data@;
        let ghost start = buf.pos as int;
        let mut table_indices: Vec<u16> = Vec::new();
        let mut i: u16 = 0;
        while i < num_tables
            invariant
                i <= num_tables,
                buf.wf(),
                buf.data@ == s,
                table_indices@.len() == i,
                forall|j: int|
                    0 <= j < table_indices@.len() ==> (#[trigger] table_indices@[j])
                        < total_num_tables,
                spec_table_indices(s, start, Seq::empty(), num_tables as nat, total_num_tables)
                    == spec_table_indices(
                    s,
                    buf.pos as int,
                    table_indices@,
                    (num_tables - i) as nat,
                    total_num_tables,
                ),
            decreases num_tables - i,
        {
            let table_idx = match buf.try_get_255_u16() {
                Ok(v) => v,
                Err(e) => {
                    return Err(CollectionHeaderError::from(e));
                },
            };
            if table_idx >= total_num_tables {
                return Err(CollectionHeaderError::InvalidTableIndex);
            }
            table_indices.push(table_idx);
            i = i + 1;
        }
        Ok(CollectionFontEntry { flavor, table_indices })
    }
}

// ---------------------------------------------------------------------------
// The header of the collection
// ---------------------------------------------------------------------------

/// The size of the table directories of the fonts, together.
pub open spec fn spec_directories_size(fonts: Seq<FontModel>) -> nat
    decreases fonts.len(),
{
    if fonts.len() == 0 {
        0
    } else {
        spec_directories_size(fonts.drop_last()) + CollectionFontEntry::spec_directory_size(
            fonts.last(),
        )
    }
}

/// The size of the collection's header with the table directories of its
/// fonts: twelve bytes, an offset of four bytes for each font, and the
/// directories.
pub open spec fn spec_collection_header_size(fonts: Seq<FontModel>) -> nat {
    12 + 4 * fonts.len() + spec_directories_size(fonts)
}

/// The offsets of the table directories of the first `n` fonts: the first
/// directory lies behind the offsets, each other one behind the one before.
pub open spec fn spec_offsets_bytes(fonts: Seq<FontModel>, n: nat) -> Seq<u8>
    decreases n,
{
    if n == 0 {
        Seq::empty()
    } else {
        spec_offsets_bytes(fonts, (n - 1) as nat) + spec_u32_bytes(
            (12 + 4 * fonts.len() + spec_directories_size(fonts.subrange(0, n - 1))) as u32,
        )
    }
}

/// The records of a font's tables, in the order of its indices.
pub open spec fn spec_font_records(font: FontModel, tables: Seq<TableRecord>) -> Seq<TableRecord> {
    font.table_indices.map_values(|i: u16| tables[i as int])
}

/// The table directories of the first `n` fonts, one after the other.
pub open spec fn spec_directories_bytes(fonts: Seq<FontModel>, tables: Seq<TableRecord>, n: nat)
    -> Seq<u8>
    decreases n,
{
    if n == 0 {
        Seq::empty()
    } else {
        spec_directories_bytes(fonts, tables, (n - 1) as nat) + spec_table_directory_bytes(
            fonts[n - 1].flavor,
            spec_font_records(fonts[n - 1], tables),
        )
    }
}

/// The header of the collection: `ttcf`, the version 1.0 whatever the
/// version of the WOFF2 collection directory, the number of fonts, the
/// offsets of the fonts' table directories, and the directories.
#[verifier::opaque]
pub open spec fn spec_collection_bytes(fonts: Seq<FontModel>, tables: Seq<TableRecord>) -> Seq<u8> {
    spec_u32_bytes(TTF_COLLECTION_FLAVOR) + spec_u32_bytes(COLLECTION_VERSION_1) + spec_u32_bytes(
        fonts.len() as u32,
    ) + spec_offsets_bytes(fonts, fonts.len()) + spec_directories_bytes(fonts, tables, fonts.len())
}

/// The directories of some of the fonts are no larger than those of all.
pub proof fn lemma_directories_size_prefix(fonts: Seq<FontModel>, n: int)
    requires
        0 <= n <= fonts.len(),
    ensures
        spec_directories_size(fonts.subrange(0, n)) <= spec_directories_size(fonts),
    decreases fonts.len(),
{
    if n == fonts.len() {
        assert(fonts.subrange(0, n) =~= fonts);
    } else {
        lemma_directories_size_prefix(fonts.drop_last(), n);
        assert(fonts.drop_last().subrange(0, n) =~= fonts.subrange(0, n));
    }
}

/// The offsets of `n` fonts take four bytes each.
pub proof fn lemma_offsets_bytes_len(fonts: Seq<FontModel>, n: nat)
    ensures
        spec_offsets_bytes(fonts, n).len() == 4 * n,
    decreases n,
{
    if n > 0 {
        lemma_offsets_bytes_len(fonts, (n - 1) as nat);
    }
}

/// The table directories of the first `n` fonts have the size that
/// `spec_directories_size` gives.
pub proof fn lemma_directories_bytes_len(fonts: Seq<FontModel>, tables: Seq<TableRecord>, n: nat)
    requires
        n <= fonts.len(),
    ensures
        spec_directories_bytes(fonts, tables, n).len() == spec_directories_size(
            fonts.subrange(0, n as int),
        ),
    decreases n,
{
    if n > 0 {
        lemma_directories_bytes_len(fonts, tables, (n - 1) as nat);
        lemma_table_directory_bytes_len(
            fonts[n - 1].flavor,
            spec_font_records(fonts[n - 1], tables),
        );
        assert(fonts.subrange(0, n as int).drop_last() =~= fonts.subrange(0, n - 1));
    } else {
        assert(fonts.subrange(0, 0) =~= Seq::empty());
    }
}

/// The header of a collection has the size that
/// `spec_collection_header_size` gives.
pub proof fn lemma_collection_bytes_len(fonts: Seq<FontModel>, tables: Seq<TableRecord>)
    ensures
        spec_collection_bytes(fonts, tables).len() == spec_collection_header_size(fonts),
{
    reveal(spec_collection_bytes);
    lemma_offsets_bytes_len(fonts, fonts.len());
    lemma_directories_bytes_len(fonts, tables, fonts.len());
    assert(fonts.subrange(0, fonts.len() as int) =~= fonts);
}

impl CollectionHeader {
    /// The fonts as the contracts speak of them.
    pub open spec fn spec_fonts(&self) -> Seq<FontModel> {
        spec_fonts(self.fonts@)
    }

    /// Reads the collection directory from the buffer.
    #[verifier::loop_isolation(false)]
    pub fn from_buf(buf: &mut ByteCursor, total_num_tables: u16) -> (r: Result<
        Self,
        CollectionHeaderError,
    >)
        requires
            old(buf).wf(),
        ensures
            final(buf).wf(),
            final(buf).data@ == old(buf).data@,
            match r {
                Ok(h) => spec_collection_header(
                    old(buf).data@,
                    old(buf).pos as int,
                    total_num_tables,
                ) == Ok::<_, CollectionHeaderError>(
                    (h.version, h.spec_fonts(), final(buf).pos as int),
                ) && spec_fonts_wf(h.spec_fonts(), total_num_tables as int),
                Err(e) => spec_collection_header(
                    old(buf).data@,
                    old(buf).pos as int,
                    total_num_tables,
                ) == Err::<(CollectionHeaderVersion, Seq<FontModel>, int), _>(e),
            },
    {
        let value = match buf.try_get_u32() {
            Ok(v) => v,
            Err(e) => {
                return Err(CollectionHeaderError::from(e));
            },
        };
        let version = match CollectionHeaderVersion::try_from(value) {
            Ok(v) => v,
            Err(e) => {
                return Err(e);
            },
        };
        let num_fonts = match buf.try_get_255_u16() {
            Ok(v) => v,
            Err(e) => {
                return Err(CollectionHeaderError::from(e));
            },
        };
        let ghost s = buf.data@;
        let ghost start = buf.pos as int;
        let mut fonts: Vec<CollectionFontEntry> = Vec::new();
        let mut i: u16 = 0;
        assert(spec_fonts(fonts@) =~= Seq::empty());
        while i < num_fonts
            invariant
                i <= num_fonts,
                buf.wf(),
                buf.data@ == s,
                fonts@.len() == i,
                spec_fonts_wf(spec_fonts(fonts@), total_num_tables as int),
                spec_font_entries(s, start, Seq::empty(), num_fonts as nat, total_num_tables)
                    == spec_font_entries(
                    s,
                    buf.pos as int,
                    spec_fonts(fonts@),
                    (num_fonts - i) as nat,
                    total_num_tables,
                ),
            decreases num_fonts - i,
        {
            let font = match CollectionFontEntry::from_buf(buf, total_num_tables) {
                Ok(f) => f,
                Err(e) => {
                    return Err(e);
                },
            };
            proof {
                assert(spec_fonts(fonts@.push(font)) =~= spec_fonts(fonts@).push(font@));
            }
            fonts.push(font);
            i = i + 1;
        }
        Ok(CollectionHeader { version, fonts })
    }

    /// Calculates the total size of the OpenType Font Collection header,
    /// including the table directories for each font.
    pub fn calculate_header_size(&self) -> (size: usize)
        requires
            spec_collection_header_size(self.spec_fonts()) <= usize::MAX,
        ensures
            size == spec_collection_header_size(self.spec_fonts()),
    {
        let ghost fonts = self.spec_fonts();
        let n = self.fonts.len();
        let mut size: usize = 12;
        let mut i: usize = 0;
        assert(fonts.subrange(0, 0) =~= Seq::empty());
        while i < n
            invariant
                i <= n,
                n == self.fonts@.len(),
                fonts == self.spec_fonts(),
                spec_collection_header_size(fonts) <= usize::MAX,
                size == 12 + 4 * i + spec_directories_size(fonts.subrange(0, i as int)),
            decreases n - i,
        {
            proof {
                lemma_directories_size_prefix(fonts, i + 1);
                assert(fonts.subrange(0, i + 1).drop_last() =~= fonts.subrange(0, i as int));
                assert(fonts[i as int] == self.fonts@[i as int]@);
            }
            size = size + 4 + self.fonts[i].calculate_directory_size();
            i = i + 1;
        }
        assert(fonts.subrange(0, n as int) =~= fonts);
        size
    }

    /// Appends the OpenType Font Collection header to the buffer, with the
    /// table directory of each font, built from the records `tables` of the
    /// file's tables.
    #[verifier::loop_isolation(false)]
    pub fn write_to_buf(&self, buffer: &mut Vec<u8>, tables: &[TableRecord])
        requires
            spec_fonts_wf(self.spec_fonts(), tables@.len() as int),
            forall|i: int|
                0 <= i < self.fonts@.len() ==> (#[trigger] self.spec_fonts()[i]).table_indices.len()
                    < 4096,
            spec_collection_header_size(self.spec_fonts()) <= u32::MAX,
        ensures
            final(buffer)@ == old(buffer)@ + spec_collection_bytes(self.spec_fonts(), tables@),
    {
        proof {
            reveal(spec_collection_bytes);
        }
        let ghost fonts = self.spec_fonts();
        let n = self.fonts.len();
        put_u32(buffer, TTF_COLLECTION_FLAVOR);
        // Always version 1.0: it has no signature fields that would have to
        // be cleared.
        put_u32(buffer, COLLECTION_VERSION_1);
        put_u32(buffer, n as u32);
        let ghost head = buffer@;
        let mut table_directory_offset: usize = 12 + 4 * n;
        let mut i: usize = 0;
        assert(fonts.subrange(0, 0) =~= Seq::empty());
        while i < n
            invariant
                i <= n,
                table_directory_offset == 12 + 4 * n + spec_directories_size(
                    fonts.subrange(0, i as int),
                ),
                buffer@ == head + spec_offsets_bytes(fonts, i as nat),
            decreases n - i,
        {
            proof {
                lemma_directories_size_prefix(fonts, i as int);
                lemma_directories_size_prefix(fonts, i + 1);
                assert(fonts.subrange(0, i + 1).drop_last() =~= fonts.subrange(0, i as int));
                assert(fonts[i as int] == self.fonts@[i as int]@);
            }
            put_u32(buffer, table_directory_offset as u32);
            table_directory_offset = table_directory_offset
                + self.fonts[i].calculate_directory_size();
            i = i + 1;
            assert(buffer@ =~= head + spec_offsets_bytes(fonts, i as nat));
        }
        let ghost middle = buffer@;
        let mut k: usize = 0;
        while k < n
            invariant
                k <= n,
                buffer@ == middle + spec_directories_bytes(fonts, tables@, k as nat),
            decreases n - k,
        {
            let font = &self.fonts[k];
            assert(fonts[k as int] == font@);
            let count = font.table_indices.len();
            let mut font_tables: Vec<TableRecord> = Vec::new();
            let mut j: usize = 0;
            while j < count
                invariant
                    j <= count,
                    count == font.table_indices@.len(),
                    font_tables@ == spec_font_records(font@, tables@).subrange(0, j as int),
                decreases count - j,
            {
                let index = font.table_indices[j];
                assert(fonts[k as int].table_indices[j as int] < tables@.len());
                font_tables.push(tables[index as usize]);
                j = j + 1;
                assert(font_tables@ =~= spec_font_records(font@, tables@).subrange(0, j as int));
            }
            assert(font_tables@ =~= spec_font_records(font@, tables@));
            let table_directory = TableDirectory::new(font.flavor, font_tables);
            table_directory.write_to_buf(buffer);
            k = k + 1;
            assert(buffer@ =~= middle + spec_directories_bytes(fonts, tables@, k as nat));
        }
        assert(buffer@ =~= old(buffer)@ + spec_collection_bytes(fonts, tables@));
    }
}

} // verus!
