use woff2::buffer_util::ByteCursor;
use woff2::decode::DecodeError;
use woff2::checksum::ChecksumError;
use woff2::glyf_decoder::GlyfDecoderError;
use woff2::magic_numbers::Tag;
use woff2::ttf_header::{calculate_header_size, sort_by_tag, TableDirectory, TableRecord};
use woff2::woff2::collection_directory::{
    CollectionFontEntry, CollectionHeader, CollectionHeaderError, CollectionHeaderVersion,
};
use woff2::woff2::header::{Woff2Header, Woff2HeaderError};
use woff2::woff2::table_directory::{
    known_table_tag, push_simple_table_record, PartialTableDirectoryEntry, TableDirectoryEntry,
    TableDirectoryError, Woff2TableDirectory, WriteTablesError,
};

fn record(tag: &[u8; 4], n: u32) -> TableRecord {
    TableRecord { tag: Tag::from_bytes(*tag), checksum: n, offset: n * 4, length: n + 1 }
}

fn tags(records: &[TableRecord]) -> Vec<[u8; 4]> {
    records.iter().map(|r| r.tag.to_bytes()).collect()
}

#[test]
fn header_sizes() {
    assert_eq!(calculate_header_size(0), 12);
    assert_eq!(calculate_header_size(1), 28);
    assert_eq!(calculate_header_size(16), 268);
}

#[test]
fn sorting_by_tag_is_stable() {
    let sorted = sort_by_tag(vec![
        record(b"glyf", 1),
        record(b"OS/2", 2),
        record(b"cmap", 3),
        record(b"glyf", 4),
        record(b"GSUB", 5),
    ]);
    assert_eq!(
        tags(&sorted),
        vec![*b"GSUB", *b"OS/2", *b"cmap", *b"glyf", *b"glyf"]
    );
    assert_eq!(sorted[3].checksum, 1);
    assert_eq!(sorted[4].checksum, 4);
}

#[test]
fn table_directory_search_hints() {
    let expected = [
        (1usize, 16u16, 0u16, 0u16),
        (2, 32, 1, 0),
        (3, 32, 1, 16),
        (4, 64, 2, 0),
        (7, 64, 2, 48),
        (16, 256, 4, 0),
        (17, 256, 4, 16),
        (4095, 32768, 11, 32752),
    ];
    for (n, search_range, entry_selector, range_shift) in expected {
        let records = (0..n).map(|i| record(b"abcd", i as u32)).collect();
        let d = TableDirectory::new(Tag(0x0001_0000), records);
        assert_eq!(d.num_tables as usize, n);
        assert_eq!(d.search_range, search_range);
        assert_eq!(d.entry_selector, entry_selector);
        assert_eq!(d.range_shift, range_shift);
    }
}

#[test]
fn table_directory_bytes() {
    let d = TableDirectory::new(
        Tag::from_bytes(*b"OTTO"),
        vec![record(b"head", 2), record(b"CFF ", 1)],
    );
    let mut bytes = vec![0xEE];
    d.write_to_buf(&mut bytes);
    assert_eq!(
        bytes,
        vec![
            0xEE, b'O', b'T', b'T', b'O', 0, 2, 0, 32, 0, 1, 0, 0, //
            b'C', b'F', b'F', b' ', 0, 0, 0, 1, 0, 0, 0, 4, 0, 0, 0, 2, //
            b'h', b'e', b'a', b'd', 0, 0, 0, 2, 0, 0, 0, 8, 0, 0, 0, 3,
        ]
    );
    assert_eq!(bytes.len() - 1, calculate_header_size(2));
}

#[test]
fn finds_tables_by_tag() {
    let d = TableDirectory::new(
        Tag(0x0001_0000),
        vec![record(b"head", 2), record(b"cmap", 1), record(b"head", 3)],
    );
    let head = d.find_table(Tag::from_bytes(*b"head")).unwrap();
    assert_eq!(head.checksum, 2);
    assert_eq!(head.get_range(), (8, 11));
    assert!(d.find_table(Tag::from_bytes(*b"glyf")).is_none());
}

#[test]
fn header_fields() {
    let mut bytes = Vec::new();
    bytes.extend_from_slice(b"wOF2OTTO");
    for (i, width) in [4usize, 2, 2, 4, 4, 2, 2, 4, 4, 4, 4, 4].iter().enumerate() {
        let v = (i as u32 + 1) * 0x0101;
        bytes.extend_from_slice(&v.to_be_bytes()[4 - width..]);
    }
    bytes.push(0x99);
    let mut buffer = ByteCursor::new(&bytes);
    let h = Woff2Header::from_buf(&mut buffer).unwrap();
    assert_eq!(buffer.remaining(), 1);
    assert_eq!(h.signature, Tag::from_bytes(*b"wOF2"));
    assert_eq!(h.flavor, Tag::from_bytes(*b"OTTO"));
    assert_eq!(h.length, 0x0101);
    assert_eq!(h.num_tables, 0x0202);
    assert_eq!(h.reserved, 0x0303);
    assert_eq!(h.total_sfnt_size, 0x0404);
    assert_eq!(h.total_compressed_size, 0x0505);
    assert_eq!(h.major_version, 0x0606);
    assert_eq!(h.minor_version, 0x0707);
    assert_eq!(h.meta_offset, 0x0808);
    assert_eq!(h.meta_length, 0x0909);
    assert_eq!(h.meta_orig_length, 0x0A0A);
    assert_eq!(h.private_offset, 0x0B0B);
    assert_eq!(h.private_length, 0x0C0C);
    assert_eq!(h.is_valid_header(), Ok(()));
}

#[test]
fn header_errors() {
    let bytes = [0u8; 47];
    let mut buffer = ByteCursor::new(&bytes);
    assert_eq!(Woff2Header::from_buf(&mut buffer).err(), Some(Woff2HeaderError::Truncated));
    assert_eq!(buffer.remaining(), 47);
    let mut bytes = vec![0u8; 48];
    bytes[..4].copy_from_slice(b"wOFF");
    let h = Woff2Header::from_buf(&mut ByteCursor::new(&bytes)).unwrap();
    assert_eq!(h.is_valid_header(), Err(Woff2HeaderError::InvalidMagicWord));
    assert_eq!(Woff2HeaderError::InvalidMagicWord.message(), "Invalid magic word");
    assert_eq!(Woff2HeaderError::Truncated.message(), "Truncated header");
    assert_eq!(Woff2HeaderError::ExcessPadding.message(), "Excess padding");
    assert_eq!(Woff2HeaderError::OverlappingStreams.message(), "Overlapping streams");
}

#[test]
fn known_tags() {
    assert_eq!(known_table_tag(0), Tag::from_bytes(*b"cmap"));
    assert_eq!(known_table_tag(6), Tag::from_bytes(*b"OS/2"));
    assert_eq!(known_table_tag(8), Tag::from_bytes(*b"cvt "));
    assert_eq!(known_table_tag(10), Tag::from_bytes(*b"glyf"));
    assert_eq!(known_table_tag(11), Tag::from_bytes(*b"loca"));
    assert_eq!(known_table_tag(36), Tag::from_bytes(*b"SVG "));
    assert_eq!(known_table_tag(57), Tag::from_bytes(*b"Zapf"));
    assert_eq!(known_table_tag(62), Tag::from_bytes(*b"Sill"));
}

#[test]
fn directory_entries() {
    // `cmap`, not transformed
    let e = PartialTableDirectoryEntry::from_buf(&mut ByteCursor::new(&[0x00, 0x05])).unwrap();
    assert_eq!((e.transformed, e.tag, e.orig_length, e.transform_length), (false, Tag::from_bytes(*b"cmap"), 5, None));
    // `cmap` with a transform
    let e = PartialTableDirectoryEntry::from_buf(&mut ByteCursor::new(&[0x40, 0x05, 0x03])).unwrap();
    assert_eq!((e.transformed, e.orig_length, e.transform_length), (true, 5, Some(3)));
    // `glyf`: version 0 is the transform, version 3 is none
    let e = PartialTableDirectoryEntry::from_buf(&mut ByteCursor::new(&[0x0A, 0x05, 0x03])).unwrap();
    assert_eq!((e.transformed, e.tag, e.transform_length), (true, Tag::from_bytes(*b"glyf"), Some(3)));
    let e = PartialTableDirectoryEntry::from_buf(&mut ByteCursor::new(&[0xCA, 0x05])).unwrap();
    assert_eq!((e.transformed, e.transform_length), (false, None));
    let e = PartialTableDirectoryEntry::from_buf(&mut ByteCursor::new(&[0xCB, 0x05])).unwrap();
    assert_eq!((e.transformed, e.tag), (false, Tag::from_bytes(*b"loca")));
    let e = PartialTableDirectoryEntry::from_buf(&mut ByteCursor::new(&[0x8B, 0x05, 0x00])).unwrap();
    assert!(e.transformed);
    // a literal tag
    let e = PartialTableDirectoryEntry::from_buf(&mut ByteCursor::new(&[0x3F, b'g', b'l', b'y', b'f', 0x05, 0x01])).unwrap();
    assert_eq!((e.transformed, e.tag, e.transform_length), (true, Tag::from_bytes(*b"glyf"), Some(1)));
    assert_eq!(
        PartialTableDirectoryEntry::from_buf(&mut ByteCursor::new(&[0x3F, b'g', b'l'])).err(),
        Some(TableDirectoryError::Truncated)
    );
    assert_eq!(
        PartialTableDirectoryEntry::from_buf(&mut ByteCursor::new(&[0x00, 0x80])).err(),
        Some(TableDirectoryError::InvalidNumeric)
    );
    assert_eq!(
        PartialTableDirectoryEntry::from_buf(&mut ByteCursor::new(&[0x40, 0x01])).err(),
        Some(TableDirectoryError::Truncated)
    );
}

#[test]
fn directory_offsets_run_on() {
    let bytes = [0x00, 0x05, 0x0A, 0x14, 0x07, 0x0B, 0x06, 0x00, 0x01, 0x36, 0x77];
    let mut buffer = ByteCursor::new(&bytes);
    let d = Woff2TableDirectory::from_buf(&mut buffer, 4).unwrap();
    assert_eq!(buffer.remaining(), 1);
    assert_eq!(d.uncompressed_length, 5 + 7 + 0 + 54);
    let entries: Vec<(u32, u32, u32)> = d.tables.iter().map(|t| (t.src_offset, t.src_length, t.dest_length)).collect();
    assert_eq!(entries, vec![(0, 5, 5), (5, 7, 20), (12, 0, 6), (12, 54, 54)]);
    assert_eq!(d.tables[1].get_source_range(), (5, 12));
    assert_eq!(TableDirectoryError::Truncated.message(), "Table Directory truncated");
    assert_eq!(TableDirectoryError::InvalidNumeric.message(), "Invalid numeric value");
}

#[test]
fn directory_total_must_fit_u32() {
    let bytes = [0x00, 0x8F, 0xFF, 0xFF, 0xFF, 0x7F, 0x02, 0x01];
    assert_eq!(
        Woff2TableDirectory::from_buf(&mut ByteCursor::new(&bytes), 2).err(),
        Some(TableDirectoryError::InvalidNumeric)
    );
    let d = Woff2TableDirectory::from_buf(&mut ByteCursor::new(&bytes), 1).unwrap();
    assert_eq!(d.uncompressed_length, u32::MAX);
}

#[test]
fn simple_tables_are_copied_and_padded() {
    let data = [1u8, 2, 3, 4, 5, 6, 7];
    let entry = TableDirectoryEntry {
        transformed: false,
        tag: Tag::from_bytes(*b"cmap"),
        dest_length: 5,
        src_length: 5,
        src_offset: 2,
    };
    let mut out = vec![0u8; 4];
    let mut records = Vec::new();
    push_simple_table_record(entry, &data, &mut out, &mut records).unwrap();
    assert_eq!(out, vec![0, 0, 0, 0, 3, 4, 5, 6, 7, 0, 0, 0]);
    assert_eq!(records.len(), 1);
    assert_eq!(records[0].tag, Tag::from_bytes(*b"cmap"));
    assert_eq!(records[0].offset, 4);
    assert_eq!(records[0].length, 5);
    assert_eq!(records[0].checksum, 0x03040506 + 0x07000000);
}

#[test]
fn tables_are_written_in_directory_order() {
    let data = [1u8, 2, 3, 4, 5, 6, 7, 8, 9, 10, 11, 12, 13, 14, 15, 16, 17];
    let mut buffer = ByteCursor::new(&[0x02, 0x03, 0x01, 0x0E]);
    let d = Woff2TableDirectory::from_buf(&mut buffer, 2).unwrap();
    let mut out = vec![0xAAu8; 4];
    let records = d.write_to_buf(&mut out, &data).unwrap();
    assert_eq!(
        out,
        vec![0xAA, 0xAA, 0xAA, 0xAA, 1, 2, 3, 0, 4, 5, 6, 7, 8, 9, 10, 11, 0, 0, 0, 0, 16, 17, 0, 0]
    );
    assert_eq!(tags(&records), vec![*b"hhea", *b"head"]);
    assert_eq!((records[0].offset, records[0].length), (4, 3));
    assert_eq!((records[1].offset, records[1].length), (8, 14));
    assert_eq!(records[1].checksum, 0x04050607u32 + 0x08090A0B + 0x10110000);
}

#[test]
fn write_tables_error_texts() {
    assert_eq!(WriteTablesError::MissingLocaTable.message(), "glyf table not followed by loca table");
    assert_eq!(WriteTablesError::MissingGlyfTable.message(), "loca table not preceded by glyf table");
    assert_eq!(
        WriteTablesError::GlyfLocaDifferentTransform.message(),
        "glyf table and loca table have different transformations"
    );
    assert_eq!(WriteTablesError::TruncatedHeadTable.message(), "Truncated `head` table");
    assert_eq!(
        WriteTablesError::Unsupported("transformed hmtx table").message(),
        "Unsupported feature: transformed hmtx table"
    );
    assert_eq!(
        WriteTablesError::GlyfDecoderError(GlyfDecoderError::ExtraData).message(),
        "Extra Data"
    );
    assert_eq!(GlyfDecoderError::Truncated.message(), "Stream truncated");
    assert_eq!(WriteTablesError::from(ChecksumError::Truncated), WriteTablesError::TruncatedHeadTable);
}

#[test]
fn decode_errors_from_inner_errors() {
    assert_eq!(
        DecodeError::from_write_tables_error(WriteTablesError::Unsupported("transformed hmtx table")),
        DecodeError::Unsupported("transformed hmtx table")
    );
    assert_eq!(
        DecodeError::from_write_tables_error(WriteTablesError::GlyfDecoderError(GlyfDecoderError::ExtraData)),
        DecodeError::Invalid("Extra Data".to_string())
    );
    assert_eq!(
        DecodeError::from_checksum_error(ChecksumError::Truncated),
        DecodeError::Invalid("Truncated `head` table".to_string())
    );
    assert_eq!(
        DecodeError::from_collection_header_error(CollectionHeaderError::NoTables),
        DecodeError::Invalid("No tables in font".to_string())
    );
    assert_eq!(
        DecodeError::from_table_directory_error(TableDirectoryError::InvalidNumeric),
        DecodeError::Invalid("Invalid numeric value".to_string())
    );
    assert_eq!(
        DecodeError::from_woff2_header_error(Woff2HeaderError::InvalidMagicWord),
        DecodeError::Invalid("Invalid magic word".to_string())
    );
}

#[test]
fn collection_versions() {
    assert_eq!(CollectionHeaderVersion::try_from(0x0001_0000), Ok(CollectionHeaderVersion::V1));
    assert_eq!(CollectionHeaderVersion::try_from(0x0002_0000), Ok(CollectionHeaderVersion::V2));
    assert_eq!(
        CollectionHeaderVersion::try_from(0x0001_0001),
        Err(CollectionHeaderError::InvalidCollectionVersion)
    );
}

#[test]
fn collection_directory_is_read() {
    let bytes = [0, 2, 0, 0, 2, 2, 0, 1, 0, 0, 0, 1, 1, b'O', b'T', b'T', b'O', 2, 0xEE];
    let mut buffer = ByteCursor::new(&bytes);
    let h = CollectionHeader::from_buf(&mut buffer, 3).unwrap();
    assert_eq!(buffer.remaining(), 1);
    assert_eq!(h.version, CollectionHeaderVersion::V2);
    assert_eq!(h.fonts.len(), 2);
    assert_eq!(h.fonts[0].flavor, Tag(0x0001_0000));
    assert_eq!(h.fonts[0].table_indices, vec![0, 1]);
    assert_eq!(h.fonts[1].flavor, Tag::from_bytes(*b"OTTO"));
    assert_eq!(h.fonts[1].table_indices, vec![2]);
    assert_eq!(h.fonts[0].calculate_directory_size(), 12 + 32);
    assert_eq!(h.calculate_header_size(), 12 + 8 + 44 + 28);
    let mut buffer = ByteCursor::new(&bytes);
    assert_eq!(
        CollectionHeader::from_buf(&mut buffer, 2).err(),
        Some(CollectionHeaderError::InvalidTableIndex)
    );
}

#[test]
fn collection_header_is_written() {
    let h = CollectionHeader {
        version: CollectionHeaderVersion::V2,
        fonts: vec![
            CollectionFontEntry { flavor: Tag(0x0001_0000), table_indices: vec![1, 0] },
            CollectionFontEntry { flavor: Tag::from_bytes(*b"OTTO"), table_indices: vec![1] },
        ],
    };
    let tables = [record(b"head", 2), record(b"cmap", 1)];
    let mut bytes = Vec::new();
    h.write_to_buf(&mut bytes, &tables);
    assert_eq!(bytes.len(), h.calculate_header_size());
    assert_eq!(
        bytes,
        vec![
            b't', b't', b'c', b'f', 0, 1, 0, 0, 0, 0, 0, 2, 0, 0, 0, 20, 0, 0, 0, 64, //
            0, 1, 0, 0, 0, 2, 0, 32, 0, 1, 0, 0, //
            b'c', b'm', b'a', b'p', 0, 0, 0, 1, 0, 0, 0, 4, 0, 0, 0, 2, //
            b'h', b'e', b'a', b'd', 0, 0, 0, 2, 0, 0, 0, 8, 0, 0, 0, 3, //
            b'O', b'T', b'T', b'O', 0, 1, 0, 16, 0, 0, 0, 0, //
            b'c', b'm', b'a', b'p', 0, 0, 0, 1, 0, 0, 0, 4, 0, 0, 0, 2,
        ]
    );
}

#[test]
fn collection_error_texts() {
    assert_eq!(
        CollectionHeaderError::InvalidCollectionVersion.message(),
        "Invalid collection header version"
    );
    assert_eq!(CollectionHeaderError::Truncated.message(), "Truncated collection header");
    assert_eq!(CollectionHeaderError::NoTables.message(), "No tables in font");
    assert_eq!(CollectionHeaderError::InvalidTableIndex.message(), "Invalid table index");
}
