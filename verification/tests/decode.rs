use woff2::checksum::calculate_checksum;
use woff2::decode::{
    assemble_font, convert_woff2_to_ttf, is_woff2, parse_front, DecodeError,
};
use woff2::magic_numbers::Tag;
use woff2::woff2::header::Woff2Header;
use woff2::woff2::table_directory::Woff2TableDirectory;
use woff2::buffer_util::ByteCursor;

/// One table of a sample file: the flag byte of its directory entry, its
/// original length, whether a transformed length follows, and its bytes in
/// the compressed stream.
struct SampleTable {
    flags: u8,
    orig_length: u32,
    transformed: bool,
    data: Vec<u8>,
}

fn plain(index: u8, data: Vec<u8>) -> SampleTable {
    let flags = if index == 10 || index == 11 { index | 0xC0 } else { index };
    SampleTable { flags, orig_length: data.len() as u32, transformed: false, data }
}

fn base_128(mut v: u32) -> Vec<u8> {
    let mut digits = vec![(v & 0x7F) as u8];
    v >>= 7;
    while v != 0 {
        digits.push((v & 0x7F) as u8 | 0x80);
        v >>= 7;
    }
    digits.reverse();
    digits
}

fn compress(data: &[u8]) -> Vec<u8> {
    let mut out = Vec::new();
    let params = brotli::enc::BrotliEncoderParams::default();
    let mut input = data;
    brotli::BrotliCompress(&mut input, &mut out, &params).unwrap();
    out
}

/// A WOFF2 file; `size_delta` is added to the compressed size that the
/// header gives.
fn sample_file(flavor: [u8; 4], tables: &[SampleTable], collection: &[u8], size_delta: i64) -> Vec<u8> {
    let mut directory = Vec::new();
    let mut stream = Vec::new();
    for t in tables {
        directory.push(t.flags);
        directory.extend_from_slice(&base_128(t.orig_length));
        if t.transformed {
            directory.extend_from_slice(&base_128(t.data.len() as u32));
        }
        stream.extend_from_slice(&t.data);
    }
    let compressed = compress(&stream);
    let total_compressed_size = (compressed.len() as i64 - 1 + size_delta) as u32;
    let mut file = Vec::new();
    file.extend_from_slice(b"wOF2");
    file.extend_from_slice(&flavor);
    file.extend_from_slice(&0u32.to_be_bytes());
    file.extend_from_slice(&(tables.len() as u16).to_be_bytes());
    file.extend_from_slice(&0u16.to_be_bytes());
    file.extend_from_slice(&0u32.to_be_bytes());
    file.extend_from_slice(&total_compressed_size.to_be_bytes());
    file.extend_from_slice(&[0u8; 24]);
    assert_eq!(file.len(), 48);
    file.extend_from_slice(&directory);
    file.extend_from_slice(collection);
    file.extend_from_slice(&compressed);
    file
}

fn head_table() -> Vec<u8> {
    let mut t = Vec::new();
    t.extend_from_slice(&0x0001_0000u32.to_be_bytes());
    t.extend_from_slice(&0x0001_0000u32.to_be_bytes());
    t.extend_from_slice(&0xDEAD_BEEFu32.to_be_bytes()); // a stale checksum adjustment
    t.extend_from_slice(&0x5F0F_3CF5u32.to_be_bytes());
    t.extend_from_slice(&0u16.to_be_bytes());
    t.extend_from_slice(&1000u16.to_be_bytes());
    t.extend_from_slice(&[0u8; 16]);
    t.extend_from_slice(&[0, 0, 0, 0, 0, 100, 0, 50]);
    t.extend_from_slice(&[0u8; 6]);
    t.extend_from_slice(&0u16.to_be_bytes()); // short `loca`
    t.extend_from_slice(&0u16.to_be_bytes());
    assert_eq!(t.len(), 54);
    t
}

fn hhea_table() -> Vec<u8> {
    let mut t = vec![0u8; 36];
    t[1] = 1;
    t[35] = 2;
    t
}

fn maxp_table() -> Vec<u8> {
    vec![0, 0, 0x50, 0, 0, 2]
}

/// An empty glyph and a triangle, transformed.
fn transformed_glyf() -> Vec<u8> {
    let mut t = Vec::new();
    t.extend_from_slice(&[0, 0, 0, 0, 0, 2, 0, 0]);
    for size in [4u32, 1, 3, 4, 0, 4, 0] {
        t.extend_from_slice(&size.to_be_bytes());
    }
    t.extend_from_slice(&[0, 0, 0, 1]);
    t.extend_from_slice(&[3]);
    t.extend_from_slice(&[11, 1, 10]);
    t.extend_from_slice(&[100, 50, 100, 0]);
    t.extend_from_slice(&[0, 0, 0, 0]);
    t
}

const TRIANGLE: [u8; 20] = [0, 1, 0, 0, 0, 0, 0, 100, 0, 50, 0, 2, 0, 0, 0x33, 0x35, 0x23, 100, 100, 50];

/// The sixteen tables of a font with TrueType outlines, `glyf` and `loca`
/// transformed.
fn sample_font() -> Vec<u8> {
    let glyf = transformed_glyf();
    let tables = vec![
        plain(27, vec![1, 2, 3, 4, 5]),
        plain(28, vec![6, 7]),
        plain(6, vec![8; 9]),
        plain(0, vec![9; 4]),
        plain(8, vec![10; 3]),
        plain(9, vec![11; 1]),
        plain(17, vec![12; 8]),
        SampleTable { flags: 10, orig_length: 20, transformed: true, data: glyf },
        SampleTable { flags: 11, orig_length: 6, transformed: true, data: vec![] },
        plain(1, head_table()),
        plain(2, hhea_table()),
        plain(3, vec![0, 10, 0, 0, 0, 110, 0, 0]),
        plain(4, maxp_table()),
        plain(5, vec![0; 6]),
        plain(7, vec![0, 3, 0, 0, 0, 0, 0, 0, 0, 0, 0, 0, 0, 0, 0, 0, 0, 0, 0, 0, 0, 0, 0, 0, 0, 0, 0, 0, 0, 0, 0, 0]),
        plain(12, vec![13; 2]),
    ];
    sample_file([0, 1, 0, 0], &tables, &[], 0)
}

fn be_u16(b: &[u8], at: usize) -> u16 {
    u16::from_be_bytes([b[at], b[at + 1]])
}

fn be_u32(b: &[u8], at: usize) -> u32 {
    u32::from_be_bytes([b[at], b[at + 1], b[at + 2], b[at + 3]])
}

/// The records of the table directory at `at`: tag, checksum, offset, length.
fn records(font: &[u8], at: usize) -> Vec<([u8; 4], u32, u32, u32)> {
    let n = be_u16(font, at + 4) as usize;
    (0..n)
        .map(|i| {
            let r = at + 12 + 16 * i;
            (
                [font[r], font[r + 1], font[r + 2], font[r + 3]],
                be_u32(font, r + 4),
                be_u32(font, r + 8),
                be_u32(font, r + 12),
            )
        })
        .collect()
}

fn table<'a>(font: &'a [u8], at: usize, tag: &[u8; 4]) -> &'a [u8] {
    let r = records(font, at).into_iter().find(|r| &r.0 == tag).unwrap();
    &font[r.2 as usize..(r.2 + r.3) as usize]
}

fn invalid(text: &str) -> DecodeError {
    DecodeError::Invalid(text.to_string())
}

#[test]
fn sample_font_is_woff2() {
    assert!(is_woff2(&sample_font()));
}

#[test]
fn is_woff2_wants_the_whole_signature() {
    assert!(is_woff2(b"wOF2"));
    assert!(!is_woff2(b"wOF"));
    assert!(!is_woff2(b"wOFF...."));
    assert!(!is_woff2(b""));
    assert!(!is_woff2(b"xwOF2"));
}

#[test]
fn test_header() {
    let font = sample_font();
    let mut buffer = ByteCursor::new(&font);
    let header = Woff2Header::from_buf(&mut buffer).unwrap();
    assert!(header.is_valid_header().is_ok());
    assert_eq!(header.num_tables, 16);
    assert_eq!(header.flavor, Tag(0x0001_0000));
    assert_eq!(buffer.remaining(), font.len() - 48);
}

#[test]
fn test_sample_font() {
    let font = sample_font();
    let mut buffer = ByteCursor::new(&font);
    let header = Woff2Header::from_buf(&mut buffer).unwrap();
    let tables = Woff2TableDirectory::from_buf(&mut buffer, header.num_tables).unwrap();

    let expected_tags: Vec<_> = [
        *b"GPOS", *b"GSUB", *b"OS/2", *b"cmap", *b"cvt ", *b"fpgm", *b"gasp", *b"glyf",
        *b"loca", *b"head", *b"hhea", *b"hmtx", *b"maxp", *b"name", *b"post", *b"prep",
    ]
    .iter()
    .map(|s| Tag::from_bytes(*s))
    .collect();

    assert_eq!(
        expected_tags,
        tables
            .tables
            .iter()
            .map(|table| table.tag)
            .collect::<Vec<_>>()
    )
}

#[test]
fn read_sample_font() {
    let buffer = sample_font();
    let ttf = convert_woff2_to_ttf(&buffer).unwrap();
    assert_eq!(None, ttf_parser::fonts_in_collection(&ttf));
    let parsed_ttf = ttf_parser::Face::parse(&ttf, 0).unwrap();
    assert_eq!(parsed_ttf.number_of_glyphs(), 2);
    let bbox = parsed_ttf.glyph_bounding_box(ttf_parser::GlyphId(1)).unwrap();
    assert_eq!((bbox.x_min, bbox.y_min, bbox.x_max, bbox.y_max), (0, 0, 100, 50));
    assert!(parsed_ttf.glyph_bounding_box(ttf_parser::GlyphId(0)).is_none());
}

#[test]
fn converted_font_layout() {
    let ttf = convert_woff2_to_ttf(&sample_font()).unwrap();
    assert_eq!(&ttf[..4], &[0, 1, 0, 0]);
    assert_eq!(be_u16(&ttf, 4), 16);
    assert_eq!(be_u16(&ttf, 6), 256); // search range
    assert_eq!(be_u16(&ttf, 8), 4); // entry selector
    assert_eq!(be_u16(&ttf, 10), 0); // range shift
    let records = records(&ttf, 0);
    let tags: Vec<[u8; 4]> = records.iter().map(|r| r.0).collect();
    let mut sorted = tags.clone();
    sorted.sort();
    assert_eq!(tags, sorted);
    assert_eq!(tags[0], *b"GPOS");
    assert_eq!(tags[15], *b"prep");
    for r in &records {
        assert_eq!(r.2 % 4, 0);
        assert!(r.2 as usize >= 12 + 16 * 16);
        let bytes = &ttf[r.2 as usize..(r.2 + r.3) as usize];
        if &r.0 == b"head" {
            let mut head = bytes.to_vec();
            head[8..12].copy_from_slice(&[0; 4]);
            assert_eq!(r.1, calculate_checksum(&head));
        } else {
            assert_eq!(r.1, calculate_checksum(bytes));
        }
    }
    // the tables lie in the order of the WOFF2 directory
    let gpos = records.iter().find(|r| &r.0 == b"GPOS").unwrap();
    assert_eq!(gpos.2, 12 + 16 * 16);
    let gsub = records.iter().find(|r| &r.0 == b"GSUB").unwrap();
    assert_eq!(gsub.2, gpos.2 + 8);
    assert_eq!(ttf.len() % 4, 0);
    assert_eq!(calculate_checksum(&ttf), 0xB1B0AFBA);
    assert_eq!(table(&ttf, 0, b"GPOS"), &[1, 2, 3, 4, 5]);
    assert_eq!(table(&ttf, 0, b"glyf"), &TRIANGLE);
    assert_eq!(table(&ttf, 0, b"loca"), &[0, 0, 0, 0, 0, 10]);
    let head = table(&ttf, 0, b"head");
    assert_eq!(&head[..8], &head_table()[..8]);
    assert_eq!(&head[12..], &head_table()[12..]);
    assert_ne!(&head[8..12], &[0xDE, 0xAD, 0xBE, 0xEF]);
}

#[test]
fn conversion_is_repeatable() {
    let font = sample_font();
    assert_eq!(convert_woff2_to_ttf(&font), convert_woff2_to_ttf(&font));
}

#[test]
fn read_loca_is_not_after_glyf_font() {
    // In the font that comes out, sorted by tag, `head` and `hhea` stand
    // between `glyf` and `loca`; in the file `loca` follows `glyf`.
    let tables = vec![
        plain(4, maxp_table()),
        plain(2, hhea_table()),
        SampleTable { flags: 10, orig_length: 20, transformed: true, data: transformed_glyf() },
        SampleTable { flags: 11, orig_length: 6, transformed: true, data: vec![] },
        plain(1, head_table()),
    ];
    let buffer = sample_file([0, 1, 0, 0], &tables, &[], 0);
    let ttf = convert_woff2_to_ttf(&buffer).unwrap();
    assert_eq!(None, ttf_parser::fonts_in_collection(&ttf));
    let _parsed_ttf = ttf_parser::Face::parse(&ttf, 0).unwrap();
    let tags: Vec<[u8; 4]> = records(&ttf, 0).iter().map(|r| r.0).collect();
    assert_eq!(tags, vec![*b"glyf", *b"head", *b"hhea", *b"loca", *b"maxp"]);
}

#[test]
fn tables_between_glyf_and_loca_are_rejected() {
    let tables = vec![
        plain(1, head_table()),
        SampleTable { flags: 10, orig_length: 20, transformed: true, data: transformed_glyf() },
        plain(2, hhea_table()),
        SampleTable { flags: 11, orig_length: 6, transformed: true, data: vec![] },
    ];
    let font = sample_file([0, 1, 0, 0], &tables, &[], 0);
    assert_eq!(
        convert_woff2_to_ttf(&font),
        Err(invalid("glyf table not followed by loca table"))
    );
}

/// The points of an outline, as `ttf_parser` hands them out.
struct Points(Vec<(i32, i32)>);

impl ttf_parser::OutlineBuilder for Points {
    fn move_to(&mut self, x: f32, y: f32) {
        self.0.push((x as i32, y as i32));
    }

    fn line_to(&mut self, x: f32, y: f32) {
        self.0.push((x as i32, y as i32));
    }

    fn quad_to(&mut self, _x1: f32, _y1: f32, x: f32, y: f32) {
        self.0.push((x as i32, y as i32));
    }

    fn curve_to(&mut self, _x1: f32, _y1: f32, _x2: f32, _y2: f32, x: f32, y: f32) {
        self.0.push((x as i32, y as i32));
    }

    fn close(&mut self) {}
}

#[test]
fn decoded_outline_is_the_triangle() {
    let ttf = convert_woff2_to_ttf(&sample_font()).unwrap();
    let face = ttf_parser::Face::parse(&ttf, 0).unwrap();
    let mut points = Points(Vec::new());
    face.outline_glyph(ttf_parser::GlyphId(1), &mut points).unwrap();
    assert_eq!(points.0, vec![(100, 0), (100, 50), (0, 50), (100, 0)]);
}

#[test]
fn null_transformed_glyf_and_loca_are_copied() {
    let tables = vec![
        plain(10, TRIANGLE.to_vec()),
        plain(11, vec![0, 0, 0, 10]),
        plain(1, head_table()),
    ];
    let ttf = convert_woff2_to_ttf(&sample_file(*b"OTTO", &tables, &[], 0)).unwrap();
    assert_eq!(&ttf[..4], b"OTTO");
    assert_eq!(be_u16(&ttf, 4), 3);
    assert_eq!(be_u16(&ttf, 6), 32);
    assert_eq!(be_u16(&ttf, 8), 1);
    assert_eq!(be_u16(&ttf, 10), 16);
    assert_eq!(table(&ttf, 0, b"glyf"), &TRIANGLE);
    assert_eq!(table(&ttf, 0, b"loca"), &[0, 0, 0, 10]);
    assert_eq!(calculate_checksum(&ttf), 0xB1B0AFBA);
}

#[test]
fn literal_tags_are_read() {
    let mut custom = plain(63, vec![1, 2, 3]);
    custom.flags = 63;
    let tables = vec![custom, plain(1, head_table())];
    let mut font = sample_file([0, 1, 0, 0], &tables, &[], 0);
    // the tag follows the flag byte
    font.splice(49..49, *b"ZZZZ");
    let ttf = convert_woff2_to_ttf(&font).unwrap();
    assert_eq!(table(&ttf, 0, b"ZZZZ"), &[1, 2, 3]);
    let tags: Vec<[u8; 4]> = records(&ttf, 0).iter().map(|r| r.0).collect();
    assert_eq!(tags, vec![*b"ZZZZ", *b"head"]);
}

#[test]
fn corrupt_signature_is_rejected() {
    let mut font = sample_font();
    font[3] = b'F';
    assert_eq!(convert_woff2_to_ttf(&font), Err(invalid("Invalid magic word")));
}

#[test]
fn truncated_header_is_rejected() {
    let font = sample_font();
    assert_eq!(convert_woff2_to_ttf(&font[..47]), Err(invalid("Truncated header")));
    assert_eq!(convert_woff2_to_ttf(&[]), Err(invalid("Truncated header")));
}

#[test]
fn unknown_flavor_is_rejected() {
    let font = sample_file(*b"typ1", &[plain(1, head_table())], &[], 0);
    assert_eq!(convert_woff2_to_ttf(&font), Err(invalid("Invalid font flavor")));
}

#[test]
fn truncated_directory_is_rejected() {
    let font = sample_font();
    assert_eq!(
        convert_woff2_to_ttf(&font[..50]),
        Err(invalid("Table Directory truncated"))
    );
}

#[test]
fn invalid_directory_number_is_rejected() {
    let mut font = sample_file([0, 1, 0, 0], &[plain(1, head_table())], &[], 0);
    font[49] = 0x80;
    assert_eq!(convert_woff2_to_ttf(&font), Err(invalid("Invalid numeric value")));
}

#[test]
fn compressed_size_mismatch_is_rejected() {
    for delta in [-1i64, 1, 2] {
        let font = sample_file([0, 1, 0, 0], &[plain(1, head_table())], &[], delta);
        assert_eq!(
            convert_woff2_to_ttf(&font),
            Err(invalid("Compressed stream size does not match header"))
        );
    }
}

#[test]
fn broken_stream_is_rejected() {
    let font = sample_font();
    let front = parse_front(&font).unwrap();
    let mut broken = font[..front.stream_start].to_vec();
    broken.extend_from_slice(&[0xFF; 16]);
    assert!(matches!(convert_woff2_to_ttf(&broken), Err(DecodeError::Invalid(_))));
    let cut = &font[..front.stream_start];
    assert!(matches!(convert_woff2_to_ttf(cut), Err(DecodeError::Invalid(_))));
}

#[test]
fn short_decompressed_stream_is_rejected() {
    let mut short = plain(1, head_table());
    short.orig_length = 60;
    let font = sample_file([0, 1, 0, 0], &[short], &[], 0);
    assert_eq!(
        convert_woff2_to_ttf(&font),
        Err(invalid("Decompressed stream shorter than the tables"))
    );
}

#[test]
fn transformed_hmtx_is_unsupported() {
    let tables = vec![
        plain(1, head_table()),
        SampleTable { flags: 3 | 0x40, orig_length: 8, transformed: true, data: vec![0; 4] },
    ];
    let font = sample_file([0, 1, 0, 0], &tables, &[], 0);
    assert_eq!(
        convert_woff2_to_ttf(&font),
        Err(DecodeError::Unsupported("transformed hmtx table"))
    );
}

#[test]
fn composite_glyph_without_bbox_is_invalid() {
    let mut glyf = Vec::new();
    glyf.extend_from_slice(&[0, 0, 0, 0, 0, 1, 0, 0]);
    for size in [2u32, 0, 0, 0, 6, 4, 0] {
        glyf.extend_from_slice(&size.to_be_bytes());
    }
    glyf.extend_from_slice(&[0xFF, 0xFF]);
    glyf.extend_from_slice(&[0, 0, 1, 2, 3, 4]);
    glyf.extend_from_slice(&[0, 0, 0, 0]);
    let tables = vec![
        plain(1, head_table()),
        SampleTable { flags: 10, orig_length: 20, transformed: true, data: glyf },
        SampleTable { flags: 11, orig_length: 4, transformed: true, data: vec![] },
    ];
    let font = sample_file([0, 1, 0, 0], &tables, &[], 0);
    assert_eq!(
        convert_woff2_to_ttf(&font),
        Err(invalid("Composite glyph without bbox"))
    );
}

#[test]
fn lone_loca_is_rejected() {
    let tables = vec![plain(1, head_table()), plain(11, vec![0, 0])];
    let font = sample_file([0, 1, 0, 0], &tables, &[], 0);
    assert_eq!(
        convert_woff2_to_ttf(&font),
        Err(invalid("loca table not preceded by glyf table"))
    );
}

#[test]
fn glyf_without_loca_is_rejected() {
    let tables = vec![plain(1, head_table()), plain(10, TRIANGLE.to_vec())];
    let font = sample_file([0, 1, 0, 0], &tables, &[], 0);
    assert_eq!(
        convert_woff2_to_ttf(&font),
        Err(invalid("glyf table not followed by loca table"))
    );
}

#[test]
fn glyf_and_loca_must_share_the_transform() {
    let tables = vec![
        SampleTable { flags: 10, orig_length: 20, transformed: true, data: transformed_glyf() },
        plain(11, vec![0, 0, 0, 0, 0, 10]),
        plain(1, head_table()),
    ];
    let font = sample_file([0, 1, 0, 0], &tables, &[], 0);
    assert_eq!(
        convert_woff2_to_ttf(&font),
        Err(invalid("glyf table and loca table have different transformations"))
    );
}

#[test]
fn short_head_is_rejected() {
    let font = sample_file([0, 1, 0, 0], &[plain(1, vec![0; 11])], &[], 0);
    assert_eq!(convert_woff2_to_ttf(&font), Err(invalid("Truncated `head` table")));
}

#[test]
fn missing_head_is_rejected() {
    let font = sample_file([0, 1, 0, 0], &[plain(2, hhea_table())], &[], 0);
    assert_eq!(convert_woff2_to_ttf(&font), Err(invalid("Missing `head` table")));
    let font = sample_file([0, 1, 0, 0], &[], &[], 0);
    assert_eq!(convert_woff2_to_ttf(&font), Err(invalid("Missing `head` table")));
}

/// Two fonts that share the `head` table: tables 0 and 1, and 2 and 0.
fn sample_collection(version: u32, fonts: &[u8]) -> Vec<u8> {
    let tables = vec![
        plain(1, head_table()),
        plain(2, hhea_table()),
        plain(4, maxp_table()),
    ];
    let mut collection = version.to_be_bytes().to_vec();
    collection.extend_from_slice(fonts);
    sample_file(*b"ttcf", &tables, &collection, 0)
}

const TWO_FONTS: [u8; 15] = [2, 2, 0, 1, 0, 0, 0, 1, 2, b'O', b'T', b'T', b'O', 2, 0];

#[test]
fn collection_is_written_as_version_1() {
    for version in [0x0001_0000u32, 0x0002_0000] {
        let ttc = convert_woff2_to_ttf(&sample_collection(version, &TWO_FONTS)).unwrap();
        assert_eq!(&ttc[..4], b"ttcf");
        assert_eq!(be_u32(&ttc, 4), 0x0001_0000);
        assert_eq!(be_u32(&ttc, 8), 2);
        assert_eq!(be_u32(&ttc, 12), 20);
        assert_eq!(be_u32(&ttc, 16), 20 + 12 + 32);
        assert_eq!(Some(2), ttf_parser::fonts_in_collection(&ttc));
        // the first font
        assert_eq!(&ttc[20..24], &[0, 1, 0, 0]);
        assert_eq!(be_u16(&ttc, 24), 2);
        let first = records(&ttc, 20);
        assert_eq!(first[0].0, *b"head");
        assert_eq!(first[1].0, *b"hhea");
        // the second font, its tables sorted
        assert_eq!(&ttc[64..68], b"OTTO");
        let second = records(&ttc, 64);
        assert_eq!(second[0].0, *b"head");
        assert_eq!(second[1].0, *b"maxp");
        // the shared table is one table of the file
        assert_eq!(first[0], second[0]);
        assert_eq!(first[0].2, 108);
        assert_eq!(ttc.len(), 108 + 56 + 36 + 8);
        assert_eq!(table(&ttc, 64, b"maxp"), &maxp_table()[..]);
        let head = table(&ttc, 20, b"head");
        assert_eq!(&head[8..12], &[0, 0, 0, 0]);
    }
}

#[test]
fn collection_errors() {
    assert_eq!(
        convert_woff2_to_ttf(&sample_collection(0x0003_0000, &TWO_FONTS)),
        Err(invalid("Invalid collection header version"))
    );
    assert_eq!(
        convert_woff2_to_ttf(&sample_collection(0x0001_0000, &[1, 0, 0, 1, 0, 0])),
        Err(invalid("No tables in font"))
    );
    assert_eq!(
        convert_woff2_to_ttf(&sample_collection(0x0001_0000, &[1, 1, 0, 1, 0, 0, 3])),
        Err(invalid("Invalid table index"))
    );
    let font = sample_collection(0x0001_0000, &TWO_FONTS);
    let front = parse_front(&font).unwrap();
    assert_eq!(
        convert_woff2_to_ttf(&font[..front.stream_start - 1]),
        Err(invalid("Truncated collection header"))
    );
}

#[test]
fn assembling_checks_the_sizes() {
    let font = sample_file([0, 1, 0, 0], &[plain(1, head_table())], &[], 0);
    let front = parse_front(&font).unwrap();
    let taken = front.header.total_compressed_size as usize + 1;
    let ttf = assemble_font(&front, &head_table(), taken).unwrap();
    assert_eq!(ttf, convert_woff2_to_ttf(&font).unwrap());
    // more decompressed data than the tables take is left aside
    let mut longer = head_table();
    longer.push(1);
    assert_eq!(assemble_font(&front, &longer, taken).unwrap(), ttf);
    assert_eq!(
        assemble_font(&front, &head_table(), taken + 1),
        Err(invalid("Compressed stream size does not match header"))
    );
    assert_eq!(
        assemble_font(&front, &head_table()[..53], taken),
        Err(invalid("Decompressed stream shorter than the tables"))
    );
}

#[test]
fn too_many_tables_are_rejected() {
    let tables: Vec<SampleTable> = (0..4096).map(|_| plain(0, vec![])).collect();
    let font = sample_file([0, 1, 0, 0], &tables, &[], 0);
    assert_eq!(convert_woff2_to_ttf(&font), Err(invalid("Too many tables")));
}

#[test]
fn decode_error_texts() {
    assert_eq!(
        invalid("Invalid magic word").message(),
        "Invalid Woff2 File Invalid magic word"
    );
    assert_eq!(
        DecodeError::Unsupported("transformed hmtx table").message(),
        "Unsupported feature transformed hmtx table"
    );
}
