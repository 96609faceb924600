use woff2::glyf_decoder::x_y_triplet::{coord_lut, XYTriplet};
use woff2::glyf_decoder::{bit_stream_byte_length, decode_glyf_table, GlyfDecoderError};

/// A transformed `glyf` table from its parts.
fn transformed(
    option_flags: u16,
    num_glyphs: u16,
    index_format: u16,
    n_contour: &[u8],
    n_points: &[u8],
    flags: &[u8],
    glyph: &[u8],
    composite: &[u8],
    bbox_bitmap: &[u8],
    bbox: &[u8],
    instructions: &[u8],
    overlap: &[u8],
) -> Vec<u8> {
    let mut t = Vec::new();
    t.extend_from_slice(&0u16.to_be_bytes());
    t.extend_from_slice(&option_flags.to_be_bytes());
    t.extend_from_slice(&num_glyphs.to_be_bytes());
    t.extend_from_slice(&index_format.to_be_bytes());
    t.extend_from_slice(&(n_contour.len() as u32).to_be_bytes());
    t.extend_from_slice(&(n_points.len() as u32).to_be_bytes());
    t.extend_from_slice(&(flags.len() as u32).to_be_bytes());
    t.extend_from_slice(&(glyph.len() as u32).to_be_bytes());
    t.extend_from_slice(&(composite.len() as u32).to_be_bytes());
    t.extend_from_slice(&((bbox_bitmap.len() + bbox.len()) as u32).to_be_bytes());
    t.extend_from_slice(&(instructions.len() as u32).to_be_bytes());
    for part in [n_contour, n_points, flags, glyph, composite, bbox_bitmap, bbox, instructions, overlap] {
        t.extend_from_slice(part);
    }
    t
}

fn triangle(option_flags: u16, index_format: u16, bbox_bitmap: &[u8], bbox: &[u8], overlap: &[u8]) -> Vec<u8> {
    transformed(
        option_flags,
        1,
        index_format,
        &[0, 1],
        &[3],
        &[11, 1, 10],
        &[100, 50, 100, 0],
        &[],
        bbox_bitmap,
        bbox,
        &[],
        overlap,
    )
}

#[test]
fn bit_stream_lengths() {
    assert_eq!(bit_stream_byte_length(0), 0);
    assert_eq!(bit_stream_byte_length(1), 4);
    assert_eq!(bit_stream_byte_length(32), 4);
    assert_eq!(bit_stream_byte_length(33), 8);
    assert_eq!(bit_stream_byte_length(65535), 8192);
}

#[test]
fn triplet_table_entries() {
    let first = coord_lut(0);
    assert_eq!(
        first,
        XYTriplet { byte_count: 1, x_bits: 0, y_bits: 8, delta_x: 0, delta_y: 0, x_is_negative: false, y_is_negative: true }
    );
    assert_eq!(
        coord_lut(19),
        XYTriplet { byte_count: 1, x_bits: 8, y_bits: 0, delta_x: 1024, delta_y: 0, x_is_negative: false, y_is_negative: false }
    );
    assert_eq!(
        coord_lut(20),
        XYTriplet { byte_count: 1, x_bits: 4, y_bits: 4, delta_x: 1, delta_y: 1, x_is_negative: true, y_is_negative: true }
    );
    assert_eq!(
        coord_lut(49),
        XYTriplet { byte_count: 1, x_bits: 4, y_bits: 4, delta_x: 17, delta_y: 49, x_is_negative: false, y_is_negative: true }
    );
    assert_eq!(
        coord_lut(83),
        XYTriplet { byte_count: 1, x_bits: 4, y_bits: 4, delta_x: 49, delta_y: 49, x_is_negative: false, y_is_negative: false }
    );
    assert_eq!(
        coord_lut(101),
        XYTriplet { byte_count: 2, x_bits: 8, y_bits: 8, delta_x: 257, delta_y: 257, x_is_negative: false, y_is_negative: true }
    );
    assert_eq!(
        coord_lut(119),
        XYTriplet { byte_count: 2, x_bits: 8, y_bits: 8, delta_x: 513, delta_y: 513, x_is_negative: false, y_is_negative: false }
    );
    assert_eq!(
        coord_lut(122),
        XYTriplet { byte_count: 3, x_bits: 12, y_bits: 12, delta_x: 0, delta_y: 0, x_is_negative: true, y_is_negative: false }
    );
    assert_eq!(
        coord_lut(127),
        XYTriplet { byte_count: 4, x_bits: 16, y_bits: 16, delta_x: 0, delta_y: 0, x_is_negative: false, y_is_negative: false }
    );
}

#[test]
fn triplet_deltas() {
    // one byte, four bits each
    let t = coord_lut(49);
    assert_eq!(t.dx(0xA5), 10 + 17);
    assert_eq!(t.dy(0xA5), -(5 + 49));
    // two bytes, eight bits each
    let t = coord_lut(84);
    assert_eq!(t.dx(0x1234), -(0x12 + 1));
    assert_eq!(t.dy(0x1234), -(0x34 + 1));
    // three bytes, twelve bits each
    let t = coord_lut(123);
    assert_eq!(t.dx(0xABCDEF), 0xABC);
    assert_eq!(t.dy(0xABCDEF), 0xDEF);
    // four bytes, sixteen bits each
    let t = coord_lut(124);
    assert_eq!(t.dx(0x0102_0304), -0x0102);
    assert_eq!(t.dy(0x0102_0304), -0x0304);
    // only one coordinate
    let t = coord_lut(3);
    assert_eq!(t.dx(0x7F), 0);
    assert_eq!(t.dy(0x7F), 0x7F + 256);
    // the magnitude wraps in sixteen bits
    let t = coord_lut(127);
    assert_eq!(t.dx(0x8000_FFFF), -32768);
    assert_eq!(t.dy(0x8000_FFFF), -1);
    let t = coord_lut(124);
    assert_eq!(t.dx(0x8000_0001), -32768);
    assert_eq!(t.dy(0x8000_0001), -1);
}

#[test]
fn decodes_simple_glyph() {
    let table = triangle(0, 0, &[0, 0, 0, 0], &[], &[]);
    let (glyf, loca) = decode_glyf_table(&table).unwrap();
    assert_eq!(
        glyf,
        vec![
            0, 1, // one contour
            0, 0, 0, 0, 0, 100, 0, 50, // the box that the points span
            0, 2, // last point of the contour
            0, 0, // no instructions
            0x33, 0x35, 0x23, // flags
            100, 100, // x
            50, // y
        ]
    );
    assert_eq!(loca, vec![0, 0, 0, 10]);
}

#[test]
fn decodes_simple_glyph_with_long_loca() {
    let table = triangle(0, 1, &[0, 0, 0, 0], &[], &[]);
    let (glyf, loca) = decode_glyf_table(&table).unwrap();
    assert_eq!(glyf.len(), 20);
    assert_eq!(loca, vec![0, 0, 0, 0, 0, 0, 0, 20]);
}

#[test]
fn bbox_stream_replaces_computed_box() {
    let table = triangle(0, 0, &[0x80, 0, 0, 0], &[0xFF, 0xFF, 0, 2, 0, 3, 0, 4], &[]);
    let (glyf, _) = decode_glyf_table(&table).unwrap();
    assert_eq!(&glyf[2..10], &[0xFF, 0xFF, 0, 2, 0, 3, 0, 4]);
}

#[test]
fn overlap_bitmap_sets_flag_bit_6() {
    let table = triangle(1, 0, &[0, 0, 0, 0], &[], &[0x80, 0, 0, 0]);
    let (glyf, _) = decode_glyf_table(&table).unwrap();
    assert_eq!(&glyf[14..17], &[0x73, 0x75, 0x63]);
    let table = triangle(1, 0, &[0, 0, 0, 0], &[], &[0x40, 0, 0, 0]);
    let (glyf, _) = decode_glyf_table(&table).unwrap();
    assert_eq!(&glyf[14..17], &[0x33, 0x35, 0x23]);
}

#[test]
fn off_curve_points_and_long_deltas() {
    // one contour of two points: the first off the curve with deltas of
    // two bytes, the second with a short negative delta
    let table = transformed(
        0,
        1,
        0,
        &[0, 1],
        &[2],
        &[0x80 | 127, 20],
        &[0x01, 0x00, 0x02, 0x00, 0x00, 0],
        &[],
        &[0, 0, 0, 0],
        &[],
        &[],
        &[],
    );
    let (glyf, loca) = decode_glyf_table(&table).unwrap();
    assert_eq!(
        glyf,
        vec![
            0, 1, //
            0, 255, 1, 255, 1, 0, 2, 0, // x from 255 to 256, y from 511 to 512
            0, 1, //
            0, 0, //
            0x00, 0x07, // flags
            1, 0, 1, // x: 256 in two bytes, then 1 with the sign in the flag
            2, 0, 1, // y
            0, 0, // padding
        ]
    );
    assert_eq!(loca, vec![0, 0, 0, 12]);
}

#[test]
fn instructions_are_copied() {
    let table = transformed(
        0,
        1,
        0,
        &[0, 1],
        &[1],
        &[11],
        &[7, 3],
        &[],
        &[0, 0, 0, 0],
        &[],
        &[0xB0, 0xB1, 0xB2],
        &[],
    );
    let (glyf, _) = decode_glyf_table(&table).unwrap();
    assert_eq!(
        glyf,
        vec![0, 1, 0, 7, 0, 0, 0, 7, 0, 0, 0, 0, 0, 3, 0xB0, 0xB1, 0xB2, 0x33, 7, 0]
    );
}

#[test]
fn empty_glyphs_take_no_bytes() {
    let table = transformed(0, 3, 0, &[0, 0, 0, 0, 0, 0], &[], &[], &[], &[], &[0, 0, 0, 0], &[], &[], &[]);
    let (glyf, loca) = decode_glyf_table(&table).unwrap();
    assert!(glyf.is_empty());
    assert_eq!(loca, vec![0, 0, 0, 0, 0, 0, 0, 0]);
}

#[test]
fn no_glyphs_at_all() {
    let table = transformed(0, 0, 1, &[], &[], &[], &[], &[], &[], &[], &[], &[]);
    let (glyf, loca) = decode_glyf_table(&table).unwrap();
    assert!(glyf.is_empty());
    assert_eq!(loca, vec![0, 0, 0, 0]);
}

#[test]
fn decodes_composite_glyph() {
    let table = transformed(
        0,
        2,
        0,
        &[0, 0, 0xFF, 0xFF],
        &[],
        &[],
        &[2],
        &[
            0x01, 0x21, 0, 1, 0, 2, 0, 3, // words as arguments, more components, instructions
            0x00, 0x08, 9, 8, 7, 6, 5, 4, // a scale, the last component
        ],
        &[0x40, 0, 0, 0],
        &[0, 1, 0, 2, 0, 3, 0, 4],
        &[0xAA, 0xBB],
        &[],
    );
    let (glyf, loca) = decode_glyf_table(&table).unwrap();
    assert_eq!(
        glyf,
        vec![
            0xFF, 0xFF, //
            0, 1, 0, 2, 0, 3, 0, 4, //
            0x01, 0x21, 0, 1, 0, 2, 0, 3, //
            0x00, 0x08, 9, 8, 7, 6, 5, 4, //
            0, 2, 0xAA, 0xBB, //
            0, 0, // padding
        ]
    );
    assert_eq!(loca, vec![0, 0, 0, 0, 0, 16]);
}

#[test]
fn composite_component_sizes() {
    // two scales: 4 + 4 bytes; a matrix: 4 + 8 bytes
    let table = transformed(
        0,
        1,
        0,
        &[0xFF, 0xFF],
        &[],
        &[],
        &[],
        &[
            0x00, 0x60, 1, 2, 3, 4, 5, 6, 7, 8, //
            0x00, 0x80, 1, 2, 3, 4, 5, 6, 7, 8, 9, 10, 11, 12,
        ],
        &[0x80, 0, 0, 0],
        &[0, 0, 0, 0, 0, 0, 0, 0],
        &[],
        &[],
    );
    let (glyf, _) = decode_glyf_table(&table).unwrap();
    assert_eq!(glyf.len(), 2 + 8 + 10 + 14 + 2);
    assert_eq!(&glyf[10..12], &[0x00, 0x60]);
    assert_eq!(&glyf[20..22], &[0x00, 0x80]);
}

#[test]
fn composite_glyph_without_bbox_is_rejected() {
    let table = transformed(
        0,
        1,
        0,
        &[0xFF, 0xFF],
        &[],
        &[],
        &[],
        &[0, 0, 1, 2, 3, 4],
        &[0, 0, 0, 0],
        &[],
        &[],
        &[],
    );
    assert_eq!(
        decode_glyf_table(&table),
        Err(GlyfDecoderError::CompositeGlyphWithoutBbox)
    );
    assert_eq!(
        GlyfDecoderError::CompositeGlyphWithoutBbox.message(),
        "Composite glyph without bbox"
    );
}

#[test]
fn extra_data_is_rejected() {
    let mut table = triangle(0, 0, &[0, 0, 0, 0], &[], &[]);
    // one more instruction byte than the glyph takes
    table[35] = 1;
    table.push(0);
    assert_eq!(decode_glyf_table(&table), Err(GlyfDecoderError::ExtraData));
}

#[test]
fn truncated_tables_are_rejected() {
    let table = triangle(0, 0, &[0, 0, 0, 0], &[], &[]);
    assert_eq!(decode_glyf_table(&table[..35]), Err(GlyfDecoderError::Truncated));
    assert_eq!(
        decode_glyf_table(&table[..table.len() - 1]),
        Err(GlyfDecoderError::Truncated)
    );
    // a point is missing from the flag stream
    let short = transformed(0, 1, 0, &[0, 1], &[3], &[11, 1], &[100, 50, 100, 0], &[], &[0, 0, 0, 0], &[], &[], &[]);
    assert_eq!(decode_glyf_table(&short), Err(GlyfDecoderError::Truncated));
    // the bbox length is below that of the bitmap
    let mut bad = triangle(0, 0, &[0, 0, 0, 0], &[], &[]);
    bad[31] = 3;
    assert_eq!(decode_glyf_table(&bad), Err(GlyfDecoderError::Truncated));
}

#[test]
fn short_loca_overflow_is_rejected() {
    // 6554 glyphs of 20 bytes each end beyond 2 * 65535
    let count = 6554usize;
    let mut n_contour = Vec::new();
    let mut n_points = Vec::new();
    let mut flags = Vec::new();
    let mut glyph = Vec::new();
    for _ in 0..count {
        n_contour.extend_from_slice(&[0, 1]);
        n_points.push(3);
        flags.extend_from_slice(&[11, 1, 10]);
        glyph.extend_from_slice(&[100, 50, 100, 0]);
    }
    let bitmap = vec![0u8; bit_stream_byte_length(count as u16) as usize];
    let table = transformed(0, count as u16, 0, &n_contour, &n_points, &flags, &glyph, &[], &bitmap, &[], &[], &[]);
    assert_eq!(decode_glyf_table(&table), Err(GlyfDecoderError::OffsetOverflow));
    let table = transformed(0, count as u16, 1, &n_contour, &n_points, &flags, &glyph, &[], &bitmap, &[], &[], &[]);
    let (glyf, loca) = decode_glyf_table(&table).unwrap();
    assert_eq!(glyf.len(), 20 * count);
    assert_eq!(loca.len(), 4 * (count + 1));
}
