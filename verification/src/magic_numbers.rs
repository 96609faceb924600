//! Four-byte tags, and the tags that the formats give a meaning.

use vstd::prelude::*;

verus! {

/// A four-byte identifier, held as the big-endian number of its bytes, so
/// that tags compare as their bytes do, byte by byte.
#[derive(Debug, Clone, Copy, PartialEq, Eq, Structural, PartialOrd, Ord, Hash)]
pub struct Tag(pub u32);

impl Tag {
    /// The tag of the four bytes.
    pub open spec fn spec_from_bytes(b0: u8, b1: u8, b2: u8, b3: u8) -> Tag {
        Tag((b0 as int * 0x100_0000 + b1 as int * 0x1_0000 + b2 as int * 0x100 + b3 as int) as u32)
    }

    /// The four bytes of the tag.
    pub open spec fn spec_bytes(self) -> Seq<u8> {
        seq![
            (self.0 / 0x100_0000) as u8,
            ((self.0 / 0x1_0000) % 0x100) as u8,
            ((self.0 / 0x100) % 0x100) as u8,
            (self.0 % 0x100) as u8,
        ]
    }

    /// The tag of the four bytes.
    pub fn from_bytes(bytes: [u8; 4]) -> (t: Tag)
        ensures
            t == Tag::spec_from_bytes(bytes@[0], bytes@[1], bytes@[2], bytes@[3]),
            t.spec_bytes() == bytes@,
    {
        let t = Tag(
            bytes[0] as u32 * 0x100_0000 + bytes[1] as u32 * 0x1_0000 + bytes[2] as u32 * 0x100
                + bytes[3] as u32,
        );
        assert(t.spec_bytes() =~= bytes@);
        t
    }

    /// The four bytes of the tag.
    pub fn to_bytes(self) -> (bytes: [u8; 4])
        ensures
            bytes@ == self.spec_bytes(),
    {
        let bytes = [
            (self.0 / 0x100_0000) as u8,
            ((self.0 / 0x1_0000) % 0x100) as u8,
            ((self.0 / 0x100) % 0x100) as u8,
            (self.0 % 0x100) as u8,
        ];
        assert(bytes@ =~= self.spec_bytes());
        bytes
    }
}

/// `wOF2`, the first four bytes of every WOFF2 file, as a tag's number.
pub const WOFF2_SIGNATURE: u32 = 0x774F_4632;

/// `ttcf`, the flavor of a font collection.
pub const TTF_COLLECTION_FLAVOR: u32 = 0x7474_6366;

/// The flavor of a font with TrueType outlines: the version 1.0.
pub const TTF_TRUE_TYPE_FLAVOR: u32 = 0x0001_0000;

/// `OTTO`, the flavor of a font with CFF outlines.
pub const TTF_CFF_FLAVOR: u32 = 0x4F54_544F;

/// `glyf`, the table of glyph outlines.
pub const GLYF_TAG: u32 = 0x676C_7966;

/// `loca`, the table of glyph offsets.
pub const LOCA_TAG: u32 = 0x6C6F_6361;

/// `head`, the font header table.
pub const HEAD_TAG: u32 = 0x6865_6164;

/// `hmtx`, the table of horizontal metrics.
pub const HMTX_TAG: u32 = 0x686D_7478;

} // verus!
