//! The WOFF2 header.

use vstd::prelude::*;
use crate::buffer_util::{spec_u16_at, spec_u32_at, ByteCursor};
use crate::magic_numbers::{Tag, WOFF2_SIGNATURE};

verus! {

#[derive(Debug, Clone, Copy, PartialEq, Eq)]
pub enum Woff2HeaderError {
    Truncated,
    InvalidMagicWord,
    ExcessPadding,
    OverlappingStreams,
}

impl Woff2HeaderError {
    /// What the error says.
    pub open spec fn spec_message(self) -> Seq<char> {
        match self {
            Woff2HeaderError::Truncated => "Truncated header"@,
            Woff2HeaderError::InvalidMagicWord => "Invalid magic word"@,
            Woff2HeaderError::ExcessPadding => "Excess padding"@,
            Woff2HeaderError::OverlappingStreams => "Overlapping streams"@,
        }
    }

    /// The text of the error.
    pub fn message(&self) -> (m: String)
        ensures
            m@ == self.spec_message(),
    {
        match self {
            Woff2HeaderError::Truncated => "Truncated header".to_owned(),
            Woff2HeaderError::InvalidMagicWord => "Invalid magic word".to_owned(),
            Woff2HeaderError::ExcessPadding => "Excess padding".to_owned(),
            Woff2HeaderError::OverlappingStreams => "Overlapping streams".to_owned(),
        }
    }
}

/// The length of the header.
pub const WOFF2_HEADER_SIZE: usize = 48;

/// The fixed header of a WOFF2 file.
#[derive(Debug, Clone, Copy)]
pub struct Woff2Header {
    pub signature: Tag,
    pub flavor: Tag,
    pub length: u32,
    pub num_tables: u16,
    pub reserved: u16,
    pub total_sfnt_size: u32,
    pub total_compressed_size: u32,
    pub major_version: u16,
    pub minor_version: u16,
    pub meta_offset: u32,
    pub meta_length: u32,
    pub meta_orig_length: u32,
    pub private_offset: u32,
    pub private_length: u32,
}

/// The header in the 48 bytes at `pos`, field by field; none where fewer
/// bytes are left.
pub open spec fn spec_woff2_header(s: Seq<u8>, pos: int) -> Option<Woff2Header> {
    if 0 <= pos && pos + 48 <= s.len() {
        Some(
            Woff2Header {
                signature: Tag(spec_u32_at(s, pos)),
                flavor: Tag(spec_u32_at(s, pos + 4)),
                length: spec_u32_at(s, pos + 8),
                num_tables: spec_u16_at(s, pos + 12),
                reserved: spec_u16_at(s, pos + 14),
                total_sfnt_size: spec_u32_at(s, pos + 16),
                total_compressed_size: spec_u32_at(s, pos + 20),
                major_version: spec_u16_at(s, pos + 24),
                minor_version: spec_u16_at(s, pos + 26),
                meta_offset: spec_u32_at(s, pos + 28),
                meta_length: spec_u32_at(s, pos + 32),
                meta_orig_length: spec_u32_at(s, pos + 36),
                private_offset: spec_u32_at(s, pos + 40),
                private_length: spec_u32_at(s, pos + 44),
            },
        )
    } else {
        None
    }
}

fn get_u16(buffer: &mut ByteCursor) -> (v: u16)
    requires
        old(buffer).wf(),
        old(buffer).pos + 2 <= old(buffer).data@.len(),
    ensures
        final(buffer).wf(),
        final(buffer).data@ == old(buffer).data@,
        final(buffer).pos == old(buffer).pos + 2,
        v == spec_u16_at(old(buffer).data@, old(buffer).pos as int),
{
    match buffer.try_get_u16() {
        Ok(v) => v,
        Err(_) => 0,
    }
}

fn get_u32(buffer: &mut ByteCursor) -> (v: u32)
    requires
        old(buffer).wf(),
        old(buffer).pos + 4 <= old(buffer).data@.len(),
    ensures
        final(buffer).wf(),
        final(buffer).data@ == old(buffer).data@,
        final(buffer).pos == old(buffer).pos + 4,
        v == spec_u32_at(old(buffer).data@, old(buffer).pos as int),
{
    match buffer.try_get_u32() {
        Ok(v) => v,
        Err(_) => 0,
    }
}

impl Woff2Header {
    /// Reads the header; fails, with nothing read, where fewer than 48 bytes
    /// are left.
    pub fn from_buf(buffer: &mut ByteCursor) -> (r: Result<Self, Woff2HeaderError>)
        requires
            old(buffer).wf(),
        ensures
            final(buffer).wf(),
            final(buffer).data@ == old(buffer).data@,
            match r {
                Ok(h) => spec_woff2_header(old(buffer).data@, old(buffer).pos as int) == Some(h)
                    && final(buffer).pos == old(buffer).pos + 48,
                Err(e) => e == Woff2HeaderError::Truncated && spec_woff2_header(
                    old(buffer).data@,
                    old(buffer).pos as int,
                ).is_none() && final(buffer).pos == old(buffer).pos,
            },
    {
        if buffer.remaining() < WOFF2_HEADER_SIZE {
            return Err(Woff2HeaderError::Truncated);
        }
        let signature = buffer.get_four_cc();
        let flavor = buffer.get_four_cc();
        let length = get_u32(buffer);
        let num_tables = get_u16(buffer);
        let reserved = get_u16(buffer);
        let total_sfnt_size = get_u32(buffer);
        let total_compressed_size = get_u32(buffer);
        let major_version = get_u16(buffer);
        let minor_version = get_u16(buffer);
        let meta_offset = get_u32(buffer);
        let meta_length = get_u32(buffer);
        let meta_orig_length = get_u32(buffer);
        let private_offset = get_u32(buffer);
        let private_length = get_u32(buffer);
        Ok(
            Woff2Header {
                signature,
                flavor,
                length,
                num_tables,
                reserved,
                total_sfnt_size,
                total_compressed_size,
                major_version,
                minor_version,
                meta_offset,
                meta_length,
                meta_orig_length,
                private_offset,
                private_length,
            },
        )
    }

    /// Accepts the header where its signature is `wOF2`. The places of the
    /// metadata and of the private data are not looked at.
    pub fn is_valid_header(&self) -> (r: Result<(), Woff2HeaderError>)
        ensures
            match r {
                Ok(_) => self.signature.0 == WOFF2_SIGNATURE,
                Err(e) => e == Woff2HeaderError::InvalidMagicWord && self.signature.0
                    != WOFF2_SIGNATURE,
            },
    {
        if self.signature.0 != WOFF2_SIGNATURE {
            return Err(Woff2HeaderError::InvalidMagicWord);
        }
        Ok(())
    }
}

} // verus!
