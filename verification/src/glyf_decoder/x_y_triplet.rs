//! The coordinate triplets of the transformed `glyf` table: how the bytes of
//! one point give its two coordinate deltas.

use vstd::prelude::*;
use crate::buffer_util::{i16_of, spec_i16_of};

verus! {

/// How one point's flag byte says its deltas are packed.
#[derive(Debug, Clone, Copy, PartialEq, Eq)]
pub struct XYTriplet {
    pub x_is_negative: bool,
    pub y_is_negative: bool,
    pub byte_count: u8,
    pub x_bits: u8,
    pub y_bits: u8,
    pub delta_x: u16,
    pub delta_y: u16,
}

/// A triplet from its fields, in the order of the table's columns.
pub open spec fn triplet(
    byte_count: u8,
    x_bits: u8,
    y_bits: u8,
    delta_x: u16,
    delta_y: u16,
    x_is_negative: bool,
    y_is_negative: bool,
) -> XYTriplet {
    XYTriplet { x_is_negative, y_is_negative, byte_count, x_bits, y_bits, delta_x, delta_y }
}

/// The negation of `v` in 16-bit two's complement.
pub open spec fn spec_neg_i16(v: i16) -> i16 {
    if v == i16::MIN {
        v
    } else {
        (-v) as i16
    }
}

/// The field of `bits` bits that ends `shift` bits above the lowest bit of `data`.
pub open spec fn spec_bit_field(data: u32, shift: u32, bits: u32) -> u32 {
    (data >> shift) & (((1u32 << bits) - 1) as u32)
}

/// A magnitude and a sign as a 16-bit delta: the magnitude's low 16 bits in
/// two's complement, negated where the sign says so.
pub open spec fn spec_signed_delta(magnitude: int, negative: bool) -> i16 {
    let v = spec_i16_of((magnitude % 0x1_0000) as u16);
    if negative {
        spec_neg_i16(v)
    } else {
        v
    }
}

fn bit_field(data: u32, shift: u32, bits: u32) -> (r: u32)
    requires
        shift < 32,
        bits <= 16,
    ensures
        r == spec_bit_field(data, shift, bits),
        r <= 0xFFFF,
{
    assert((1u32 << bits) >= 1) by (bit_vector)
        requires
            bits <= 16,
    ;
    let mask: u32 = (1u32 << bits) - 1;
    assert(((data >> shift) & (((1u32 << bits) - 1) as u32)) <= 0xFFFF) by (bit_vector)
        requires
            bits <= 16,
    ;
    (data >> shift) & mask
}

fn signed_delta(magnitude: u32, negative: bool) -> (r: i16)
    ensures
        r == spec_signed_delta(magnitude as int, negative),
{
    let v = i16_of((magnitude % 0x1_0000) as u16);
    if negative {
        if v == i16::MIN {
            v
        } else {
            -v
        }
    } else {
        v
    }
}

impl XYTriplet {
    /// The packed deltas fit into the bytes that hold them.
    pub open spec fn wf(&self) -> bool {
        &&& 1 <= self.byte_count <= 4
        &&& self.x_bits <= 16
        &&& self.y_bits <= 16
        &&& self.x_bits + self.y_bits <= 8 * self.byte_count
        &&& 8 * self.byte_count - self.x_bits < 32
    }

    /// The horizontal delta in `data`: the `x_bits` highest bits of the
    /// `byte_count` bytes, plus `delta_x`, with the sign of the triplet.
    pub open spec fn spec_dx(&self, data: u32) -> i16 {
        spec_signed_delta(
            spec_bit_field(data, (8 * self.byte_count - self.x_bits) as u32, self.x_bits as u32)
                + self.delta_x,
            self.x_is_negative,
        )
    }

    /// The vertical delta in `data`: the `y_bits` bits below the horizontal
    /// field, plus `delta_y`, with the sign of the triplet.
    pub open spec fn spec_dy(&self, data: u32) -> i16 {
        spec_signed_delta(
            spec_bit_field(
                data,
                (8 * self.byte_count - self.x_bits - self.y_bits) as u32,
                self.y_bits as u32,
            ) + self.delta_y,
            self.y_is_negative,
        )
    }

    /// Extracts the horizontal delta from the bytes of a point.
    pub fn dx(&self, data: u32) -> (r: i16)
        requires
            self.wf(),
        ensures
            r == self.spec_dx(data),
    {
        let shift: u32 = (self.byte_count * 8 - self.x_bits) as u32;
        let dx: u32 = bit_field(data, shift, self.x_bits as u32) + self.delta_x as u32;
        signed_delta(dx, self.x_is_negative)
    }

    /// Extracts the vertical delta from the bytes of a point.
    pub fn dy(&self, data: u32) -> (r: i16)
        requires
            self.wf(),
        ensures
            r == self.spec_dy(data),
    {
        let shift: u32 = (self.byte_count * 8 - self.x_bits - self.y_bits) as u32;
        let dy: u32 = bit_field(data, shift, self.y_bits as u32) + self.delta_y as u32;
        signed_delta(dy, self.y_is_negative)
    }
}

/// The table of the 128 triplets, by the low seven bits of a point's flag byte.
pub open spec fn spec_coord_lut(index: u8) -> XYTriplet {
    if index == 0 {
        triplet(1, 0, 8, 0, 0, false, true)
    } else if index == 1 {
        triplet(1, 0, 8, 0, 0, false, false)
    } else if index == 2 {
        triplet(1, 0, 8, 0, 256, false, true)
    } else if index == 3 {
        triplet(1, 0, 8, 0, 256, false, false)
    } else if index == 4 {
        triplet(1, 0, 8, 0, 512, false, true)
    } else if index == 5 {
        triplet(1, 0, 8, 0, 512, false, false)
    } else if index == 6 {
        triplet(1, 0, 8, 0, 768, false, true)
    } else if index == 7 {
        triplet(1, 0, 8, 0, 768, false, false)
    } else if index == 8 {
        triplet(1, 0, 8, 0, 1024, false, true)
    } else if index == 9 {
        triplet(1, 0, 8, 0, 1024, false, false)
    } else if index == 10 {
        triplet(1, 8, 0, 0, 0, true, false)
    } else if index == 11 {
        triplet(1, 8, 0, 0, 0, false, false)
    } else if index == 12 {
        triplet(1, 8, 0, 256, 0, true, false)
    } else if index == 13 {
        triplet(1, 8, 0, 256, 0, false, false)
    } else if index == 14 {
        triplet(1, 8, 0, 512, 0, true, false)
    } else if index == 15 {
        triplet(1, 8, 0, 512, 0, false, false)
    } else if index == 16 {
        triplet(1, 8, 0, 768, 0, true, false)
    } else if index == 17 {
        triplet(1, 8, 0, 768, 0, false, false)
    } else if index == 18 {
        triplet(1, 8, 0, 1024, 0, true, false)
    } else if index == 19 {
        triplet(1, 8, 0, 1024, 0, false, false)
    } else if index == 20 {
        triplet(1, 4, 4, 1, 1, true, true)
    } else if index == 21 {
        triplet(1, 4, 4, 1, 1, false, true)
    } else if index == 22 {
        triplet(1, 4, 4, 1, 1, true, false)
    } else if index == 23 {
        triplet(1, 4, 4, 1, 1, false, false)
    } else if index == 24 {
        triplet(1, 4, 4, 1, 17, true, true)
    } else if index == 25 {
        triplet(1, 4, 4, 1, 17, false, true)
    } else if index == 26 {
        triplet(1, 4, 4, 1, 17, true, false)
    } else if index == 27 {
        triplet(1, 4, 4, 1, 17, false, false)
    } else if index == 28 {
        triplet(1, 4, 4, 1, 33, true, true)
    } else if index == 29 {
        triplet(1, 4, 4, 1, 33, false, true)
    } else if index == 30 {
        triplet(1, 4, 4, 1, 33, true, false)
    } else if index == 31 {
        triplet(1, 4, 4, 1, 33, false, false)
    } else if index == 32 {
        triplet(1, 4, 4, 1, 49, true, true)
    } else if index == 33 {
        triplet(1, 4, 4, 1, 49, false, true)
    } else if index == 34 {
        triplet(1, 4, 4, 1, 49, true, false)
    } else if index == 35 {
        triplet(1, 4, 4, 1, 49, false, false)
    } else if index == 36 {
        triplet(1, 4, 4, 17, 1, true, true)
    } else if index == 37 {
        triplet(1, 4, 4, 17, 1, false, true)
    } else if index == 38 {
        triplet(1, 4, 4, 17, 1, true, false)
    } else if index == 39 {
        triplet(1, 4, 4, 17, 1, false, false)
    } else if index == 40 {
        triplet(1, 4, 4, 17, 17, true, true)
    } else if index == 41 {
        triplet(1, 4, 4, 17, 17, false, true)
    } else if index == 42 {
        triplet(1, 4, 4, 17, 17, true, false)
    } else if index == 43 {
        triplet(1, 4, 4, 17, 17, false, false)
    } else if index == 44 {
        triplet(1, 4, 4, 17, 33, true, true)
    } else if index == 45 {
        triplet(1, 4, 4, 17, 33, false, true)
    } else if index == 46 {
        triplet(1, 4, 4, 17, 33, true, false)
    } else if index == 47 {
        triplet(1, 4, 4, 17, 33, false, false)
    } else if index == 48 {
        triplet(1, 4, 4, 17, 49, true, true)
    } else if index == 49 {
        triplet(1, 4, 4, 17, 49, false, true)
    } else if index == 50 {
        triplet(1, 4, 4, 17, 49, true, false)
    } else if index == 51 {
        triplet(1, 4, 4, 17, 49, false, false)
    } else if index == 52 {
        triplet(1, 4, 4, 33, 1, true, true)
    } else if index == 53 {
        triplet(1, 4, 4, 33, 1, false, true)
    } else if index == 54 {
        triplet(1, 4, 4, 33, 1, true, false)
    } else if index == 55 {
        triplet(1, 4, 4, 33, 1, false, false)
    } else if index == 56 {
        triplet(1, 4, 4, 33, 17, true, true)
    } else if index == 57 {
        triplet(1, 4, 4, 33, 17, false, true)
    } else if index == 58 {
        triplet(1, 4, 4, 33, 17, true, false)
    } else if index == 59 {
        triplet(1, 4, 4, 33, 17, false, false)
    } else if index == 60 {
        triplet(1, 4, 4, 33, 33, true, true)
    } else if index == 61 {
        triplet(1, 4, 4, 33, 33, false, true)
    } else if index == 62 {
        triplet(1, 4, 4, 33, 33, true, false)
    } else if index == 63 {
        triplet(1, 4, 4, 33, 33, false, false)
    } else if index == 64 {
        triplet(1, 4, 4, 33, 49, true, true)
    } else if index == 65 {
        triplet(1, 4, 4, 33, 49, false, true)
    } else if index == 66 {
        triplet(1, 4, 4, 33, 49, true, false)
    } else if index == 67 {
        triplet(1, 4, 4, 33, 49, false, false)
    } else if index == 68 {
        triplet(1, 4, 4, 49, 1, true, true)
    } else if index == 69 {
        triplet(1, 4, 4, 49, 1, false, true)
    } else if index == 70 {
        triplet(1, 4, 4, 49, 1, true, false)
    } else if index == 71 {
        triplet(1, 4, 4, 49, 1, false, false)
    } else if index == 72 {
        triplet(1, 4, 4, 49, 17, true, true)
    } else if index == 73 {
        triplet(1, 4, 4, 49, 17, false, true)
    } else if index == 74 {
        triplet(1, 4, 4, 49, 17, true, false)
    } else if index == 75 {
        triplet(1, 4, 4, 49, 17, false, false)
    } else if index == 76 {
        triplet(1, 4, 4, 49, 33, true, true)
    } else if index == 77 {
        triplet(1, 4, 4, 49, 33, false, true)
    } else if index == 78 {
        triplet(1, 4, 4, 49, 33, true, false)
    } else if index == 79 {
        triplet(1, 4, 4, 49, 33, false, false)
    } else if index == 80 {
        triplet(1, 4, 4, 49, 49, true, true)
    } else if index == 81 {
        triplet(1, 4, 4, 49, 49, false, true)
    } else if index == 82 {
        triplet(1, 4, 4, 49, 49, true, false)
    } else if index == 83 {
        triplet(1, 4, 4, 49, 49, false, false)
    } else if index == 84 {
        triplet(2, 8, 8, 1, 1, true, true)
    } else if index == 85 {
        triplet(2, 8, 8, 1, 1, false, true)
    } else if index == 86 {
        triplet(2, 8, 8, 1, 1, true, false)
    } else if index == 87 {
        triplet(2, 8, 8, 1, 1, false, false)
    } else if index == 88 {
        triplet(2, 8, 8, 1, 257, true, true)
    } else if index == 89 {
        triplet(2, 8, 8, 1, 257, false, true)
    } else if index == 90 {
        triplet(2, 8, 8, 1, 257, true, false)
    } else if index == 91 {
        triplet(2, 8, 8, 1, 257, false, false)
    } else if index == 92 {
        triplet(2, 8, 8, 1, 513, true, true)
    } else if index == 93 {
        triplet(2, 8, 8, 1, 513, false, true)
    } else if index == 94 {
        triplet(2, 8, 8, 1, 513, true, false)
    } else if index == 95 {
        triplet(2, 8, 8, 1, 513, false, false)
    } else if index == 96 {
        triplet(2, 8, 8, 257, 1, true, true)
    } else if index == 97 {
        triplet(2, 8, 8, 257, 1, false, true)
    } else if index == 98 {
        triplet(2, 8, 8, 257, 1, true, false)
    } else if index == 99 {
        triplet(2, 8, 8, 257, 1, false, false)
    } else if index == 100 {
        triplet(2, 8, 8, 257, 257, true, true)
    } else if index == 101 {
        triplet(2, 8, 8, 257, 257, false, true)
    } else if index == 102 {
        triplet(2, 8, 8, 257, 257, true, false)
    } else if index == 103 {
        triplet(2, 8, 8, 257, 257, false, false)
    } else if index == 104 {
        triplet(2, 8, 8, 257, 513, true, true)
    } else if index == 105 {
        triplet(2, 8, 8, 257, 513, false, true)
    } else if index == 106 {
        triplet(2, 8, 8, 257, 513, true, false)
    } else if index == 107 {
        triplet(2, 8, 8, 257, 513, false, false)
    } else if index == 108 {
        triplet(2, 8, 8, 513, 1, true, true)
    } else if index == 109 {
        triplet(2, 8, 8, 513, 1, false, true)
    } else if index == 110 {
        triplet(2, 8, 8, 513, 1, true, false)
    } else if index == 111 {
        triplet(2, 8, 8, 513, 1, false, false)
    } else if index == 112 {
        triplet(2, 8, 8, 513, 257, true, true)
    } else if index == 113 {
        triplet(2, 8, 8, 513, 257, false, true)
    } else if index == 114 {
        triplet(2, 8, 8, 513, 257, true, false)
    } else if index == 115 {
        triplet(2, 8, 8, 513, 257, false, false)
    } else if index == 116 {
        triplet(2, 8, 8, 513, 513, true, true)
    } else if index == 117 {
        triplet(2, 8, 8, 513, 513, false, true)
    } else if index == 118 {
        triplet(2, 8, 8, 513, 513, true, false)
    } else if index == 119 {
        triplet(2, 8, 8, 513, 513, false, false)
    } else if index == 120 {
        triplet(3, 12, 12, 0, 0, true, true)
    } else if index == 121 {
        triplet(3, 12, 12, 0, 0, false, true)
    } else if index == 122 {
        triplet(3, 12, 12, 0, 0, true, false)
    } else if index == 123 {
        triplet(3, 12, 12, 0, 0, false, false)
    } else if index == 124 {
        triplet(4, 16, 16, 0, 0, true, true)
    } else if index == 125 {
        triplet(4, 16, 16, 0, 0, false, true)
    } else if index == 126 {
        triplet(4, 16, 16, 0, 0, true, false)
    } else {
        triplet(4, 16, 16, 0, 0, false, false)
    }
}

/// Looks up the triplet of a flag byte's low seven bits.
pub fn coord_lut(index: u8) -> (t: XYTriplet)
    requires
        index < 128,
    ensures
        t == spec_coord_lut(index),
        t.wf(),
{
    let odd = index % 2 == 1;
    if index < 10 {
        XYTriplet {
            x_is_negative: false,
            y_is_negative: !odd,
            byte_count: 1,
            x_bits: 0,
            y_bits: 8,
            delta_x: 0,
            delta_y: (index / 2) as u16 * 256,
        }
    } else if index < 20 {
        XYTriplet {
            x_is_negative: !odd,
            y_is_negative: false,
            byte_count: 1,
            x_bits: 8,
            y_bits: 0,
            delta_x: ((index - 10) / 2) as u16 * 256,
            delta_y: 0,
        }
    } else if index < 84 {
        let j: u8 = index - 20;
        XYTriplet {
            x_is_negative: !odd,
            y_is_negative: j % 4 < 2,
            byte_count: 1,
            x_bits: 4,
            y_bits: 4,
            delta_x: 1 + (j / 16) as u16 * 16,
            delta_y: 1 + ((j / 4) % 4) as u16 * 16,
        }
    } else if index < 120 {
        let j: u8 = index - 84;
        XYTriplet {
            x_is_negative: !odd,
            y_is_negative: j % 4 < 2,
            byte_count: 2,
            x_bits: 8,
            y_bits: 8,
            delta_x: 1 + (j / 12) as u16 * 256,
            delta_y: 1 + ((j / 4) % 3) as u16 * 256,
        }
    } else if index < 124 {
        XYTriplet {
            x_is_negative: !odd,
            y_is_negative: index % 4 < 2,
            byte_count: 3,
            x_bits: 12,
            y_bits: 12,
            delta_x: 0,
            delta_y: 0,
        }
    } else {
        XYTriplet {
            x_is_negative: !odd,
            y_is_negative: index % 4 < 2,
            byte_count: 4,
            x_bits: 16,
            y_bits: 16,
            delta_x: 0,
            delta_y: 0,
        }
    }
}

} // verus!
