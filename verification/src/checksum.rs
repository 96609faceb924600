//! The OpenType table checksum and the font-wide checksum adjustment.

use vstd::prelude::*;
use crate::buffer_util::{spec_u32_bytes, zeros};

verus! {

/// The sum that a whole font must have once its adjustment is in place.
pub const CHECKSUM_MINUEND: u32 = 0xB1B0AFBA;

#[derive(Debug, Clone, Copy, PartialEq, Eq)]
pub enum ChecksumError {
    Truncated,
}

impl ChecksumError {
    /// What the error says.
    pub open spec fn spec_message(self) -> Seq<char> {
        "Truncated `head` table"@
    }

    /// The text of the error.
    pub fn message(&self) -> (m: String)
        ensures
            m@ == self.spec_message(),
    {
        "Truncated `head` table".to_owned()
    }
}

/// The byte at `i`, or zero beyond the end.
pub open spec fn byte_or_zero(s: Seq<u8>, i: int) -> int {
    if 0 <= i < s.len() {
        s[i] as int
    } else {
        0
    }
}

/// The `k`-th big-endian 32-bit word of `s`, read as if zeros followed `s`.
pub open spec fn word_at(s: Seq<u8>, k: int) -> int {
    byte_or_zero(s, 4 * k) * 0x100_0000 + byte_or_zero(s, 4 * k + 1) * 0x1_0000 + byte_or_zero(
        s,
        4 * k + 2,
    ) * 0x100 + byte_or_zero(s, 4 * k + 3)
}

/// The sum of the first `n` words of `s`, modulo 2^32.
pub open spec fn checksum_words(s: Seq<u8>, n: nat) -> int
    decreases n,
{
    if n == 0 {
        0
    } else {
        (checksum_words(s, (n - 1) as nat) + word_at(s, n - 1)) % 0x1_0000_0000
    }
}

/// The number of 32-bit words that `s` takes, the last one maybe in part.
pub open spec fn word_count(s: Seq<u8>) -> nat {
    ((s.len() + 3) / 4) as nat
}

/// The checksum of a table: the sum of its big-endian 32-bit words modulo
/// 2^32, a last word that is cut short being filled up with zeros.
pub open spec fn table_checksum(s: Seq<u8>) -> u32 {
    checksum_words(s, word_count(s)) as u32
}

/// What the `head` table's adjustment field must hold for the font `s`, whose
/// field is still zero.
pub open spec fn font_checksum_adjustment(s: Seq<u8>) -> u32 {
    ((CHECKSUM_MINUEND - table_checksum(s)) % 0x1_0000_0000) as u32
}

/// `s` with the four bytes from `i` on replaced by the big-endian bytes of `v`.
pub open spec fn spec_patch_u32(s: Seq<u8>, i: int, v: u32) -> Seq<u8> {
    Seq::new(
        s.len(),
        |j: int|
            if i <= j < i + 4 {
                spec_u32_bytes(v)[j - i]
            } else {
                s[j]
            },
    )
}

proof fn lemma_checksum_words_range(s: Seq<u8>, n: nat)
    ensures
        0 <= checksum_words(s, n) < 0x1_0000_0000,
    decreases n,
{
    if n > 0 {
        lemma_checksum_words_range(s, (n - 1) as nat);
    }
}

/// Calculates the sum of the big-endian `u32`s in a block of data, as if the
/// block were padded with zeros to a multiple of four bytes.
pub fn calculate_checksum(data: &[u8]) -> (sum: u32)
    ensures
        sum == table_checksum(data@),
{
    let len = data.len();
    let full = len / 4;
    let mut sum: u32 = 0;
    let mut k: usize = 0;
    while k < full
        invariant
            k <= full,
            full == len / 4,
            len == data@.len(),
            sum == checksum_words(data@, k as nat),
        decreases full - k,
    {
        let word: u32 = data[4 * k] as u32 * 0x100_0000 + data[4 * k + 1] as u32 * 0x1_0000
            + data[4 * k + 2] as u32 * 0x100 + data[4 * k + 3] as u32;
        proof {
            assert(word == word_at(data@, k as int));
            lemma_checksum_words_range(data@, k as nat);
        }
        sum = sum.wrapping_add(word);
        k = k + 1;
    }
    let rest = len % 4;
    if rest != 0 {
        let b0 = data[4 * full];
        let b1 = if rest > 1 { data[4 * full + 1] } else { 0 };
        let b2 = if rest > 2 { data[4 * full + 2] } else { 0 };
        let last: u32 = b0 as u32 * 0x100_0000 + b1 as u32 * 0x1_0000 + b2 as u32 * 0x100;
        proof {
            assert(last == word_at(data@, full as int));
            lemma_checksum_words_range(data@, full as nat);
            assert(word_count(data@) == full + 1);
        }
        sum = sum.wrapping_add(last);
    } else {
        proof {
            assert(word_count(data@) == full);
        }
    }
    sum
}

/// Sets the `checksum_adjustment` field of the `head` table, its bytes 8 to
/// 11, to `value`. A table of fewer than 12 bytes is left as it is.
pub fn set_checksum_adjustment(head_table: &mut [u8], value: u32) -> (r: Result<(), ChecksumError>)
    ensures
        match r {
            Ok(_) => old(head_table)@.len() >= 12 && final(head_table)@ == spec_patch_u32(
                old(head_table)@,
                8,
                value,
            ),
            Err(e) => e == ChecksumError::Truncated && old(head_table)@.len() < 12 && final(head_table)@ == old(head_table)@,
        },
{
    if head_table.len() < 12 {
        return Err(ChecksumError::Truncated);
    }
    head_table[8] = (value / 0x100_0000) as u8;
    head_table[9] = ((value / 0x1_0000) % 0x100) as u8;
    head_table[10] = ((value / 0x100) % 0x100) as u8;
    head_table[11] = (value % 0x100) as u8;
    assert(head_table@ =~= spec_patch_u32(old(head_table)@, 8, value));
    Ok(())
}

/// Calculates the value for the `checksum_adjustment` field of the `head`
/// table, from the font in which that field is zero.
pub fn calculate_font_checksum_adjustment(font: &[u8]) -> (adjustment: u32)
    ensures
        adjustment == font_checksum_adjustment(font@),
{
    let checksum = calculate_checksum(font);
    CHECKSUM_MINUEND.wrapping_sub(checksum)
}

// ---------------------------------------------------------------------------
// Laws of the checksum
// ---------------------------------------------------------------------------

/// Two byte strings with the same first `n` words have the same sum over them.
pub proof fn lemma_checksum_words_same(a: Seq<u8>, b: Seq<u8>, n: nat)
    requires
        forall|k: int| 0 <= k < n ==> word_at(a, k) == word_at(b, k),
    ensures
        checksum_words(a, n) == checksum_words(b, n),
    decreases n,
{
    if n > 0 {
        lemma_checksum_words_same(a, b, (n - 1) as nat);
    }
}

/// Words that are zero add nothing to the sum.
pub proof fn lemma_checksum_words_zero_tail(s: Seq<u8>, n: nat, m: nat)
    requires
        n <= m,
        forall|k: int| n <= k < m ==> word_at(s, k) == 0,
    ensures
        checksum_words(s, m) == checksum_words(s, n),
    decreases m,
{
    if m > n {
        lemma_checksum_words_zero_tail(s, n, (m - 1) as nat);
        lemma_checksum_words_range(s, (m - 1) as nat);
    }
}

/// Zero bytes appended to a table, however many, leave its checksum as it was.
pub proof fn lemma_checksum_zero_padding(b: Seq<u8>, k: nat)
    ensures
        table_checksum(b + zeros(k)) == table_checksum(b),
{
    let p = b + zeros(k);
    assert forall|j: int| byte_or_zero(p, j) == byte_or_zero(b, j) by {}
    assert forall|w: int| word_at(p, w) == word_at(b, w) by {}
    lemma_checksum_words_zero_tail(p, word_count(b), word_count(p));
    lemma_checksum_words_same(p, b, word_count(b));
}

proof fn lemma_mod_add(a: int, b: int, c: int)
    ensures
        ((a + b) % 0x1_0000_0000 + c) % 0x1_0000_0000 == (a + (b + c) % 0x1_0000_0000)
            % 0x1_0000_0000,
{
}

proof fn lemma_mod_swap(x: int, y: int, z: int, w: int)
    ensures
        (x + (y + (z + w) % 0x1_0000_0000) % 0x1_0000_0000) % 0x1_0000_0000 == (x + (z + (y + w)
            % 0x1_0000_0000) % 0x1_0000_0000) % 0x1_0000_0000,
{
}

proof fn lemma_mod_patch(x: int, y: int, v: int)
    requires
        0 <= x < 0x1_0000_0000,
        0 <= y < 0x1_0000_0000,
        0 <= v < 0x1_0000_0000,
    ensures
        (x + (v + y) % 0x1_0000_0000) % 0x1_0000_0000 == ((x + (0 + y) % 0x1_0000_0000)
            % 0x1_0000_0000 + v) % 0x1_0000_0000,
{
}

/// Behind a block whose length is a multiple of four, the words are those of
/// what follows the block.
proof fn lemma_word_at_concat(a: Seq<u8>, b: Seq<u8>, j: int)
    requires
        a.len() % 4 == 0,
        0 <= j,
    ensures
        word_at(a + b, word_count(a) + j) == word_at(b, j),
{
    let s = a + b;
    let base = 4 * (word_count(a) + j);
    assert(base == a.len() + 4 * j);
    assert(byte_or_zero(s, base) == byte_or_zero(b, 4 * j));
    assert(byte_or_zero(s, base + 1) == byte_or_zero(b, 4 * j + 1));
    assert(byte_or_zero(s, base + 2) == byte_or_zero(b, 4 * j + 2));
    assert(byte_or_zero(s, base + 3) == byte_or_zero(b, 4 * j + 3));
}

proof fn lemma_word_at_prefix(a: Seq<u8>, b: Seq<u8>, k: int)
    requires
        a.len() % 4 == 0,
        0 <= k < word_count(a),
    ensures
        word_at(a + b, k) == word_at(a, k),
{
}

proof fn lemma_checksum_words_concat(a: Seq<u8>, b: Seq<u8>, j: nat)
    requires
        a.len() % 4 == 0,
    ensures
        checksum_words(a + b, word_count(a) + j) == (checksum_words(a, word_count(a))
            + checksum_words(b, j)) % 0x1_0000_0000,
    decreases j,
{
    let na = word_count(a);
    let s = a + b;
    lemma_checksum_words_range(a, na);
    if j == 0 {
        assert forall|k: int| 0 <= k < na implies word_at(s, k) == word_at(a, k) by {
            lemma_word_at_prefix(a, b, k);
        }
        lemma_checksum_words_same(s, a, na);
    } else {
        lemma_checksum_words_concat(a, b, (j - 1) as nat);
        lemma_word_at_concat(a, b, j - 1);
        let ca = checksum_words(a, na);
        let cb = checksum_words(b, (j - 1) as nat);
        let w = word_at(b, j - 1);
        assert(checksum_words(s, na + j) == (checksum_words(s, (na + j - 1) as nat) + word_at(
            s,
            na + j - 1,
        )) % 0x1_0000_0000);
        assert(checksum_words(b, j) == (cb + w) % 0x1_0000_0000);
        lemma_mod_add(ca, cb, w);
    }
}

/// The checksum of a table followed by more bytes is the sum of the two
/// checksums, where the table's length is a multiple of four.
pub proof fn lemma_checksum_concat(a: Seq<u8>, b: Seq<u8>)
    requires
        a.len() % 4 == 0,
    ensures
        table_checksum(a + b) as int == (table_checksum(a) + table_checksum(b)) % 0x1_0000_0000,
{
    lemma_checksum_words_concat(a, b, word_count(b));
    lemma_checksum_words_range(a, word_count(a));
    lemma_checksum_words_range(b, word_count(b));
    lemma_checksum_words_range(a + b, word_count(a + b));
    assert(word_count(a + b) == word_count(a) + word_count(b));
}

/// The checksum of a font, and with it the adjustment, does not depend on the
/// order of two neighbouring blocks whose lengths are multiples of four, such
/// as two padded tables.
pub proof fn lemma_checksum_order(before: Seq<u8>, a: Seq<u8>, b: Seq<u8>, after: Seq<u8>)
    requires
        before.len() % 4 == 0,
        a.len() % 4 == 0,
        b.len() % 4 == 0,
    ensures
        table_checksum(before + a + b + after) == table_checksum(before + b + a + after),
        font_checksum_adjustment(before + a + b + after) == font_checksum_adjustment(
            before + b + a + after,
        ),
{
    let left = before + a + b + after;
    let right = before + b + a + after;
    assert(left == before + (a + (b + after))) by {
        assert(left =~= before + (a + (b + after)));
    }
    assert(right == before + (b + (a + after))) by {
        assert(right =~= before + (b + (a + after)));
    }
    lemma_checksum_concat(before, a + (b + after));
    lemma_checksum_concat(before, b + (a + after));
    lemma_checksum_concat(a, b + after);
    lemma_checksum_concat(b, after);
    lemma_checksum_concat(b, a + after);
    lemma_checksum_concat(a, after);
    lemma_mod_swap(
        table_checksum(before) as int,
        table_checksum(a) as int,
        table_checksum(b) as int,
        table_checksum(after) as int,
    );
}

/// The checksum of the four big-endian bytes of `v` is `v`.
pub proof fn lemma_checksum_of_word(v: u32)
    ensures
        table_checksum(spec_u32_bytes(v)) == v,
{
    let s = spec_u32_bytes(v);
    assert(word_count(s) == 1);
    assert(checksum_words(s, 1) == (checksum_words(s, 0) + word_at(s, 0)) % 0x1_0000_0000);
    assert(word_at(s, 0) == v);
}

/// Writing `v` over a zero word at a multiple of four adds `v` to the checksum.
pub proof fn lemma_checksum_patch(s: Seq<u8>, i: int, v: u32)
    requires
        0 <= i,
        i % 4 == 0,
        i + 4 <= s.len(),
        forall|j: int| i <= j < i + 4 ==> s[j] == 0,
    ensures
        table_checksum(spec_patch_u32(s, i, v)) as int == (table_checksum(s) + v) % 0x1_0000_0000,
{
    let p = s.subrange(0, i);
    let q = s.subrange(i + 4, s.len() as int);
    let z = spec_u32_bytes(0);
    let w = spec_u32_bytes(v);
    assert(s == p + (z + q)) by {
        assert(s =~= p + (z + q));
    }
    assert(spec_patch_u32(s, i, v) == p + (w + q)) by {
        assert(spec_patch_u32(s, i, v) =~= p + (w + q));
    }
    lemma_checksum_concat(p, z + q);
    lemma_checksum_concat(p, w + q);
    lemma_checksum_concat(z, q);
    lemma_checksum_concat(w, q);
    lemma_checksum_of_word(0);
    lemma_checksum_of_word(v);
    lemma_mod_patch(table_checksum(p) as int, table_checksum(q) as int, v as int);
}

/// With the adjustment written over the zero adjustment field, the checksum
/// of the whole font is `0xB1B0AFBA`.
pub proof fn lemma_checksum_adjusted(s: Seq<u8>, i: int)
    requires
        0 <= i,
        i % 4 == 0,
        i + 4 <= s.len(),
        forall|j: int| i <= j < i + 4 ==> s[j] == 0,
    ensures
        table_checksum(spec_patch_u32(s, i, font_checksum_adjustment(s))) == CHECKSUM_MINUEND,
{
    lemma_checksum_patch(s, i, font_checksum_adjustment(s));
}

} // verus!
