//! The table directory of an OpenType font.

use vstd::prelude::*;
use crate::buffer_util::{put_u16, put_u32, spec_u16_bytes, spec_u32_bytes};
use crate::magic_numbers::Tag;

verus! {

/// The size of an OpenType table directory of `num_tables` records: twelve
/// bytes, and sixteen for each record.
pub open spec fn spec_header_size(num_tables: nat) -> nat {
    12 + 16 * num_tables
}

/// Calculates the size of the OpenType table directory.
pub fn calculate_header_size(num_tables: usize) -> (size: usize)
    requires
        spec_header_size(num_tables as nat) <= usize::MAX,
    ensures
        size == spec_header_size(num_tables as nat),
{
    12 + 16 * num_tables
}

/// Where a table lies in the font, and the checksum of its bytes.
#[derive(Clone, Copy, Debug)]
pub struct TableRecord {
    pub tag: Tag,
    pub checksum: u32,
    pub offset: u32,
    pub length: u32,
}

impl TableRecord {
    /// The sixteen bytes of the record.
    pub open spec fn spec_bytes(&self) -> Seq<u8> {
        spec_u32_bytes(self.tag.0) + spec_u32_bytes(self.checksum) + spec_u32_bytes(self.offset)
            + spec_u32_bytes(self.length)
    }

    /// Appends the record to the buffer.
    pub fn write_to_buf(&self, buffer: &mut Vec<u8>)
        ensures
            final(buffer)@ == old(buffer)@ + self.spec_bytes(),
    {
        put_u32(buffer, self.tag.0);
        put_u32(buffer, self.checksum);
        put_u32(buffer, self.offset);
        put_u32(buffer, self.length);
        assert(buffer@ =~= old(buffer)@ + self.spec_bytes());
    }

    /// The table's first byte and the byte behind its last.
    pub fn get_range(&self) -> (r: (usize, usize))
        requires
            self.offset + self.length <= usize::MAX,
        ensures
            r.0 == self.offset,
            r.1 == self.offset + self.length,
    {
        (self.offset as usize, self.offset as usize + self.length as usize)
    }
}

// ---------------------------------------------------------------------------
// Sorting records by tag
// ---------------------------------------------------------------------------

/// Where a record of tag `tag` goes into records sorted by tag: behind the
/// last record whose tag is not greater.
pub open spec fn spec_insert_position(sorted: Seq<TableRecord>, tag: u32) -> int
    decreases sorted.len(),
{
    if sorted.len() == 0 {
        0
    } else if sorted.last().tag.0 <= tag {
        sorted.len() as int
    } else {
        spec_insert_position(sorted.drop_last(), tag)
    }
}

/// The records sorted by tag, records of one tag in the order they came in.
pub open spec fn spec_sort_by_tag(records: Seq<TableRecord>) -> Seq<TableRecord>
    decreases records.len(),
{
    if records.len() == 0 {
        Seq::empty()
    } else {
        let rest = spec_sort_by_tag(records.drop_last());
        rest.insert(spec_insert_position(rest, records.last().tag.0), records.last())
    }
}

/// No record has a tag below that of a record before it.
pub open spec fn spec_is_sorted(records: Seq<TableRecord>) -> bool {
    forall|i: int, j: int| 0 <= i < j < records.len() ==> records[i].tag.0 <= records[j].tag.0
}

/// The position at which a record is inserted has only greater tags behind
/// it, and a tag that is not greater right before it.
pub proof fn lemma_insert_position(sorted: Seq<TableRecord>, tag: u32)
    ensures
        0 <= spec_insert_position(sorted, tag) <= sorted.len(),
        forall|k: int|
            spec_insert_position(sorted, tag) <= k < sorted.len() ==> sorted[k].tag.0 > tag,
        spec_insert_position(sorted, tag) > 0 ==> sorted[spec_insert_position(sorted, tag)
            - 1].tag.0 <= tag,
    decreases sorted.len(),
{
    if sorted.len() > 0 && sorted.last().tag.0 > tag {
        let front = sorted.drop_last();
        lemma_insert_position(front, tag);
        assert forall|k: int| spec_insert_position(sorted, tag) <= k < sorted.len() implies sorted[k].tag.0
            > tag by {
            if k < front.len() {
                assert(sorted[k] == front[k]);
            }
        }
        if spec_insert_position(sorted, tag) > 0 {
            assert(sorted[spec_insert_position(sorted, tag) - 1] == front[spec_insert_position(
                front,
                tag,
            ) - 1]);
        }
    }
}

/// Sorting keeps every record, and puts the records in ascending order of
/// their tags.
pub proof fn lemma_sort_by_tag(records: Seq<TableRecord>)
    ensures
        spec_sort_by_tag(records).len() == records.len(),
        spec_sort_by_tag(records).to_multiset() == records.to_multiset(),
        spec_is_sorted(spec_sort_by_tag(records)),
    decreases records.len(),
{
    broadcast use vstd::seq_lib::to_multiset_insert, vstd::seq_lib::to_multiset_build;

    if records.len() == 0 {
        assert(records =~= Seq::empty());
    } else {
        let front = records.drop_last();
        let last = records.last();
        lemma_sort_by_tag(front);
        let rest = spec_sort_by_tag(front);
        let pos = spec_insert_position(rest, last.tag.0);
        lemma_insert_position(rest, last.tag.0);
        let sorted = rest.insert(pos, last);
        assert(records =~= front.push(last));
        assert(sorted.to_multiset() =~= records.to_multiset());
        assert forall|i: int, j: int| 0 <= i < j < sorted.len() implies sorted[i].tag.0
            <= sorted[j].tag.0 by {
            if pos > 0 {
                assert(rest[pos - 1].tag.0 <= last.tag.0);
            }
            if i < pos {
                assert(sorted[i] == rest[i]);
                assert(i == pos - 1 || rest[i].tag.0 <= rest[pos - 1].tag.0);
            }
            if j > pos {
                assert(sorted[j] == rest[j - 1]);
            }
            if i > pos {
                assert(sorted[i] == rest[i - 1]);
            }
            if j < pos {
                assert(sorted[j] == rest[j]);
            }
        }
    }
}

/// Sorts the records by tag.
pub fn sort_by_tag(records: Vec<TableRecord>) -> (sorted: Vec<TableRecord>)
    ensures
        sorted@ == spec_sort_by_tag(records@),
{
    let mut sorted: Vec<TableRecord> = Vec::new();
    let mut i: usize = 0;
    while i < records.len()
        invariant
            i <= records@.len(),
            sorted@ == spec_sort_by_tag(records@.subrange(0, i as int)),
        decreases records@.len() - i,
    {
        let record = records[i];
        let mut j: usize = sorted.len();
        assert(sorted@.subrange(0, j as int) =~= sorted@);
        while j > 0 && sorted[j - 1].tag.0 > record.tag.0
            invariant
                j <= sorted@.len(),
                spec_insert_position(sorted@, record.tag.0) == spec_insert_position(
                    sorted@.subrange(0, j as int),
                    record.tag.0,
                ),
            decreases j,
        {
            assert(sorted@.subrange(0, j as int).drop_last() =~= sorted@.subrange(0, j - 1));
            j = j - 1;
        }
        proof {
            assert(sorted@.subrange(0, sorted@.len() as int) =~= sorted@);
            assert(records@.subrange(0, i + 1).drop_last() =~= records@.subrange(0, i as int));
            assert(spec_insert_position(sorted@, record.tag.0) == j);
        }
        sorted.insert(j, record);
        i = i + 1;
    }
    assert(records@.subrange(0, records@.len() as int) =~= records@);
    sorted
}

// ---------------------------------------------------------------------------
// The directory
// ---------------------------------------------------------------------------

/// Two to the power of `e`.
pub open spec fn spec_pow2(e: nat) -> nat
    decreases e,
{
    if e == 0 {
        1
    } else {
        2 * spec_pow2((e - 1) as nat)
    }
}

/// The logarithm of `n` to the base two, rounded down.
pub open spec fn spec_floor_log2(n: nat) -> nat
    decreases n,
{
    if n < 2 {
        0
    } else {
        1 + spec_floor_log2(n / 2)
    }
}

/// The rounded-down logarithm of `n` is the `e` with `2^e <= n < 2^(e + 1)`.
pub proof fn lemma_floor_log2(n: nat, e: nat)
    requires
        spec_pow2(e) <= n < 2 * spec_pow2(e),
    ensures
        spec_floor_log2(n) == e,
    decreases e,
{
    if e > 0 {
        lemma_floor_log2(n / 2, (e - 1) as nat);
    }
}

/// The bytes of the directory of a font of version `sfnt_version` with the
/// tables `records`: the version, the number `n` of tables, the search range
/// `16 * 2^e`, the entry selector `e`, the logarithm of `n` rounded down,
/// the range shift `16 * n` less the search range, and the records sorted by
/// tag.
#[verifier::opaque]
pub open spec fn spec_table_directory_bytes(sfnt_version: Tag, records: Seq<TableRecord>) -> Seq<
    u8,
> {
    let n = records.len();
    let e = spec_floor_log2(n);
    spec_u32_bytes(sfnt_version.0) + spec_u16_bytes(n as u16) + spec_u16_bytes(
        (16 * spec_pow2(e)) as u16,
    ) + spec_u16_bytes(e as u16) + spec_u16_bytes((16 * n - 16 * spec_pow2(e)) as u16)
        + spec_records_bytes(spec_sort_by_tag(records))
}

/// The bytes of the records, one after the other.
pub open spec fn spec_records_bytes(records: Seq<TableRecord>) -> Seq<u8>
    decreases records.len(),
{
    if records.len() == 0 {
        Seq::empty()
    } else {
        spec_records_bytes(records.drop_last()) + records.last().spec_bytes()
    }
}

/// The first record of tag `tag` at or behind `from`.
pub open spec fn spec_find_table_from(records: Seq<TableRecord>, tag: Tag, from: int) -> Option<
    TableRecord,
>
    decreases records.len() - from,
{
    if from < 0 || from >= records.len() {
        None
    } else if records[from].tag == tag {
        Some(records[from])
    } else {
        spec_find_table_from(records, tag, from + 1)
    }
}

/// Each record takes sixteen bytes.
pub proof fn lemma_records_bytes_len(records: Seq<TableRecord>)
    ensures
        spec_records_bytes(records).len() == 16 * records.len(),
    decreases records.len(),
{
    if records.len() > 0 {
        lemma_records_bytes_len(records.drop_last());
    }
}

/// A table directory has the size that `spec_header_size` gives.
pub proof fn lemma_table_directory_bytes_len(sfnt_version: Tag, records: Seq<TableRecord>)
    ensures
        spec_table_directory_bytes(sfnt_version, records).len() == spec_header_size(records.len()),
{
    reveal(spec_table_directory_bytes);
    lemma_sort_by_tag(records);
    lemma_records_bytes_len(spec_sort_by_tag(records));
}

/// An OpenType table directory.
pub struct TableDirectory {
    pub sfnt_version: Tag,
    pub num_tables: u16,
    pub search_range: u16,
    pub entry_selector: u16,
    pub range_shift: u16,
    pub table_records: Vec<TableRecord>,
}

impl TableDirectory {
    /// The records are sorted by tag, and the search hints are those of
    /// their number `n`: the entry selector is the logarithm of `n` to the
    /// base two, rounded down, the search range sixteen times the power of
    /// two that it stands for, the range shift what is left of `16 * n`.
    pub open spec fn wf(&self) -> bool {
        &&& self.num_tables == self.table_records@.len()
        &&& spec_is_sorted(self.table_records@)
        &&& spec_pow2(self.entry_selector as nat) <= self.num_tables < 2 * spec_pow2(
            self.entry_selector as nat,
        )
        &&& self.search_range == 16 * spec_pow2(self.entry_selector as nat)
        &&& self.range_shift == 16 * self.num_tables - self.search_range
    }

    /// The bytes of the directory: the version, the number of tables, the
    /// three search hints, and the records.
    pub open spec fn spec_bytes(&self) -> Seq<u8> {
        spec_u32_bytes(self.sfnt_version.0) + spec_u16_bytes(self.num_tables) + spec_u16_bytes(
            self.search_range,
        ) + spec_u16_bytes(self.entry_selector) + spec_u16_bytes(self.range_shift)
            + spec_records_bytes(self.table_records@)
    }

    /// Builds a new table directory, sorting the table records.
    pub fn new(sfnt_version: Tag, table_records: Vec<TableRecord>) -> (d: Self)
        requires
            1 <= table_records@.len() < 4096,
        ensures
            d.wf(),
            d.sfnt_version == sfnt_version,
            d.table_records@ == spec_sort_by_tag(table_records@),
            d.entry_selector == spec_floor_log2(table_records@.len()),
            d.spec_bytes() == spec_table_directory_bytes(sfnt_version, table_records@),
    {
        proof {
            reveal(spec_table_directory_bytes);
            lemma_sort_by_tag(table_records@);
        }
        let ghost n = table_records@.len();
        let table_records = sort_by_tag(table_records);
        let num_tables: u16 = table_records.len() as u16;
        let mut entry_selector: u16 = 0;
        let mut power: u16 = 1;
        while power * 2 <= num_tables
            invariant
                power == spec_pow2(entry_selector as nat),
                power <= num_tables < 4096,
                entry_selector < power,
            decreases num_tables - power,
        {
            power = power * 2;
            entry_selector = entry_selector + 1;
        }
        proof {
            lemma_floor_log2(n, entry_selector as nat);
        }
        let search_range: u16 = power * 16;
        let range_shift: u16 = num_tables * 16 - search_range;
        TableDirectory {
            sfnt_version,
            num_tables,
            search_range,
            entry_selector,
            range_shift,
            table_records,
        }
    }

    /// Appends the directory to the buffer.
    pub fn write_to_buf(&self, buffer: &mut Vec<u8>)
        ensures
            final(buffer)@ == old(buffer)@ + self.spec_bytes(),
    {
        put_u32(buffer, self.sfnt_version.0);
        put_u16(buffer, self.num_tables);
        put_u16(buffer, self.search_range);
        put_u16(buffer, self.entry_selector);
        put_u16(buffer, self.range_shift);
        let ghost head = buffer@;
        let mut i: usize = 0;
        while i < self.table_records.len()
            invariant
                i <= self.table_records@.len(),
                buffer@ == head + spec_records_bytes(self.table_records@.subrange(0, i as int)),
            decreases self.table_records@.len() - i,
        {
            proof {
                assert(self.table_records@.subrange(0, i + 1).drop_last()
                    =~= self.table_records@.subrange(0, i as int));
            }
            self.table_records[i].write_to_buf(buffer);
            i = i + 1;
            assert(buffer@ =~= head + spec_records_bytes(
                self.table_records@.subrange(0, i as int),
            ));
        }
        assert(self.table_records@.subrange(0, self.table_records@.len() as int)
            =~= self.table_records@);
        assert(buffer@ =~= old(buffer)@ + self.spec_bytes());
    }

    /// Finds the first record of the given tag.
    pub fn find_table(&self, table_tag: Tag) -> (r: Option<TableRecord>)
        ensures
            r == spec_find_table_from(self.table_records@, table_tag, 0),
    {
        let mut i: usize = 0;
        while i < self.table_records.len()
            invariant
                i <= self.table_records@.len(),
                spec_find_table_from(self.table_records@, table_tag, 0) == spec_find_table_from(
                    self.table_records@,
                    table_tag,
                    i as int,
                ),
            decreases self.table_records@.len() - i,
        {
            if self.table_records[i].tag == table_tag {
                return Some(self.table_records[i]);
            }
            i = i + 1;
        }
        None
    }
}

/// A record that is found has the tag that was asked for, and is one of the
/// records; none is found only where no record has the tag.
pub proof fn lemma_find_table(records: Seq<TableRecord>, tag: Tag, from: int)
    requires
        0 <= from,
    ensures
        match spec_find_table_from(records, tag, from) {
            Some(r) => r.tag == tag && exists|i: int| from <= i < records.len() && records[i] == r,
            None => forall|i: int| from <= i < records.len() ==> records[i].tag != tag,
        },
    decreases records.len() - from,
{
    if from < records.len() && records[from].tag != tag {
        lemma_find_table(records, tag, from + 1);
    }
}

} // verus!
