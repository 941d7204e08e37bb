//! Lines of the table, written by the `csv` crate.

use vstd::prelude::*;
use crate::decimal::{decimal, decimal_bytes, is_digit, lemma_decimal_digits};

verus! {

/// The sizes of the process at one look, in bytes.
#[derive(Clone, Copy, Debug, PartialEq, Eq)]
pub struct Sample {
    /// Memory that is mapped to physical memory.
    pub resident_bytes: u64,
    /// Address space that is reserved, backed or not.
    pub virtual_bytes: u64,
}

/// The field delimiter, `,`.
pub const COMMA: u8 = 44;

/// The quote, `"`.
pub const QUOTE: u8 = 34;

/// The carriage return.
pub const CARRIAGE_RETURN: u8 = 13;

/// The line feed, which ends every record.
pub const LINE_FEED: u8 = 10;

/// Whether the byte `b` makes the CSV writer put a field in quotes: the
/// delimiter, the quote, and the two line ends.
pub open spec fn is_special(b: u8) -> bool {
    b == COMMA || b == QUOTE || b == CARRIAGE_RETURN || b == LINE_FEED
}

/// Whether a record goes out as it stands: no field holds a special byte, and
/// the record is not blank (no field at all, or a single empty one).
pub open spec fn plain_record(fields: Seq<Seq<u8>>) -> bool {
    &&& forall|i: int, j: int|
        0 <= i < fields.len() && 0 <= j < fields[i].len() ==> !is_special(#[trigger] fields[i][j])
    &&& fields.len() >= 1
    &&& fields.len() == 1 ==> fields[0].len() >= 1
}

/// The fields with a comma between each two.
pub open spec fn joined(fields: Seq<Seq<u8>>) -> Seq<u8>
    decreases fields.len(),
{
    if fields.len() == 0 {
        Seq::empty()
    } else if fields.len() == 1 {
        fields[0]
    } else {
        joined(fields.drop_last()) + seq![COMMA] + fields.last()
    }
}

/// A record as one line: its fields joined by commas, then a line feed.
pub open spec fn record_line(fields: Seq<Seq<u8>>) -> Seq<u8> {
    joined(fields).push(LINE_FEED)
}

/// What each field of a record holds.
pub open spec fn field_views(fields: Seq<Vec<u8>>) -> Seq<Seq<u8>> {
    fields.map_values(|field: Vec<u8>| field@)
}

/// The name of the first column, `RES`.
pub open spec fn resident_name() -> Seq<u8> {
    seq!['R' as u8, 'E' as u8, 'S' as u8]
}

/// The name of the second column, `VIRT`.
pub open spec fn virtual_name() -> Seq<u8> {
    seq!['V' as u8, 'I' as u8, 'R' as u8, 'T' as u8]
}

/// The line of column names: `RES,VIRT` and a line feed.
pub open spec fn header_line() -> Seq<u8> {
    resident_name() + seq![COMMA] + virtual_name() + seq![LINE_FEED]
}

/// The line of one sample: the resident size, a comma, the virtual size, and
/// a line feed, both sizes in decimal.
pub open spec fn sample_line(sample: Sample) -> Seq<u8> {
    decimal(sample.resident_bytes as nat) + seq![COMMA] + decimal(sample.virtual_bytes as nat)
        + seq![LINE_FEED]
}

/// A record of two fields is the first field, a comma, the second field and
/// a line feed.
proof fn lemma_line_of_two(first: Seq<u8>, second: Seq<u8>)
    ensures
        record_line(seq![first, second]) == first + seq![COMMA] + second + seq![LINE_FEED],
{
    let fields = seq![first, second];
    assert(fields.drop_last() =~= seq![first]);
    assert(joined(fields.drop_last()) == first);
    assert(record_line(fields) =~= first + seq![COMMA] + second + seq![LINE_FEED]);
}

/// `csv::Error`, the error of the `csv` crate, carried as it is.
#[verifier::external_type_specification]
#[verifier::external_body]
pub struct ExCsvError(csv::Error);

/// Writes one record with `csv::Writer::write_record` into a new writer over
/// an empty `Vec<u8>`, made by `csv::Writer::from_writer`, and takes the
/// bytes out with `csv::Writer::into_inner`.
///
/// Trusted: for a plain record the writer adds no quotes, so that the bytes
/// are the fields joined by commas and ended by a line feed; and writing the
/// first record into memory does not fail.
#[verifier::external_body]
fn write_record(fields: &Vec<Vec<u8>>) -> (out: Result<Vec<u8>, csv::Error>)
    requires
        plain_record(field_views(fields@)),
    ensures
        out is Ok,
        out->Ok_0@ == record_line(field_views(fields@)),
{
    let mut writer = csv::Writer::from_writer(Vec::new());
    writer.write_record(fields)?;
    match writer.into_inner() {
        Ok(bytes) => Ok(bytes),
        Err(e) => Err(csv::Error::from(e.into_error())),
    }
}

/// The first line of every table.
pub fn header_row() -> (row: Vec<u8>)
    ensures
        row@ == header_line(),
{
    let mut fields: Vec<Vec<u8>> = Vec::new();
    fields.push(vec!['R' as u8, 'E' as u8, 'S' as u8]);
    fields.push(vec!['V' as u8, 'I' as u8, 'R' as u8, 'T' as u8]);
    proof {
        assert(field_views(fields@) =~= seq![resident_name(), virtual_name()]);
        lemma_line_of_two(resident_name(), virtual_name());
    }
    match write_record(&fields) {
        Ok(row) => row,
        Err(_) => vstd::pervasive::unreached(),
    }
}

/// The line that records one sample.
pub fn sample_row(sample: Sample) -> (row: Vec<u8>)
    ensures
        row@ == sample_line(sample),
{
    let mut fields: Vec<Vec<u8>> = Vec::new();
    fields.push(decimal_bytes(sample.resident_bytes));
    fields.push(decimal_bytes(sample.virtual_bytes));
    proof {
        let resident = decimal(sample.resident_bytes as nat);
        let virt = decimal(sample.virtual_bytes as nat);
        let views = field_views(fields@);
        assert(views =~= seq![resident, virt]);
        lemma_line_of_two(resident, virt);
        lemma_decimal_digits(sample.resident_bytes as nat);
        lemma_decimal_digits(sample.virtual_bytes as nat);
        assert forall|i: int, j: int|
            0 <= i < views.len() && 0 <= j < views[i].len() implies !is_special(
            #[trigger] views[i][j],
        ) by {
            assert(is_digit(views[i][j]));
        }
    }
    match write_record(&fields) {
        Ok(row) => row,
        Err(_) => vstd::pervasive::unreached(),
    }
}

} // verus!
