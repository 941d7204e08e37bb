//! The table as a whole: the line of column names, then one line for each
//! sample, in the order in which the samples were taken.

use vstd::prelude::*;
use crate::decimal::{decimal, is_digit, lemma_decimal_digits, lemma_decimal_injective};
use crate::record::{header_line, sample_line, Sample, COMMA, LINE_FEED};

verus! {

/// The lines of the samples, one after the other.
pub open spec fn sample_lines(samples: Seq<Sample>) -> Seq<u8>
    decreases samples.len(),
{
    if samples.len() == 0 {
        Seq::empty()
    } else {
        sample_lines(samples.drop_last()) + sample_line(samples.last())
    }
}

/// All that has been written once `samples` have been recorded.
pub open spec fn table(samples: Seq<Sample>) -> Seq<u8> {
    header_line() + sample_lines(samples)
}

/// Before any sample the table is the line of column names and nothing else.
pub proof fn lemma_table_of_nothing()
    ensures
        table(Seq::<Sample>::empty()) == header_line(),
{
    assert(table(Seq::<Sample>::empty()) =~= header_line());
}

/// Recording a sample appends its line: what was written before stays as it
/// was, and the new line is the last one.
pub proof fn lemma_table_push(samples: Seq<Sample>, sample: Sample)
    ensures
        table(samples.push(sample)) == table(samples) + sample_line(sample),
        table(samples).is_prefix_of(table(samples.push(sample))),
        sample_line(sample).is_suffix_of(table(samples.push(sample))),
{
    assert(samples.push(sample).drop_last() =~= samples);
    assert(table(samples.push(sample)) =~= table(samples) + sample_line(sample));
}

/// The table after the first `k` samples is the beginning of the table after
/// all of them: no line is rewritten, dropped or moved.
pub proof fn lemma_table_prefix(samples: Seq<Sample>, k: int)
    requires
        0 <= k <= samples.len(),
    ensures
        table(samples.take(k)).is_prefix_of(table(samples)),
    decreases samples.len(),
{
    if k == samples.len() {
        assert(samples.take(k) =~= samples);
    } else {
        let shorter = samples.drop_last();
        lemma_table_prefix(shorter, k);
        assert(shorter.take(k) =~= samples.take(k));
        assert(shorter.push(samples.last()) =~= samples);
        lemma_table_push(shorter, samples.last());
    }
}

/// How many line feeds a run of bytes holds, which is how many lines it ends.
pub open spec fn line_feeds(bytes: Seq<u8>) -> nat
    decreases bytes.len(),
{
    if bytes.len() == 0 {
        0
    } else if bytes.last() == LINE_FEED {
        line_feeds(bytes.drop_last()) + 1
    } else {
        line_feeds(bytes.drop_last())
    }
}

proof fn lemma_line_feeds_concat(a: Seq<u8>, b: Seq<u8>)
    ensures
        line_feeds(a + b) == line_feeds(a) + line_feeds(b),
    decreases b.len(),
{
    if b.len() == 0 {
        assert(a + b =~= a);
    } else {
        lemma_line_feeds_concat(a, b.drop_last());
        assert((a + b).drop_last() =~= a + b.drop_last());
    }
}

proof fn lemma_line_feeds_none(a: Seq<u8>)
    requires
        forall|i: int| 0 <= i < a.len() ==> a[i] != LINE_FEED,
    ensures
        line_feeds(a) == 0,
    decreases a.len(),
{
    if a.len() > 0 {
        lemma_line_feeds_none(a.drop_last());
    }
}

/// The line of a sample is one line: it ends with a line feed and holds no
/// other; before the line feed stand digits and one comma.
pub proof fn lemma_sample_line_is_one_line(sample: Sample)
    ensures
        sample_line(sample).len() >= 4,
        sample_line(sample).last() == LINE_FEED,
        forall|i: int|
            0 <= i < sample_line(sample).len() - 1 ==> #[trigger] sample_line(sample)[i]
                != LINE_FEED,
        line_feeds(sample_line(sample)) == 1,
{
    let line = sample_line(sample);
    let resident = decimal(sample.resident_bytes as nat);
    let virt = decimal(sample.virtual_bytes as nat);
    lemma_decimal_digits(sample.resident_bytes as nat);
    lemma_decimal_digits(sample.virtual_bytes as nat);
    assert forall|i: int| 0 <= i < line.len() - 1 implies #[trigger] line[i] != LINE_FEED by {
        if i < resident.len() {
            assert(is_digit(resident[i]));
        } else if i > resident.len() {
            assert(is_digit(virt[i - resident.len() - 1]));
        }
    }
    lemma_line_feeds_none(line.drop_last());
}

/// The line of column names is one line.
pub proof fn lemma_header_line_is_one_line()
    ensures
        header_line().last() == LINE_FEED,
        line_feeds(header_line()) == 1,
{
    lemma_line_feeds_none(header_line().drop_last());
}

/// The table holds one line for the column names and one for each sample.
pub proof fn lemma_table_line_count(samples: Seq<Sample>)
    ensures
        line_feeds(table(samples)) == samples.len() + 1,
        table(samples).last() == LINE_FEED,
    decreases samples.len(),
{
    lemma_header_line_is_one_line();
    if samples.len() == 0 {
        lemma_table_of_nothing();
    } else {
        let shorter = samples.drop_last();
        lemma_table_line_count(shorter);
        assert(shorter.push(samples.last()) =~= samples);
        lemma_table_push(shorter, samples.last());
        lemma_sample_line_is_one_line(samples.last());
        lemma_line_feeds_concat(table(shorter), sample_line(samples.last()));
    }
}

/// A line tells which sample it records: two samples with the same line are
/// the same sample.
pub proof fn lemma_sample_line_injective(a: Sample, b: Sample)
    requires
        sample_line(a) == sample_line(b),
    ensures
        a == b,
{
    let line = sample_line(a);
    let (ra, va) = (decimal(a.resident_bytes as nat), decimal(a.virtual_bytes as nat));
    let (rb, vb) = (decimal(b.resident_bytes as nat), decimal(b.virtual_bytes as nat));
    lemma_decimal_digits(a.resident_bytes as nat);
    lemma_decimal_digits(a.virtual_bytes as nat);
    lemma_decimal_digits(b.resident_bytes as nat);
    lemma_decimal_digits(b.virtual_bytes as nat);
    assert(line[ra.len() as int] == COMMA);
    assert(sample_line(b)[rb.len() as int] == COMMA);
    if ra.len() < rb.len() {
        assert(is_digit(rb[ra.len() as int]));
        assert(sample_line(b)[ra.len() as int] == rb[ra.len() as int]);
        assert(false);
    }
    if rb.len() < ra.len() {
        assert(is_digit(ra[rb.len() as int]));
        assert(line[rb.len() as int] == ra[rb.len() as int]);
        assert(false);
    }
    assert(ra =~= rb) by {
        assert forall|i: int| 0 <= i < ra.len() implies ra[i] == rb[i] by {
            assert(line[i] == ra[i]);
            assert(sample_line(b)[i] == rb[i]);
        }
    }
    assert(va =~= vb) by {
        assert(line.len() == ra.len() + va.len() + 2);
        assert(sample_line(b).len() == rb.len() + vb.len() + 2);
        assert forall|i: int| 0 <= i < va.len() implies va[i] == vb[i] by {
            assert(line[ra.len() + 1 + i] == va[i]);
            assert(sample_line(b)[rb.len() + 1 + i] == vb[i]);
        }
    }
    lemma_decimal_injective(a.resident_bytes as nat, b.resident_bytes as nat);
    lemma_decimal_injective(a.virtual_bytes as nat, b.virtual_bytes as nat);
}

proof fn lemma_sample_lines_end(samples: Seq<Sample>)
    requires
        samples.len() > 0,
    ensures
        sample_lines(samples).len() > 0,
        sample_lines(samples).last() == LINE_FEED,
{
    lemma_sample_line_is_one_line(samples.last());
}

proof fn lemma_sample_lines_injective(xs: Seq<Sample>, ys: Seq<Sample>)
    requires
        sample_lines(xs) == sample_lines(ys),
    ensures
        xs == ys,
    decreases xs.len(),
{
    if xs.len() == 0 || ys.len() == 0 {
        if xs.len() > 0 {
            lemma_sample_lines_end(xs);
        }
        if ys.len() > 0 {
            lemma_sample_lines_end(ys);
        }
        assert(xs =~= ys);
    } else {
        let all = sample_lines(xs);
        let (before_x, line_x) = (sample_lines(xs.drop_last()), sample_line(xs.last()));
        let (before_y, line_y) = (sample_lines(ys.drop_last()), sample_line(ys.last()));
        lemma_sample_line_is_one_line(xs.last());
        lemma_sample_line_is_one_line(ys.last());
        assert(all == before_x + line_x);
        assert(all == before_y + line_y);
        if line_x.len() < line_y.len() {
            lemma_sample_lines_end(xs.drop_last());
            let at = before_x.len() - 1;
            assert(all[at] == before_x[at]);
            assert(all[at] == line_y[at - before_y.len()]);
            assert(false);
        }
        if line_y.len() < line_x.len() {
            lemma_sample_lines_end(ys.drop_last());
            let at = before_y.len() - 1;
            assert(all[at] == before_y[at]);
            assert(all[at] == line_x[at - before_x.len()]);
            assert(false);
        }
        assert(before_x =~= before_y) by {
            assert forall|i: int| 0 <= i < before_x.len() implies before_x[i] == before_y[i] by {
                assert((before_x + line_x)[i] == before_x[i]);
                assert((before_y + line_y)[i] == before_y[i]);
            }
        }
        assert(line_x =~= line_y) by {
            assert forall|i: int| 0 <= i < line_x.len() implies line_x[i] == line_y[i] by {
                assert((before_x + line_x)[before_x.len() + i] == line_x[i]);
                assert((before_y + line_y)[before_y.len() + i] == line_y[i]);
            }
        }
        lemma_sample_line_injective(xs.last(), ys.last());
        lemma_sample_lines_injective(xs.drop_last(), ys.drop_last());
        assert(xs =~= xs.drop_last().push(xs.last()));
        assert(ys =~= ys.drop_last().push(ys.last()));
    }
}

/// The table tells which samples were recorded, and in which order: two runs
/// that wrote the same bytes recorded the same samples.
pub proof fn lemma_table_injective(xs: Seq<Sample>, ys: Seq<Sample>)
    requires
        table(xs) == table(ys),
    ensures
        xs == ys,
{
    let (lines_x, lines_y) = (sample_lines(xs), sample_lines(ys));
    let header = header_line();
    assert(lines_x =~= lines_y) by {
        assert((header + lines_x).len() == (header + lines_y).len());
        assert forall|i: int| 0 <= i < lines_x.len() implies lines_x[i] == lines_y[i] by {
            assert((header + lines_x)[header.len() + i] == lines_x[i]);
            assert((header + lines_y)[header.len() + i] == lines_y[i]);
        }
    }
    lemma_sample_lines_injective(xs, ys);
}

} // verus!
