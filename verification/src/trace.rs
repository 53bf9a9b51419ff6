//! Shared trace-generation plumbing: mapping event lists to row blocks,
//! padding to a power-of-two height, and assembling row-major matrices.
//!
//! Row population is independent per event, so an implementation may hand
//! events out to workers in chunks; the chunk lemma below shows that
//! processing any two chunks separately and concatenating their buffers gives
//! exactly the rows of the sequential pass, so parallel and sequential
//! generation agree row for row (and hence as multisets).

use vstd::prelude::*;

use crate::field::Felt;
use crate::matrix::flatten_rows;
use crate::matrix::lemma_flatten_len;
use crate::matrix::lemma_flatten_row;
use crate::matrix::rows_have_width;
use crate::matrix::RowMajorMatrix;
use crate::record::spec_access_event;
use crate::record::FieldEvent;
use crate::record::MemoryRecord;

verus! {

/// The block of items (rows, derived events) that a list of events generates:
/// each event's block, in event order.
pub open spec fn event_blocks<E, T>(events: Seq<E>, f: spec_fn(E) -> Seq<T>) -> Seq<T>
    decreases events.len(),
{
    if events.len() == 0 {
        Seq::empty()
    } else {
        f(events[0]) + event_blocks(events.skip(1), f)
    }
}

/// Splitting the event list anywhere and concatenating the two chunks' blocks
/// yields the sequential blocks: per-chunk workers agree with the one-pass
/// generator.
pub proof fn lemma_event_blocks_chunked<E, T>(a: Seq<E>, b: Seq<E>, f: spec_fn(E) -> Seq<T>)
    ensures
        event_blocks(a + b, f) == event_blocks(a, f) + event_blocks(b, f),
    decreases a.len(),
{
    if a.len() == 0 {
        assert(a + b =~= b);
        assert(event_blocks(a, f) + event_blocks(b, f) =~= event_blocks(b, f));
    } else {
        assert((a + b).skip(1) =~= a.skip(1) + b);
        assert((a + b)[0] == a[0]);
        lemma_event_blocks_chunked(a.skip(1), b, f);
        assert(event_blocks(a + b, f) =~= event_blocks(a, f) + event_blocks(b, f));
    }
}

/// The value cells of a list of memory accesses.
pub fn access_values(records: &Vec<MemoryRecord>) -> (r: Vec<Felt>)
    ensures
        r@ == records@.map_values(|m: MemoryRecord| crate::field::felt_of(m.value)),
{
    let mut out: Vec<Felt> = Vec::new();
    let mut i: usize = 0;
    while i < records.len()
        invariant
            i <= records.len(),
            out@ =~= records@.take(i as int).map_values(
                |m: MemoryRecord| crate::field::felt_of(m.value),
            ),
        decreases records.len() - i,
    {
        out.push(Felt::from_u32(records[i].value));
        proof {
            assert(records@.take(i as int + 1) =~= records@.take(i as int).push(
                records@[i as int],
            ));
        }
        i = i + 1;
    }
    proof {
        assert(records@.take(records@.len() as int) =~= records@);
    }
    out
}

/// Derive and append the comparison event of each access, in access order.
pub fn append_access_events(records: &Vec<MemoryRecord>, out: &mut Vec<FieldEvent>)
    ensures
        final(out)@ == old(out)@ + records@.map_values(|m: MemoryRecord| spec_access_event(m)),
{
    let mut i: usize = 0;
    while i < records.len()
        invariant
            i <= records.len(),
            out@ =~= old(out)@ + records@.take(i as int).map_values(
                |m: MemoryRecord| spec_access_event(m),
            ),
        decreases records.len() - i,
    {
        let rec = records[i];
        out.push(FieldEvent { is_lt: rec.prev_timestamp < rec.timestamp, a: rec.prev_timestamp, b: rec.timestamp });
        proof {
            assert(records@.take(i as int + 1) =~= records@.take(i as int).push(
                records@[i as int],
            ));
        }
        i = i + 1;
    }
    proof {
        assert(records@.take(records@.len() as int) =~= records@);
    }
}

/// Flatten a list of equal-width rows into a row-major matrix.
pub fn rows_to_matrix<T: Copy>(rows: &Vec<Vec<T>>, width: usize) -> (m: RowMajorMatrix<T>)
    requires
        width > 0,
        forall|i: int| 0 <= i < rows@.len() ==> (#[trigger] rows@[i])@.len() == width,
    ensures
        m.wf(),
        m.width == width,
        m.spec_height() == rows@.len(),
        forall|i: int|
            0 <= i < rows@.len() ==> m.spec_row(i) == (#[trigger] rows@[i])@,
{
    let ghost row_views = rows@.map_values(|r: Vec<T>| r@);
    let mut values: Vec<T> = Vec::new();
    let mut i: usize = 0;
    while i < rows.len()
        invariant
            i <= rows.len(),
            width > 0,
            forall|k: int| 0 <= k < rows@.len() ==> (#[trigger] rows@[k])@.len() == width,
            row_views == rows@.map_values(|r: Vec<T>| r@),
            values@ =~= flatten_rows(row_views.take(i as int)),
        decreases rows.len() - i,
    {
        let row = &rows[i];
        let mut j: usize = 0;
        while j < row.len()
            invariant
                j <= row.len(),
                row == &rows@[i as int],
                i < rows@.len(),
                row_views == rows@.map_values(|r: Vec<T>| r@),
                values@ =~= flatten_rows(row_views.take(i as int)) + row@.take(j as int),
            decreases row.len() - j,
        {
            values.push(row[j]);
            proof {
                assert(row@.take(j as int + 1) =~= row@.take(j as int).push(row@[j as int]));
                assert(flatten_rows(row_views.take(i as int)) + row@.take(j as int + 1)
                    =~= (flatten_rows(row_views.take(i as int)) + row@.take(j as int)).push(
                    row@[j as int],
                ));
            }
            j = j + 1;
        }
        proof {
            assert(row@.take(row@.len() as int) =~= row@);
            assert(row_views.take(i as int + 1) =~= row_views.take(i as int).push(
                row_views[i as int],
            ));
            lemma_flatten_push(row_views.take(i as int), row_views[i as int]);
            assert(row_views[i as int] == row@);
        }
        i = i + 1;
    }
    proof {
        assert(row_views.take(row_views.len() as int) =~= row_views);
        assert(rows_have_width(row_views, width as int));
        lemma_flatten_len(row_views, width as int);
        assert((rows@.len() * width as int) % (width as int) == 0 && (rows@.len() * width as int)
            / (width as int) == rows@.len()) by (nonlinear_arith)
            requires
                width > 0,
        ;
    }
    let m = RowMajorMatrix::new(values, width);
    proof {
        assert forall|k: int| 0 <= k < rows@.len() implies m.spec_row(k) == (#[trigger] rows@[k])@ by {
            lemma_flatten_row(row_views, width as int, k);
        }
    }
    m
}

/// Appending one row block to a flattened row list appends its cells.
pub proof fn lemma_flatten_push<T>(rows: Seq<Seq<T>>, row: Seq<T>)
    ensures
        flatten_rows(rows.push(row)) == flatten_rows(rows) + row,
    decreases rows.len(),
{
    if rows.len() == 0 {
        assert(rows.push(row)[0] == row);
        assert(rows.push(row).skip(1) =~= Seq::<Seq<T>>::empty());
        assert(flatten_rows(Seq::<Seq<T>>::empty()) =~= Seq::<T>::empty());
        assert(flatten_rows(rows.push(row)) =~= flatten_rows(rows) + row);
    } else {
        assert(rows.push(row)[0] == rows[0]);
        assert(rows.push(row).skip(1) =~= rows.skip(1).push(row));
        lemma_flatten_push(rows.skip(1), row);
        assert(flatten_rows(rows.push(row)) =~= flatten_rows(rows) + row);
    }
}

} // verus!
