//! Coordinate derivation: turning the list of spans between
//! consecutive axis lines into absolute positions by running
//! accumulation (a prefix sum, never consuming a span past the final
//! axis line).

use vstd::prelude::*;
use crate::grid::GridError;

verus! {

/// Sum of all entries of `s`.
pub open spec fn sum_of(s: Seq<i64>) -> int
    decreases s.len(),
{
    if s.len() == 0 {
        0
    } else {
        sum_of(s.drop_last()) + s.last()
    }
}

/// Absolute position of axis line `i`: the sum of the first `i` spans.
pub open spec fn coord_at(spans: Seq<i64>, i: int) -> int {
    sum_of(spans.take(i))
}

/// Every entry of `s` is non-negative.
pub open spec fn all_non_negative(s: Seq<i64>) -> bool {
    forall|i: int| 0 <= i < s.len() ==> s[i] >= 0
}

pub proof fn lemma_sum_take_step(s: Seq<i64>, i: int)
    requires
        0 <= i < s.len(),
    ensures
        sum_of(s.take(i + 1)) == sum_of(s.take(i)) + s[i],
{
    assert(s.take(i + 1).drop_last() =~= s.take(i));
    assert(s.take(i + 1).last() == s[i]);
}

pub proof fn lemma_coords_monotone(spans: Seq<i64>, i: int, j: int)
    requires
        all_non_negative(spans),
        0 <= i <= j <= spans.len(),
    ensures
        coord_at(spans, i) <= coord_at(spans, j),
    decreases j - i,
{
    if i < j {
        lemma_sum_take_step(spans, j - 1);
        lemma_coords_monotone(spans, i, j - 1);
    }
}

/// Law: over any non-negative span sequence, the derived positions
/// start at zero, never decrease, and end at the total of all spans.
pub proof fn lemma_coordinate_law(spans: Seq<i64>)
    requires
        all_non_negative(spans),
    ensures
        coord_at(spans, 0) == 0,
        forall|i: int, j: int|
            0 <= i <= j <= spans.len() ==> coord_at(spans, i) <= coord_at(spans, j),
        coord_at(spans, spans.len() as int) == sum_of(spans),
{
    assert(spans.take(0) =~= Seq::<i64>::empty());
    assert(spans.take(spans.len() as int) =~= spans);
    assert forall|i: int, j: int|
        0 <= i <= j <= spans.len() implies coord_at(spans, i) <= coord_at(spans, j) by {
        lemma_coords_monotone(spans, i, j);
    }
}

/// Derive the absolute positions of `axis_count` axis lines from the
/// spans between consecutive lines.
///
/// On success exactly `axis_count` positions come back: position 0 is
/// zero and position `i` is position `i - 1` plus span `i - 1`.  The
/// call fails with `DimensionMismatch` exactly when the span list does
/// not hold `axis_count - 1` entries, and with `InvalidSpan` exactly
/// when the length fits but some span is negative.
pub fn derive_coordinates(axis_count: u32, spans: &Vec<i64>) -> (r: Result<Vec<i64>, GridError>)
    requires
        all_non_negative(spans@) ==> sum_of(spans@) <= i64::MAX as int,
    ensures
        match r {
            Ok(coords) => {
                &&& spans@.len() == axis_count as int - 1
                &&& all_non_negative(spans@)
                &&& coords@.len() == axis_count as int
                &&& forall|i: int| 0 <= i < coords@.len() ==> coords@[i] == coord_at(spans@, i)
                &&& coords@[0] == 0
                &&& forall|i: int| 0 <= i < coords@.len() - 1 ==> #[trigger] coords@[i] <= coords@[i + 1]
                &&& coords@[coords@.len() - 1] == sum_of(spans@)
            },
            Err(GridError::DimensionMismatch) => spans@.len() != axis_count as int - 1,
            Err(GridError::InvalidSpan) => spans@.len() == axis_count as int - 1
                && !all_non_negative(spans@),
        },
{
    let n = axis_count as usize;
    if n == 0 || spans.len() != n - 1 {
        return Err(GridError::DimensionMismatch);
    }
    let mut k: usize = 0;
    while k < spans.len()
        invariant
            k <= spans@.len(),
            spans@.len() == axis_count as int - 1,
            forall|i: int| 0 <= i < k ==> spans@[i] >= 0,
        decreases spans@.len() - k,
    {
        if spans[k] < 0 {
            return Err(GridError::InvalidSpan);
        }
        k += 1;
    }
    proof {
        lemma_coordinate_law(spans@);
    }
    let mut coords: Vec<i64> = Vec::new();
    let mut x: i64 = 0;
    coords.push(0);
    proof {
        assert(spans@.take(0) =~= Seq::<i64>::empty());
    }
    let mut i: usize = 0;
    while i < spans.len()
        invariant
            all_non_negative(spans@),
            sum_of(spans@) <= i64::MAX as int,
            i <= spans@.len(),
            coords@.len() == i + 1,
            forall|j: int| 0 <= j <= i ==> coords@[j] == coord_at(spans@, j),
            x == coord_at(spans@, i as int),
            0 <= x,
        decreases spans@.len() - i,
    {
        proof {
            lemma_sum_take_step(spans@, i as int);
            lemma_coords_monotone(spans@, i as int + 1, spans@.len() as int);
            assert(spans@.take(spans@.len() as int) =~= spans@);
        }
        x = x + spans[i];
        coords.push(x);
        i += 1;
    }
    proof {
        assert(spans@.take(spans@.len() as int) =~= spans@);
        assert forall|j: int| 0 <= j < coords@.len() - 1 implies #[trigger] coords@[j] <= coords@[j + 1] by {
            lemma_coords_monotone(spans@, j, j + 1);
        }
    }
    Ok(coords)
}

} // verus!
