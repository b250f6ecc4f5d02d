//! Shape checks and order statistics over collections of feature vectors.
//!
//! The arithmetic mean and the midpoint of two doubles are computed where
//! doubles are available; this module decides which values take part.
use vstd::prelude::*;
use crate::error::AppError;
use crate::floatbits::{is_nan, order_key, order_key_of};

verus! {

/// All vectors have length `dim`.
pub open spec fn all_have_len(vs: Seq<Vec<u64>>, dim: int) -> bool {
    forall|i: int| 0 <= i < vs.len() ==> (#[trigger] vs[i])@.len() == dim
}

/// The vectors can be aggregated: there is at least one and all share the
/// first one's length.
pub open spec fn well_shaped(vs: Seq<Vec<u64>>) -> bool {
    vs.len() > 0 && all_have_len(vs, vs[0]@.len() as int)
}

/// No coordinate of any vector is a NaN.
pub open spec fn no_nan(vs: Seq<Vec<u64>>) -> bool {
    forall|i: int, j: int|
        0 <= i < vs.len() && 0 <= j < vs[i]@.len() ==> !is_nan(#[trigger] vs[i]@[j])
}

/// Coordinate `j` of every vector, in input order.
pub open spec fn column(vs: Seq<Vec<u64>>, j: int) -> Seq<u64> {
    Seq::new(vs.len(), |i: int| vs[i]@[j])
}

/// `s` is ordered by the values that its patterns stand for.
pub open spec fn sorted_by_value(s: Seq<u64>) -> bool {
    forall|a: int, b: int| 0 <= a <= b < s.len() ==> order_key(s[a]) <= order_key(s[b])
}

/// `s` holds the elements of `c`, ordered by value.
pub open spec fn is_sorted_of(s: Seq<u64>, c: Seq<u64>) -> bool {
    sorted_by_value(s) && s.to_multiset() == c.to_multiset()
}

/// The two middle positions of `n` sorted values (the same one when `n` is odd).
pub open spec fn middle_pair(s: Seq<u64>) -> (u64, u64) {
    (s[(s.len() - 1) / 2], s[(s.len() / 2) as int])
}

/// `p` holds the two middle values of `c` in sorted order.
pub open spec fn is_median_pair_of(p: (u64, u64), c: Seq<u64>) -> bool {
    exists|s: Seq<u64>| is_sorted_of(s, c) && p == middle_pair(s)
}

/// The middle values that `median_pairs` gives for a coordinate are values of
/// that coordinate in the input, so each lies between the coordinate's least
/// and greatest value; in sorted order the first comes no later than the
/// second, and for an odd count they are one and the same input value.
pub proof fn lemma_median_pair_within_inputs(p: (u64, u64), c: Seq<u64>)
    requires
        c.len() > 0,
        is_median_pair_of(p, c),
    ensures
        c.contains(p.0),
        c.contains(p.1),
        order_key(p.0) <= order_key(p.1),
        c.len() % 2 == 1 ==> p.0 == p.1,
{
    broadcast use vstd::seq_lib::group_to_multiset_ensures;
    let s = choose|s: Seq<u64>| is_sorted_of(s, c) && p == middle_pair(s);
    vstd::seq_lib::to_multiset_len(s);
    vstd::seq_lib::to_multiset_len(c);
    assert(s.len() == c.len());
    assert(s[(s.len() - 1) / 2] == p.0);
    assert(s.contains(p.0));
    assert(s[(s.len() / 2) as int] == p.1);
    assert(s.contains(p.1));
    vstd::seq_lib::to_multiset_contains(s, p.0);
    vstd::seq_lib::to_multiset_contains(s, p.1);
    vstd::seq_lib::to_multiset_contains(c, p.0);
    vstd::seq_lib::to_multiset_contains(c, p.1);
}

/// Checks that the vectors can be aggregated, and returns their common length.
pub fn check_dimensions(vectors: &Vec<Vec<u64>>) -> (r: Result<usize, AppError>)
    ensures
        vectors@.len() == 0 <==> r == Err::<usize, AppError>(AppError::EmptyInput),
        r == Err::<usize, AppError>(AppError::DimensionMismatch) <==> (vectors@.len() > 0
            && !well_shaped(vectors@)),
        r is Ok <==> well_shaped(vectors@),
        r matches Ok(d) ==> d == vectors@[0]@.len(),
{
    if vectors.len() == 0 {
        return Err(AppError::EmptyInput);
    }
    let dim = vectors[0].len();
    let mut i: usize = 1;
    while i < vectors.len()
        invariant
            1 <= i <= vectors@.len(),
            dim == vectors@[0]@.len(),
            all_have_len(vectors@.subrange(0, i as int), dim as int),
        decreases vectors@.len() - i,
    {
        if vectors[i].len() != dim {
            assert(!all_have_len(vectors@, dim as int)) by {
                assert(vectors@[i as int]@.len() != dim);
            }
            return Err(AppError::DimensionMismatch);
        }
        assert(all_have_len(vectors@.subrange(0, i + 1), dim as int)) by {
            assert forall|k: int| 0 <= k < i + 1 implies (#[trigger] vectors@.subrange(
                0,
                i + 1,
            )[k])@.len() == dim by {
                if k < i {
                    assert(vectors@.subrange(0, i as int)[k] == vectors@[k]);
                }
            }
        }
        i += 1;
    }
    assert(vectors@.subrange(0, i as int) =~= vectors@);
    Ok(dim)
}

/// Checks that two vectors can be compared coordinate by coordinate.
pub fn check_same_length(a: &Vec<u64>, b: &Vec<u64>) -> (r: Result<(), AppError>)
    ensures
        r is Ok <==> a@.len() == b@.len(),
        r is Err ==> r == Err::<(), AppError>(AppError::DimensionMismatch),
{
    if a.len() == b.len() {
        Ok(())
    } else {
        Err(AppError::DimensionMismatch)
    }
}

/// Coordinate `j` of every vector, in input order.
pub fn column_of(vectors: &Vec<Vec<u64>>, j: usize) -> (r: Vec<u64>)
    requires
        forall|i: int| 0 <= i < vectors@.len() ==> j < (#[trigger] vectors@[i])@.len(),
    ensures
        r@ == column(vectors@, j as int),
{
    let mut out: Vec<u64> = Vec::new();
    let mut i: usize = 0;
    while i < vectors.len()
        invariant
            i <= vectors@.len(),
            forall|k: int| 0 <= k < vectors@.len() ==> j < (#[trigger] vectors@[k])@.len(),
            out@ == column(vectors@.subrange(0, i as int), j as int),
        decreases vectors@.len() - i,
    {
        out.push(vectors[i][j]);
        assert(out@ =~= column(vectors@.subrange(0, i + 1), j as int));
        i += 1;
    }
    assert(vectors@.subrange(0, i as int) =~= vectors@);
    out
}

/// The values of `c` ordered by the doubles they stand for; among equal
/// values the earlier one comes first.
pub fn sort_by_value(c: &Vec<u64>) -> (r: Vec<u64>)
    requires
        forall|i: int| 0 <= i < c@.len() ==> !is_nan(#[trigger] c@[i]),
    ensures
        is_sorted_of(r@, c@),
        r@.len() == c@.len(),
{
    broadcast use vstd::seq_lib::group_to_multiset_ensures;
    let mut out: Vec<u64> = Vec::new();
    let mut i: usize = 0;
    assert(c@.subrange(0, 0) =~= out@);
    while i < c.len()
        invariant
            i <= c@.len(),
            is_sorted_of(out@, c@.subrange(0, i as int)),
            out@.len() == i,
        decreases c@.len() - i,
    {
        let x = c[i];
        let kx = order_key_of(x);
        let mut pos: usize = 0;
        while pos < out.len() && order_key_of(out[pos]) <= kx
            invariant
                pos <= out@.len(),
                forall|k: int| 0 <= k < pos ==> order_key(#[trigger] out@[k]) <= kx,
            decreases out@.len() - pos,
        {
            pos += 1;
        }
        proof {
            vstd::seq_lib::to_multiset_insert(out@, pos as int, x);
        }
        let ghost before = out@;
        out.insert(pos, x);
        assert(sorted_by_value(out@)) by {
            assert forall|a: int, b: int| 0 <= a <= b < out@.len() implies order_key(out@[a])
                <= order_key(out@[b]) by {
                if pos < before.len() {
                    assert(order_key(before[pos as int]) > kx);
                }
                if a < pos && b > pos {
                    assert(order_key(before[a]) <= order_key(before[b - 1]));
                }
            }
        }
        assert(c@.subrange(0, i + 1) =~= c@.subrange(0, i as int).push(x));
        assert(out@.to_multiset() =~= before.to_multiset().insert(x));
        proof {
            vstd::seq_lib::to_multiset_build(c@.subrange(0, i as int), x);
        }
        i += 1;
    }
    assert(c@.subrange(0, i as int) =~= c@);
    out
}

/// For each coordinate, the two middle values of that coordinate's values in
/// sorted order (one value twice when the count is odd). The median of a
/// coordinate is that value, or the midpoint of the two.
pub fn median_pairs(vectors: &Vec<Vec<u64>>) -> (r: Result<Vec<(u64, u64)>, AppError>)
    requires
        no_nan(vectors@),
    ensures
        vectors@.len() == 0 <==> r == Err::<Vec<(u64, u64)>, AppError>(AppError::EmptyInput),
        r == Err::<Vec<(u64, u64)>, AppError>(AppError::DimensionMismatch) <==> (vectors@.len()
            > 0 && !well_shaped(vectors@)),
        r is Ok <==> well_shaped(vectors@),
        r matches Ok(p) ==> p@.len() == vectors@[0]@.len() && forall|j: int|
            0 <= j < p@.len() ==> is_median_pair_of(#[trigger] p@[j], column(vectors@, j)),
{
    let dim = match check_dimensions(vectors) {
        Ok(d) => d,
        Err(e) => return Err(e),
    };
    let n = vectors.len();
    let mut out: Vec<(u64, u64)> = Vec::new();
    let mut j: usize = 0;
    while j < dim
        invariant
            j <= dim,
            dim == vectors@[0]@.len(),
            n == vectors@.len(),
            n > 0,
            well_shaped(vectors@),
            no_nan(vectors@),
            out@.len() == j,
            forall|k: int|
                0 <= k < j ==> is_median_pair_of(#[trigger] out@[k], column(vectors@, k)),
        decreases dim - j,
    {
        let col = column_of(vectors, j);
        assert forall|i: int| 0 <= i < col@.len() implies !is_nan(#[trigger] col@[i]) by {
            assert(col@[i] == vectors@[i]@[j as int]);
        }
        let sorted = sort_by_value(&col);
        let pair = (sorted[(n - 1) / 2], sorted[n / 2]);
        out.push(pair);
        assert(is_sorted_of(sorted@, column(vectors@, j as int)) && out@[j as int]
            == middle_pair(sorted@));
        assert(is_median_pair_of(out@[j as int], column(vectors@, j as int)));
        j += 1;
    }
    Ok(out)
}

} // verus!
