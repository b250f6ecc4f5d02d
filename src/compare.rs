//! The read side: stored rows of one identity, grouped by kind, and samples
//! that lie far from a reference vector.
use vstd::prelude::*;
use crate::codec::{
    decodable, decode_vector, is_decoding_of, is_encoding_of, lemma_encode_decode_round_trip,
};
use crate::error::AppError;
use crate::feature::{copy_vector, kind_of_text, FeatureType};
use crate::floatbits::{float_gt, float_gt_spec};

verus! {

/// A row as the table returns it, vector still encoded.
pub struct StoredRow {
    pub id: i64,
    pub child_id: String,
    pub blob: Vec<u8>,
    pub photo_file_name: String,
    pub f_type: String,
    pub timestamp: String,
}

/// A stored record with its vector decoded.
pub struct FaceEncoding {
    pub id: i64,
    pub child_id: String,
    pub feature_vector: Vec<u64>,
    pub photo_file_name: String,
    pub f_type: String,
    pub timestamp: String,
}

/// The records of one identity: its samples in insertion order, and the
/// authoritative mean and median.
pub struct FeatureSet {
    pub atomics: Vec<FaceEncoding>,
    pub average: FaceEncoding,
    pub median: FaceEncoding,
}

/// `e` is `row` with its vector decoded.
pub open spec fn decodes_to(e: FaceEncoding, row: StoredRow) -> bool {
    &&& e.id == row.id
    &&& e.child_id@ == row.child_id@
    &&& is_decoding_of(e.feature_vector@, row.blob@)
    &&& e.photo_file_name@ == row.photo_file_name@
    &&& e.f_type@ == row.f_type@
    &&& e.timestamp@ == row.timestamp@
}

/// `a` and `b` hold the same values.
pub open spec fn same_encoding(a: FaceEncoding, b: FaceEncoding) -> bool {
    &&& a.id == b.id
    &&& a.child_id@ == b.child_id@
    &&& a.feature_vector@ == b.feature_vector@
    &&& a.photo_file_name@ == b.photo_file_name@
    &&& a.f_type@ == b.f_type@
    &&& a.timestamp@ == b.timestamp@
}

/// The row is of kind `k`.
pub open spec fn row_is(row: StoredRow, k: FeatureType) -> bool {
    kind_of_text(row.f_type@) == Some(k)
}

/// Index of the first row whose blob cannot be decoded, or -1.
pub open spec fn first_bad_row(rows: Seq<StoredRow>) -> int
    decreases rows.len(),
{
    if rows.len() == 0 {
        -1
    } else if first_bad_row(rows.drop_last()) >= 0 {
        first_bad_row(rows.drop_last())
    } else if !decodable(rows.last().blob@) {
        rows.len() - 1
    } else {
        -1
    }
}

/// Index of the last row of kind `k`, or -1.
pub open spec fn last_row_of(rows: Seq<StoredRow>, k: FeatureType) -> int
    decreases rows.len(),
{
    if rows.len() == 0 {
        -1
    } else if row_is(rows.last(), k) {
        rows.len() - 1
    } else {
        last_row_of(rows.drop_last(), k)
    }
}

/// The sample rows, in order.
pub open spec fn sample_rows(rows: Seq<StoredRow>) -> Seq<StoredRow>
    decreases rows.len(),
{
    if rows.len() == 0 {
        Seq::empty()
    } else if row_is(rows.last(), FeatureType::Sample) {
        sample_rows(rows.drop_last()).push(rows.last())
    } else {
        sample_rows(rows.drop_last())
    }
}

/// The samples of `atomics` whose entry in `distances` exceeds `threshold`,
/// in order.
pub open spec fn distant(atomics: Seq<FaceEncoding>, distances: Seq<u64>, threshold: u64) -> Seq<
    FaceEncoding,
>
    decreases atomics.len(),
{
    if atomics.len() == 0 {
        Seq::empty()
    } else {
        let rest = distant(atomics.drop_last(), distances, threshold);
        if float_gt_spec(distances[atomics.len() - 1], threshold) {
            rest.push(atomics.last())
        } else {
            rest
        }
    }
}

/// `a` and `b` hold the same records, in the same order.
pub open spec fn same_encodings(a: Seq<FaceEncoding>, b: Seq<FaceEncoding>) -> bool {
    a.len() == b.len() && forall|i: int| 0 <= i < a.len() ==> same_encoding(#[trigger] a[i], b[i])
}

impl FaceEncoding {
    /// A copy of this record.
    pub fn duplicate(&self) -> (r: FaceEncoding)
        ensures
            same_encoding(r, *self),
    {
        FaceEncoding {
            id: self.id,
            child_id: self.child_id.clone(),
            feature_vector: copy_vector(&self.feature_vector),
            photo_file_name: self.photo_file_name.clone(),
            f_type: self.f_type.clone(),
            timestamp: self.timestamp.clone(),
        }
    }
}

/// Decodes the vector of a stored row.
pub fn decode_row(row: &StoredRow) -> (r: Result<FaceEncoding, AppError>)
    ensures
        r is Ok <==> decodable(row.blob@),
        r matches Ok(e) ==> decodes_to(e, *row),
        r is Err ==> r == Err::<FaceEncoding, AppError>(AppError::Serialization(row.id)),
{
    match decode_vector(row.blob.as_slice()) {
        Some(v) => Ok(
            FaceEncoding {
                id: row.id,
                child_id: row.child_id.clone(),
                feature_vector: v,
                photo_file_name: row.photo_file_name.clone(),
                f_type: row.f_type.clone(),
                timestamp: row.timestamp.clone(),
            },
        ),
        None => Err(AppError::Serialization(row.id)),
    }
}

impl FeatureSet {
    /// Groups the rows of one identity, in insertion order, by kind. Every
    /// blob must decode; of several means or medians the last one counts;
    /// rows of no known kind are passed over.
    pub fn from_rows(rows: &Vec<StoredRow>) -> (r: Result<FeatureSet, AppError>)
        ensures
            first_bad_row(rows@) >= 0 ==> r == Err::<FeatureSet, AppError>(
                AppError::Serialization(rows@[first_bad_row(rows@)].id),
            ),
            first_bad_row(rows@) < 0 && last_row_of(rows@, FeatureType::Mean) < 0 ==> r == Err::<
                FeatureSet,
                AppError,
            >(AppError::MissingAggregate(FeatureType::Mean)),
            first_bad_row(rows@) < 0 && last_row_of(rows@, FeatureType::Mean) >= 0 && last_row_of(
                rows@,
                FeatureType::Median,
            ) < 0 ==> r == Err::<FeatureSet, AppError>(
                AppError::MissingAggregate(FeatureType::Median),
            ),
            r is Ok <==> (first_bad_row(rows@) < 0 && last_row_of(rows@, FeatureType::Mean) >= 0
                && last_row_of(rows@, FeatureType::Median) >= 0),
            r matches Ok(fs) ==> {
                &&& fs.atomics@.len() == sample_rows(rows@).len()
                &&& forall|i: int|
                    0 <= i < fs.atomics@.len() ==> decodes_to(
                        #[trigger] fs.atomics@[i],
                        sample_rows(rows@)[i],
                    )
                &&& decodes_to(fs.average, rows@[last_row_of(rows@, FeatureType::Mean)])
                &&& decodes_to(fs.median, rows@[last_row_of(rows@, FeatureType::Median)])
            },
    {
        let mut atomics: Vec<FaceEncoding> = Vec::new();
        let mut average: Option<FaceEncoding> = None;
        let mut median: Option<FaceEncoding> = None;
        let mut i: usize = 0;
        while i < rows.len()
            invariant
                i <= rows@.len(),
                first_bad_row(rows@.subrange(0, i as int)) < 0,
                atomics@.len() == sample_rows(rows@.subrange(0, i as int)).len(),
                forall|k: int|
                    0 <= k < atomics@.len() ==> decodes_to(
                        #[trigger] atomics@[k],
                        sample_rows(rows@.subrange(0, i as int))[k],
                    ),
                average is Some <==> last_row_of(rows@.subrange(0, i as int), FeatureType::Mean)
                    >= 0,
                average matches Some(a) ==> decodes_to(
                    a,
                    rows@[last_row_of(rows@.subrange(0, i as int), FeatureType::Mean)],
                ),
                median is Some <==> last_row_of(rows@.subrange(0, i as int), FeatureType::Median)
                    >= 0,
                median matches Some(m) ==> decodes_to(
                    m,
                    rows@[last_row_of(rows@.subrange(0, i as int), FeatureType::Median)],
                ),
                forall|k: FeatureType|
                    #![trigger last_row_of(rows@.subrange(0, i as int), k)]
                    last_row_of(rows@.subrange(0, i as int), k) < i,
            decreases rows@.len() - i,
        {
            let ghost prefix = rows@.subrange(0, i as int);
            let ghost next = rows@.subrange(0, i + 1);
            assert(next.drop_last() =~= prefix);
            assert(next.last() == rows@[i as int]);
            let row = &rows[i];
            let e = match decode_row(row) {
                Ok(e) => e,
                Err(err) => {
                    proof {
                        lemma_first_bad_extends(rows@, i + 1);
                    }
                    return Err(err);
                },
            };
            match FeatureType::from_text(row.f_type.as_str()) {
                Some(FeatureType::Sample) => {
                    let ghost before = atomics@;
                    atomics.push(e);
                    assert forall|k: int| 0 <= k < atomics@.len() implies decodes_to(
                        #[trigger] atomics@[k],
                        sample_rows(next)[k],
                    ) by {
                        if k < before.len() {
                            assert(atomics@[k] == before[k]);
                        }
                    }
                },
                Some(FeatureType::Mean) => {
                    average = Some(e);
                },
                Some(FeatureType::Median) => {
                    median = Some(e);
                },
                None => {},
            }
            assert forall|k: FeatureType| #[trigger] last_row_of(next, k) < i + 1 by {
                assert(last_row_of(prefix, k) < i);
            }
            i += 1;
        }
        assert(rows@.subrange(0, i as int) =~= rows@);
        let average = match average {
            Some(a) => a,
            None => return Err(AppError::MissingAggregate(FeatureType::Mean)),
        };
        let median = match median {
            Some(m) => m,
            None => return Err(AppError::MissingAggregate(FeatureType::Median)),
        };
        Ok(FeatureSet { atomics, average, median })
    }

    /// The samples whose distance, given at the same position in `distances`,
    /// is strictly greater than `threshold`; all are doubles given by their
    /// bit patterns. Comparisons with a NaN are false.
    pub fn find_distant_atomics(&self, threshold: u64, distances: &Vec<u64>) -> (r: Vec<
        FaceEncoding,
    >)
        requires
            distances@.len() == self.atomics@.len(),
        ensures
            same_encodings(r@, distant(self.atomics@, distances@, threshold)),
    {
        let mut out: Vec<FaceEncoding> = Vec::new();
        let mut i: usize = 0;
        while i < self.atomics.len()
            invariant
                i <= self.atomics@.len() == distances@.len(),
                same_encodings(out@, distant(self.atomics@.subrange(0, i as int), distances@, threshold)),
            decreases self.atomics@.len() - i,
        {
            let ghost prefix = self.atomics@.subrange(0, i as int);
            let ghost next = self.atomics@.subrange(0, i + 1);
            assert(next.drop_last() =~= prefix);
            if float_gt(distances[i], threshold) {
                out.push(self.atomics[i].duplicate());
            }
            i += 1;
        }
        assert(self.atomics@.subrange(0, i as int) =~= self.atomics@);
        out
    }
}

/// Counts over a report that spans several identities: samples examined and
/// samples flagged against each reference. Each count stops at its largest
/// value.
#[derive(Debug, Clone, Copy, PartialEq, Eq, Structural)]
pub struct OutlierTotals {
    pub records: u64,
    pub from_mean: u64,
    pub from_median: u64,
}

/// `a + b`, or the largest `u64` when that does not fit.
pub open spec fn sat_add(a: u64, b: u64) -> u64 {
    if a + b <= u64::MAX {
        (a + b) as u64
    } else {
        u64::MAX
    }
}

impl OutlierTotals {
    /// No identity counted yet.
    pub fn new() -> (r: OutlierTotals)
        ensures
            r == (OutlierTotals { records: 0, from_mean: 0, from_median: 0 }),
    {
        OutlierTotals { records: 0, from_mean: 0, from_median: 0 }
    }

    /// Adds one identity's counts.
    pub fn add_identity(&mut self, records: u64, from_mean: u64, from_median: u64)
        ensures
            final(self).records == sat_add(old(self).records, records),
            final(self).from_mean == sat_add(old(self).from_mean, from_mean),
            final(self).from_median == sat_add(old(self).from_median, from_median),
    {
        self.records = self.records.saturating_add(records);
        self.from_mean = self.from_mean.saturating_add(from_mean);
        self.from_median = self.from_median.saturating_add(from_median);
    }

    /// Flags over both references; a sample flagged by both counts twice.
    pub fn total_failed(&self) -> (r: u64)
        ensures
            r == sat_add(self.from_mean, self.from_median),
    {
        self.from_mean.saturating_add(self.from_median)
    }
}

/// A vector written as a row's blob is read back from that row unchanged,
/// bit for bit, and the row decodes.
pub proof fn lemma_stored_vector_round_trip(v: Seq<u64>, row: StoredRow, e: FaceEncoding)
    requires
        is_encoding_of(row.blob@, v),
        decodes_to(e, row),
    ensures
        decodable(row.blob@),
        e.feature_vector@ == v,
{
    lemma_encode_decode_round_trip(v, row.blob@, e.feature_vector@);
}

proof fn lemma_first_bad_extends(rows: Seq<StoredRow>, m: int)
    requires
        0 <= m <= rows.len(),
        first_bad_row(rows.subrange(0, m)) >= 0,
    ensures
        first_bad_row(rows) == first_bad_row(rows.subrange(0, m)),
    decreases rows.len() - m,
{
    if m < rows.len() {
        assert(rows.drop_last().subrange(0, m) =~= rows.subrange(0, m));
        lemma_first_bad_extends(rows.drop_last(), m);
    } else {
        assert(rows.subrange(0, m) =~= rows);
    }
}

} // verus!
