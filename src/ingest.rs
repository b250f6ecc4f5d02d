//! Ingestion of one identity's photos: samples are handed out in bounded
//! batches, and the two aggregates follow every sample of the identity.
use vstd::prelude::*;
use crate::error::AppError;
use crate::feature::{copy_vector, label_of, Feature, FeatureType};

verus! {

/// The largest number of records held back before they must be written.
pub const BATCH_SIZE: usize = 1000;

/// What one identity's ingestion did.
#[derive(Debug, Clone, Copy, PartialEq, Eq, Structural)]
pub struct Summary {
    /// Samples accepted (and handed out for storage).
    pub samples: u64,
    /// Photos whose vector could not be had.
    pub failures: u64,
    /// Whether a mean and a median record were added.
    pub aggregated: bool,
}

/// The state of one identity's ingestion.
pub struct Features {
    child_id: String,
    pending: Vec<Feature>,
    accepted: Vec<Vec<u64>>,
    failures: u64,
    aggregated: bool,
}

impl Features {
    /// The identity whose records these are.
    pub closed spec fn child(&self) -> Seq<char> {
        self.child_id@
    }

    /// Records not yet handed out, oldest first.
    pub closed spec fn pending_records(&self) -> Seq<Feature> {
        self.pending@
    }

    /// Every accepted sample vector, in order of acceptance.
    pub closed spec fn accepted_vectors(&self) -> Seq<Seq<u64>> {
        self.accepted@.map_values(|v: Vec<u64>| v@)
    }

    /// Photos that yielded no vector.
    pub closed spec fn failure_count(&self) -> u64 {
        self.failures
    }

    /// Whether the aggregates have been added.
    pub closed spec fn is_aggregated(&self) -> bool {
        self.aggregated
    }

    /// Empty state for `child_id`.
    pub fn new(child_id: &str) -> (r: Features)
        ensures
            r.child() == child_id@,
            r.pending_records().len() == 0,
            r.accepted_vectors().len() == 0,
            r.failure_count() == 0,
            !r.is_aggregated(),
    {
        let r = Features {
            child_id: child_id.to_owned(),
            pending: Vec::new(),
            accepted: Vec::new(),
            failures: 0,
            aggregated: false,
        };
        assert(r.accepted_vectors() =~= Seq::empty());
        r
    }

    /// Accepts the vector of the photo at `photo_path` as a sample. Returns
    /// whether the held-back records have reached `BATCH_SIZE` and should be
    /// taken and written now.
    pub fn add_sample(&mut self, photo_path: &str, vector: Vec<u64>) -> (flush: bool)
        requires
            !old(self).is_aggregated(),
        ensures
            final(self).child() == old(self).child(),
            final(self).accepted_vectors() == old(self).accepted_vectors().push(vector@),
            final(self).failure_count() == old(self).failure_count(),
            !final(self).is_aggregated(),
            final(self).pending_records().len() == old(self).pending_records().len() + 1,
            final(self).pending_records().drop_last() == old(self).pending_records(),
            ({
                let f = final(self).pending_records().last();
                &&& f.child_id@ == old(self).child()
                &&& f.feature_vector@ == vector@
                &&& f.photo_file_name@ == label_of(photo_path@)
                &&& f.f_type == FeatureType::Sample
            }),
            flush == (final(self).pending_records().len() >= BATCH_SIZE),
    {
        let kept = copy_vector(&vector);
        let f = Feature::from_vector(self.child_id.as_str(), photo_path, vector, FeatureType::Sample);
        self.pending.push(f);
        self.accepted.push(kept);
        assert(self.accepted@.map_values(|v: Vec<u64>| v@) =~= old(self).accepted@.map_values(
            |v: Vec<u64>| v@,
        ).push(kept@));
        assert(self.pending@.drop_last() =~= old(self).pending@);
        self.pending.len() >= BATCH_SIZE
    }

    /// Counts a photo whose vector could not be had; it is not fatal to the
    /// batch. The count stops at its largest value.
    pub fn add_failure(&mut self)
        ensures
            final(self).child() == old(self).child(),
            final(self).pending_records() == old(self).pending_records(),
            final(self).accepted_vectors() == old(self).accepted_vectors(),
            final(self).is_aggregated() == old(self).is_aggregated(),
            final(self).failure_count() == if old(self).failure_count() < u64::MAX {
                (old(self).failure_count() + 1) as u64
            } else {
                old(self).failure_count()
            },
    {
        if self.failures < u64::MAX {
            self.failures = self.failures + 1;
        }
    }

    /// Hands out the held-back records, oldest first, and holds none after.
    pub fn take_batch(&mut self) -> (batch: Vec<Feature>)
        ensures
            batch@ == old(self).pending_records(),
            final(self).pending_records().len() == 0,
            final(self).child() == old(self).child(),
            final(self).accepted_vectors() == old(self).accepted_vectors(),
            final(self).failure_count() == old(self).failure_count(),
            final(self).is_aggregated() == old(self).is_aggregated(),
    {
        let mut batch: Vec<Feature> = Vec::new();
        std::mem::swap(&mut batch, &mut self.pending);
        batch
    }

    /// The records held back, oldest first.
    pub fn get_features(&self) -> (r: &Vec<Feature>)
        ensures
            r@ == self.pending_records(),
    {
        &self.pending
    }

    /// The identity whose records these are.
    pub fn child_id(&self) -> (r: &str)
        ensures
            r@ == self.child(),
    {
        self.child_id.as_str()
    }

    /// The accepted sample vectors, from which the aggregates are computed.
    pub fn accepted(&self) -> (r: &Vec<Vec<u64>>)
        ensures
            r@.map_values(|v: Vec<u64>| v@) == self.accepted_vectors(),
    {
        &self.accepted
    }

    /// Adds the mean and median records, after every sample. Fails with
    /// `EmptyInput` when no sample was accepted, and with `DimensionMismatch`
    /// when either vector differs in length from the samples.
    pub fn add_aggregates(&mut self, mean: Vec<u64>, median: Vec<u64>) -> (r: Result<
        (),
        AppError,
    >)
        requires
            !old(self).is_aggregated(),
        ensures
            final(self).child() == old(self).child(),
            final(self).accepted_vectors() == old(self).accepted_vectors(),
            final(self).failure_count() == old(self).failure_count(),
            old(self).accepted_vectors().len() == 0 ==> r == Err::<(), AppError>(
                AppError::EmptyInput,
            ),
            old(self).accepted_vectors().len() > 0 && (mean@.len() != old(self).accepted_dim()
                || median@.len() != old(self).accepted_dim()) ==> r == Err::<(), AppError>(
                AppError::DimensionMismatch,
            ),
            r is Ok <==> (old(self).accepted_vectors().len() > 0 && mean@.len()
                == old(self).accepted_dim() && median@.len() == old(self).accepted_dim()),
            r is Err ==> *final(self) == *old(self),
            r is Ok ==> {
                &&& final(self).is_aggregated()
                &&& final(self).pending_records().len() == old(self).pending_records().len() + 2
                &&& final(self).pending_records().subrange(
                    0,
                    old(self).pending_records().len() as int,
                ) == old(self).pending_records()
                &&& ({
                    let a = final(self).pending_records()[old(self).pending_records().len() as int];
                    let m = final(self).pending_records()[old(self).pending_records().len() + 1int];
                    &&& a.child_id@ == old(self).child()
                    &&& a.feature_vector@ == mean@
                    &&& a.photo_file_name@ == "average"@
                    &&& a.f_type == FeatureType::Mean
                    &&& m.child_id@ == old(self).child()
                    &&& m.feature_vector@ == median@
                    &&& m.photo_file_name@ == "median"@
                    &&& m.f_type == FeatureType::Median
                })
            },
    {
        if self.accepted.len() == 0 {
            return Err(AppError::EmptyInput);
        }
        let dim = self.accepted[0].len();
        if mean.len() != dim || median.len() != dim {
            return Err(AppError::DimensionMismatch);
        }
        let ghost before = self.pending@;
        self.pending.push(
            Feature {
                child_id: self.child_id.clone(),
                feature_vector: mean,
                photo_file_name: "average".to_owned(),
                f_type: FeatureType::Mean,
            },
        );
        self.pending.push(
            Feature {
                child_id: self.child_id.clone(),
                feature_vector: median,
                photo_file_name: "median".to_owned(),
                f_type: FeatureType::Median,
            },
        );
        self.aggregated = true;
        assert(self.pending@.subrange(0, before.len() as int) =~= before);
        Ok(())
    }

    /// Length of the accepted vectors (of the first; 0 when there is none).
    pub closed spec fn accepted_dim(&self) -> int {
        if self.accepted@.len() == 0 {
            0
        } else {
            self.accepted@[0]@.len() as int
        }
    }

    /// The counts of this ingestion.
    pub fn summary(&self) -> (r: Summary)
        ensures
            r.samples == self.accepted_vectors().len(),
            r.failures == self.failure_count(),
            r.aggregated == self.is_aggregated(),
    {
        Summary {
            samples: self.accepted.len() as u64,
            failures: self.failures,
            aggregated: self.aggregated,
        }
    }
}

} // verus!
