//! Feature records: what is written for one identity and one photo or
//! aggregate.
use vstd::prelude::*;
use crate::codec::{encode_vector, is_encoding_of};
use crate::photos::{file_name_of, file_name_part};

verus! {

/// How a stored vector was derived.
#[derive(Debug, Clone, Copy, PartialEq, Eq, Structural)]
pub enum FeatureType {
    /// The vector of one photo.
    Sample,
    /// The coordinate-wise mean of an identity's samples.
    Mean,
    /// The coordinate-wise median of an identity's samples.
    Median,
}

/// The text that the kind column holds for each kind.
pub open spec fn kind_text(k: FeatureType) -> Seq<char> {
    match k {
        FeatureType::Sample => "Sample"@,
        FeatureType::Mean => "Mean"@,
        FeatureType::Median => "Median"@,
    }
}

/// The kind that a text of the kind column names, if any.
pub open spec fn kind_of_text(s: Seq<char>) -> Option<FeatureType> {
    if s == kind_text(FeatureType::Sample) {
        Some(FeatureType::Sample)
    } else if s == kind_text(FeatureType::Mean) {
        Some(FeatureType::Mean)
    } else if s == kind_text(FeatureType::Median) {
        Some(FeatureType::Median)
    } else {
        None
    }
}

/// Whether two texts are equal, character by character.
pub fn same_text(a: &str, b: &str) -> (r: bool)
    ensures
        r == (a@ == b@),
{
    let n = a.unicode_len();
    if n != b.unicode_len() {
        return false;
    }
    let mut i: usize = 0;
    while i < n
        invariant
            n == a@.len() == b@.len(),
            i <= n,
            a@.subrange(0, i as int) == b@.subrange(0, i as int),
        decreases n - i,
    {
        if a.get_char(i) != b.get_char(i) {
            return false;
        }
        assert(a@.subrange(0, i + 1) =~= a@.subrange(0, i as int).push(a@[i as int]));
        assert(b@.subrange(0, i + 1) =~= b@.subrange(0, i as int).push(b@[i as int]));
        i += 1;
    }
    assert(a@ =~= a@.subrange(0, n as int));
    assert(b@ =~= b@.subrange(0, n as int));
    true
}

impl FeatureType {
    /// The text stored in the kind column.
    pub fn as_text(&self) -> (r: &'static str)
        ensures
            r@ == kind_text(*self),
    {
        match self {
            FeatureType::Sample => "Sample",
            FeatureType::Mean => "Mean",
            FeatureType::Median => "Median",
        }
    }

    /// Reads the kind column; `None` for a text that names no kind.
    pub fn from_text(s: &str) -> (r: Option<FeatureType>)
        ensures
            r == kind_of_text(s@),
    {
        if same_text(s, "Sample") {
            Some(FeatureType::Sample)
        } else if same_text(s, "Mean") {
            Some(FeatureType::Mean)
        } else if same_text(s, "Median") {
            Some(FeatureType::Median)
        } else {
            None
        }
    }
}

/// Distinct kinds have distinct texts, so reading back a written kind gives
/// that kind.
pub proof fn lemma_kind_text_round_trip(k: FeatureType)
    ensures
        kind_of_text(kind_text(k)) == Some(k),
{
    reveal_strlit("Sample");
    reveal_strlit("Mean");
    reveal_strlit("Median");
    assert("Sample"@.len() == 6 && "Median"@.len() == 6 && "Mean"@.len() == 4);
    assert("Sample"@[0] == 'S' && "Median"@[0] == 'M');
}

/// One vector to be stored for an identity.
pub struct Feature {
    pub child_id: String,
    pub feature_vector: Vec<u64>,
    pub photo_file_name: String,
    pub f_type: FeatureType,
}

/// The values of one row to insert into the table.
pub struct NewRow {
    pub child_id: String,
    pub blob: Vec<u8>,
    pub photo_file_name: String,
    pub f_type: String,
}

/// The label that a source path leaves in the table: its file name, or the
/// whole text when it has none.
pub open spec fn label_of(path: Seq<char>) -> Seq<char> {
    match file_name_of(path) {
        Some(n) => n,
        None => path,
    }
}

/// A copy of a feature vector.
pub fn copy_vector(v: &Vec<u64>) -> (r: Vec<u64>)
    ensures
        r@ == v@,
{
    let mut out: Vec<u64> = Vec::new();
    let mut i: usize = 0;
    while i < v.len()
        invariant
            i <= v@.len(),
            out@ == v@.subrange(0, i as int),
        decreases v@.len() - i,
    {
        out.push(v[i]);
        assert(out@ =~= v@.subrange(0, i + 1));
        i += 1;
    }
    assert(out@ =~= v@);
    out
}

impl Feature {
    /// A record of `feature_vector` for `child_id`, labelled with the file
    /// name of `photo_path`.
    pub fn from_vector(
        child_id: &str,
        photo_path: &str,
        feature_vector: Vec<u64>,
        f_type: FeatureType,
    ) -> (r: Feature)
        ensures
            r.child_id@ == child_id@,
            r.feature_vector == feature_vector,
            r.photo_file_name@ == label_of(photo_path@),
            r.f_type == f_type,
    {
        let label = match file_name_part(photo_path) {
            Some(n) => n,
            None => photo_path.to_owned(),
        };
        Feature { child_id: child_id.to_owned(), feature_vector, photo_file_name: label, f_type }
    }

    /// The row that stores this record.
    pub fn to_row(&self) -> (r: NewRow)
        ensures
            r.child_id@ == self.child_id@,
            is_encoding_of(r.blob@, self.feature_vector@),
            r.photo_file_name@ == self.photo_file_name@,
            r.f_type@ == kind_text(self.f_type),
    {
        insert_row(&self.child_id, &self.feature_vector, &self.photo_file_name, self.f_type)
    }
}

/// The row that stores `feature_vector` for `child_id` under `photo_file_name`
/// and kind `f_type`.
pub fn insert_row(
    child_id: &str,
    feature_vector: &Vec<u64>,
    photo_file_name: &str,
    f_type: FeatureType,
) -> (r: NewRow)
    ensures
        r.child_id@ == child_id@,
        is_encoding_of(r.blob@, feature_vector@),
        r.photo_file_name@ == photo_file_name@,
        r.f_type@ == kind_text(f_type),
{
    NewRow {
        child_id: child_id.to_owned(),
        blob: encode_vector(feature_vector),
        photo_file_name: photo_file_name.to_owned(),
        f_type: f_type.as_text().to_owned(),
    }
}

} // verus!
