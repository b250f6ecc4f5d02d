use face_rec_dlib::codec::{decode_vector, encode_vector};
use face_rec_dlib::compare::{FaceEncoding, FeatureSet, OutlierTotals, StoredRow};
use face_rec_dlib::error::AppError;
use face_rec_dlib::feature::{insert_row, Feature, FeatureType};
use face_rec_dlib::floatbits::{float_gt, order_key_of};
use face_rec_dlib::ingest::{Features, BATCH_SIZE};
use face_rec_dlib::stats::{check_dimensions, check_same_length, median_pairs, sort_by_value};

fn bits(v: &[f64]) -> Vec<u64> {
    v.iter().map(|x| x.to_bits()).collect()
}

fn floats(v: &[u64]) -> Vec<f64> {
    v.iter().map(|x| f64::from_bits(*x)).collect()
}

fn mean_of(vs: &[Vec<u64>]) -> Vec<u64> {
    let dim = vs[0].len();
    let mut sum = vec![0.0f64; dim];
    for v in vs {
        for (i, x) in floats(v).iter().enumerate() {
            sum[i] += x;
        }
    }
    sum.iter().map(|s| (s / vs.len() as f64).to_bits()).collect()
}

fn median_of(vs: &Vec<Vec<u64>>) -> Vec<u64> {
    let pairs = median_pairs(vs).unwrap();
    pairs
        .iter()
        .map(|(a, b)| {
            if vs.len() % 2 == 1 {
                *a
            } else {
                ((f64::from_bits(*a) + f64::from_bits(*b)) / 2.0).to_bits()
            }
        })
        .collect()
}

fn distance(a: &[u64], b: &[u64]) -> f64 {
    floats(a)
        .iter()
        .zip(floats(b).iter())
        .map(|(x, y)| (x - y).powi(2))
        .sum::<f64>()
        .sqrt()
}

fn stored(id: i64, f: &Feature) -> StoredRow {
    let row = f.to_row();
    StoredRow {
        id,
        child_id: row.child_id,
        blob: row.blob,
        photo_file_name: row.photo_file_name,
        f_type: row.f_type,
        timestamp: String::from("2024-01-01 00:00:00"),
    }
}

fn ingest(child: &str, samples: &[(&str, &[f64])]) -> (Vec<Feature>, Features) {
    let mut fs = Features::new(child);
    let mut written = Vec::new();
    for (label, v) in samples {
        if fs.add_sample(label, bits(v)) {
            written.extend(fs.take_batch());
        }
    }
    if !fs.accepted().is_empty() {
        let mean = mean_of(fs.accepted());
        let median = median_of(fs.accepted());
        fs.add_aggregates(mean, median).unwrap();
    }
    written.extend(fs.take_batch());
    (written, fs)
}

fn rows_of(features: &[Feature]) -> Vec<StoredRow> {
    features.iter().enumerate().map(|(i, f)| stored(i as i64 + 1, f)).collect()
}

#[test]
fn three_sample_identity_flags_far_sample() {
    let (written, fs) = ingest(
        "child1",
        &[("p/child1_a.jpg", &[1.0, 1.0]), ("p/child1_b.jpg", &[1.0, 3.0]), ("p/child1_c.jpg", &[5.0, 5.0])],
    );
    assert_eq!(written.len(), 5);
    assert_eq!(fs.summary().samples, 3);
    assert_eq!(fs.summary().failures, 0);
    assert!(fs.summary().aggregated);
    assert_eq!(written[3].f_type, FeatureType::Mean);
    assert_eq!(written[3].photo_file_name, "average");
    assert_eq!(written[4].f_type, FeatureType::Median);
    assert_eq!(written[4].photo_file_name, "median");
    let mean = floats(&written[3].feature_vector);
    assert!((mean[0] - 7.0 / 3.0).abs() < 1e-9);
    assert!((mean[1] - 3.0).abs() < 1e-9);
    assert_eq!(floats(&written[4].feature_vector), vec![1.0, 3.0]);

    let set = FeatureSet::from_rows(&rows_of(&written)).unwrap();
    assert_eq!(set.atomics.len(), 3);
    let threshold = 2.0f64.to_bits();
    let to_mean: Vec<u64> =
        set.atomics.iter().map(|a| distance(&a.feature_vector, &set.average.feature_vector).to_bits()).collect();
    let to_median: Vec<u64> =
        set.atomics.iter().map(|a| distance(&a.feature_vector, &set.median.feature_vector).to_bits()).collect();
    assert!((f64::from_bits(to_mean[2]) - 10.0 / 3.0).abs() < 1e-9);
    assert!((f64::from_bits(to_median[2]) - 20.0f64.sqrt()).abs() < 1e-9);
    let far_mean = set.find_distant_atomics(threshold, &to_mean);
    let far_median = set.find_distant_atomics(threshold, &to_median);
    // [1, 1] lies sqrt(52) / 3 from the mean, above the threshold too, and
    // exactly 2 from the median, which the strict comparison leaves out.
    assert!((f64::from_bits(to_mean[0]) - 52.0f64.sqrt() / 3.0).abs() < 1e-9);
    assert_eq!(f64::from_bits(to_median[0]), 2.0);
    assert_eq!(far_mean.len(), 2);
    assert_eq!(far_mean[0].photo_file_name, "child1_a.jpg");
    assert_eq!(far_mean[1].photo_file_name, "child1_c.jpg");
    assert_eq!(floats(&far_mean[1].feature_vector), vec![5.0, 5.0]);
    assert_eq!(far_median.len(), 1);
    assert_eq!(far_median[0].photo_file_name, "child1_c.jpg");
}

#[test]
fn zero_vectors_write_nothing() {
    let (written, fs) = ingest("child2", &[]);
    assert!(written.is_empty());
    assert_eq!(fs.summary().samples, 0);
    assert!(!fs.summary().aggregated);
    let mut again = Features::new("child2");
    assert_eq!(again.add_aggregates(vec![], vec![]), Err(AppError::EmptyInput));
    assert!(again.take_batch().is_empty());
}

#[test]
fn samples_without_aggregates_are_missing_aggregate() {
    let mut fs = Features::new("child3");
    fs.add_sample("child3_a.png", bits(&[0.5, 0.25]));
    fs.add_failure();
    let rows = rows_of(&fs.take_batch());
    assert_eq!(fs.summary().failures, 1);
    assert_eq!(
        FeatureSet::from_rows(&rows).err(),
        Some(AppError::MissingAggregate(FeatureType::Mean))
    );
}

#[test]
fn missing_median_is_reported() {
    let f = Feature::from_vector("c", "average", bits(&[1.0]), FeatureType::Mean);
    let rows = rows_of(&[f]);
    assert_eq!(
        FeatureSet::from_rows(&rows).err(),
        Some(AppError::MissingAggregate(FeatureType::Median))
    );
}

#[test]
fn latest_aggregate_is_authoritative() {
    let fs = vec![
        Feature::from_vector("c", "a.jpg", bits(&[1.0]), FeatureType::Sample),
        Feature::from_vector("c", "average", bits(&[1.0]), FeatureType::Mean),
        Feature::from_vector("c", "median", bits(&[1.0]), FeatureType::Median),
        Feature::from_vector("c", "average", bits(&[2.0]), FeatureType::Mean),
        Feature::from_vector("c", "median", bits(&[3.0]), FeatureType::Median),
    ];
    let mut rows = rows_of(&fs);
    rows[0].f_type = String::from("Other");
    let set = FeatureSet::from_rows(&rows).unwrap();
    assert!(set.atomics.is_empty());
    assert_eq!(set.average.id, 4);
    assert_eq!(floats(&set.average.feature_vector), vec![2.0]);
    assert_eq!(set.median.id, 5);
    assert_eq!(floats(&set.median.feature_vector), vec![3.0]);
}

#[test]
fn corrupt_blob_is_serialization_error() {
    let fs = vec![
        Feature::from_vector("c", "a.jpg", bits(&[1.0, 2.0]), FeatureType::Sample),
        Feature::from_vector("c", "b.jpg", bits(&[1.0, 2.0]), FeatureType::Sample),
    ];
    let mut rows = rows_of(&fs);
    rows[1].blob.truncate(20);
    assert_eq!(FeatureSet::from_rows(&rows).err(), Some(AppError::Serialization(2)));
}

#[test]
fn vector_round_trips_bit_exact() {
    let v = vec![
        0.1f64.to_bits(),
        (-0.0f64).to_bits(),
        f64::MIN_POSITIVE.to_bits() / 3,
        f64::NAN.to_bits(),
        f64::INFINITY.to_bits(),
        u64::MAX,
    ];
    let b = encode_vector(&v);
    assert_eq!(b.len(), 8 + 8 * v.len());
    assert_eq!(decode_vector(&b), Some(v.clone()));
    let f = Feature::from_vector("c", "dir/x.jpg", v.clone(), FeatureType::Sample);
    let e: FaceEncoding = face_rec_dlib::compare::decode_row(&stored(9, &f)).unwrap();
    assert_eq!(e.feature_vector, v);
    assert_eq!(e.photo_file_name, "x.jpg");
    assert_eq!(e.f_type, "Sample");
}

#[test]
fn encoding_layout_is_length_then_elements() {
    let b = encode_vector(&vec![1, 0x0102_0304_0506_0708]);
    assert_eq!(
        b,
        vec![2, 0, 0, 0, 0, 0, 0, 0, 1, 0, 0, 0, 0, 0, 0, 0, 8, 7, 6, 5, 4, 3, 2, 1]
    );
    let r = insert_row("id", &vec![], "p", FeatureType::Median);
    assert_eq!(r.blob, vec![0; 8]);
    assert_eq!(r.f_type, "Median");
}

#[test]
fn short_blobs_do_not_decode() {
    assert_eq!(decode_vector(&[1, 0, 0]), None);
    assert_eq!(decode_vector(&[1, 0, 0, 0, 0, 0, 0, 0, 5]), None);
    assert_eq!(decode_vector(&[0, 0, 0, 0, 0, 0, 0, 0, 5]), Some(vec![]));
}

#[test]
fn shape_errors() {
    assert_eq!(check_dimensions(&vec![]), Err(AppError::EmptyInput));
    assert_eq!(median_pairs(&vec![]), Err(AppError::EmptyInput));
    let bad = vec![bits(&[1.0, 2.0]), bits(&[1.0])];
    assert_eq!(check_dimensions(&bad), Err(AppError::DimensionMismatch));
    assert_eq!(median_pairs(&bad), Err(AppError::DimensionMismatch));
    assert_eq!(check_dimensions(&vec![bits(&[1.0, 2.0]), bits(&[3.0, 4.0])]), Ok(2));
    assert_eq!(check_same_length(&bits(&[1.0]), &bits(&[1.0, 2.0])), Err(AppError::DimensionMismatch));
    assert_eq!(check_same_length(&bits(&[1.0]), &bits(&[2.0])), Ok(()));
    let mut fs = Features::new("c");
    fs.add_sample("a.jpg", bits(&[1.0, 2.0]));
    assert_eq!(fs.add_aggregates(bits(&[1.0]), bits(&[1.0, 2.0])), Err(AppError::DimensionMismatch));
    assert_eq!(fs.take_batch().len(), 1);
}

#[test]
fn median_values_lie_within_inputs() {
    let odd = vec![bits(&[3.0, -1.0]), bits(&[-2.0, 7.0]), bits(&[10.0, 0.5])];
    let p = median_pairs(&odd).unwrap();
    assert_eq!(p, vec![(3.0f64.to_bits(), 3.0f64.to_bits()), (0.5f64.to_bits(), 0.5f64.to_bits())]);
    let even = vec![bits(&[4.0]), bits(&[-1.0]), bits(&[2.0]), bits(&[8.0])];
    assert_eq!(median_pairs(&even).unwrap(), vec![(2.0f64.to_bits(), 4.0f64.to_bits())]);
    assert_eq!(floats(&median_of(&even)), vec![3.0]);
    assert_eq!(floats(&sort_by_value(&bits(&[0.5, -3.0, 2.0, -0.25]))), vec![-3.0, -0.25, 0.5, 2.0]);
}

#[test]
fn float_order_on_patterns() {
    assert!(float_gt(2.5f64.to_bits(), 2.0f64.to_bits()));
    assert!(!float_gt(2.0f64.to_bits(), 2.0f64.to_bits()));
    assert!(float_gt((-1.0f64).to_bits(), (-2.0f64).to_bits()));
    assert!(!float_gt(0.0f64.to_bits(), (-0.0f64).to_bits()));
    assert!(!float_gt(f64::NAN.to_bits(), 1.0f64.to_bits()));
    assert!(!float_gt(1.0f64.to_bits(), f64::NAN.to_bits()));
    assert!(float_gt(f64::INFINITY.to_bits(), f64::MAX.to_bits()));
    assert_eq!(order_key_of((-0.0f64).to_bits()), 0);
}

#[test]
fn batches_flush_at_batch_size() {
    let mut fs = Features::new("big");
    let mut flushes = 0;
    for i in 0..(BATCH_SIZE + 5) {
        if fs.add_sample(&format!("big_{}.jpg", i), vec![i as u64]) {
            assert_eq!(fs.take_batch().len(), BATCH_SIZE);
            flushes += 1;
        }
    }
    assert_eq!(flushes, 1);
    assert_eq!(fs.accepted().len(), BATCH_SIZE + 5);
    assert_eq!(fs.take_batch().len(), 5);
}

#[test]
fn totals_fold_over_identities() {
    let mut t = OutlierTotals::new();
    t.add_identity(3, 1, 1);
    t.add_identity(4, 0, 2);
    assert_eq!(t.records, 7);
    assert_eq!(t.from_mean, 1);
    assert_eq!(t.from_median, 3);
    assert_eq!(t.total_failed(), 4);
    t.add_identity(u64::MAX, 0, 0);
    assert_eq!(t.records, u64::MAX);
}
