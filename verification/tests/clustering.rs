use pico_detect::{Cluster, Detection, Square, clusterize, odd_median_mut, sort_detections};

fn detection(left: i32, top: i32, size: u32, score: f32) -> Detection {
    Detection::new(Square::new(left, top, size), score.to_bits())
}

/// The exact rational form of a threshold in `(0, 1]`: the value times
/// `2^32` as numerator over `2^32`.
fn threshold_ratio(value: f64) -> (u64, u64) {
    ((value * 4294967296.0) as u64, 4294967296u64)
}

#[test]
fn clusterize_merges_overlapping_detections() {
    let mut data = vec![
        detection(100, 100, 4, 1.0),
        detection(1, 1, 4, 2.0),
        detection(0, 0, 4, 3.0),
    ];
    let (tn, td) = threshold_ratio(0.2);
    let clusters: Vec<Cluster> = clusterize(&mut data, tn, td);

    // Sorted by falling score.
    assert_eq!(data[0].score(), 3.0f32.to_bits());
    assert_eq!(data[1].score(), 2.0f32.to_bits());
    assert_eq!(data[2].score(), 1.0f32.to_bits());

    // IoU of the two nearby squares is 9/23, above 0.2, so they merge;
    // the far square stands alone.
    assert_eq!(clusters.len(), 2);

    assert_eq!(clusters[0].rep, 0);
    assert_eq!(clusters[0].members, vec![0, 1]);
    assert_eq!(clusters[0].count, 2);
    assert_eq!(clusters[0].sum_left, 1);
    assert_eq!(clusters[0].sum_top, 1);
    assert_eq!(clusters[0].sum_size, 8);

    assert_eq!(clusters[1].rep, 2);
    assert_eq!(clusters[1].members, vec![2]);
    assert_eq!(clusters[1].count, 1);
    assert_eq!(clusters[1].sum_left, 100);
    assert_eq!(clusters[1].sum_top, 100);
    assert_eq!(clusters[1].sum_size, 4);
}

#[test]
fn clusterize_is_idempotent_on_disjoint_detections() {
    // Clustering an already-clustered (non-overlapping) list returns the
    // same set: every cluster is a singleton carrying its own window.
    let inputs = vec![
        detection(0, 0, 4, 3.0),
        detection(50, 50, 4, 2.0),
        detection(100, 100, 4, 1.0),
    ];
    let mut data = inputs.clone();
    let (tn, td) = threshold_ratio(0.2);
    let clusters = clusterize(&mut data, tn, td);

    assert_eq!(clusters.len(), inputs.len());
    for (c, cluster) in clusters.iter().enumerate() {
        assert_eq!(cluster.rep, c);
        assert_eq!(cluster.members, vec![c]);
        assert_eq!(cluster.count, 1);
        assert_eq!(cluster.sum_left, data[c].region().left as i64);
        assert_eq!(cluster.sum_top, data[c].region().top as i64);
        assert_eq!(cluster.sum_size, data[c].region().size as u64);
    }
}

#[test]
fn clusterize_respects_the_threshold() {
    // IoU of these two squares is 9/23, roughly 0.391.
    let make = || {
        vec![detection(0, 0, 4, 3.0), detection(1, 1, 4, 2.0)]
    };

    let (tn, td) = threshold_ratio(0.39);
    let mut data = make();
    assert_eq!(clusterize(&mut data, tn, td).len(), 1);

    let (tn, td) = threshold_ratio(0.40);
    let mut data = make();
    assert_eq!(clusterize(&mut data, tn, td).len(), 2);
}

#[test]
fn sort_detections_orders_by_falling_score() {
    let mut data = vec![
        detection(0, 0, 1, 0.5),
        detection(1, 0, 1, 8.25),
        detection(2, 0, 1, 1.75),
    ];
    sort_detections(&mut data);
    let scores: Vec<f32> = data.iter().map(|d| f32::from_bits(d.score())).collect();
    assert_eq!(scores, vec![8.25, 1.75, 0.5]);
}

#[test]
fn odd_median_takes_middle_element() {
    let mut values: Vec<u32> = vec![3.0f32, 1.0, 2.0].iter().map(|v| v.to_bits()).collect();
    assert_eq!(f32::from_bits(odd_median_mut(&mut values)), 2.0);

    let mut values: Vec<u32> =
        vec![-1.0f32, 2.0, -3.0].iter().map(|v| v.to_bits()).collect();
    assert_eq!(f32::from_bits(odd_median_mut(&mut values)), -1.0);

    let mut values: Vec<u32> = vec![
        0.5f32, -0.5, 4.5, 2.5, 1.5,
    ]
    .iter()
    .map(|v| v.to_bits())
    .collect();
    assert_eq!(f32::from_bits(odd_median_mut(&mut values)), 1.5);
    let sorted: Vec<f32> = values.iter().map(|v| f32::from_bits(*v)).collect();
    assert_eq!(sorted, vec![-0.5, 0.5, 1.5, 2.5, 4.5]);
}

#[test]
fn odd_median_handles_repeated_values() {
    let mut values: Vec<u32> = vec![2.0f32, 2.0, 1.0, 2.0, 3.0]
        .iter()
        .map(|v| v.to_bits())
        .collect();
    assert_eq!(f32::from_bits(odd_median_mut(&mut values)), 2.0);
}
