use pico_detect::{ComparisonNode, Detector, FormatError, GrayImage, Localizer, Shaper};

fn detector_bytes() -> Vec<u8> {
    let mut bytes: Vec<u8> = Vec::new();
    bytes.extend_from_slice(&[0u8; 8]);
    bytes.extend_from_slice(&2i32.to_le_bytes());
    bytes.extend_from_slice(&1i32.to_le_bytes());
    // One tree of depth 2: three nodes, four leaf values, one threshold.
    bytes.extend_from_slice(&[1, 2, 3, 4]);
    bytes.extend_from_slice(&[5, 6, 7, 8]);
    bytes.extend_from_slice(&[9, 10, 11, 12]);
    for value in [0.5f32, -0.25, 1.0, 2.0] {
        bytes.extend_from_slice(&value.to_le_bytes());
    }
    bytes.extend_from_slice(&(-1.5f32).to_le_bytes());
    bytes
}

#[test]
fn detector_load_reads_tables() {
    let bytes = detector_bytes();
    let det = Detector::load(&bytes).expect("parsing failed");

    assert_eq!(det.depth, 2);
    assert_eq!(det.dsize, 4);
    assert_eq!(det.forest.len(), 1);
    assert_eq!(det.forest[0].nodes.len(), 4);
    assert_eq!(det.forest[0].nodes[0], ComparisonNode::new([0, 0, 0, 0]));
    assert_eq!(det.forest[0].nodes[1], ComparisonNode::from([1i8, 2, 3, 4]));
    assert_eq!(det.forest[0].nodes[3], ComparisonNode::from([9i8, 10, 11, 12]));
    assert_eq!(det.forest[0].predictions.len(), 4);
    assert_eq!(det.forest[0].predictions[0], 0.5f32.to_bits());
    assert_eq!(det.forest[0].predictions[1], (-0.25f32).to_bits());
    assert_eq!(det.forest[0].predictions[3], 2.0f32.to_bits());
    assert_eq!(det.forest[0].threshold, (-1.5f32).to_bits());
    assert_eq!(det.threshold, (-1.5f32).to_bits());
}

#[test]
fn detector_model_round_trip() {
    // Re-loading a byte-identical stream yields identical first/last
    // nodes and leaf values.
    let bytes = detector_bytes();
    let copy = bytes.clone();
    let first = Detector::load(&bytes).expect("parsing failed");
    let second = Detector::load(&copy).expect("parsing failed");

    assert_eq!(first.forest[0].nodes[1], second.forest[0].nodes[1]);
    assert_eq!(first.forest[0].nodes[3], second.forest[0].nodes[3]);
    assert_eq!(first.forest[0].predictions[0], second.forest[0].predictions[0]);
    assert_eq!(first.forest[0].predictions[3], second.forest[0].predictions[3]);
    assert_eq!(first.forest[0].threshold, second.forest[0].threshold);
}

#[test]
fn detector_load_errors() {
    assert_eq!(Detector::load(&[]).unwrap_err(), FormatError::UnexpectedEof);

    let mut bad_depth: Vec<u8> = Vec::new();
    bad_depth.extend_from_slice(&[0u8; 8]);
    bad_depth.extend_from_slice(&(-1i32).to_le_bytes());
    bad_depth.extend_from_slice(&1i32.to_le_bytes());
    assert_eq!(Detector::load(&bad_depth).unwrap_err(), FormatError::DepthOverflow);

    let mut no_trees: Vec<u8> = Vec::new();
    no_trees.extend_from_slice(&[0u8; 8]);
    no_trees.extend_from_slice(&2i32.to_le_bytes());
    no_trees.extend_from_slice(&0i32.to_le_bytes());
    assert_eq!(Detector::load(&no_trees).unwrap_err(), FormatError::NoTrees);

    let bytes = detector_bytes();
    assert_eq!(
        Detector::load(&bytes[..bytes.len() - 1]).unwrap_err(),
        FormatError::UnexpectedEof
    );
}

fn localizer_bytes() -> Vec<u8> {
    let mut bytes: Vec<u8> = Vec::new();
    bytes.extend_from_slice(&1i32.to_le_bytes()); // stages
    bytes.extend_from_slice(&0.8f32.to_le_bytes()); // scale
    bytes.extend_from_slice(&1i32.to_le_bytes()); // trees per stage
    bytes.extend_from_slice(&1i32.to_le_bytes()); // depth
    // One tree of depth 1: one node, two shift vectors stored Y then X.
    bytes.extend_from_slice(&[30u8, 240, 125, 14]);
    for value in [0.25f32, -0.5, 0.125, 0.75] {
        bytes.extend_from_slice(&value.to_le_bytes());
    }
    bytes
}

#[test]
fn localizer_load_reads_tables() {
    let bytes = localizer_bytes();
    let loc = Localizer::load(&bytes).expect("parsing failed");

    assert_eq!(loc.stages.len(), 1);
    assert_eq!(loc.stages[0].len(), 1);
    assert_eq!(loc.depth, 1);
    assert_eq!(loc.dsize, 2);
    assert_eq!(80, (f32::from_bits(loc.scale) * 100.0) as u32);

    let node = ComparisonNode::from([30u8, 240, 125, 14]);
    assert_eq!(loc.stages[0][0].nodes[0], node);

    // Stored Y first, kept as (x, y).
    assert_eq!(
        loc.stages[0][0].predictions[0],
        ((-0.5f32).to_bits(), 0.25f32.to_bits())
    );
    assert_eq!(
        loc.stages[0][0].predictions[1],
        (0.75f32.to_bits(), 0.125f32.to_bits())
    );
}

#[test]
fn localizer_load_errors() {
    assert_eq!(Localizer::load(&[0u8; 4]).unwrap_err(), FormatError::UnexpectedEof);

    let mut bad_depth: Vec<u8> = Vec::new();
    bad_depth.extend_from_slice(&1i32.to_le_bytes());
    bad_depth.extend_from_slice(&0.8f32.to_le_bytes());
    bad_depth.extend_from_slice(&1i32.to_le_bytes());
    bad_depth.extend_from_slice(&40i32.to_le_bytes());
    assert_eq!(Localizer::load(&bad_depth).unwrap_err(), FormatError::DepthOverflow);

    let bytes = localizer_bytes();
    assert_eq!(
        Localizer::load(&bytes[..bytes.len() - 2]).unwrap_err(),
        FormatError::UnexpectedEof
    );
}

fn shaper_bytes() -> Vec<u8> {
    let mut bytes: Vec<u8> = vec![1u8];
    bytes.extend_from_slice(&2u32.to_be_bytes()); // rows
    bytes.extend_from_slice(&2u32.to_be_bytes()); // cols
    bytes.extend_from_slice(&1u32.to_be_bytes()); // forests
    bytes.extend_from_slice(&1u32.to_be_bytes()); // trees per forest
    bytes.extend_from_slice(&1u32.to_be_bytes()); // depth
    bytes.extend_from_slice(&1u32.to_be_bytes()); // features
    // Canonical shape: two (x, y) points.
    for value in [0.1f32, 0.2, 0.3, 0.4] {
        bytes.extend_from_slice(&value.to_be_bytes());
    }
    // One tree: one node, two shift sets of two (x, y) pairs each.
    bytes.extend_from_slice(&0u32.to_be_bytes());
    bytes.extend_from_slice(&1u32.to_be_bytes());
    bytes.extend_from_slice(&(-5i16).to_be_bytes());
    for value in [1.0f32, 2.0, 3.0, 4.0, 5.0, 6.0, 7.0, 8.0] {
        bytes.extend_from_slice(&value.to_be_bytes());
    }
    // One anchor and one delta pair.
    bytes.extend_from_slice(&1u32.to_be_bytes());
    bytes.extend_from_slice(&0.5f32.to_be_bytes());
    bytes.extend_from_slice(&(-0.5f32).to_be_bytes());
    bytes
}

#[test]
fn shaper_load_reads_tables() {
    let bytes = shaper_bytes();
    let shaper = Shaper::load(&bytes).expect("parsing failed");

    assert_eq!(shaper.size(), 2);
    assert_eq!(shaper.depth, 1);
    assert_eq!(shaper.dsize, 1);
    assert_eq!(shaper.init_points()[0], (0.1f32.to_bits(), 0.2f32.to_bits()));
    assert_eq!(shaper.init_points()[1], (0.3f32.to_bits(), 0.4f32.to_bits()));

    assert_eq!(shaper.forests.len(), 1);
    let forest = &shaper.forests[0];
    assert_eq!(forest.trees.len(), 1);
    let tree = &forest.trees[0];
    assert_eq!(tree.nodes.len(), 1);
    assert_eq!(tree.nodes[0].idx, (0, 1));
    assert_eq!(tree.nodes[0].threshold, -5);
    assert_eq!(tree.shifts.len(), 2);
    assert_eq!(tree.shifts[0][0], (1.0f32.to_bits(), 2.0f32.to_bits()));
    assert_eq!(tree.shifts[1][1], (7.0f32.to_bits(), 8.0f32.to_bits()));

    assert_eq!(forest.deltas.len(), 1);
    assert_eq!(forest.deltas[0].anchor, 1);
    assert_eq!(forest.deltas[0].x, 0.5f32.to_bits());
    assert_eq!(forest.deltas[0].y, (-0.5f32).to_bits());
}

#[test]
fn shaper_load_errors() {
    assert_eq!(Shaper::load(&[]).unwrap_err(), FormatError::UnexpectedEof);
    assert_eq!(Shaper::load(&[3u8]).unwrap_err(), FormatError::BadVersion);

    let mut bad_depth = shaper_bytes();
    // Overwrite the stored tree depth with an unusable one.
    bad_depth[17..21].copy_from_slice(&40u32.to_be_bytes());
    assert_eq!(Shaper::load(&bad_depth).unwrap_err(), FormatError::DepthOverflow);

    let bytes = shaper_bytes();
    assert_eq!(
        Shaper::load(&bytes[..bytes.len() - 3]).unwrap_err(),
        FormatError::UnexpectedEof
    );
}

#[test]
fn detector_leaf_index_follows_comparisons() {
    // Depth-one cascade whose single node compares the window's
    // bottom-right against its top-left.
    let mut bytes: Vec<u8> = Vec::new();
    bytes.extend_from_slice(&[0u8; 8]);
    bytes.extend_from_slice(&1i32.to_le_bytes());
    bytes.extend_from_slice(&1i32.to_le_bytes());
    bytes.extend_from_slice(&[127u8, 127, 128, 128]); // left (127,127), right (-128,-128)
    bytes.extend_from_slice(&1.0f32.to_le_bytes());
    bytes.extend_from_slice(&2.0f32.to_le_bytes());
    bytes.extend_from_slice(&(-3.0f32).to_le_bytes());
    let det = Detector::load(&bytes).expect("parsing failed");

    let mut image = GrayImage::new(255, 255);
    image.put_pixel(0, 0, 42u8);
    image.put_pixel(254, 254, 255u8);

    // Bright bottom-right beats dark top-left: the test passes and the
    // traversal takes the left branch.
    assert_eq!(det.leaf_index(0, &image, 128, 128, 255), 2);

    // On a flat image the strict comparison fails: right branch.
    let flat = GrayImage::new(255, 255);
    assert_eq!(det.leaf_index(0, &flat, 128, 128, 255), 3);
}

#[test]
fn localizer_leaf_slot_follows_comparisons() {
    let bytes = {
        let mut bytes: Vec<u8> = Vec::new();
        bytes.extend_from_slice(&1i32.to_le_bytes());
        bytes.extend_from_slice(&0.5f32.to_le_bytes());
        bytes.extend_from_slice(&1i32.to_le_bytes());
        bytes.extend_from_slice(&1i32.to_le_bytes());
        bytes.extend_from_slice(&[127u8, 127, 128, 128]);
        for value in [0.25f32, -0.5, 0.125, 0.75] {
            bytes.extend_from_slice(&value.to_le_bytes());
        }
        bytes
    };
    let loc = Localizer::load(&bytes).expect("parsing failed");

    let mut image = GrayImage::new(255, 255);
    image.put_pixel(254, 254, 255u8);

    // The pixel test passes, so the traversal lands on the second leaf.
    assert_eq!(loc.leaf_slot(0, 0, &image, 128, 128, 255), 1);

    let flat = GrayImage::new(255, 255);
    assert_eq!(loc.leaf_slot(0, 0, &flat, 128, 128, 255), 0);
}

#[test]
fn shaper_leaf_slot_follows_feature_tests() {
    let bytes = shaper_bytes();
    let shaper = Shaper::load(&bytes).expect("parsing failed");

    // threshold -5 > features[0] - features[1]?
    assert_eq!(shaper.leaf_slot(0, 0, &[0u8, 10]), 1);
    assert_eq!(shaper.leaf_slot(0, 0, &[10u8, 0]), 0);
}
