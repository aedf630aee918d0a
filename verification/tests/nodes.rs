use pico_detect::{ComparisonNode, GrayImage, ISimilarity2, ThresholdNode, original_transform};

#[test]
fn test_original_transform() {
    let (ix, iy, s) = (100, 150, 50);
    let (nx, ny) = (42, -34);
    assert_eq!(original_transform(ix, iy, s, nx, ny), (108, 143));
}

#[test]
fn test_fast_scale_and_translate() {
    let transform = ISimilarity2::from_components(100, 150, 50);
    assert_eq!(transform.transform_point_i8(42i8, -34i8), (108i32, 143i32));
}

#[test]
fn compare_node_from_buffer_and_new() {
    let (y0, x0, y1, x1) = (-128i8, 42i8, -34i8, 127i8);
    let node1 = ComparisonNode::new([y0, x0, y1, x1]);
    let node2 = ComparisonNode::from_buffer(&[
        y0.to_le_bytes()[0],
        x0.to_le_bytes()[0],
        y1.to_le_bytes()[0],
        x1.to_le_bytes()[0],
    ]);

    assert_eq!(node1, node2);
}

#[test]
fn test_comparison_node_from_into() {
    let data: [i8; 4] = [-128, 42, -34, 127];
    let buf: [u8; 4] = ComparisonNode::from(data.clone()).into();
    let out: [i8; 4] = ComparisonNode::from(buf).into();
    assert_eq!(data, out);
}

#[test]
fn comparison_node_convert_back_and_forth() {
    let data: [i8; 4] = [-128, 42, -34, 127];
    let buf: [u8; 4] = ComparisonNode::from(data.clone()).into();
    let out: [i8; 4] = ComparisonNode::from(buf).into();
    assert_eq!(data, out);
}

#[test]
fn test_threshold_node_from_into() {
    let test_idx = (1, 2);
    let test_threshold = 2;
    let node = ThresholdNode {
        idx: test_idx,
        threshold: test_threshold,
    };
    let data: [u8; 10] = node.into();
    let ThresholdNode { idx, threshold } = ThresholdNode::from(data);
    assert_eq!(idx, test_idx);
    assert_eq!(threshold, test_threshold);
}

#[test]
fn threshold_node_convert_back_and_forth() {
    let test_idx = (1, 2);
    let test_threshold = 2;
    let node = ThresholdNode {
        idx: test_idx,
        threshold: test_threshold,
    };
    let data: [u8; 10] = node.into();
    let ThresholdNode { idx, threshold } = ThresholdNode::from(data);
    assert_eq!(idx, test_idx);
    assert_eq!(threshold, test_threshold);
}

#[test]
fn test_threshold_node_bintest() {
    let mut node = ThresholdNode {
        idx: (0, 1),
        threshold: 42,
    };

    assert!(node.bintest(&[42, 1]));
    assert!(node.bintest(&[0, 1]));
    assert!(!node.bintest(&[43, 1]));

    node.threshold = -42;

    assert!(node.bintest(&[0, 43]));
    assert!(!node.bintest(&[0, 1]));
}

#[test]
fn threshold_bintest() {
    let mut node = ThresholdNode {
        idx: (0, 1),
        threshold: 42,
    };

    assert!(node.bintest(&[42, 1]));
    assert!(node.bintest(&[0, 1]));
    assert!(!node.bintest(&[43, 1]));

    node.threshold = -42;

    assert!(node.bintest(&[0, 43]));
    assert!(!node.bintest(&[0, 1]));
}

#[test]
fn test_comparison_node_bintest() {
    let node = ComparisonNode::from([i8::MAX, i8::MAX, i8::MIN, i8::MIN]);

    let size = 255;
    let mut image = GrayImage::new(size, size);
    image.put_pixel(0, 0, 42u8);
    image.put_pixel(size - 1, size - 1, 255u8);

    let point = ((size / 2 + 1) as i32, (size / 2 + 1) as i32);
    assert!(node.bintest(&image, point.0, point.1, size));
}

#[test]
fn bintest_image_edges() {
    let (width, height) = (255, 255);
    let mut image = GrayImage::new(width, height);
    image.put_pixel(0, 0, 42u8);
    image.put_pixel(width - 1, height - 1, 255u8);
    let node = ComparisonNode::from([i8::MAX, i8::MAX, i8::MIN, i8::MIN]);

    let transform = ISimilarity2::from_components(
        (width / 2 + 1) as i32,
        (height / 2 + 1) as i32,
        width,
    );
    let result = node.bintest(
        &image,
        transform.translation.0,
        transform.translation.1,
        transform.scaling,
    );
    assert!(result);
}
