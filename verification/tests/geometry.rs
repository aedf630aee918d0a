use pico_detect::{
    GrayImage, Padding, PaddingBuilder, Rect, Region, SafeGet, SaturatedGet, Square,
    get_nearest_pixel_i64, get_pixel_i64, intersection_over_union,
};

fn create_test_image(width: u32, height: u32) -> GrayImage {
    let mut image = GrayImage::new(width, height);
    image.put_pixel(0, 0, 42u8);
    image.put_pixel(width - 1, height - 1, 255u8);
    image
}

#[test]
fn get_luminance_in_and_out_of_image_bounds() {
    let (width, height) = (640, 480);
    let image = create_test_image(width, height);
    let tests = vec![
        ((0f32, 0f32), 42u8),
        ((-10f32, -10f32), 42u8),
        (((width - 1) as f32, (height - 1) as f32), 255u8),
        ((width as f32, height as f32), 255u8),
    ];

    for (point, test_lum) in tests {
        let lum = image.saturated_get_lum(point.0 as u32, point.1 as u32);
        assert_eq!(lum, test_lum);
    }
}

#[test]
fn check_get_pixel() {
    let (width, height) = (64u32, 48u32);
    let image = create_test_image(width, height);

    let test_coords = vec![
        (0f32, 0f32),
        (-10f32, -10f32),
        ((width as f32 - 1f32), (height as f32 - 1f32)),
        (width as f32, height as f32),
    ];

    let lum_values = vec![42u8, 42u8, 255u8, 255u8];

    let fallbacks = vec![false, true, false, true];

    for ((x, y), (lum_value, should_fallback)) in test_coords
        .iter()
        .zip(lum_values.iter().zip(fallbacks.iter()))
    {
        let x = *x as i32;
        let y = *y as i32;
        println!("x: {}, y: {}", x, y);
        let lum = *lum_value;
        assert_eq!(get_nearest_pixel_i64(&image, x.into(), y.into()), lum);

        let fallback = 0u8;
        assert_eq!(
            get_pixel_i64(&image, x.into(), y.into()).unwrap_or(fallback),
            if *should_fallback { fallback } else { lum }
        );
    }
}

#[test]
fn test_intersection_over_union() {
    let tests: Vec<(Square, Square, Option<f32>)> = vec![
        (
            Square::at(0, 0).of_size(1),
            Square::at(0, 0).of_size(1),
            Some(1.0),
        ),
        (
            Square::at(0, 0).of_size(2),
            Square::at(1, 1).of_size(2),
            Some(1.0 / (2 * 2 * 2 - 1) as f32),
        ),
        (
            Square::at(0, 0).of_size(2),
            Square::at(0, 0).of_size(1),
            Some(0.25),
        ),
        (
            Square::at(0, 0).of_size(1),
            Square::at(1, 1).of_size(1),
            None,
        ),
        (
            Square::at(0, 0).of_size(1),
            Square::at(1, 0).of_size(1),
            None,
        ),
        (
            Square::at(0, 0).of_size(1),
            Square::at(0, 1).of_size(1),
            None,
        ),
    ];

    for (r1, r2, test_iou) in tests.iter() {
        let calc_iou = intersection_over_union(*r1, *r2).map(|(n, d)| n as f32 / d as f32);
        assert!(
            calc_iou.is_none() && test_iou.is_none()
                || calc_iou.is_some() && test_iou.is_some()
        );

        if let Some((calc, test)) = calc_iou.zip(*test_iou) {
            assert!((calc - test).abs() < 1e-6);
        };
    }
}

#[test]
fn square_region_accessors() {
    let s = Square::new(-3, 7, 10);
    assert_eq!(s.left(), -3);
    assert_eq!(s.top(), 7);
    assert_eq!(s.width(), 10);
    assert_eq!(s.height(), 10);
    assert_eq!(s.right(), 6);
    assert_eq!(s.bottom(), 16);
    assert!(s.is_square());
    assert_eq!(s.center(), (-3 + 6, 7 + 6));
    assert_eq!(s.square(), 100);
    assert!(s.contains(0, 10));
    assert!(!s.contains(7, 10));
    assert_eq!(s.size(), 10);
    assert_eq!(Square::from(( -3, 7, 10 )), s);
    assert_eq!(Square::from_region(s), Some(s));
}

#[test]
fn rect_is_not_square() {
    let r = Rect::at(1, 2).of_size(3, 4);
    assert!(!r.is_square());
    assert_eq!(Square::from_region(r), None);
    assert_eq!(r.right(), 3);
    assert_eq!(r.bottom(), 5);
}

#[test]
fn padding_shrinks_image_rect() {
    let p = Padding::new(1, 2, 3, 4);
    let r = p.rect(100, 50);
    assert_eq!(r.left, 4);
    assert_eq!(r.top, 1);
    assert_eq!(r.width, 94);
    assert_eq!(r.height, 46);

    let image = GrayImage::new(100, 50);
    assert_eq!(p.image_rect(&image), r);

    let q = Padding::all(5).top(1).left(2).vertical(3).horizontal(4);
    assert_eq!(q, Padding::new(3, 4, 3, 4));
    let q = Padding::all(0).right(7).bottom(8);
    assert_eq!(q, Padding::new(0, 7, 8, 0));
}

#[test]
fn padding_builder_defaults_to_zero() {
    let p = PaddingBuilder::default().with_top(1).with_right(2).build();
    assert_eq!(p, Padding::new(1, 2, 0, 0));

    let p = PaddingBuilder::default().with_all(9).build();
    assert_eq!(p, Padding::new(9, 9, 9, 9));

    let p = PaddingBuilder::default()
        .with_vertical(3)
        .with_horizontal(4)
        .with_bottom(5)
        .with_left(6)
        .build();
    assert_eq!(p, Padding::new(3, 4, 5, 6));
}

#[test]
fn safe_get_falls_back() {
    let image = create_test_image(8, 8);
    assert_eq!(image.safe_get_lum(0, 0, 7), 42);
    assert_eq!(image.safe_get_lum(8, 0, 7), 7);
    assert_eq!(image.safe_get_lum(0, 8, 7), 7);
}

#[test]
fn gray_image_from_raw_checks_length() {
    assert!(GrayImage::from_raw(2, 2, vec![1, 2, 3, 4]).is_some());
    assert!(GrayImage::from_raw(2, 2, vec![1, 2, 3]).is_none());
    let image = GrayImage::from_raw(2, 2, vec![1, 2, 3, 4]).unwrap();
    assert_eq!(image.get_pixel(1, 0), 2);
    assert_eq!(image.get_pixel(0, 1), 3);
}

#[test]
fn iou_is_symmetric_on_concrete_squares() {
    let a = Square::new(0, 0, 6);
    let b = Square::new(3, 2, 5);
    assert_eq!(
        intersection_over_union(a, b),
        intersection_over_union(b, a)
    );
    assert_eq!(
        intersection_over_union(a, a),
        Some((36, 36))
    );
}
