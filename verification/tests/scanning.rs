use pico_detect::{Rect, Square, multiscale, multiscale_count, scan_scale};

#[test]
fn scan_scale_emits_row_major_grid() {
    let rect = Rect::at(0, 0).of_size(4, 4);
    let mut out: Vec<Square> = Vec::new();
    scan_scale(rect, 1, 1, &mut out);

    assert_eq!(out.len(), 16);
    assert_eq!(out[0], Square::new(0, 0, 1));
    assert_eq!(out[1], Square::new(1, 0, 1));
    assert_eq!(out[5], Square::new(1, 1, 1));
    assert_eq!(out[15], Square::new(3, 3, 1));
}

#[test]
fn scan_scale_respects_step_and_size() {
    let rect = Rect::at(10, 20).of_size(8, 8);
    let mut out: Vec<Square> = Vec::new();
    scan_scale(rect, 4, 2, &mut out);

    // Positions run from the corner to `right - size` inclusive.
    assert_eq!(
        out,
        vec![
            Square::new(10, 20, 4),
            Square::new(12, 20, 4),
            Square::new(14, 20, 4),
            Square::new(10, 22, 4),
            Square::new(12, 22, 4),
            Square::new(14, 22, 4),
            Square::new(10, 24, 4),
            Square::new(12, 24, 4),
            Square::new(14, 24, 4),
        ]
    );
}

#[test]
fn scan_scale_emits_nothing_for_oversized_windows() {
    let rect = Rect::at(0, 0).of_size(4, 4);
    let mut out: Vec<Square> = Vec::new();
    scan_scale(rect, 5, 1, &mut out);
    assert_eq!(out.len(), 0);
}

#[test]
fn multiscale_concatenates_scales() {
    // Sizes 1, 2 and 4 with their steps, as a doubling scan over a 4 by 4
    // area would produce them.
    let plan: Vec<(u32, u32)> = vec![(1, 1), (2, 2), (4, 4)];
    let rect = Rect::at(0, 0).of_size(4, 4);

    let mut out: Vec<Square> = Vec::new();
    multiscale(&plan, rect, &mut out);

    assert_eq!(out.len(), 16 + 4 + 1);
    assert_eq!(multiscale_count(&plan, rect), out.len());

    assert_eq!(out[0], Square::new(0, 0, 1));
    assert_eq!(out[16], Square::new(0, 0, 2));
    assert_eq!(out[17], Square::new(2, 0, 2));
    assert_eq!(out[20], Square::new(0, 0, 4));
}

#[test]
fn scan_scale_handles_negative_origins() {
    let rect = Rect::at(-2, -3).of_size(4, 5);
    let mut out: Vec<Square> = Vec::new();
    scan_scale(rect, 2, 1, &mut out);

    assert_eq!(out[0], Square::new(-2, -3, 2));
    assert_eq!(out.len(), 3 * 4);
    assert_eq!(out[out.len() - 1], Square::new(0, 0, 2));
}
