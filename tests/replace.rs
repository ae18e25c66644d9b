use crp::{
    apply, color_matches, parse_args, parse_color, replace_pixel, Args, ConfigError, Criterion,
    ImageBuffer, ImageError, Pixel, COLOR_RANGE,
};

fn px(r: u8, g: u8, b: u8) -> Pixel {
    Pixel { b, g, r }
}

fn black_to_red() -> Criterion {
    Criterion { origin_color: (0, 0, 0), target_color: (255, 0, 0) }
}

fn args(input: &str, origin: &str, target: &str) -> Args {
    Args {
        input_image: input.to_string(),
        target_image: "out.png".to_string(),
        origin_color: origin.to_string(),
        target_color: target.to_string(),
    }
}

#[test]
fn tolerance_is_twenty() {
    assert_eq!(COLOR_RANGE, 20);
}

#[test]
fn diff_equal_to_tolerance_is_copied() {
    let p = px(20, 20, 20);
    assert!(!color_matches(p, &black_to_red()));
    assert_eq!(replace_pixel(p, &black_to_red()), px(20, 20, 20));
}

#[test]
fn diff_below_tolerance_is_replaced() {
    let p = px(19, 19, 19);
    assert!(color_matches(p, &black_to_red()));
    assert_eq!(replace_pixel(p, &black_to_red()), px(255, 0, 0));
}

#[test]
fn one_channel_out_of_tolerance_is_copied() {
    let p = px(19, 19, 25);
    assert!(!color_matches(p, &black_to_red()));
    assert_eq!(replace_pixel(p, &black_to_red()), p);
}

#[test]
fn single_channel_on_boundary_is_copied() {
    let c = Criterion { origin_color: (100, 100, 100), target_color: (1, 2, 3) };
    assert_eq!(replace_pixel(px(100, 80, 100), &c), px(100, 80, 100));
    assert_eq!(replace_pixel(px(100, 100, 120), &c), px(100, 100, 120));
    assert_eq!(replace_pixel(px(100, 81, 119), &c), px(1, 2, 3));
}

#[test]
fn channel_order_is_reconciled() {
    // Origin colour is red, green, blue; the pixel holds blue, green, red.
    let c = Criterion { origin_color: (200, 100, 10), target_color: (1, 2, 3) };
    let stored = Pixel { b: 10, g: 100, r: 200 };
    let out = replace_pixel(stored, &c);
    assert_eq!(out, Pixel { b: 3, g: 2, r: 1 });
    let swapped = Pixel { b: 200, g: 100, r: 10 };
    assert_eq!(replace_pixel(swapped, &c), swapped);
}

#[test]
fn two_by_two_with_one_match() {
    let rows = vec![vec![px(19, 19, 19), px(20, 20, 20)], vec![px(50, 60, 70), px(0, 0, 30)]];
    let source = ImageBuffer::from_rows(2, rows).unwrap();
    let mut dest = ImageBuffer::new(2, 2, px(0, 0, 0));
    assert_eq!(apply(&source, &mut dest, &black_to_red()), Ok(()));
    assert_eq!(dest.get(0, 0), Ok(px(255, 0, 0)));
    assert_eq!(dest.get(0, 1), Ok(px(20, 20, 20)));
    assert_eq!(dest.get(1, 0), Ok(px(50, 60, 70)));
    assert_eq!(dest.get(1, 1), Ok(px(0, 0, 30)));
}

#[test]
fn dimension_mismatch_leaves_destination() {
    let source = ImageBuffer::new(3, 3, px(0, 0, 0));
    let mut dest = ImageBuffer::new(2, 2, px(7, 8, 9));
    assert_eq!(apply(&source, &mut dest, &black_to_red()), Err(ImageError::InvalidDimensions));
    assert_eq!(dest.rows(), 2);
    assert_eq!(dest.cols(), 2);
    for r in 0..2 {
        for c in 0..2 {
            assert_eq!(dest.get(r, c), Ok(px(7, 8, 9)));
        }
    }
}

#[test]
fn column_mismatch_is_rejected() {
    let source = ImageBuffer::new(2, 3, px(0, 0, 0));
    let mut dest = ImageBuffer::new(2, 2, px(0, 0, 0));
    assert_eq!(apply(&source, &mut dest, &black_to_red()), Err(ImageError::InvalidDimensions));
}

#[test]
fn every_cell_is_overwritten() {
    let source = ImageBuffer::new(3, 4, px(40, 40, 40));
    let mut dest = ImageBuffer::new(3, 4, px(1, 1, 1));
    assert_eq!(apply(&source, &mut dest, &black_to_red()), Ok(()));
    for r in 0..3 {
        for c in 0..4 {
            assert_eq!(dest.get(r, c), Ok(px(40, 40, 40)));
        }
    }
}

#[test]
fn two_runs_agree() {
    let rows = vec![vec![px(5, 5, 5), px(90, 1, 2), px(3, 19, 0)]];
    let source = ImageBuffer::from_rows(3, rows).unwrap();
    let mut first = ImageBuffer::new(1, 3, px(0, 0, 0));
    let mut second = ImageBuffer::new(1, 3, px(9, 9, 9));
    assert_eq!(apply(&source, &mut first, &black_to_red()), Ok(()));
    assert_eq!(apply(&source, &mut second, &black_to_red()), Ok(()));
    for c in 0..3 {
        assert_eq!(first.get(0, c), second.get(0, c));
    }
    assert_eq!(first.get(0, 0), Ok(px(255, 0, 0)));
    assert_eq!(first.get(0, 1), Ok(px(90, 1, 2)));
    assert_eq!(first.get(0, 2), Ok(px(255, 0, 0)));
}

#[test]
fn empty_image_passes() {
    let source = ImageBuffer::new(0, 0, px(0, 0, 0));
    let mut dest = ImageBuffer::new(0, 0, px(0, 0, 0));
    assert_eq!(apply(&source, &mut dest, &black_to_red()), Ok(()));
    assert_eq!(dest.rows(), 0);
}

#[test]
fn get_outside_is_out_of_bounds() {
    let img = ImageBuffer::new(2, 3, px(1, 2, 3));
    assert_eq!(img.get(1, 2), Ok(px(1, 2, 3)));
    assert_eq!(img.get(2, 0), Err(ImageError::IndexOutOfBounds));
    assert_eq!(img.get(0, 3), Err(ImageError::IndexOutOfBounds));
}

#[test]
fn ragged_rows_are_refused() {
    let rows = vec![vec![px(0, 0, 0), px(0, 0, 0)], vec![px(0, 0, 0)]];
    assert!(ImageBuffer::from_rows(2, rows).is_none());
    let ok = ImageBuffer::from_rows(1, vec![vec![px(0, 0, 0)], vec![px(1, 1, 1)]]).unwrap();
    assert_eq!(ok.rows(), 2);
    assert_eq!(ok.cols(), 1);
    assert_eq!(ok.get(1, 0), Ok(px(1, 1, 1)));
}

#[test]
fn color_strings_parse() {
    assert_eq!(parse_color("255 0 0"), Some((255, 0, 0)));
    assert_eq!(parse_color("1 22 133"), Some((1, 22, 133)));
    assert_eq!(parse_color("007 +8 0"), Some((7, 8, 0)));
}

#[test]
fn malformed_color_strings_are_refused() {
    assert_eq!(parse_color(""), None);
    assert_eq!(parse_color("1 2"), None);
    assert_eq!(parse_color("1 2 3 4"), None);
    assert_eq!(parse_color("1  2 3"), None);
    assert_eq!(parse_color("1 2 256"), None);
    assert_eq!(parse_color("1 2 -3"), None);
    assert_eq!(parse_color("1 2 x"), None);
    assert_eq!(parse_color("1 + 3"), None);
    assert_eq!(parse_color(" 1 2 3"), None);
    assert_eq!(parse_color("1 2 3 "), None);
    assert_eq!(parse_color("1 2 1000"), None);
}

#[test]
fn arguments_build_config() {
    let config = parse_args(args("in.png", "0 0 0", "255 0 0"), true).unwrap();
    assert_eq!(config.input_image, "in.png");
    assert_eq!(config.target_image, "out.png");
    assert_eq!(config.origin_color, (0, 0, 0));
    assert_eq!(config.target_color, (255, 0, 0));
    let c = config.criterion();
    assert_eq!(c.origin_color, (0, 0, 0));
    assert_eq!(c.target_color, (255, 0, 0));
}

#[test]
fn missing_input_is_refused() {
    assert_eq!(
        parse_args(args("none.png", "0 0 0", "255 0 0"), false).err(),
        Some(ConfigError::MissingInputImage)
    );
}

#[test]
fn bad_colors_are_refused() {
    assert_eq!(
        parse_args(args("in.png", "0 0", "255 0 0"), true).err(),
        Some(ConfigError::InvalidOriginColor)
    );
    assert_eq!(
        parse_args(args("in.png", "0 0 0", "255 0 300"), true).err(),
        Some(ConfigError::InvalidTargetColor)
    );
}
