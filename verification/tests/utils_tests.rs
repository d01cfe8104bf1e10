use rshrink::utils::{Dimensions, DimensionsError, Resize, round_percent_twentieths};

#[test]
fn round_percent_zero_numerator() {
    assert_eq!(round_percent_twentieths(0, 100), 0);
}

#[test]
fn round_percent_half() {
    // 1000 twentieths of a percent == 50.0%
    assert_eq!(round_percent_twentieths(50, 100), 1000);
}

#[test]
fn round_percent_zero_denominator_is_zero_for_any_numerator() {
    assert_eq!(round_percent_twentieths(0, 0), 0);
    assert_eq!(round_percent_twentieths(7, 0), 0);
    assert_eq!(round_percent_twentieths(u64::MAX, 0), 0);
}

#[test]
fn round_percent_display_values() {
    // the display divides the twentieths by 20
    assert_eq!(round_percent_twentieths(0, 100) as f32 / 20.0, 0.0);
    assert_eq!(round_percent_twentieths(50, 100) as f32 / 20.0, 50.0);
    assert_eq!(round_percent_twentieths(7, 0) as f32 / 20.0, 0.0);
}

#[test]
fn round_percent_rounds_half_up() {
    // 1/3 is 33.333..%, which rounds to 667 twentieths (33.35%)
    assert_eq!(round_percent_twentieths(1, 3), 667);
    // 3/4 is exactly 75%, 1500 twentieths
    assert_eq!(round_percent_twentieths(3, 4), 1500);
}

#[test]
fn parse_dimensions_accepts_width_x_height() {
    let d = Dimensions::parse_dimensions("100x200").unwrap();
    assert_eq!(d.width, 100);
    assert_eq!(d.height, 200);
}

#[test]
fn parse_dimensions_rejects_non_numeric_parts() {
    assert_eq!(
        Dimensions::parse_dimensions("abcxdef"),
        Err(DimensionsError::InvalidWidth)
    );
}

#[test]
fn parse_dimensions_rejects_missing_separator() {
    assert_eq!(
        Dimensions::parse_dimensions("100"),
        Err(DimensionsError::InvalidFormat)
    );
}

#[test]
fn parse_dimensions_rejects_two_separators() {
    assert_eq!(
        Dimensions::parse_dimensions("1x2x3"),
        Err(DimensionsError::InvalidFormat)
    );
}

#[test]
fn parse_dimensions_rejects_bad_height() {
    assert_eq!(
        Dimensions::parse_dimensions("100xabc"),
        Err(DimensionsError::InvalidHeight)
    );
}

#[test]
fn parse_dimensions_rejects_empty_sides() {
    assert_eq!(
        Dimensions::parse_dimensions("x"),
        Err(DimensionsError::InvalidWidth)
    );
    assert_eq!(
        Dimensions::parse_dimensions("5x"),
        Err(DimensionsError::InvalidHeight)
    );
}

#[test]
fn parse_dimensions_rejects_numeral_too_large() {
    assert_eq!(
        Dimensions::parse_dimensions("99999999999999999999999999x10"),
        Err(DimensionsError::InvalidWidth)
    );
}

#[test]
fn dimensions_default_is_full_hd() {
    let d = Dimensions::default();
    assert_eq!(d.width, 1920);
    assert_eq!(d.height, 1080);
}

#[test]
fn as_string_formats_decimal() {
    let (w, h) = Dimensions::new(1920, 1080).as_string();
    assert_eq!(w, "1920");
    assert_eq!(h, "1080");
    let (w0, h0) = Dimensions::new(0, 7).as_string();
    assert_eq!(w0, "0");
    assert_eq!(h0, "7");
}

#[test]
fn save_dimensions_from_string_updates_in_range() {
    let mut d = Dimensions::default();
    assert_eq!(
        d.save_dimensions_from_string(("800".to_string(), "600".to_string())),
        Ok(())
    );
    assert_eq!(d.width, 800);
    assert_eq!(d.height, 600);
}

#[test]
fn save_dimensions_from_string_rejects_too_big_unchanged() {
    let mut d = Dimensions::new(10, 20);
    assert_eq!(
        d.save_dimensions_from_string(("8001".to_string(), "600".to_string())),
        Err(DimensionsError::TooBig)
    );
    assert_eq!(d.width, 10);
    assert_eq!(d.height, 20);
}

#[test]
fn save_dimensions_from_string_rejects_garbage_unchanged() {
    let mut d = Dimensions::new(10, 20);
    assert_eq!(
        d.save_dimensions_from_string(("12a".to_string(), "600".to_string())),
        Err(DimensionsError::InvalidWidth)
    );
    assert_eq!(
        d.save_dimensions_from_string(("12".to_string(), "".to_string())),
        Err(DimensionsError::InvalidHeight)
    );
    assert_eq!(d.width, 10);
    assert_eq!(d.height, 20);
}

#[test]
fn resize_modes_are_distinct() {
    assert_ne!(Resize::Absolute, Resize::Relative);
}
