use commitoria::svg::rgba::{Rgba, StringToRgbaError};

#[test]
fn arithmetic() {
    assert_eq!(Rgba(1, 2, 3, 4) + Rgba(4, 3, 2, 1), Rgba(5, 5, 5, 5));
    assert_eq!(Rgba(9, 9, 9, 9) - Rgba(4, 3, 2, 1), Rgba(5, 6, 7, 8));
    // 7.5 as the fraction 15 / 2
    assert_eq!(Rgba(5, 10, 20, 50).scale(15, 2), Rgba(37, 75, 150, 255));
}

#[test]
fn interpolate() {
    // the factor 0.5 as the fraction 1 / 2
    assert_eq!(
        Rgba(0, 0, 0, 0).interpolate(Rgba(2, 50, 100, 255), 1, 2),
        Rgba(1, 25, 50, 128)
    );

    assert_eq!(
        Rgba(2, 50, 100, 255).interpolate(Rgba(0, 0, 0, 0), 1, 2),
        Rgba(1, 25, 50, 128)
    );
}

#[test]
fn into_string() {
    assert_eq!(
        String::from(&Rgba(202, 254, 0, 66)),
        String::from("#cafe0042")
    );
}

#[test]
fn from_string() {
    assert_eq!(
        Rgba::try_from("#cafe0042".to_string()),
        Ok(Rgba(202, 254, 0, 66))
    );
}

#[test]
fn from_string_without_hashtag_prefix() {
    assert_eq!(
        Rgba::try_from("cafe0042".to_string()),
        Ok(Rgba(202, 254, 0, 66))
    );
}

#[test]
fn from_string_uppercase() {
    assert_eq!(
        Rgba::try_from("ABCDEFAB".to_string()),
        Ok(Rgba(171, 205, 239, 171))
    );
}

#[test]
fn double_conversion() {
    assert_eq!(
        String::from(&Rgba::try_from("#cafecafe".to_string()).unwrap()),
        "#cafecafe".to_string()
    );
    assert_eq!(
        Rgba::try_from(String::from(&Rgba(12, 34, 56, 78))).unwrap(),
        Rgba(12, 34, 56, 78)
    );
}

#[test]
fn format() {
    assert_eq!(
        Rgba::try_from("#12345678".to_string()).unwrap().to_string(),
        "#12345678".to_string()
    );
}

#[test]
fn new_sets_the_channels() {
    assert_eq!(Rgba::new(1, 2, 3, 4), Rgba(1, 2, 3, 4));
}

#[test]
fn from_string_rejects_what_is_no_colour() {
    assert_eq!(Rgba::parse(""), Err(StringToRgbaError::InvalidLength));
    assert_eq!(Rgba::parse("#"), Err(StringToRgbaError::InvalidLength));
    assert_eq!(Rgba::parse("#cafe004"), Err(StringToRgbaError::InvalidLength));
    assert_eq!(Rgba::parse("cafe00421"), Err(StringToRgbaError::InvalidLength));
    assert_eq!(Rgba::parse("##cafe004"), Err(StringToRgbaError::InvalidHexValue));
    assert_eq!(Rgba::parse("cafe00g2"), Err(StringToRgbaError::InvalidHexValue));
    assert_eq!(Rgba::parse("+a+b+c+d"), Err(StringToRgbaError::InvalidHexValue));
    assert_eq!(Rgba::parse("cafe004é"), Err(StringToRgbaError::NotAscii));
    assert_eq!(Rgba::parse("é"), Err(StringToRgbaError::NotAscii));
    assert_eq!(Rgba::parse("#é"), Err(StringToRgbaError::NotAscii));
}

#[test]
fn interpolate_ends_and_rounding() {
    let from = Rgba(10, 200, 0, 255);
    let to = Rgba(250, 100, 255, 0);
    assert_eq!(from.interpolate(to, 0, 7), from);
    assert_eq!(from.interpolate(to, 7, 7), to);
    // 10 + 240 / 3 = 90, 200 - 100 / 3 = 166.67, 255 / 3 = 85, 255 - 85 = 170
    assert_eq!(from.interpolate(to, 1, 3), Rgba(90, 167, 85, 170));
    // beyond the second colour the channels stop at 0 and 255
    assert_eq!(from.interpolate(to, 3, 1), Rgba(255, 0, 255, 0));
}

#[test]
fn scale_rounds_down_and_stops_at_255() {
    assert_eq!(Rgba(3, 100, 255, 0).scale(1, 2), Rgba(1, 50, 127, 0));
    assert_eq!(Rgba(3, 100, 255, 1).scale(1000, 1), Rgba(255, 255, 255, 255));
    assert_eq!(Rgba(3, 100, 255, 1).scale(0, 5), Rgba(0, 0, 0, 0));
}
