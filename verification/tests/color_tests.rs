use ici_files::color::Color;
use ici_files::conversion::{ColorConversion, OpaqueColorConversion};
use ici_files::errors::IndexedImageError;

fn clone_and_add(initial: Color, r: isize, g: isize, b: isize, a: isize) -> Color {
    let mut color = initial;
    color.tint_add(r, g, b, a);
    color
}

#[test]
fn tint_add() {
    let initial = Color {
        r: 100,
        g: 150,
        b: 200,
        a: 255,
    };
    assert_eq!(
        clone_and_add(initial, 50, 50, 50, 0),
        Color::new(150, 200, 250, 255)
    );
    assert_eq!(
        clone_and_add(initial, 100, 100, 100, 0),
        Color::new(200, 250, 255, 255)
    );
    assert_eq!(
        clone_and_add(initial, -100, -100, -100, 0),
        Color::new(0, 50, 100, 255)
    );
    assert_eq!(
        clone_and_add(initial, 0, 0, 0, 0),
        Color::new(100, 150, 200, 255)
    );
    assert_eq!(
        clone_and_add(initial, 10, 0, 0, 0),
        Color::new(110, 150, 200, 255)
    );
    assert_eq!(
        clone_and_add(initial, 0, 10, 0, 0),
        Color::new(100, 160, 200, 255)
    );
    assert_eq!(
        clone_and_add(initial, 0, 0, 10, 0),
        Color::new(100, 150, 210, 255)
    );
    assert_eq!(
        clone_and_add(initial, 0, 0, 0, -10),
        Color::new(100, 150, 200, 245)
    );
    assert_eq!(
        clone_and_add(initial, 0, 0, 0, -500),
        Color::new(100, 150, 200, 0)
    );
}

#[test]
fn tint_add_at_the_ends_of_isize() {
    let initial = Color::new(0, 255, 7, 200);
    assert_eq!(
        clone_and_add(initial, isize::MAX, isize::MIN, isize::MAX, isize::MIN),
        Color::new(255, 0, 255, 0)
    );
}

#[test]
fn from_hex() {
    assert_eq!(
        Color::from_hex("112233").unwrap(),
        Color {
            r: 17,
            g: 34,
            b: 51,
            a: 255,
        }
    );
    assert_eq!(
        Color::from_hex("#112233").unwrap(),
        Color {
            r: 17,
            g: 34,
            b: 51,
            a: 255,
        }
    );
    assert_eq!(
        Color::from_hex("#11223344").unwrap(),
        Color {
            r: 17,
            g: 34,
            b: 51,
            a: 68,
        }
    );
    assert!(Color::from_hex("#aafgha").is_err())
}

#[test]
fn from_hex_errors_and_cases() {
    assert_eq!(
        Color::from_hex("#aafgha"),
        Err(IndexedImageError::InvalidHexFormat(
            "non hex digits".to_string()
        ))
    );
    assert_eq!(
        Color::from_hex("#1234567"),
        Err(IndexedImageError::InvalidHexFormat(
            "wrong length".to_string()
        ))
    );
    assert_eq!(
        Color::from_hex(""),
        Err(IndexedImageError::InvalidHexFormat(
            "wrong length".to_string()
        ))
    );
    assert_eq!(
        Color::from_hex("##12345"),
        Err(IndexedImageError::InvalidHexFormat(
            "non hex digits".to_string()
        ))
    );
    assert_eq!(
        Color::from_hex("zzzzzzzzz"),
        Err(IndexedImageError::InvalidHexFormat(
            "wrong length".to_string()
        ))
    );
    assert_eq!(
        Color::from_hex("aBcDeF09").unwrap(),
        Color::new(0xAB, 0xCD, 0xEF, 0x09)
    );
    assert_eq!(
        Color::from_hex("ééé").map_err(|_| ()),
        Err(()),
    );
}

#[test]
fn to_hex() {
    assert_eq!(Color::white().to_hex(), "#FFFFFFFF".to_string());
    assert_eq!(Color::red().to_hex(), "#FF0000FF".to_string());
}

#[test]
fn hex_round_trip() {
    let color = Color::new(0, 9, 10, 171);
    assert_eq!(color.to_hex(), "#00090AAB".to_string());
    assert_eq!(Color::from_hex(&color.to_hex()).unwrap(), color);
}

#[test]
fn _u32() {
    let num: u32 = Color::red().into();
    let color: Color = num.into();
    assert_eq!(Color::red(), color);
}

#[test]
fn numbers_and_bytes() {
    let color = Color::new(1, 2, 3, 4);
    let num: u32 = color.into();
    assert_eq!(num, 0x01020304);
    let by_reference: u32 = (&color).into();
    assert_eq!(by_reference, 0x01020304);
    assert_eq!(color.as_u32(), 0x01020304);
    assert_eq!(Color::from_u32(0x0A0B0C0D), Color::new(10, 11, 12, 13));
    assert_eq!(color.as_array(), [1, 2, 3, 4]);
    assert_eq!(color.as_i32(), 0x01020304);
    assert_eq!(Color::new(255, 255, 255, 255).as_i32(), -1);
    assert_eq!(Color::new(128, 0, 0, 0).as_i32(), i32::MIN);
    assert_eq!(Color::from_i32(-1), Color::new(255, 255, 255, 255));
    assert_eq!(Color::from_i32(i32::MIN), Color::new(128, 0, 0, 0));
    assert_eq!(Color::from_i32(0x01020304), color);
    assert_eq!(Color::from_i32(-2).as_i32(), -2);
    assert_eq!(Color::from((1, 2, 3, 4)), color);
    assert_eq!(Color::from([1, 2, 3, 4]), color);
    assert_eq!(Color::from((1, 2, 3)), Color::new(1, 2, 3, 255));
    assert_eq!(Color::from([1, 2, 3]), Color::new(1, 2, 3, 255));
    assert_eq!(Color::default(), Color::new(0, 0, 0, 255));
}

#[test]
fn builders_and_names() {
    let color = Color::new(1, 2, 3, 4);
    assert_eq!(color.with_red(9), Color::new(9, 2, 3, 4));
    assert_eq!(color.with_green(9), Color::new(1, 9, 3, 4));
    assert_eq!(color.with_blue(9), Color::new(1, 2, 9, 4));
    assert_eq!(color.with_alpha(9), Color::new(1, 2, 3, 9));
    assert_eq!(Color::gray(7), Color::new(7, 7, 7, 255));
    assert_eq!(Color::transparent(), Color::new(0, 0, 0, 0));
    assert_eq!(Color::white(), Color::gray(255));
    assert_eq!(Color::off_white(), Color::gray(250));
    assert_eq!(Color::black(), Color::gray(0));
    assert_eq!(Color::off_black(), Color::gray(5));
    assert_eq!(Color::darker_gray(), Color::gray(45));
    assert_eq!(Color::dark_gray(), Color::gray(75));
    assert_eq!(Color::mid_gray(), Color::gray(110));
    assert_eq!(Color::light_gray(), Color::gray(180));
    assert_eq!(Color::lighter_gray(), Color::gray(205));
    assert_eq!(Color::red(), Color::new(255, 0, 0, 255));
    assert_eq!(Color::green(), Color::new(0, 255, 0, 255));
    assert_eq!(Color::blue(), Color::new(0, 0, 255, 255));
    assert_eq!(Color::magenta(), Color::new(255, 0, 255, 255));
    assert_eq!(Color::yellow(), Color::new(255, 255, 0, 255));
    assert_eq!(Color::orange(), Color::new(255, 165, 0, 255));
    assert_eq!(Color::brown(), Color::new(139, 69, 19, 255));
    assert_eq!(Color::purple(), Color::new(75, 0, 130, 255));
    assert_eq!(Color::cyan(), Color::new(0, 255, 255, 255));
    assert_eq!(Color::gb_3(), Color::new(15, 56, 15, 255));
    assert_eq!(Color::gb_2(), Color::new(48, 98, 48, 255));
    assert_eq!(Color::gb_1(), Color::new(120, 145, 15, 255));
    assert_eq!(Color::gb_0(), Color::new(155, 188, 15, 255));
    assert!(Color::transparent().is_transparent());
    assert!(Color::new(1, 1, 1, 254).is_transparent());
    assert!(!Color::white().is_transparent());
}

#[test]
fn mid_and_diff() {
    let dark = Color::new(0, 10, 255, 7);
    let light = Color::new(255, 13, 0, 7);
    assert_eq!(dark.mid(&light), Color::new(127, 11, 127, 7));
    assert_eq!(light.mid(&dark), Color::new(127, 11, 127, 7));
    assert_eq!(dark.diff(&light), 255 + 3 + 255);
    assert_eq!(light.diff(&dark), 255 + 3 + 255);
    assert_eq!(dark.diff(&dark), 0);
    assert_eq!(
        Color::new(0, 0, 0, 0).diff(&Color::new(255, 255, 255, 255)),
        1020
    );
}

#[test]
fn check_color_conversion_u32() {
    let red = Color::red();
    let argb: u32 = red.to_argb();
    let rgba: u32 = red.to_rgba();
    assert_eq!(red, Color::from_argb(argb));
    assert_eq!(red, Color::from_rgba(rgba));
}

#[test]
fn check_color_conversion_u8_arr() {
    let red = Color::red();
    let argb: [u8; 4] = red.to_argb();
    let rgba: [u8; 4] = red.to_rgba();
    assert_eq!(red, Color::from_argb(argb));
    assert_eq!(red, Color::from_rgba(rgba));
}

#[test]
fn check_color_conversion_u8_tuple() {
    let red = Color::red();
    let argb: (u8, u8, u8, u8) = red.to_argb();
    let rgba: (u8, u8, u8, u8) = red.to_rgba();
    assert_eq!(red, Color::from_argb(argb));
    assert_eq!(red, Color::from_rgba(rgba));
}

#[test]
fn conversion_values() {
    let color = Color::new(1, 2, 3, 4);
    let rgba: u32 = color.to_rgba();
    let argb: u32 = color.to_argb();
    assert_eq!(rgba, 0x01020304);
    assert_eq!(argb, 0x04010203);
    assert_eq!(Color::from_rgba(0x0A0B0C0Du32), Color::new(10, 11, 12, 13));
    assert_eq!(Color::from_argb(0x0A0B0C0Du32), Color::new(11, 12, 13, 10));
    let rgba: [u8; 4] = color.to_rgba();
    let argb: [u8; 4] = color.to_argb();
    assert_eq!(rgba, [1, 2, 3, 4]);
    assert_eq!(argb, [4, 1, 2, 3]);
    let rgba: (u8, u8, u8, u8) = color.to_rgba();
    let argb: (u8, u8, u8, u8) = color.to_argb();
    assert_eq!(rgba, (1, 2, 3, 4));
    assert_eq!(argb, (4, 1, 2, 3));
    let rgb: [u8; 3] = color.to_rgb();
    assert_eq!(rgb, [1, 2, 3]);
    let rgb: (u8, u8, u8) = color.to_rgb();
    assert_eq!(rgb, (1, 2, 3));
    assert_eq!(Color::from_rgb([5u8, 6, 7]), Color::new(5, 6, 7, 255));
    assert_eq!(Color::from_rgb((5u8, 6u8, 7u8)), Color::new(5, 6, 7, 255));
}
