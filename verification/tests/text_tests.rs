use ici_files::animated::AnimatedIndexedImage;
use ici_files::animated::PlayType;
use ici_files::color::Color;
use ici_files::errors::IndexedImageError;
use ici_files::image::IndexedImage;
use ici_files::jasc_palette::{JascPalette, PaletteError, ParseIssue};
use ici_files::seconds::Seconds;
use ici_files::text::{chars_of, lines, read_u8, words};
use ici_files::wrapper::IndexedWrapper;

#[test]
fn jasc_to_text() {
    let palette = JascPalette::new(vec![
        Color::new(0, 10, 255, 255),
        Color::new(1, 2, 3, 4),
        Color::new(100, 99, 9, 0),
    ]);
    assert_eq!(
        palette.to_file_contents(),
        "JASC-PAL\n0100\n3\n0 10 255\n1 2 3 4\n100 99 9 0\n"
    );
    assert_eq!(
        JascPalette::new(vec![]).to_file_contents(),
        "JASC-PAL\n0100\n0\n"
    );
    let many = JascPalette::from(&vec![Color::black(); 1234]);
    assert!(many.to_file_contents().starts_with("JASC-PAL\n0100\n1234\n0 0 0\n"));
}

#[test]
fn jasc_from_text() {
    let text = "JASC-PAL\n0100\n3\n0 10 255\n1 2 3 4\n100 99 9 0\n";
    assert_eq!(
        JascPalette::from_file_contents(text),
        Ok(JascPalette::new(vec![
            Color::new(0, 10, 255, 255),
            Color::new(1, 2, 3, 4),
            Color::new(100, 99, 9, 0),
        ]))
    );
    assert_eq!(
        JascPalette::from_file_contents("JASC-PAL\r\n0100\r\n1\r\n \t7  +8\u{3000}009 \r\n"),
        Ok(JascPalette::new(vec![Color::new(7, 8, 9, 255)]))
    );
    assert_eq!(
        JascPalette::from_file_contents("JASC-PAL\n0100\n0"),
        Ok(JascPalette::new(vec![]))
    );
    assert_eq!(
        JascPalette::from_file_contents("JASC-PAL\n0100\n1\n1 2 3"),
        Ok(JascPalette::new(vec![Color::new(1, 2, 3, 255)]))
    );
}

#[test]
fn jasc_round_trip() {
    let colors = vec![
        Color::new(0, 0, 0, 0),
        Color::new(255, 255, 255, 255),
        Color::new(9, 10, 99, 100),
        Color::new(101, 199, 200, 254),
    ];
    let text = JascPalette::from(&colors).to_file_contents();
    assert_eq!(
        JascPalette::from_file_contents(&text),
        Ok(JascPalette::new(colors))
    );
}

#[test]
fn jasc_refuses() {
    let parse = |text: &str| JascPalette::from_file_contents(text).unwrap_err();
    assert_eq!(parse(""), PaletteError::ParseError(ParseIssue::FileDesc));
    assert_eq!(parse("\n"), PaletteError::InvalidFileType);
    assert_eq!(parse("JASC-PAL \n0100\n0\n"), PaletteError::InvalidFileType);
    assert_eq!(parse("jasc-pal\n0100\n0\n"), PaletteError::InvalidFileType);
    assert_eq!(parse("JASC-PAL\r"), PaletteError::InvalidFileType);
    assert_eq!(parse("JASC-PAL"), PaletteError::ParseError(ParseIssue::Version));
    assert_eq!(parse("JASC-PAL\n"), PaletteError::ParseError(ParseIssue::Version));
    assert_eq!(parse("JASC-PAL\n0101\n0\n"), PaletteError::UnsupportedVersion);
    assert_eq!(parse("JASC-PAL\n\n0\n"), PaletteError::UnsupportedVersion);
    assert_eq!(
        parse("JASC-PAL\n0100\n"),
        PaletteError::ParseError(ParseIssue::ColorCount)
    );
    for count in ["", " 1", "1 ", "256", "-1", "+", "1.0", "x", "١"] {
        assert_eq!(
            parse(&format!("JASC-PAL\n0100\n{count}\n1 2 3\n")),
            PaletteError::ParseError(ParseIssue::ColorCount)
        );
    }
    assert_eq!(
        parse("JASC-PAL\n0100\n2\n1 2 3\n"),
        PaletteError::IncorrectNumberOfColors
    );
    assert_eq!(
        parse("JASC-PAL\n0100\n1\n1 2 3\n\n"),
        PaletteError::IncorrectNumberOfColors
    );
    assert_eq!(
        parse("JASC-PAL\n0100\n2\n1 2 3\n1 2\n"),
        PaletteError::ParseError(ParseIssue::ColorSplitting(1))
    );
    assert_eq!(
        parse("JASC-PAL\n0100\n2\n1 2 3 4 5\n1 2\n"),
        PaletteError::ParseError(ParseIssue::ColorSplitting(0))
    );
    assert_eq!(
        parse("JASC-PAL\n0100\n1\n\n"),
        PaletteError::ParseError(ParseIssue::ColorSplitting(0))
    );
    assert_eq!(
        parse("JASC-PAL\n0100\n3\n1 2 3\n4 5 6\n1 2 256\n"),
        PaletteError::ParseError(ParseIssue::ColorNumbers(2))
    );
    assert_eq!(
        parse("JASC-PAL\n0100\n2\n1 2 x\n1 2\n"),
        PaletteError::ParseError(ParseIssue::ColorNumbers(0))
    );
    assert_eq!(
        parse("JASC-PAL\n0100\n1\n1 2 3 -4\n"),
        PaletteError::ParseError(ParseIssue::ColorNumbers(0))
    );
    assert_eq!(
        parse("JASC-PAL\n0100\n1\n1 2 3 99999999999999999999999999\n"),
        PaletteError::ParseError(ParseIssue::ColorNumbers(0))
    );
}

#[test]
fn jasc_count_goes_round_at_256() {
    let mut text = String::from("JASC-PAL\n0100\n1\n");
    for _ in 0..257 {
        text.push_str("1 2 3\n");
    }
    let palette = JascPalette::from_file_contents(&text).unwrap();
    assert_eq!(palette.colors.len(), 257);
}

#[test]
fn jasc_messages() {
    assert_eq!(PaletteError::InvalidFileType.message(), "Invalid file type");
    assert_eq!(
        PaletteError::UnsupportedVersion.message(),
        "Palette file version is not supported"
    );
    assert_eq!(
        PaletteError::IncorrectNumberOfColors.message(),
        "Palette file has the wrong number of colors"
    );
    assert_eq!(
        PaletteError::ParseError(ParseIssue::FileDesc).message(),
        "Error parsing the file type descriptor"
    );
    assert_eq!(
        PaletteError::ParseError(ParseIssue::Version).message(),
        "Error parsing the version"
    );
    assert_eq!(
        PaletteError::ParseError(ParseIssue::ColorCount).message(),
        "Error parsing the color count"
    );
    assert_eq!(
        PaletteError::ParseError(ParseIssue::ColorSplitting(0)).message(),
        "Error splitting color 0"
    );
    assert_eq!(
        PaletteError::ParseError(ParseIssue::ColorNumbers(1090)).message(),
        "Error parsing color 1090"
    );
    assert_eq!(
        PaletteError::ParseError(ParseIssue::ColorNumbers(usize::MAX)).message(),
        format!("Error parsing color {}", usize::MAX)
    );
}

#[test]
fn lines_words_and_numbers() {
    let text = |rows: Vec<Vec<char>>| -> Vec<String> {
        rows.into_iter().map(|row| row.into_iter().collect()).collect()
    };
    let split = |s: &str| text(lines(&chars_of(s)));
    assert_eq!(split(""), Vec::<String>::new());
    assert_eq!(split("a"), vec!["a"]);
    assert_eq!(split("a\n"), vec!["a"]);
    assert_eq!(split("a\nb"), vec!["a", "b"]);
    assert_eq!(split("a\r\nb\r\n"), vec!["a", "b"]);
    assert_eq!(split("a\rb\r"), vec!["a\rb\r"]);
    assert_eq!(split("\n\n"), vec!["", ""]);
    assert_eq!(split("\r\n\r\r\n"), vec!["", "\r"]);
    assert_eq!(split("é\nü"), vec!["é", "ü"]);
    for s in ["", "a", "a\n", "a\nb", "a\r\nb\r\n", "a\rb\r", "\n\n", "\r\n\r\r\n", "x\n\ny\r"] {
        let expected: Vec<String> = s.lines().map(|line| line.to_string()).collect();
        assert_eq!(split(s), expected);
    }
    let parts = |s: &str| text(words(&chars_of(s)));
    for s in [
        "",
        " ",
        "a",
        " a ",
        "a b",
        "  a \t b\u{85}c\u{a0}d\u{1680}e\u{2003}f\u{2028}g\u{2029}h\u{202f}i\u{205f}j\u{3000}k  ",
        "a\u{200b}b\u{feff}c",
        "\u{b}\u{c}x\r\ny",
    ] {
        let expected: Vec<String> = s.split_whitespace().map(|w| w.to_string()).collect();
        assert_eq!(parts(s), expected);
    }
    for s in [
        "", "+", "-", "0", "+0", "-0", "7", "007", "255", "256", "+255", "++1", "1+", "0000000000255",
        "99999999999999999999", "12a", "a12", " 1", "1 ", "٣", "2٣",
    ] {
        let expected: Option<u8> = s.parse().ok();
        assert_eq!(read_u8(&chars_of(s)), expected);
    }
    for n in 0..=255u8 {
        assert_eq!(read_u8(&chars_of(&n.to_string())), Some(n));
    }
}

#[test]
fn seconds_by_their_bits() {
    let seconds = |value: f64| Seconds::from_bits(value.to_bits());
    for value in [
        0.0,
        -0.0,
        1.0,
        -1.0,
        0.3,
        -0.1,
        f64::MIN_POSITIVE,
        -f64::MIN_POSITIVE,
        5e-324,
        -5e-324,
        f64::MAX,
        f64::MIN,
        f64::INFINITY,
        f64::NEG_INFINITY,
        f64::NAN,
        -f64::NAN,
        f64::from_bits(0x7FF0_0000_0000_0001),
        f64::from_bits(0xFFFF_FFFF_FFFF_FFFF),
    ] {
        let s = seconds(value);
        assert_eq!(s.to_bits(), value.to_bits());
        assert_eq!(s.nan(), value.is_nan());
        assert_eq!(s.negative(), value < 0.0);
        assert_eq!(s.zero_or_negative(), value <= 0.0);
        let mut bytes = vec![1, 2];
        s.write_be(&mut bytes);
        assert_eq!(&bytes[..2], &[1, 2]);
        assert_eq!(&bytes[2..], &value.to_be_bytes());
        bytes.push(9);
        assert_eq!(Seconds::read_be(&bytes, 2), s);
    }
    assert_eq!(
        Seconds::from_bits(ici_files::seconds::SKIP_BITS),
        seconds(-0.1)
    );
    assert_eq!(ici_files::seconds::POSITIVE_ZERO_BITS, 0.0f64.to_bits());
    assert_eq!(ici_files::seconds::NEGATIVE_ZERO_BITS, (-0.0f64).to_bits());
    assert_eq!(
        ici_files::seconds::POSITIVE_INFINITY_BITS,
        f64::INFINITY.to_bits()
    );
    assert_eq!(
        ici_files::seconds::NEGATIVE_INFINITY_BITS,
        f64::NEG_INFINITY.to_bits()
    );
}

#[test]
fn wrapper_passes_calls_on() {
    let seconds = |value: f64| Seconds::from_bits(value.to_bits());
    let palette = vec![Color::black(), Color::white(), Color::red()];
    let still = IndexedImage::new(2, 1, palette.clone(), vec![2, 1]).unwrap();
    let moving = AnimatedIndexedImage::new(
        2,
        1,
        seconds(0.5),
        3,
        palette.clone(),
        vec![0, 1, 1, 2, 2, 0],
        PlayType::Loops,
    )
    .unwrap();
    let mut a = IndexedWrapper::from(still.clone());
    let mut b: IndexedWrapper = moving.clone().into();
    assert_eq!(a, IndexedWrapper::Static(still.clone()));
    assert_eq!(b, IndexedWrapper::Animated(moving.clone()));
    assert!(!a.is_animation());
    assert!(b.is_animation());
    assert_eq!(a.frame_count(), 1);
    assert_eq!(b.frame_count(), 3);
    assert!(!a.animating());
    assert!(b.animating());
    assert_eq!(a.size(), (2, 1));
    assert_eq!(b.size(), (2, 1));
    assert_eq!((a.width(), a.height()), (2, 1));
    assert_eq!((b.width(), b.height()), (2, 1));
    assert_eq!(a.get_pixels(), vec![2, 1]);
    assert_eq!(b.get_pixels(), vec![0, 1, 1, 2, 2, 0]);
    assert_eq!(a.get_pixel_index(1, 0), Ok(1));
    assert_eq!(
        b.get_pixel_index(1, 1),
        Err(IndexedImageError::IndexOutOfRange(1, 1, "height"))
    );
    assert_eq!(a.get_color(2), Ok(Color::red()));
    assert_eq!(
        b.get_color(3),
        Err(IndexedImageError::IndexOutOfRange(3, 3, "palette"))
    );
    assert_eq!(a.min_palette_size_supported(), 2);
    assert_eq!(b.min_palette_size_supported(), 2);
    assert_eq!(a.get_palette(), palette);
    assert_eq!(a.set_color(0, Color::blue()), Ok(()));
    assert_eq!(b.set_color(0, Color::blue()), Ok(()));
    assert_eq!(a.get_color(0), Ok(Color::blue()));
    assert_eq!(b.get_color(0), Ok(Color::blue()));
    assert_eq!(
        a.set_palette(&[Color::red()]),
        Err(IndexedImageError::PaletteTooFewColors(2))
    );
    assert_eq!(b.set_palette(&[Color::red(); 2]), Ok(()));
    assert_eq!(b.get_palette(), vec![Color::red(); 2]);
    a.set_palette_replace_color(&[Color::red()], Color::green());
    assert_eq!(
        a.get_palette(),
        vec![Color::red(), Color::green(), Color::green()]
    );
    assert_eq!(
        a.set_palette_replace_id(&[Color::red()], 1),
        Err(IndexedImageError::IdOutsideOfNewPalette)
    );
    assert_eq!(b.set_palette_replace_id(&[Color::red()], 0), Ok(()));
    assert_eq!(b.get_pixels(), vec![0; 6]);
    assert_eq!(b.min_palette_size_supported(), 0);

    let before = a.clone();
    a.update(seconds(-1.0));
    a.reset();
    a.set_animate(true);
    assert_eq!(a, before);
    assert!(!a.animating());
    b.update(seconds(-1.0));
    match &b {
        IndexedWrapper::Animated(image) => assert_eq!(image.current_frame(), 1),
        IndexedWrapper::Static(_) => unreachable!(),
    }
    b.set_animate(false);
    assert!(!b.animating());
    b.update(seconds(-1.0));
    b.reset();
    assert!(b.animating());
    match &b {
        IndexedWrapper::Animated(image) => assert_eq!(image.current_frame(), 0),
        IndexedWrapper::Static(_) => unreachable!(),
    }
}
