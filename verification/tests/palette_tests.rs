use ici_files::color::Color;
use ici_files::errors::{FormatIssue, IndexedImageError};
use ici_files::palette::{distinct_count, simplify_palette, simplify_palette_to_fit};
use ici_files::palette::read;
use ici_files::palette::FilePalette::{Colors, Name, NoData, ID};
use ici_files::palette::{PAL_COLORS, PAL_ID, PAL_NAME, PAL_NO_DATA};

#[test]
fn write_no_data() {
    let mut output = vec![];
    ici_files::palette::write(&NoData, &[], &mut output).unwrap();
    assert_eq!(output, vec![PAL_NO_DATA]);

    let mut output = vec![];
    ici_files::palette::write(&NoData, &[Color::new(255, 45, 231, 2)], &mut output).unwrap();
    assert_eq!(output, vec![PAL_NO_DATA]);
}

#[test]
fn write_id() {
    let mut output = vec![];
    ici_files::palette::write(&ID(5), &[], &mut output).unwrap();
    assert_eq!(output, vec![PAL_ID, 0, 5]);

    let mut output = vec![];
    ici_files::palette::write(&ID(256), &[Color::new(255, 45, 231, 2)], &mut output).unwrap();
    assert_eq!(output, vec![PAL_ID, 1, 0]);
}

#[test]
fn write_name() {
    let mut output = vec![];
    ici_files::palette::write(&Name("test".to_string()), &[], &mut output).unwrap();
    assert_eq!(output, vec![PAL_NAME, 4, b't', b'e', b's', b't']);

    let mut output = vec![];
    ici_files::palette::write(
        &Name("😺".to_string()),
        &[Color::new(255, 45, 231, 2)],
        &mut output,
    )
    .unwrap();
    assert_eq!(output, vec![PAL_NAME, 4, 240, 159, 152, 186]);
}

#[test]
fn write_colors() {
    let mut output = vec![];
    ici_files::palette::write(&Colors, &[Color::new(100, 101, 102, 103)], &mut output).unwrap();
    assert_eq!(output, vec![PAL_COLORS, 1, 100, 101, 102, 103]);

    let mut output = vec![];
    ici_files::palette::write(
        &Colors,
        &[Color::new(100, 101, 102, 103), Color::new(0, 0, 0, 255)],
        &mut output,
    )
    .unwrap();
    assert_eq!(
        output,
        vec![PAL_COLORS, 2, 100, 101, 102, 103, 0, 0, 0, 255]
    );
}

#[test]
fn read_no_data() {
    let (skip, pal_type, colors) = read(0, &[PAL_NO_DATA]).unwrap();
    assert_eq!(skip, 1);
    assert_eq!(pal_type, NoData);
    assert_eq!(colors, None);
}

#[test]
fn read_id() {
    let (skip, pal_type, colors) = read(0, &[PAL_ID, 0, 5]).unwrap();
    assert_eq!(skip, 3);
    assert_eq!(pal_type, ID(5));
    assert_eq!(colors, None);
}

#[test]
fn read_name() {
    let (skip, pal_type, colors) = read(0, &[PAL_NAME, 4, 240, 159, 152, 186]).unwrap();
    assert_eq!(skip, 6);
    assert_eq!(pal_type, Name("😺".to_string()));
    assert_eq!(colors, None);
}

#[test]
fn read_colors() {
    let (skip, pal_type, colors) =
        read(0, &[PAL_COLORS, 2, 100, 101, 102, 103, 0, 0, 0, 255]).unwrap();
    assert_eq!(skip, 10);
    assert_eq!(pal_type, Colors);
    assert_eq!(
        colors,
        Some(vec![
            Color::new(100, 101, 102, 103),
            Color::new(0, 0, 0, 255)
        ])
    );
}

#[test]
fn write_data_before() {
    let mut output = vec![1, 1, 1, 1];
    ici_files::palette::write(&ID(5), &[], &mut output).unwrap();
    assert_eq!(output, vec![1, 1, 1, 1, PAL_ID, 0, 5]);
}

#[test]
fn read_data_either_side() {
    let bytes = [
        1, 1, 1, 1, PAL_COLORS, 2, 100, 101, 102, 103, 0, 0, 0, 255, 2, 2, 2, 2,
    ];
    let start = 4;
    let (skip, pal_type, colors) = read(start, &bytes).unwrap();
    assert_eq!(skip, 10);
    assert_eq!(pal_type, Colors);
    assert_eq!(
        colors,
        Some(vec![
            Color::new(100, 101, 102, 103),
            Color::new(0, 0, 0, 255)
        ])
    );
    assert_eq!(bytes[start + skip..], [2, 2, 2, 2]);
}

fn invalid(offset: usize, issue: FormatIssue) -> IndexedImageError {
    IndexedImageError::InvalidFileFormat(offset, issue)
}

#[test]
fn read_refuses_short_and_unknown_blocks() {
    assert_eq!(read(0, &[]), Err(invalid(0, FormatIssue::MissingPaletteFormat)));
    assert_eq!(
        read(3, &[PAL_NO_DATA, 0, 0]),
        Err(invalid(3, FormatIssue::MissingPaletteFormat))
    );
    assert_eq!(
        read(7, &[PAL_NO_DATA]),
        Err(invalid(7, FormatIssue::MissingPaletteFormat))
    );
    assert_eq!(
        read(usize::MAX, &[PAL_NO_DATA]),
        Err(invalid(usize::MAX, FormatIssue::MissingPaletteFormat))
    );
    assert_eq!(
        read(0, &[4]),
        Err(invalid(1, FormatIssue::UnsupportedPaletteType(4)))
    );
    assert_eq!(
        read(2, &[0, 0, 255, 0]),
        Err(invalid(3, FormatIssue::UnsupportedPaletteType(255)))
    );
    assert_eq!(read(0, &[PAL_ID]), Err(invalid(1, FormatIssue::MissingPaletteId)));
    assert_eq!(
        read(0, &[PAL_ID, 9]),
        Err(invalid(1, FormatIssue::MissingPaletteId))
    );
    assert_eq!(
        read(0, &[PAL_NAME]),
        Err(invalid(1, FormatIssue::MissingPaletteNameLength))
    );
    assert_eq!(
        read(0, &[PAL_NAME, 3, b'a', b'b']),
        Err(invalid(2, FormatIssue::IncompletePaletteName))
    );
    assert_eq!(
        read(0, &[PAL_COLORS]),
        Err(invalid(1, FormatIssue::MissingPaletteColorCount))
    );
    assert_eq!(
        read(0, &[PAL_COLORS, 2, 1, 2, 3, 4, 5, 6, 7]),
        Err(invalid(2, FormatIssue::IncompletePaletteColors(2)))
    );
    assert_eq!(
        read(1, &[9, PAL_COLORS, 1, 1, 2, 3]),
        Err(invalid(3, FormatIssue::IncompletePaletteColors(1)))
    );
}

#[test]
fn read_name_that_is_no_utf8() {
    assert_eq!(
        read(0, &[PAL_NAME, 2, 0xC3, 0x28]),
        Err(IndexedImageError::PaletteNameNotUtf8)
    );
    assert_eq!(
        read(0, &[PAL_NAME, 1, 0xFF]),
        Err(IndexedImageError::PaletteNameNotUtf8)
    );
    assert_eq!(
        read(0, &[PAL_NAME, 3, 0xED, 0xA0, 0x80]),
        Err(IndexedImageError::PaletteNameNotUtf8)
    );
    assert_eq!(
        read(0, &[PAL_NAME, 2, 0xC3, 0xA9, 7]),
        Ok((4, Name("é".to_string()), None))
    );
}

#[test]
fn read_edge_blocks() {
    assert_eq!(read(0, &[PAL_NAME, 0]), Ok((2, Name(String::new()), None)));
    assert_eq!(read(0, &[PAL_COLORS, 0]), Ok((2, Colors, Some(vec![]))));
    assert_eq!(read(0, &[PAL_ID, 255, 254]), Ok((3, ID(65534), None)));
    let mut bytes = vec![PAL_COLORS, 255];
    for i in 0..255u8 {
        bytes.extend_from_slice(&[i, 1, 2, 3]);
    }
    let (skip, palette, colors) = read(0, &bytes).unwrap();
    assert_eq!(skip, 255 * 4 + 2);
    assert_eq!(palette, Colors);
    let colors = colors.unwrap();
    assert_eq!(colors.len(), 255);
    assert_eq!(colors[254], Color::new(254, 1, 2, 3));
}

#[test]
fn write_name_length_limits() {
    let mut output = vec![9];
    assert_eq!(
        ici_files::palette::write(&Name(String::new()), &[], &mut output),
        Err(IndexedImageError::PaletteNameTooShort)
    );
    assert_eq!(output, vec![9, PAL_NAME]);
    let mut output = vec![];
    assert_eq!(
        ici_files::palette::write(&Name("é".repeat(128)), &[], &mut output),
        Err(IndexedImageError::PaletteNameTooLong)
    );
    assert_eq!(output, vec![PAL_NAME]);
    let mut output = vec![];
    let longest = format!("{}a", "é".repeat(127));
    assert_eq!(
        ici_files::palette::write(&Name(longest.clone()), &[], &mut output),
        Ok(())
    );
    assert_eq!(output.len(), 257);
    assert_eq!(output[1], 255);
    assert_eq!(read(0, &output), Ok((257, Name(longest), None)));
}

#[test]
fn write_then_read_each_descriptor() {
    let colors = vec![Color::new(1, 2, 3, 4), Color::new(5, 6, 7, 8)];
    for palette in [NoData, ID(0xABCD), Name("palette".to_string()), Colors] {
        let mut output = vec![7, 7];
        ici_files::palette::write(&palette, &colors, &mut output).unwrap();
        let written = output.len() - 2;
        output.extend_from_slice(&[1, 2, 3]);
        let (skip, found, table) = read(2, &output).unwrap();
        assert_eq!(skip, written);
        assert_eq!(found, palette);
        if palette == Colors {
            assert_eq!(table, Some(colors.clone()));
        } else {
            assert_eq!(table, None);
        }
    }
}

#[test]
fn write_more_colours_than_a_byte_counts() {
    let colors = vec![Color::new(1, 2, 3, 4); 258];
    let mut output = vec![];
    ici_files::palette::write(&Colors, &colors, &mut output).unwrap();
    assert_eq!(output.len(), 2 + 258 * 4);
    assert_eq!(output[1], 2);
}

#[test]
fn tags() {
    assert_eq!(NoData.to_byte(), 0);
    assert_eq!(ID(9).to_byte(), 1);
    assert_eq!(Name("x".to_string()).to_byte(), 2);
    assert_eq!(Colors.to_byte(), 3);
}

#[test]
fn distinct_colours() {
    assert_eq!(distinct_count(&[]), 0);
    assert_eq!(distinct_count(&[Color::red()]), 1);
    assert_eq!(
        distinct_count(&[Color::red(), Color::blue(), Color::red(), Color::red()]),
        2
    );
    assert_eq!(
        distinct_count(&[
            Color::new(0, 0, 0, 0),
            Color::new(0, 0, 0, 1),
            Color::new(0, 0, 1, 0),
            Color::new(0, 0, 0, 1)
        ]),
        3
    );
}

#[test]
fn simplify_merges_near_colours() {
    let colors = vec![
        Color::new(10, 10, 10, 255),
        Color::new(200, 0, 0, 255),
        Color::new(12, 10, 10, 255),
    ];
    assert_eq!(simplify_palette(&colors, 2), colors);
    assert_eq!(
        simplify_palette(&colors, 3),
        vec![
            Color::new(11, 10, 10, 255),
            Color::new(200, 0, 0, 255),
            Color::new(11, 10, 10, 255),
        ]
    );
    assert_eq!(simplify_palette(&colors, 0), colors);
    assert_eq!(simplify_palette(&[Color::red()], 1021), vec![Color::red()]);
}

#[test]
fn simplify_follows_the_order_of_the_palette() {
    let colors = vec![
        Color::new(0, 0, 0, 0),
        Color::new(1, 0, 0, 0),
        Color::new(2, 0, 0, 0),
    ];
    assert_eq!(
        simplify_palette(&colors, 1000),
        vec![Color::new(0, 0, 0, 0); 3]
    );
    let one = simplify_palette(
        &[
            Color::new(0, 0, 0, 0),
            Color::new(255, 255, 255, 255),
            Color::new(0, 255, 0, 255),
            Color::new(9, 9, 9, 9),
        ],
        1021,
    );
    assert_eq!(one.len(), 4);
    assert!(one.iter().all(|c| *c == one[0]));
}

#[test]
fn simplify_to_fit() {
    let colors = vec![
        Color::new(10, 10, 10, 255),
        Color::new(200, 0, 0, 255),
        Color::new(12, 10, 10, 255),
        Color::new(0, 0, 200, 255),
    ];
    assert_eq!(simplify_palette_to_fit(&colors, 5), colors);
    let three = simplify_palette_to_fit(&colors, 4);
    assert_eq!(
        three,
        vec![
            Color::new(11, 10, 10, 255),
            Color::new(200, 0, 0, 255),
            Color::new(11, 10, 10, 255),
            Color::new(0, 0, 200, 255),
        ]
    );
    let one = simplify_palette_to_fit(&colors, 2);
    assert_eq!(one.len(), 4);
    assert_eq!(distinct_count(&one), 1);
    assert_eq!(simplify_palette_to_fit(&[], 1), vec![]);
    assert_eq!(simplify_palette_to_fit(&[], 9), vec![]);
}
