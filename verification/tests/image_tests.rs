use ici_files::color::Color;
use ici_files::file::FileType::Image;
use ici_files::file::HEADER;
use ici_files::image::IndexedImage;
use ici_files::palette::FilePalette::{Colors, Name, NoData, ID};

fn sample() -> IndexedImage {
    IndexedImage::new(
        2,
        2,
        vec![
            Color::transparent(),
            Color::new(50, 51, 52, 53),
            Color::new(60, 61, 62, 63),
        ],
        vec![0, 0, 1, 2],
    )
    .unwrap()
}

#[test]
fn image_write_and_read_no_data() {
    let width = 2;
    let height = 2;
    let input = sample();
    let bytes = input.to_file_contents(&NoData).unwrap();
    assert_eq!(
        bytes,
        vec![
            HEADER[0],
            HEADER[1],
            HEADER[2],
            HEADER[3],
            Image.to_byte(),
            NoData.to_byte(),
            width,
            height,
            0,
            0,
            1,
            2,
        ]
    );
    let (output, pal) = IndexedImage::from_file_contents(&bytes).unwrap();
    let mut cloned = input.clone();
    cloned
        .set_palette(&[
            Color::transparent(),
            Color::transparent(),
            Color::transparent(),
        ])
        .unwrap();
    assert_eq!(cloned, output);
    assert_eq!(pal, NoData);
}

#[test]
fn image_write_and_read_id() {
    let width = 2;
    let height = 2;
    let input = sample();
    let bytes = input.to_file_contents(&ID(15)).unwrap();
    assert_eq!(
        bytes,
        vec![
            HEADER[0],
            HEADER[1],
            HEADER[2],
            HEADER[3],
            Image.to_byte(),
            ID(0).to_byte(),
            0,
            15,
            width,
            height,
            0,
            0,
            1,
            2,
        ]
    );
    let (output, pal) = IndexedImage::from_file_contents(&bytes).unwrap();
    let mut cloned = input.clone();
    cloned
        .set_palette(&[
            Color::transparent(),
            Color::transparent(),
            Color::transparent(),
        ])
        .unwrap();
    assert_eq!(cloned, output);
    assert_eq!(pal, ID(15));
}

#[test]
fn image_write_and_read_name() {
    let width = 2;
    let height = 2;
    let input = sample();
    let bytes = input.to_file_contents(&Name("Test".to_string())).unwrap();
    assert_eq!(
        bytes,
        vec![
            HEADER[0],
            HEADER[1],
            HEADER[2],
            HEADER[3],
            Image.to_byte(),
            Name(String::new()).to_byte(),
            4,
            b'T',
            b'e',
            b's',
            b't',
            width,
            height,
            0,
            0,
            1,
            2,
        ]
    );
    let (output, pal) = IndexedImage::from_file_contents(&bytes).unwrap();
    let mut cloned = input.clone();
    cloned
        .set_palette(&[
            Color::transparent(),
            Color::transparent(),
            Color::transparent(),
        ])
        .unwrap();
    assert_eq!(cloned, output);
    assert_eq!(pal, Name("Test".to_string()));
}

#[test]
fn image_write_and_read_colors() {
    let width = 2;
    let height = 2;
    let input = sample();
    let bytes = input.to_file_contents(&Colors).unwrap();
    assert_eq!(
        bytes,
        vec![
            HEADER[0],
            HEADER[1],
            HEADER[2],
            HEADER[3],
            Image.to_byte(),
            Colors.to_byte(),
            3,
            0,
            0,
            0,
            0,
            50,
            51,
            52,
            53,
            60,
            61,
            62,
            63,
            width,
            height,
            0,
            0,
            1,
            2,
        ]
    );
    let (output, pal) = IndexedImage::from_file_contents(&bytes).unwrap();
    assert_eq!(input, output);
    assert_eq!(pal, Colors);
}

#[test]
fn image_set_palette() {
    let image = IndexedImage::new(
        3,
        3,
        vec![Color::new(255, 255, 255, 255), Color::new(0, 0, 0, 255)],
        vec![0, 1, 0, 1, 0, 1, 0, 1, 0],
    )
    .unwrap();
    let mut modified = image.clone();
    modified
        .set_palette(&[Color::new(255, 0, 0, 255), Color::new(0, 255, 0, 255)])
        .unwrap();
    assert_eq!(
        image.min_palette_size_supported(),
        modified.min_palette_size_supported()
    );
    assert_eq!(image.height(), modified.height());
    assert_eq!(image.width(), modified.width());
    assert_eq!(image.get_pixels(), image.get_pixels());
    assert_eq!(
        modified.get_palette(),
        vec![Color::new(255, 0, 0, 255), Color::new(0, 255, 0, 255)]
    );
}

#[test]
fn image_set_palette_id() {
    let image = IndexedImage::new(
        2,
        4,
        vec![
            Color::new(1, 1, 1, 1),
            Color::new(2, 2, 2, 2),
            Color::new(3, 3, 3, 3),
        ],
        vec![0, 1, 2, 2, 0, 1, 2, 0],
    )
    .unwrap();
    let mut modified = image.clone();
    modified
        .set_palette_replace_id(&[Color::new(5, 5, 5, 5)], 0)
        .unwrap();
    assert_eq!(modified.min_palette_size_supported(), 0);
    assert_eq!(image.height(), modified.height());
    assert_eq!(image.width(), modified.width());
    assert_eq!(image.get_pixels(), image.get_pixels());
    assert_eq!(modified.get_palette(), vec![Color::new(5, 5, 5, 5)]);
}

#[test]
fn image_set_palette_color() {
    let image = IndexedImage::new(
        2,
        4,
        vec![
            Color::new(1, 1, 1, 1),
            Color::new(2, 2, 2, 2),
            Color::new(3, 3, 3, 3),
        ],
        vec![0, 1, 2, 2, 0, 1, 2, 0],
    )
    .unwrap();
    let mut modified = image.clone();
    modified.set_palette_replace_color(&[Color::new(5, 5, 5, 5)], Color::new(5, 5, 5, 5));
    assert_eq!(modified.min_palette_size_supported(), 2);
    assert_eq!(image.height(), modified.height());
    assert_eq!(image.width(), modified.width());
    assert_eq!(image.get_pixels(), image.get_pixels());
    assert_eq!(
        modified.get_palette(),
        vec![
            Color::new(5, 5, 5, 5),
            Color::new(5, 5, 5, 5),
            Color::new(5, 5, 5, 5),
        ]
    );
}

#[test]
fn test_ignores_extra_data() {
    let data = vec![
        HEADER[0],
        HEADER[1],
        HEADER[2],
        HEADER[3],
        Image.to_byte(),
        Colors.to_byte(),
        3,
        0,
        0,
        0,
        0,
        50,
        51,
        52,
        53,
        60,
        61,
        62,
        63,
        2,
        2,
        0,
        0,
        1,
        2,
        100,
        100,
        100,
    ];
    let image = sample();
    let input = IndexedImage::from_file_contents(&data).unwrap();
    assert_eq!(image, input.0);
}

#[test]
fn image_pixel_accessors() {
    let mut image = IndexedImage::new(
        2,
        4,
        vec![
            Color::new(1, 1, 1, 1),
            Color::new(2, 2, 2, 2),
            Color::new(3, 3, 3, 3),
        ],
        vec![0, 1, 2, 2, 0, 1, 2, 0],
    )
    .unwrap();
    let idx = image.get_pixel_index(1, 2).unwrap();
    assert!(image.get_pixel_index(4, 4).is_err());
    assert_eq!(image.get_pixel(idx).unwrap(), 1);
    assert!(image.set_pixel(idx, 2).is_ok());
    assert_eq!(image.get_pixel(idx).unwrap(), 2);
}

use ici_files::errors::{FormatIssue, IndexedImageError};
use ici_files::file::FileType;
use ici_files::image::Turn;
use ici_files::scaling::Scaling;

fn grid(width: u8, height: u8, pixels: Vec<u8>) -> IndexedImage {
    IndexedImage::new(
        width,
        height,
        vec![Color::black(), Color::white(), Color::red()],
        pixels,
    )
    .unwrap()
}

#[test]
fn inline_colours_come_back_byte_for_byte() {
    let input = sample();
    let bytes = input.to_file_contents(&Colors).unwrap();
    let (output, palette) = IndexedImage::from_file_contents(&bytes).unwrap();
    assert_eq!(output, input);
    assert_eq!(output.to_file_contents(&palette).unwrap(), bytes);
}

#[test]
fn no_data_gives_a_transparent_palette_up_to_the_highest_pixel() {
    let input = sample();
    let bytes = input.to_file_contents(&NoData).unwrap();
    let (mut output, palette) = IndexedImage::from_file_contents(&bytes).unwrap();
    assert_eq!(palette, NoData);
    assert_eq!(
        output.get_palette(),
        vec![
            Color::transparent(),
            Color::transparent(),
            Color::transparent()
        ]
    );
    assert_eq!(output.min_palette_size_supported(), 2);
    output.set_palette(input.get_palette()).unwrap();
    assert_eq!(output, input);
}

#[test]
fn image_written_twice() {
    let image = sample();
    for palette in [NoData, ID(7), Name("n".to_string()), Colors] {
        assert_eq!(
            image.to_file_contents(&palette),
            image.to_file_contents(&palette)
        );
    }
}

#[test]
fn image_name_errors() {
    let image = sample();
    assert_eq!(
        image.to_file_contents(&Name(String::new())),
        Err(IndexedImageError::PaletteNameTooShort)
    );
    assert_eq!(
        image.to_file_contents(&Name("b".repeat(256))),
        Err(IndexedImageError::PaletteNameTooLong)
    );
}

#[test]
fn new_refuses_in_order() {
    let palette = vec![Color::white()];
    assert_eq!(
        IndexedImage::new(0, 0, vec![], vec![]),
        Err(IndexedImageError::WidthIsZero)
    );
    assert_eq!(
        IndexedImage::new(0, 1, palette.clone(), vec![0]),
        Err(IndexedImageError::WidthIsZero)
    );
    assert_eq!(
        IndexedImage::new(1, 0, vec![], vec![]),
        Err(IndexedImageError::HeightIsZero)
    );
    assert_eq!(
        IndexedImage::new(1, 1, vec![], vec![]),
        Err(IndexedImageError::PaletteIsEmpty)
    );
    assert_eq!(
        IndexedImage::new(2, 3, palette.clone(), vec![0; 5]),
        Err(IndexedImageError::MissingData(5, 6))
    );
    assert_eq!(
        IndexedImage::new(2, 3, palette.clone(), vec![0; 7]),
        Err(IndexedImageError::MissingData(7, 6))
    );
    let image = IndexedImage::new(255, 255, palette, vec![9; 255 * 255]).unwrap();
    assert_eq!(image.size(), (255, 255));
    assert_eq!(image.min_palette_size_supported(), 9);
    assert_eq!(image.get_pixel_index(254, 254), Ok(255 * 255 - 1));
}

#[test]
fn blank_image() {
    let image = IndexedImage::blank(3, 2, vec![Color::red()]);
    assert_eq!(image.size(), (3, 2));
    assert_eq!(image.get_pixels(), vec![0; 6]);
    assert_eq!(image.min_palette_size_supported(), 0);
    assert_eq!(image.get_palette(), vec![Color::red()]);
}

#[test]
fn accessor_errors() {
    let mut image = grid(2, 3, vec![0, 1, 2, 0, 1, 2]);
    assert_eq!(
        image.get_pixel(6),
        Err(IndexedImageError::IndexOutOfRange(6, 6, "pixels"))
    );
    assert_eq!(
        image.set_pixel(6, 0),
        Err(IndexedImageError::IndexOutOfRange(6, 6, "pixels"))
    );
    assert_eq!(
        image.get_pixel_index(2, 0),
        Err(IndexedImageError::IndexOutOfRange(2, 2, "width"))
    );
    assert_eq!(
        image.get_pixel_index(2, 3),
        Err(IndexedImageError::IndexOutOfRange(2, 2, "width"))
    );
    assert_eq!(
        image.get_pixel_index(0, 3),
        Err(IndexedImageError::IndexOutOfRange(3, 3, "height"))
    );
    assert_eq!(image.get_pixel_index(1, 2), Ok(5));
    assert_eq!(image.get_pixel_index_unchecked(1, 2), 5);
    assert_eq!(image.get_pixel_index_unchecked(200, 200), 600);
    assert_eq!(
        image.get_color(3),
        Err(IndexedImageError::IndexOutOfRange(3, 3, "palette"))
    );
    assert_eq!(image.get_color(2), Ok(Color::red()));
    assert_eq!(image.get_color_unchecked(1), Color::white());
    assert_eq!(
        image.set_color(3, Color::blue()),
        Err(IndexedImageError::IndexOutOfRange(3, 3, "palette"))
    );
    assert_eq!(image.set_color(0, Color::blue()), Ok(()));
    image.set_color_unchecked(1, Color::green());
    assert_eq!(
        image.get_palette(),
        vec![Color::blue(), Color::green(), Color::red()]
    );
    assert_eq!(image.get_pixel_unchecked(2), 2);
    image.set_pixel_unchecked(2, 1);
    assert_eq!(image.get_pixels(), vec![0, 1, 1, 0, 1, 2]);
}

#[test]
fn a_pixel_may_name_a_colour_that_is_missing() {
    let mut image = grid(1, 2, vec![0, 1]);
    assert_eq!(image.set_pixel(0, 200), Ok(()));
    assert_eq!(image.get_pixel(0), Ok(200));
    assert_eq!(image.min_palette_size_supported(), 1);
    assert_eq!(image.set_palette(&[Color::red()]), Ok(()));
    assert_eq!(image.get_pixels(), vec![200, 1]);
}

#[test]
fn a_palette_with_256_colours() {
    let mut image = IndexedImage::new(1, 1, vec![Color::white(); 256], vec![255]).unwrap();
    assert_eq!(image.get_color(255), Ok(Color::white()));
    assert_eq!(image.set_color(255, Color::red()), Ok(()));
    assert_eq!(image.get_color(255), Ok(Color::red()));
    image
        .set_palette_replace_id(&vec![Color::blue(); 256], 255)
        .unwrap();
    assert_eq!(image.get_pixels(), vec![255]);
    assert_eq!(image.min_palette_size_supported(), 255);
}

#[test]
fn set_palette_too_short() {
    let mut image = IndexedImage::new(1, 2, vec![Color::white(); 5], vec![4, 0]).unwrap();
    let before = image.clone();
    assert_eq!(
        image.set_palette(&[Color::red(); 3]),
        Err(IndexedImageError::PaletteTooFewColors(4))
    );
    assert_eq!(image, before);
    assert_eq!(image.set_palette(&[Color::red(); 4]), Ok(()));
    assert_eq!(image.get_palette(), vec![Color::red(); 4]);
    assert_eq!(image.get_pixels(), vec![4, 0]);
}

#[test]
fn set_palette_replace_id_redirects_and_recomputes() {
    let mut image = IndexedImage::new(2, 2, vec![Color::white(); 5], vec![4, 0, 2, 1]).unwrap();
    let before = image.clone();
    assert_eq!(
        image.set_palette_replace_id(&[Color::red(); 2], 2),
        Err(IndexedImageError::IdOutsideOfNewPalette)
    );
    assert_eq!(image, before);
    assert_eq!(image.set_palette_replace_id(&[Color::red(); 2], 1), Ok(()));
    assert_eq!(image.get_pixels(), vec![1, 0, 1, 1]);
    assert_eq!(image.min_palette_size_supported(), 1);
    assert_eq!(image.get_palette(), vec![Color::red(); 2]);
}

#[test]
fn set_palette_replace_color_pads() {
    let mut image = IndexedImage::new(1, 2, vec![Color::white(); 5], vec![4, 0]).unwrap();
    image.set_palette_replace_color(&[Color::red(), Color::green()], Color::blue());
    assert_eq!(
        image.get_palette(),
        vec![
            Color::red(),
            Color::green(),
            Color::blue(),
            Color::blue(),
            Color::blue()
        ]
    );
    image.set_palette_replace_color(&[Color::red(); 7], Color::blue());
    assert_eq!(image.get_palette(), vec![Color::red(); 7]);
    assert_eq!(image.min_palette_size_supported(), 4);
}

#[test]
fn turns_and_flips() {
    // 0 1 2
    // 3 4 5
    let image = grid(3, 2, vec![0, 1, 2, 3, 4, 5]);
    let cw = image.rotate_cw();
    assert_eq!(cw.size(), (2, 3));
    assert_eq!(cw.get_pixels(), vec![3, 0, 4, 1, 5, 2]);
    let ccw = image.rotate_ccw();
    assert_eq!(ccw.size(), (2, 3));
    assert_eq!(ccw.get_pixels(), vec![2, 5, 1, 4, 0, 3]);
    let mirrored = image.flip_horizontal().unwrap();
    assert_eq!(mirrored.size(), (3, 2));
    assert_eq!(mirrored.get_pixels(), vec![2, 1, 0, 5, 4, 3]);
    let upside_down = image.flip_vertical().unwrap();
    assert_eq!(upside_down.size(), (3, 2));
    assert_eq!(upside_down.get_pixels(), vec![3, 4, 5, 0, 1, 2]);
    assert_eq!(image.rotate_cw_unchecked(), cw);
    assert_eq!(image.rotate_ccw_unchecked(), ccw);
    assert_eq!(image.flip_horizontal_unchecked(), mirrored);
    assert_eq!(image.flip_vertical_unchecked(), upside_down);
    assert_eq!(image.turn(Turn::Clockwise), cw);
    assert_eq!(image.turn(Turn::Counterclockwise), ccw);
    assert_eq!(image.turn(Turn::Mirror), mirrored);
    assert_eq!(image.turn(Turn::UpsideDown), upside_down);
    assert_eq!(cw.rotate_ccw(), image);
    assert_eq!(cw.rotate_cw().rotate_cw().rotate_cw(), image);
    assert_eq!(mirrored.flip_horizontal().unwrap(), image);
    assert_eq!(upside_down.flip_vertical().unwrap(), image);
    assert_eq!(cw.get_palette(), image.get_palette());
    assert_eq!(
        cw.min_palette_size_supported(),
        image.min_palette_size_supported()
    );
}

#[test]
fn turns_of_a_single_row_and_an_odd_width() {
    let row = grid(5, 1, vec![0, 1, 2, 3, 4]);
    assert_eq!(
        row.flip_horizontal().unwrap().get_pixels(),
        vec![4, 3, 2, 1, 0]
    );
    assert_eq!(
        row.flip_vertical().unwrap().get_pixels(),
        vec![0, 1, 2, 3, 4]
    );
    let column = row.rotate_cw();
    assert_eq!(column.size(), (1, 5));
    assert_eq!(column.get_pixels(), vec![0, 1, 2, 3, 4]);
    assert_eq!(row.rotate_ccw().get_pixels(), vec![4, 3, 2, 1, 0]);
    let pixel = grid(1, 1, vec![7]);
    assert_eq!(pixel.rotate_cw(), pixel);
    assert_eq!(pixel.flip_horizontal().unwrap(), pixel);
}

#[test]
fn nearest_neighbour_doubles_a_two_by_two() {
    let image = grid(2, 2, vec![0, 1, 2, 3]);
    let scaled = image.scale(Scaling::nn_double()).unwrap();
    assert_eq!(scaled.size(), (4, 4));
    assert_eq!(
        scaled.get_pixels(),
        vec![0, 0, 1, 1, 0, 0, 1, 1, 2, 2, 3, 3, 2, 2, 3, 3]
    );
    assert_eq!(scaled.get_palette(), image.get_palette());
    assert_eq!(scaled.min_palette_size_supported(), 3);
    assert_eq!(
        image.scale_unchecked(Scaling::nn_double()),
        scaled
    );
    assert_eq!(image.get_pixels(), vec![0, 1, 2, 3]);
}

#[test]
fn nearest_neighbour_with_two_factors() {
    let image = grid(2, 1, vec![5, 6]);
    let scaled = image
        .scale(Scaling::nearest_neighbour(3, 2).unwrap())
        .unwrap();
    assert_eq!(scaled.size(), (6, 2));
    assert_eq!(
        scaled.get_pixels(),
        vec![5, 5, 5, 6, 6, 6, 5, 5, 5, 6, 6, 6]
    );
    let same = image
        .scale(Scaling::nearest_neighbour(1, 1).unwrap())
        .unwrap();
    assert_eq!(same, image);
}

#[test]
fn scale_parameters() {
    assert_eq!(
        Scaling::nearest_neighbour(0, 2),
        Err(IndexedImageError::InvalidScaleParams(0, 2))
    );
    assert_eq!(
        Scaling::nearest_neighbour(2, 0),
        Err(IndexedImageError::InvalidScaleParams(2, 0))
    );
    assert_eq!(
        Scaling::nearest_neighbour(0, 0),
        Err(IndexedImageError::InvalidScaleParams(0, 0))
    );
    assert_eq!(
        Scaling::nearest_neighbour(3, 4),
        Ok(Scaling::NearestNeighbour {
            x_scale: 3,
            y_scale: 4
        })
    );
    assert_eq!(
        Scaling::nn_double(),
        Scaling::NearestNeighbour {
            x_scale: 2,
            y_scale: 2
        }
    );
    let image = grid(1, 1, vec![0]);
    assert_eq!(
        image.scale(Scaling::NearestNeighbour {
            x_scale: 0,
            y_scale: 1
        }),
        Err(IndexedImageError::InvalidScaleParams(0, 1))
    );
    assert_eq!(
        ici_files::scaling::scale_nearest_neighbor(&image, 1, 0),
        Err(IndexedImageError::InvalidScaleParams(1, 0))
    );
}

#[test]
fn scaling_beyond_255_fails_and_leaves_the_image() {
    let image = grid(128, 2, vec![1; 256]);
    let before = image.clone();
    assert_eq!(
        image.scale(Scaling::nn_double()),
        Err(IndexedImageError::TooBigPostScale(256, 4))
    );
    assert_eq!(
        image.scale(Scaling::Epx2x),
        Err(IndexedImageError::TooBigPostScale(256, 4))
    );
    assert_eq!(
        image.scale(Scaling::Epx4x),
        Err(IndexedImageError::TooBigPostScale(256, 4))
    );
    assert_eq!(
        image.scale(Scaling::nearest_neighbour(1, 128).unwrap()),
        Err(IndexedImageError::TooBigPostScale(128, 256))
    );
    assert_eq!(
        image.scale(Scaling::nearest_neighbour(usize::MAX, usize::MAX).unwrap()),
        Err(IndexedImageError::TooBigPostScale(usize::MAX, usize::MAX))
    );
    assert_eq!(image, before);
    let tall = grid(2, 64, vec![1; 128]);
    assert_eq!(
        tall.scale(Scaling::Epx4x),
        Err(IndexedImageError::TooBigPostScale(8, 256))
    );
    assert!(tall.scale(Scaling::Epx2x).is_ok());
    let widest = grid(127, 1, vec![0; 127]);
    assert_eq!(widest.scale(Scaling::Epx2x).unwrap().size(), (254, 2));
    let exact = grid(51, 1, vec![0; 51]);
    assert_eq!(
        exact
            .scale(Scaling::nearest_neighbour(5, 255).unwrap())
            .unwrap()
            .size(),
        (255, 255)
    );
}

#[test]
fn epx_keeps_one_colour() {
    for (width, height) in [(1u8, 1u8), (1, 4), (4, 1), (2, 2), (3, 5)] {
        let image = grid(width, height, vec![2; width as usize * height as usize]);
        let doubled = image.scale(Scaling::Epx2x).unwrap();
        assert_eq!(doubled.size(), (width * 2, height * 2));
        assert!(doubled.get_pixels().iter().all(|p| *p == 2));
        assert_eq!(doubled.get_palette(), image.get_palette());
        let twice = image.scale(Scaling::Epx4x).unwrap();
        assert_eq!(twice.size(), (width * 4, height * 4));
        assert!(twice.get_pixels().iter().all(|p| *p == 2));
    }
}

#[test]
fn epx_rounds_a_corner() {
    // A diagonal edge:   1 0 0 0      the pixel at (1, 1) has A = 0 above,
    //                     1 1 0 0      C = 1 to the left, B = 0 to the right
    //                     1 1 1 0      and D = 1 below.
    //                     1 1 1 1
    let image = grid(
        4,
        4,
        vec![1, 0, 0, 0, 1, 1, 0, 0, 1, 1, 1, 0, 1, 1, 1, 1],
    );
    let doubled = image.scale(Scaling::Epx2x).unwrap();
    assert_eq!(doubled.size(), (8, 8));
    let at = |x: u8, y: u8| doubled.get_pixel(doubled.get_pixel_index(x, y).unwrap()).unwrap();
    // (1, 1): A == B, A != C, B != D, so the top right becomes B.
    assert_eq!((at(2, 2), at(3, 2), at(2, 3), at(3, 3)), (1, 0, 1, 1));
    // (1, 0): at the top edge A is the pixel itself, 0; C = 1, B = 0, D = 1:
    // the bottom left becomes C, since D == C, D != B and C != A.
    assert_eq!((at(2, 0), at(3, 0), at(2, 1), at(3, 1)), (0, 0, 1, 0));
    // (0, 0) stays whole.
    assert_eq!((at(0, 0), at(1, 0), at(0, 1), at(1, 1)), (1, 1, 1, 1));
    assert_eq!(
        ici_files::scaling::scale_epx(&image).unwrap(),
        doubled
    );
    assert_eq!(
        ici_files::scaling::scale_epx_unchecked(&image),
        doubled
    );
    assert_eq!(
        image.scale(Scaling::Epx4x).unwrap(),
        doubled.scale(Scaling::Epx2x).unwrap()
    );
}

#[test]
fn epx_does_not_look_right_from_the_last_column_but_one() {
    // In a row 0 1 the right neighbour of the first pixel is not looked at.
    // Column: 0 above 1 above 1; the pixel in the middle has A = 0, D = 1.
    let image = grid(3, 3, vec![0, 0, 0, 0, 1, 0, 0, 0, 0]);
    let doubled = image.scale(Scaling::Epx2x).unwrap();
    let at = |x: u8, y: u8| doubled.get_pixel(doubled.get_pixel_index(x, y).unwrap()).unwrap();
    // (1, 1): B and D are the pixel itself (1), A = C = 0: the top left
    // becomes A, since C == A, C != D and A != B.
    assert_eq!((at(2, 2), at(3, 2), at(2, 3), at(3, 3)), (0, 1, 1, 1));
}

#[test]
fn tints() {
    let image = IndexedImage::new(
        1,
        1,
        vec![Color::new(100, 150, 200, 255), Color::new(0, 0, 0, 0)],
        vec![1],
    )
    .unwrap();
    let tinted = image.tint_add(&(100, -200, 10, -5));
    assert_eq!(
        tinted.get_palette(),
        vec![Color::new(200, 0, 210, 250), Color::new(100, 0, 10, 0)]
    );
    assert_eq!(tinted.get_pixels(), image.get_pixels());
    assert_eq!(tinted.min_palette_size_supported(), 1);
    let each = image.tint_palette_add(&[(1, 2, 3, 0), (4, 5, 6, 7), (9, 9, 9, 9)]);
    assert_eq!(
        each.get_palette(),
        vec![Color::new(101, 152, 203, 255), Color::new(4, 5, 6, 7)]
    );
}

fn image_refused(bytes: &[u8]) -> IndexedImageError {
    IndexedImage::from_file_contents(bytes).unwrap_err()
}

#[test]
fn image_decode_refuses() {
    assert_eq!(image_refused(&[]), IndexedImageError::NotIciFile);
    assert_eq!(image_refused(&[73, 67, 73, 1]), IndexedImageError::NotIciFile);
    assert_eq!(
        image_refused(&[73, 67, 72, 1, 1]),
        IndexedImageError::NotIciFile
    );
    assert_eq!(
        image_refused(&[73, 67, 73, 1, 0]),
        IndexedImageError::UnknownIciVersion(0)
    );
    assert_eq!(
        image_refused(&[73, 67, 73, 1, 2]),
        IndexedImageError::InvalidFileFormat(
            0,
            FormatIssue::WrongFileType {
                expected: FileType::Image,
                found: FileType::Animated
            }
        )
    );
    assert_eq!(
        image_refused(&[73, 67, 73, 1, 1]),
        IndexedImageError::InvalidFileFormat(5, FormatIssue::MissingPaletteFormat)
    );
    assert_eq!(
        image_refused(&[73, 67, 73, 1, 1, 1]),
        IndexedImageError::InvalidFileFormat(6, FormatIssue::MissingPaletteId)
    );
    assert_eq!(
        image_refused(&[73, 67, 73, 1, 1, 2]),
        IndexedImageError::InvalidFileFormat(6, FormatIssue::MissingPaletteNameLength)
    );
    assert_eq!(
        image_refused(&[73, 67, 73, 1, 1, 3]),
        IndexedImageError::InvalidFileFormat(6, FormatIssue::MissingPaletteColorCount)
    );
    assert_eq!(
        image_refused(&[73, 67, 73, 1, 1, 0]),
        IndexedImageError::InvalidFileFormat(6, FormatIssue::IncompletePixels)
    );
    assert_eq!(
        image_refused(&[73, 67, 73, 1, 1, 0, 1, 1]),
        IndexedImageError::InvalidFileFormat(6, FormatIssue::IncompletePixels)
    );
    assert_eq!(
        image_refused(&[73, 67, 73, 1, 1, 0, 2, 1, 0]),
        IndexedImageError::InvalidFileFormat(8, FormatIssue::MissingPixels(1, 2))
    );
    assert_eq!(
        image_refused(&[73, 67, 73, 0, 1, 0, 1, 1, 0, 0]),
        IndexedImageError::NotIciFile
    );
    assert_eq!(
        image_refused(&[73, 67, 73, 1, 0, 0, 1, 1, 0, 0]),
        IndexedImageError::UnknownIciVersion(0)
    );
    assert_eq!(
        image_refused(&[73, 67, 73, 1, 3, 0, 1, 1, 0, 0]),
        IndexedImageError::UnknownIciVersion(3)
    );
    assert_eq!(
        image_refused(&[73, 67, 73, 1, 2, 0, 1, 1, 0, 0]),
        IndexedImageError::InvalidFileFormat(
            0,
            FormatIssue::WrongFileType {
                expected: FileType::Image,
                found: FileType::Animated
            }
        )
    );
    assert_eq!(
        image_refused(&[73, 67, 73, 1, 1, 9, 1, 1, 0, 0]),
        IndexedImageError::InvalidFileFormat(6, FormatIssue::UnsupportedPaletteType(9))
    );
    assert_eq!(
        image_refused(&[73, 67, 73, 1, 1, 2, 200, 1, 0, 0]),
        IndexedImageError::InvalidFileFormat(7, FormatIssue::IncompletePaletteName)
    );
    assert_eq!(
        image_refused(&[73, 67, 73, 1, 1, 1, 0, 5, 1, 1]),
        IndexedImageError::InvalidFileFormat(8, FormatIssue::IncompletePixels)
    );
    assert_eq!(
        image_refused(&[73, 67, 73, 1, 1, 0, 2, 2, 0, 0, 0]),
        IndexedImageError::InvalidFileFormat(8, FormatIssue::MissingPixels(3, 4))
    );
    assert_eq!(
        image_refused(&[73, 67, 73, 1, 1, 0, 0, 2, 0, 0]),
        IndexedImageError::WidthIsZero
    );
    assert_eq!(
        image_refused(&[73, 67, 73, 1, 1, 0, 2, 0, 0, 0]),
        IndexedImageError::HeightIsZero
    );
    assert_eq!(
        image_refused(&[73, 67, 73, 1, 1, 3, 0, 1, 1, 0]),
        IndexedImageError::PaletteIsEmpty
    );
}

#[test]
fn the_smallest_container_is_read_back() {
    let image = IndexedImage::new(1, 1, vec![Color::transparent()], vec![0]).unwrap();
    let bytes = image.to_file_contents(&NoData).unwrap();
    assert_eq!(bytes, vec![73, 67, 73, 1, 1, 0, 1, 1, 0]);
    let (output, palette) = IndexedImage::from_file_contents(&bytes).unwrap();
    assert_eq!(palette, NoData);
    assert_eq!(output.size(), (1, 1));
    assert_eq!(output.get_pixels(), vec![0]);
    assert_eq!(output.get_palette(), vec![Color::new(0, 0, 0, 0)]);
    assert_eq!(output, image);
    assert_eq!(
        image_refused(&bytes[..8]),
        IndexedImageError::InvalidFileFormat(6, FormatIssue::IncompletePixels)
    );
}

#[test]
fn a_small_container_with_a_high_pixel() {
    let image = grid(1, 1, vec![2]);
    let bytes = image.to_file_contents(&NoData).unwrap();
    assert_eq!(bytes.len(), 9);
    let (mut output, _) = IndexedImage::from_file_contents(&bytes).unwrap();
    assert_eq!(output.get_palette(), vec![Color::transparent(); 3]);
    output.set_palette(image.get_palette()).unwrap();
    assert_eq!(output, image);
}

#[test]
fn file_types() {
    assert_eq!(FileType::Image.to_byte(), 1);
    assert_eq!(FileType::Animated.to_byte(), 2);
    assert_eq!(FileType::from_byte(1), Some(FileType::Image));
    assert_eq!(FileType::from_byte(2), Some(FileType::Animated));
    assert_eq!(FileType::from_byte(0), None);
    assert_eq!(FileType::from_byte(3), None);
    assert_eq!(FileType::Image.name(), "Image");
    assert_eq!(FileType::Animated.name(), "Animated Image");
    assert_eq!(FileType::Image.ext(), "ici");
    assert_eq!(FileType::Animated.ext(), "ica");
    assert_eq!(HEADER, [b'I', b'C', b'I', 1]);
    assert_eq!(
        ici_files::file::verify_format(&[73, 67, 73, 1, 2, 0, 0, 0, 0, 0]),
        Ok(FileType::Animated)
    );
    assert_eq!(
        ici_files::file::verify_format(&[73, 67, 73, 1, 1, 0, 0, 0, 0, 0, 9, 9]),
        Ok(FileType::Image)
    );
    assert_eq!(
        ici_files::file::verify_format(&[73, 67, 73, 1, 1]),
        Ok(FileType::Image)
    );
    assert_eq!(
        ici_files::file::verify_format(&[73, 67, 73, 1]),
        Err(IndexedImageError::NotIciFile)
    );
    assert_eq!(ici_files::file::PREFIX_LEN, 5);
}
