//! What the library refuses, and that writing an image is a function of
//! the image.
use vstd::prelude::*;
use vstd::utf8::encode_utf8;
use crate::animated::AnimatedIndexedImage;
use crate::animated::AnimationView;
use crate::animated::PlayType;
use crate::animated::animation_new;
use crate::animated::parse_frames;
use crate::color::Color;
use crate::errors::FormatIssue;
use crate::errors::IndexedImageError;
use crate::image::ImageView;
use crate::image::IndexedImage;
use crate::image::image_new;
use crate::palette::FilePalette;
use crate::palette::PaletteDescriptor;
use crate::scaling::Scaling;
use crate::scaling::scaled;
use crate::seconds::Seconds;
use crate::seconds::from_be_bytes;

verus! {

/// Two containers of one still image under one descriptor hold the same
/// bytes, and where one cannot be written neither can the other, for the
/// same reason.
pub proof fn lemma_image_written_twice(
    image: IndexedImage,
    palette: FilePalette,
    first: Result<Vec<u8>, IndexedImageError>,
    second: Result<Vec<u8>, IndexedImageError>,
)
    requires
        call_ensures(IndexedImage::to_file_contents, (&image, &palette), first),
        call_ensures(IndexedImage::to_file_contents, (&image, &palette), second),
    ensures
        match (first, second) {
            (Ok(a), Ok(b)) => a@ == b@,
            (Err(a), Err(b)) => a == b,
            _ => false,
        },
{
}

/// Two containers of one animated image under one descriptor hold the same
/// bytes, and where one cannot be written neither can the other, for the
/// same reason.
pub proof fn lemma_animation_written_twice(
    image: AnimatedIndexedImage,
    palette: FilePalette,
    first: Result<Vec<u8>, IndexedImageError>,
    second: Result<Vec<u8>, IndexedImageError>,
)
    requires
        call_ensures(AnimatedIndexedImage::to_file_contents, (&image, &palette), first),
        call_ensures(AnimatedIndexedImage::to_file_contents, (&image, &palette), second),
    ensures
        match (first, second) {
            (Ok(a), Ok(b)) => a@ == b@,
            (Err(a), Err(b)) => a == b,
            _ => false,
        },
{
}

/// A name without characters cannot be written.
pub proof fn lemma_empty_name_refused()
    ensures
        PaletteDescriptor::Name(Seq::empty()).fault() == Some(
            IndexedImageError::PaletteNameTooShort,
        ),
{
    assert(encode_utf8(Seq::<char>::empty()).len() == 0);
}

/// No still image has a width or a height of zero.
pub proof fn lemma_empty_image_refused(width: u8, height: u8, palette: Seq<Color>, pixels: Seq<u8>)
    requires
        width == 0 || height == 0,
    ensures
        image_new(width, height, palette, pixels) == Err::<ImageView, IndexedImageError>(
            if width == 0 {
                IndexedImageError::WidthIsZero
            } else {
                IndexedImageError::HeightIsZero
            },
        ),
{
}

/// No animated image has a width or a height of zero.
pub proof fn lemma_empty_animation_refused(
    width: u8,
    height: u8,
    per_frame: Seconds,
    frame_count: u8,
    palette: Seq<Color>,
    pixels: Seq<u8>,
    play_type: PlayType,
)
    requires
        width == 0 || height == 0,
    ensures
        animation_new(width, height, per_frame, frame_count, palette, pixels, play_type) == Err::<
            AnimationView,
            IndexedImageError,
        >(
            if width == 0 {
                IndexedImageError::WidthIsZero
            } else {
                IndexedImageError::HeightIsZero
            },
        ),
{
}

/// No animated image shows a frame for no time or less: where size and
/// palette are in order, a time per frame at or below zero is the error.
pub proof fn lemma_no_time_refused(
    width: u8,
    height: u8,
    per_frame: Seconds,
    frame_count: u8,
    palette: Seq<Color>,
    pixels: Seq<u8>,
    play_type: PlayType,
)
    requires
        width > 0,
        height > 0,
        palette.len() > 0,
        per_frame.at_most_zero(),
    ensures
        animation_new(width, height, per_frame, frame_count, palette, pixels, play_type) == Err::<
            AnimationView,
            IndexedImageError,
        >(IndexedImageError::NegativePerFrame(per_frame)),
{
}

/// A container that announces no frames is refused for that, where its
/// play type is known.
pub proof fn lemma_no_frames_refused(
    bytes: Seq<u8>,
    start: int,
    descriptor: PaletteDescriptor,
    colors: Option<Seq<Color>>,
)
    requires
        0 <= start,
        start + 4 <= bytes.len(),
        PlayType::of_byte(bytes[start + 2]) is Some,
        bytes[start + 3] == 0,
    ensures
        parse_frames(bytes, start, descriptor, colors) == Err::<
            (AnimationView, PaletteDescriptor),
            IndexedImageError,
        >(IndexedImageError::InvalidFileFormat((start + 3) as usize, FormatIssue::NoFrames)),
{
}

/// A container whose time per frame is at or below zero is refused for
/// that, where its play type is known and it announces frames.
pub proof fn lemma_no_time_in_file_refused(
    bytes: Seq<u8>,
    start: int,
    descriptor: PaletteDescriptor,
    colors: Option<Seq<Color>>,
)
    requires
        0 <= start,
        start + 12 <= bytes.len(),
        PlayType::of_byte(bytes[start + 2]) is Some,
        bytes[start + 3] != 0,
        (Seconds {
            bits: from_be_bytes(bytes.subrange(start + 4, start + 12)) as u64,
        }).at_most_zero(),
    ensures
        parse_frames(bytes, start, descriptor, colors) == Err::<
            (AnimationView, PaletteDescriptor),
            IndexedImageError,
        >(
            IndexedImageError::InvalidFileFormat(
                (start + 4) as usize,
                FormatIssue::InvalidPerFrame(
                    Seconds { bits: from_be_bytes(bytes.subrange(start + 4, start + 12)) as u64 },
                ),
            ),
        ),
{
}

/// A palette with fewer colours than the high-water index cannot replace
/// the palette of a still image, nor that of an animated one.
pub proof fn lemma_short_palette_refused(
    image: ImageView,
    animation: AnimationView,
    palette: Seq<Color>,
)
    ensures
        palette.len() < image.highest_palette_idx ==> image.replace_palette(palette) == Err::<
            ImageView,
            IndexedImageError,
        >(IndexedImageError::PaletteTooFewColors(image.highest_palette_idx)),
        palette.len() < animation.highest_palette_idx ==> animation.replace_palette(palette)
            == Err::<AnimationView, IndexedImageError>(
            IndexedImageError::PaletteTooFewColors(animation.highest_palette_idx),
        ),
{
}

/// An image that would become wider or higher than 255 is not scaled.
pub proof fn lemma_too_big_refused(image: ImageView, algo: Scaling)
    requires
        image.wf(),
    ensures
        algo matches Scaling::NearestNeighbour { x_scale, y_scale } ==> (x_scale > 0 && y_scale > 0
            && (image.width * x_scale > 255 || image.height * y_scale > 255) ==> scaled(
            image,
            algo,
        ) matches Err(IndexedImageError::TooBigPostScale(_, _))),
        algo == Scaling::Epx2x && (image.width * 2 > 255 || image.height * 2 > 255) ==> scaled(
            image,
            algo,
        ) == Err::<ImageView, IndexedImageError>(
            IndexedImageError::TooBigPostScale(
                (image.width * 2) as usize,
                (image.height * 2) as usize,
            ),
        ),
        algo == Scaling::Epx4x && (image.width * 4 > 255 || image.height * 4 > 255) ==> scaled(
            image,
            algo,
        ) matches Err(IndexedImageError::TooBigPostScale(_, _)),
{
}

} // verus!
