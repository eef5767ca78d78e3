//! What the library reports when it refuses an input.
use vstd::prelude::*;
use crate::file::FileType;
use crate::seconds::Seconds;

verus! {

/// What was wrong with a container at the offset that `InvalidFileFormat`
/// carries.
#[derive(Debug, Clone, Copy, PartialEq, Eq, Structural)]
pub enum FormatIssue {
    /// The container is of one kind and the reader of the other.
    WrongFileType { expected: FileType, found: FileType },
    /// The buffer ends where the palette tag should stand.
    MissingPaletteFormat,
    /// The buffer ends inside the two bytes of a palette id.
    MissingPaletteId,
    /// The buffer ends where the length of a palette name should stand.
    MissingPaletteNameLength,
    /// The buffer ends inside a palette name.
    IncompletePaletteName,
    /// The buffer ends where the colour count should stand.
    MissingPaletteColorCount,
    /// The buffer ends inside the colour table; the count it announced.
    IncompletePaletteColors(u8),
    /// The palette tag is none of the four known; the tag.
    UnsupportedPaletteType(u8),
    /// The buffer ends before width, height and a first pixel.
    IncompletePixels,
    /// The buffer holds fewer pixels than width and height ask for; the
    /// number found and the number expected.
    MissingPixels(usize, usize),
    /// The play type byte is none of the five known; the byte.
    UnsupportedPlayType(u8),
    /// The frame count is zero.
    NoFrames,
    /// The time per frame is zero or below; the value.
    InvalidPerFrame(Seconds),
    /// The buffer ends inside the frame header or the frames.
    IncompleteFrames,
}

/// The errors of the library.
#[derive(Debug, Clone, PartialEq, Eq)]
pub enum IndexedImageError {
    /// The buffer is too short for header and kind, or magic or version
    /// differ.
    NotIciFile,
    /// The byte after the header names no kind of container; the byte.
    UnknownIciVersion(u8),
    /// A palette name has no bytes.
    PaletteNameTooShort,
    /// A palette name has more than 255 bytes.
    PaletteNameTooLong,
    /// A palette has more than 255 colours.
    PaletteTooManyColors,
    /// A new palette is shorter than the image's highest index; that index.
    PaletteTooFewColors(u8),
    /// The container is malformed at the given offset.
    InvalidFileFormat(usize, FormatIssue),
    /// The bytes of a palette name are not UTF-8.
    PaletteNameNotUtf8,
    /// The replacement index lies outside the new palette.
    IdOutsideOfNewPalette,
    /// An index, the length it had to stay under, and what was indexed.
    IndexOutOfRange(usize, usize, &'static str),
    /// The width is zero.
    WidthIsZero,
    /// The height is zero.
    HeightIsZero,
    /// The number of pixels given and the number that the size asks for.
    MissingData(usize, usize),
    /// The palette has no colours.
    PaletteIsEmpty,
    /// The time per frame is zero or below; the value.
    NegativePerFrame(Seconds),
    /// A scale factor is zero; both factors.
    InvalidScaleParams(usize, usize),
    /// The scaled image would be wider or higher than 255; its size.
    TooBigPostScale(usize, usize),
    /// A hex colour could not be read; why.
    InvalidHexFormat(String),
}

} // verus!
