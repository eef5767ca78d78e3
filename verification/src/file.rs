//! The first five bytes of a container: magic, version and kind.
use vstd::prelude::*;
use crate::errors::IndexedImageError;

verus! {

/// The magic `ICI` and the format version, 1.
pub const HEADER: [u8; 4] = [73, 67, 73, 1];

/// The number of bytes that every container starts with: the header and
/// the byte that names its kind.
pub const PREFIX_LEN: usize = 5;

/// The two kinds of container.
#[derive(Debug, Clone, Copy, PartialEq, Eq, Structural)]
pub enum FileType {
    /// A still image.
    Image,
    /// A sequence of frames.
    Animated,
}

impl FileType {
    /// The byte that names the kind in a container.
    pub open spec fn byte(self) -> u8 {
        match self {
            FileType::Image => 1,
            FileType::Animated => 2,
        }
    }

    /// The kind that a byte names, if any.
    pub open spec fn of_byte(byte: u8) -> Option<FileType> {
        if byte == 1 {
            Some(FileType::Image)
        } else if byte == 2 {
            Some(FileType::Animated)
        } else {
            None
        }
    }

    /// The byte that names the kind in a container.
    pub fn to_byte(&self) -> (b: u8)
        ensures
            b == self.byte(),
    {
        match self {
            FileType::Image => 1,
            FileType::Animated => 2,
        }
    }

    /// The kind that a byte names, if any.
    pub fn from_byte(byte: u8) -> (t: Option<FileType>)
        ensures
            t == FileType::of_byte(byte),
    {
        if byte == 1 {
            Some(FileType::Image)
        } else if byte == 2 {
            Some(FileType::Animated)
        } else {
            None
        }
    }

    /// The kind in words.
    pub fn name(&self) -> (n: &'static str)
        ensures
            n == (match self {
                FileType::Image => "Image",
                FileType::Animated => "Animated Image",
            }),
    {
        match self {
            FileType::Image => "Image",
            FileType::Animated => "Animated Image",
        }
    }

    /// The file extension of the kind.
    pub fn ext(&self) -> (e: &'static str)
        ensures
            e == (match self {
                FileType::Image => "ici",
                FileType::Animated => "ica",
            }),
    {
        match self {
            FileType::Image => "ici",
            FileType::Animated => "ica",
        }
    }
}

/// The four header bytes as a sequence.
pub open spec fn header_bytes() -> Seq<u8> {
    seq![73u8, 67u8, 73u8, 1u8]
}

/// Whether `bytes` starts with the header and has a byte behind it, where
/// the kind of container stands.
pub open spec fn has_header(bytes: Seq<u8>) -> bool {
    bytes.len() >= PREFIX_LEN && bytes.subrange(0, 4) == header_bytes()
}

/// What `verify_format` makes of a buffer: the kind of container, or why it
/// is none. Nothing behind the first five bytes is looked at.
pub open spec fn format_of(bytes: Seq<u8>) -> Result<FileType, IndexedImageError> {
    if !has_header(bytes) {
        Err(IndexedImageError::NotIciFile)
    } else {
        match FileType::of_byte(bytes[4]) {
            None => Err(IndexedImageError::UnknownIciVersion(bytes[4])),
            Some(file_type) => Ok(file_type),
        }
    }
}

/// Checks magic and version, and reads the kind of container. What
/// follows the kind may be missing: whoever reads on says so, with the
/// place.
pub fn verify_format(bytes: &[u8]) -> (r: Result<FileType, IndexedImageError>)
    ensures
        r == format_of(bytes@),
{
    if bytes.len() < PREFIX_LEN {
        return Err(IndexedImageError::NotIciFile);
    }
    if bytes[0] != HEADER[0] || bytes[1] != HEADER[1] || bytes[2] != HEADER[2] || bytes[3]
        != HEADER[3] {
        assert(bytes@.subrange(0, 4)[0] == bytes@[0]);
        assert(bytes@.subrange(0, 4)[1] == bytes@[1]);
        assert(bytes@.subrange(0, 4)[2] == bytes@[2]);
        assert(bytes@.subrange(0, 4)[3] == bytes@[3]);
        return Err(IndexedImageError::NotIciFile);
    }
    assert(bytes@.subrange(0, 4) =~= header_bytes());
    let format: u8 = bytes[4];
    match FileType::from_byte(format) {
        None => Err(IndexedImageError::UnknownIciVersion(format)),
        Some(file_type) => Ok(file_type),
    }
}

} // verus!
