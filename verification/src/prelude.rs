//! The types that most callers need, under one path.
pub use crate::animated::AnimatedIndexedImage;
pub use crate::animated::PlayType;
pub use crate::color::Color;
pub use crate::conversion::ColorConversion;
pub use crate::conversion::OpaqueColorConversion;
pub use crate::errors::FormatIssue;
pub use crate::errors::IndexedImageError;
pub use crate::file::FileType;
pub use crate::image::IndexedImage;
pub use crate::jasc_palette::JascPalette;
pub use crate::jasc_palette::PaletteError;
pub use crate::jasc_palette::ParseIssue;
pub use crate::palette::FilePalette;
pub use crate::scaling::Scaling;
pub use crate::seconds::Seconds;
pub use crate::wrapper::IndexedWrapper;
