//! One type for still and animated images.
use vstd::prelude::*;
use crate::animated::AnimatedIndexedImage;
use crate::animated::AnimationView;
use crate::color::Color;
use crate::errors::IndexedImageError;
use crate::image::ImageView;
use crate::image::IndexedImage;
use crate::indexed::index_of;
use crate::indexed::padded;
use crate::seconds::Seconds;

verus! {

/// A still or an animated image. What only an animation can do leaves a
/// still image as it is.
#[derive(Debug, Clone, PartialEq, Eq)]
pub enum IndexedWrapper {
    Static(IndexedImage),
    Animated(AnimatedIndexedImage),
}

/// An `IndexedWrapper` as a mathematical value.
pub enum WrapperView {
    Static(ImageView),
    Animated(AnimationView),
}

impl WrapperView {
    /// The width of the image.
    pub open spec fn width(self) -> u8 {
        match self {
            WrapperView::Static(image) => image.width,
            WrapperView::Animated(image) => image.width,
        }
    }

    /// The height of the image.
    pub open spec fn height(self) -> u8 {
        match self {
            WrapperView::Static(image) => image.height,
            WrapperView::Animated(image) => image.height,
        }
    }

    /// The palette of the image.
    pub open spec fn palette(self) -> Seq<Color> {
        match self {
            WrapperView::Static(image) => image.palette,
            WrapperView::Animated(image) => image.palette,
        }
    }

    /// The pixels of the image, or of all its frames.
    pub open spec fn pixels(self) -> Seq<u8> {
        match self {
            WrapperView::Static(image) => image.pixels,
            WrapperView::Animated(image) => image.pixels,
        }
    }

    /// The high-water index of the image.
    pub open spec fn highest_palette_idx(self) -> u8 {
        match self {
            WrapperView::Static(image) => image.highest_palette_idx,
            WrapperView::Animated(image) => image.highest_palette_idx,
        }
    }

    /// The image with another palette.
    pub open spec fn with_palette(self, palette: Seq<Color>) -> WrapperView {
        match self {
            WrapperView::Static(image) => WrapperView::Static(image.with_palette(palette)),
            WrapperView::Animated(image) => WrapperView::Animated(image.with_palette(palette)),
        }
    }

    /// The image that `set_palette` leaves, or the error it returns.
    pub open spec fn replace_palette(self, palette: Seq<Color>) -> Result<
        WrapperView,
        IndexedImageError,
    > {
        match self {
            WrapperView::Static(image) => match image.replace_palette(palette) {
                Ok(view) => Ok(WrapperView::Static(view)),
                Err(e) => Err(e),
            },
            WrapperView::Animated(image) => match image.replace_palette(palette) {
                Ok(view) => Ok(WrapperView::Animated(view)),
                Err(e) => Err(e),
            },
        }
    }

    /// The image that `set_palette_replace_id` leaves, or the error it
    /// returns.
    pub open spec fn replace_palette_and_id(self, palette: Seq<Color>, id: u8) -> Result<
        WrapperView,
        IndexedImageError,
    > {
        match self {
            WrapperView::Static(image) => match image.replace_palette_and_id(palette, id) {
                Ok(view) => Ok(WrapperView::Static(view)),
                Err(e) => Err(e),
            },
            WrapperView::Animated(image) => match image.replace_palette_and_id(palette, id) {
                Ok(view) => Ok(WrapperView::Animated(view)),
                Err(e) => Err(e),
            },
        }
    }
}

impl View for IndexedWrapper {
    type V = WrapperView;

    open spec fn view(&self) -> WrapperView {
        match self {
            IndexedWrapper::Static(image) => WrapperView::Static(image@),
            IndexedWrapper::Animated(image) => WrapperView::Animated(image@),
        }
    }
}

impl From<IndexedImage> for IndexedWrapper {
    fn from(value: IndexedImage) -> (wrapper: IndexedWrapper) {
        IndexedWrapper::Static(value)
    }
}

impl vstd::std_specs::convert::FromSpecImpl<IndexedImage> for IndexedWrapper {
    open spec fn obeys_from_spec() -> bool {
        true
    }

    open spec fn from_spec(value: IndexedImage) -> IndexedWrapper {
        IndexedWrapper::Static(value)
    }
}

impl From<AnimatedIndexedImage> for IndexedWrapper {
    fn from(value: AnimatedIndexedImage) -> (wrapper: IndexedWrapper) {
        IndexedWrapper::Animated(value)
    }
}

impl vstd::std_specs::convert::FromSpecImpl<AnimatedIndexedImage> for IndexedWrapper {
    open spec fn obeys_from_spec() -> bool {
        true
    }

    open spec fn from_spec(value: AnimatedIndexedImage) -> IndexedWrapper {
        IndexedWrapper::Animated(value)
    }
}

impl IndexedWrapper {
    /// Replaces the palette. A palette with fewer colours than the
    /// high-water index is refused, and the image stays as it was.
    pub fn set_palette(&mut self, palette: &[Color]) -> (r: Result<(), IndexedImageError>)
        requires
            palette@.len() > 0,
        ensures
            match old(self)@.replace_palette(palette@) {
                Ok(view) => r is Ok && final(self)@ == view,
                Err(e) => r == Err::<(), IndexedImageError>(e) && final(self)@ == old(self)@,
            },
    {
        match self {
            IndexedWrapper::Static(img) => img.set_palette(palette),
            IndexedWrapper::Animated(img) => img.set_palette(palette),
        }
    }

    /// Replaces the palette and gives every pixel outside the new palette
    /// the index `id`. An `id` outside the new palette is refused, and the
    /// image stays as it was.
    pub fn set_palette_replace_id(&mut self, palette: &[Color], id: u8) -> (r: Result<
        (),
        IndexedImageError,
    >)
        requires
            palette@.len() > 0,
        ensures
            match old(self)@.replace_palette_and_id(palette@, id) {
                Ok(view) => r is Ok && final(self)@ == view,
                Err(e) => r == Err::<(), IndexedImageError>(e) && final(self)@ == old(self)@,
            },
    {
        match self {
            IndexedWrapper::Static(img) => img.set_palette_replace_id(palette, id),
            IndexedWrapper::Animated(img) => img.set_palette_replace_id(palette, id),
        }
    }

    /// Replaces the palette; where it has no colour for the high-water
    /// index, `color` is added at its end until it has.
    pub fn set_palette_replace_color(&mut self, palette: &[Color], color: Color)
        requires
            palette@.len() > 0,
        ensures
            final(self)@ == old(self)@.with_palette(
                padded(palette@, old(self)@.highest_palette_idx(), color),
            ),
    {
        match self {
            IndexedWrapper::Static(img) => img.set_palette_replace_color(palette, color),
            IndexedWrapper::Animated(img) => img.set_palette_replace_color(palette, color),
        }
    }

    /// Width and height.
    pub fn size(&self) -> (s: (u8, u8))
        ensures
            s == (self@.width(), self@.height()),
    {
        match self {
            IndexedWrapper::Static(img) => img.size(),
            IndexedWrapper::Animated(img) => img.size(),
        }
    }

    /// The pixels: of a still image row by row, of an animation frame
    /// after frame.
    pub fn get_pixels(&self) -> (pixels: &[u8])
        ensures
            pixels@ == self@.pixels(),
    {
        match self {
            IndexedWrapper::Static(img) => img.get_pixels(),
            IndexedWrapper::Animated(img) => img.get_pixels(),
        }
    }

    /// The place of `(x, y)` among the pixels of the image or of a frame.
    /// The column is checked before the row.
    pub fn get_pixel_index(&self, x: u8, y: u8) -> (r: Result<usize, IndexedImageError>)
        ensures
            x < self@.width() && y < self@.height() ==> r == Ok::<usize, IndexedImageError>(
                index_of(x as int, y as int, self@.width() as int) as usize,
            ),
            x >= self@.width() ==> r == Err::<usize, IndexedImageError>(
                IndexedImageError::IndexOutOfRange(x as usize, self@.width() as usize, "width"),
            ),
            x < self@.width() && y >= self@.height() ==> r == Err::<usize, IndexedImageError>(
                IndexedImageError::IndexOutOfRange(y as usize, self@.height() as usize, "height"),
            ),
    {
        match self {
            IndexedWrapper::Static(img) => img.get_pixel_index(x, y),
            IndexedWrapper::Animated(img) => img.get_pixel_index(x, y),
        }
    }

    /// Reads one colour of the palette.
    pub fn get_color(&self, idx: u8) -> (r: Result<Color, IndexedImageError>)
        ensures
            idx < self@.palette().len() ==> r == Ok::<Color, IndexedImageError>(
                self@.palette()[idx as int],
            ),
            idx >= self@.palette().len() ==> r == Err::<Color, IndexedImageError>(
                IndexedImageError::IndexOutOfRange(
                    idx as usize,
                    self@.palette().len() as usize,
                    "palette",
                ),
            ),
    {
        match self {
            IndexedWrapper::Static(img) => img.get_color(idx),
            IndexedWrapper::Animated(img) => img.get_color(idx),
        }
    }

    /// Writes one colour of the palette.
    pub fn set_color(&mut self, idx: u8, color: Color) -> (r: Result<(), IndexedImageError>)
        ensures
            idx < old(self)@.palette().len() ==> r is Ok && final(self)@ == old(
                self,
            )@.with_palette(old(self)@.palette().update(idx as int, color)),
            idx >= old(self)@.palette().len() ==> r == Err::<(), IndexedImageError>(
                IndexedImageError::IndexOutOfRange(
                    idx as usize,
                    old(self)@.palette().len() as usize,
                    "palette",
                ),
            ) && final(self)@ == old(self)@,
    {
        match self {
            IndexedWrapper::Static(img) => img.set_color(idx, color),
            IndexedWrapper::Animated(img) => img.set_color(idx, color),
        }
    }

    /// The palette.
    pub fn get_palette(&self) -> (palette: &[Color])
        ensures
            palette@ == self@.palette(),
    {
        match self {
            IndexedWrapper::Static(img) => img.get_palette(),
            IndexedWrapper::Animated(img) => img.get_palette(),
        }
    }

    /// The high-water index: a new palette needs at least this many
    /// colours.
    pub fn min_palette_size_supported(&self) -> (top: u8)
        ensures
            top == self@.highest_palette_idx(),
    {
        match self {
            IndexedWrapper::Static(img) => img.min_palette_size_supported(),
            IndexedWrapper::Animated(img) => img.min_palette_size_supported(),
        }
    }

    /// The width, which is 1 at least.
    pub fn width(&self) -> (w: u8)
        ensures
            w == self@.width(),
            w > 0,
    {
        match self {
            IndexedWrapper::Static(img) => img.width(),
            IndexedWrapper::Animated(img) => img.width(),
        }
    }

    /// The height, which is 1 at least.
    pub fn height(&self) -> (h: u8)
        ensures
            h == self@.height(),
            h > 0,
    {
        match self {
            IndexedWrapper::Static(img) => img.height(),
            IndexedWrapper::Animated(img) => img.height(),
        }
    }

    /// Moves the clock of an animation on, as `AnimatedIndexedImage::update`
    /// does; `remaining` is the time left once the tick is taken off.
    pub fn update(&mut self, remaining: Seconds)
        ensures
            match old(self)@ {
                WrapperView::Static(_) => final(self)@ == old(self)@,
                WrapperView::Animated(image) => final(self)@ == WrapperView::Animated(
                    image.with_playback(
                        image.playback.update(remaining, image.per_frame, image.frame_count),
                    ),
                ),
            },
    {
        match self {
            IndexedWrapper::Static(_) => {},
            IndexedWrapper::Animated(img) => img.update(remaining),
        }
    }

    /// Resets the clock of an animation.
    pub fn reset(&mut self)
        ensures
            match old(self)@ {
                WrapperView::Static(_) => final(self)@ == old(self)@,
                WrapperView::Animated(image) => final(self)@ == WrapperView::Animated(
                    image.with_playback(image.playback.reset(image.per_frame, image.frame_count)),
                ),
            },
    {
        match self {
            IndexedWrapper::Static(_) => {},
            IndexedWrapper::Animated(img) => img.reset(),
        }
    }

    /// Starts or stops the clock of an animation.
    pub fn set_animate(&mut self, animate: bool)
        ensures
            match old(self)@ {
                WrapperView::Static(_) => final(self)@ == old(self)@,
                WrapperView::Animated(image) => final(self)@ == WrapperView::Animated(
                    image.with_playback(
                        crate::animated::Playback { animate, ..image.playback },
                    ),
                ),
            },
    {
        match self {
            IndexedWrapper::Static(_) => {},
            IndexedWrapper::Animated(img) => img.set_animate(animate),
        }
    }

    /// Whether the image is an animation whose clock runs.
    pub fn animating(&self) -> (a: bool)
        ensures
            a == (self@ matches WrapperView::Animated(image) && image.playback.animate),
    {
        match self {
            IndexedWrapper::Static(_) => false,
            IndexedWrapper::Animated(img) => img.animate(),
        }
    }

    /// The number of frames; a still image has one.
    pub fn frame_count(&self) -> (n: u8)
        ensures
            n == (match self@ {
                WrapperView::Static(_) => 1,
                WrapperView::Animated(image) => image.frame_count,
            }),
    {
        match self {
            IndexedWrapper::Static(_) => 1,
            IndexedWrapper::Animated(img) => img.frame_count(),
        }
    }

    /// Whether the image is an animation.
    pub fn is_animation(&self) -> (a: bool)
        ensures
            a == (self@ is Animated),
    {
        match self {
            IndexedWrapper::Static(_) => false,
            IndexedWrapper::Animated(_) => true,
        }
    }
}

} // verus!
