//! The still image: a palette and one byte per pixel that indexes it.
use vstd::prelude::*;
use crate::color::Color;
use crate::color::shifted;
use crate::errors::FormatIssue;
use crate::errors::IndexedImageError;
use crate::file::FileType;
use crate::file::HEADER;
use crate::file::format_of;
use crate::file::header_bytes;
use crate::file::verify_format;
use crate::indexed::append_bytes;
use crate::indexed::area;
use crate::indexed::copy_bytes;
use crate::indexed::copy_colors;
use crate::indexed::highest;
use crate::indexed::index_of;
use crate::indexed::lemma_index_of;
use crate::indexed::lemma_place;
use crate::indexed::max_index;
use crate::indexed::pad;
use crate::indexed::padded;
use crate::indexed::redirect;
use crate::indexed::redirected;
use crate::indexed::transparent_colors;
use crate::indexed::transparent_palette;
use crate::palette::FilePalette;
use crate::palette::PaletteDescriptor;
use crate::palette::palette_block;
use crate::palette::parse_palette;
use crate::scaling::Scaling;
use crate::scaling::scale_epx;
use crate::scaling::scale_epx_unchecked;
use crate::scaling::scale_nearest_neighbor;
use crate::scaling::scale_nearest_neighbor_unchecked;
use crate::scaling::scaled;
use crate::scaling::scaling_agrees;

verus! {

/// A palette-indexed image of 1 to 255 pixels each way.
///
/// The pixels stand row by row; each is an index into the palette. A pixel
/// may name a colour that the palette lacks: nothing checks an index when
/// it is written. The high-water index is the highest pixel found when the
/// image was built or its pixels were last redirected, and is what a new
/// palette is held against.
#[derive(Debug, PartialEq, Eq)]
pub struct IndexedImage {
    width: u8,
    height: u8,
    palette: Vec<Color>,
    pixels: Vec<u8>,
    highest_palette_idx: u8,
}

/// An `IndexedImage` as a mathematical value.
pub struct ImageView {
    pub width: u8,
    pub height: u8,
    pub palette: Seq<Color>,
    pub pixels: Seq<u8>,
    pub highest_palette_idx: u8,
}

impl ImageView {
    /// What holds of every image: both sides and the palette are not
    /// empty, and there is one pixel for each place.
    pub open spec fn wf(self) -> bool {
        &&& self.width > 0
        &&& self.height > 0
        &&& self.palette.len() > 0
        &&& self.pixels.len() == self.width * self.height
    }

    /// The pixel in column `x` of row `y`.
    pub open spec fn pixel_at(self, x: int, y: int) -> u8 {
        self.pixels[index_of(x, y, self.width as int)]
    }

    /// The image with another palette.
    pub open spec fn with_palette(self, palette: Seq<Color>) -> ImageView {
        ImageView { palette, ..self }
    }

    /// The image with other pixels.
    pub open spec fn with_pixels(self, pixels: Seq<u8>) -> ImageView {
        ImageView { pixels, ..self }
    }

    /// The image that `set_palette` leaves, or the error it returns: a
    /// palette with fewer colours than the high-water index is refused.
    pub open spec fn replace_palette(self, palette: Seq<Color>) -> Result<
        ImageView,
        IndexedImageError,
    > {
        if palette.len() < self.highest_palette_idx {
            Err(IndexedImageError::PaletteTooFewColors(self.highest_palette_idx))
        } else {
            Ok(self.with_palette(palette))
        }
    }

    /// The image that `set_palette_replace_id` leaves, or the error it
    /// returns: `id` must lie inside the new palette; pixels outside it
    /// become `id`, and the high-water index is taken anew.
    pub open spec fn replace_palette_and_id(self, palette: Seq<Color>, id: u8) -> Result<
        ImageView,
        IndexedImageError,
    > {
        if palette.len() <= id {
            Err(IndexedImageError::IdOutsideOfNewPalette)
        } else {
            Ok(
                ImageView {
                    palette,
                    pixels: redirected(self.pixels, palette.len() as int, id),
                    highest_palette_idx: highest(
                        redirected(self.pixels, palette.len() as int, id),
                    ),
                    ..self
                },
            )
        }
    }
}

/// The image that `IndexedImage::new` builds, or the error it returns. The
/// checks come in this order: width, height, palette, number of pixels.
pub open spec fn image_new(width: u8, height: u8, palette: Seq<Color>, pixels: Seq<u8>) -> Result<
    ImageView,
    IndexedImageError,
> {
    if width == 0 {
        Err(IndexedImageError::WidthIsZero)
    } else if height == 0 {
        Err(IndexedImageError::HeightIsZero)
    } else if palette.len() == 0 {
        Err(IndexedImageError::PaletteIsEmpty)
    } else if pixels.len() != width * height {
        Err(IndexedImageError::MissingData(pixels.len() as usize, (width * height) as usize))
    } else {
        Ok(ImageView { width, height, palette, pixels, highest_palette_idx: highest(pixels) })
    }
}

/// The bytes of a still image's container, for a descriptor that has no
/// `fault`.
pub open spec fn image_file(image: ImageView, palette: PaletteDescriptor) -> Seq<u8> {
    header_bytes() + seq![FileType::Image.byte()] + palette_block(palette, image.palette)
        + seq![image.width, image.height] + image.pixels
}

/// The still image that a buffer holds and the descriptor it was stored
/// with, or the reason why it holds none. Bytes behind the last pixel are
/// not looked at. Where the container brings no colours, the palette is
/// transparent throughout and has a colour for each index up to the highest
/// pixel.
pub open spec fn parse_image(bytes: Seq<u8>) -> Result<
    (ImageView, PaletteDescriptor),
    IndexedImageError,
> {
    match format_of(bytes) {
        Err(e) => Err(e),
        Ok(FileType::Animated) => Err(
            IndexedImageError::InvalidFileFormat(
                0,
                FormatIssue::WrongFileType {
                    expected: FileType::Image,
                    found: FileType::Animated,
                },
            ),
        ),
        Ok(FileType::Image) => match parse_palette(bytes, 5) {
            Err(e) => Err(e),
            Ok(block) => {
                let start = 5 + block.consumed;
                if bytes.len() < start + 3 {
                    Err(
                        IndexedImageError::InvalidFileFormat(
                            start as usize,
                            FormatIssue::IncompletePixels,
                        ),
                    )
                } else {
                    let width = bytes[start];
                    let height = bytes[start + 1];
                    if bytes.len() < start + 2 + width * height {
                        Err(
                            IndexedImageError::InvalidFileFormat(
                                (start + 2) as usize,
                                FormatIssue::MissingPixels(
                                    (bytes.len() - start - 2) as usize,
                                    (width * height) as usize,
                                ),
                            ),
                        )
                    } else {
                        let pixels = bytes.subrange(start + 2, start + 2 + width * height);
                        let palette = match block.colors {
                            Some(colors) => colors,
                            None => transparent_colors(highest(pixels) + 1),
                        };
                        match image_new(width, height, palette, pixels) {
                            Err(e) => Err(e),
                            Ok(image) => Ok((image, block.palette)),
                        }
                    }
                }
            },
        },
    }
}

/// Whether what `from_file_contents` returned is what `parse_image` says.
pub open spec fn decoded_agrees(
    r: Result<(IndexedImage, FilePalette), IndexedImageError>,
    expected: Result<(ImageView, PaletteDescriptor), IndexedImageError>,
) -> bool {
    match (r, expected) {
        (Ok((image, palette)), Ok((view, descriptor))) => image@ == view && palette@
            == descriptor,
        (Err(e), Err(expected_error)) => e == expected_error,
        _ => false,
    }
}

/// The four ways to turn or mirror an image.
#[derive(Clone, Copy, Debug, PartialEq, Eq, Structural)]
pub enum Turn {
    /// A quarter turn clockwise.
    Clockwise,
    /// A quarter turn counterclockwise.
    Counterclockwise,
    /// Left and right exchanged.
    Mirror,
    /// Top and bottom exchanged.
    UpsideDown,
}

impl Turn {
    /// The width of an image after the turn.
    pub open spec fn width_after(self, width: u8, height: u8) -> u8 {
        match self {
            Turn::Clockwise | Turn::Counterclockwise => height,
            Turn::Mirror | Turn::UpsideDown => width,
        }
    }

    /// The height of an image after the turn.
    pub open spec fn height_after(self, width: u8, height: u8) -> u8 {
        match self {
            Turn::Clockwise | Turn::Counterclockwise => width,
            Turn::Mirror | Turn::UpsideDown => height,
        }
    }

    /// The column from which the pixel in column `x` of row `y` of the
    /// turned image comes; `width` and `height` are those before the turn.
    pub open spec fn source_x(self, x: int, y: int, width: int, height: int) -> int {
        match self {
            Turn::Clockwise => y,
            Turn::Counterclockwise => width - 1 - y,
            Turn::Mirror => width - 1 - x,
            Turn::UpsideDown => x,
        }
    }

    /// The row from which the pixel in column `x` of row `y` of the turned
    /// image comes.
    pub open spec fn source_y(self, x: int, y: int, width: int, height: int) -> int {
        match self {
            Turn::Clockwise => height - 1 - x,
            Turn::Counterclockwise => x,
            Turn::Mirror => y,
            Turn::UpsideDown => height - 1 - y,
        }
    }
}

/// The image after a turn: every pixel of the turned image is the pixel
/// at its source; palette and high-water index stay.
pub open spec fn turned(image: ImageView, turn: Turn) -> ImageView {
    let width = turn.width_after(image.width, image.height);
    let height = turn.height_after(image.width, image.height);
    ImageView {
        width,
        height,
        pixels: Seq::new(
            (width * height) as nat,
            |i: int|
                image.pixel_at(
                    turn.source_x(
                        i % (width as int),
                        i / (width as int),
                        image.width as int,
                        image.height as int,
                    ),
                    turn.source_y(
                        i % (width as int),
                        i / (width as int),
                        image.width as int,
                        image.height as int,
                    ),
                ),
        ),
        ..image
    }
}

/// The pixel of a turned image at a place inside it is the pixel at the
/// source of that place.
pub proof fn lemma_turned_pixel(image: ImageView, turn: Turn, x: int, y: int)
    requires
        image.wf(),
        0 <= x < turn.width_after(image.width, image.height),
        0 <= y < turn.height_after(image.width, image.height),
    ensures
        turned(image, turn).pixel_at(x, y) == image.pixel_at(
            turn.source_x(x, y, image.width as int, image.height as int),
            turn.source_y(x, y, image.width as int, image.height as int),
        ),
{
    let width = turn.width_after(image.width, image.height) as int;
    let height = turn.height_after(image.width, image.height) as int;
    lemma_index_of(x, y, width, height);
}

impl Turn {
    /// The turn that undoes this one.
    pub open spec fn back(self) -> Turn {
        match self {
            Turn::Clockwise => Turn::Counterclockwise,
            Turn::Counterclockwise => Turn::Clockwise,
            Turn::Mirror => Turn::Mirror,
            Turn::UpsideDown => Turn::UpsideDown,
        }
    }
}

/// A turned image is well formed and of the size that the turn gives.
pub proof fn lemma_turned_wf(image: ImageView, turn: Turn)
    requires
        image.wf(),
    ensures
        turned(image, turn).wf(),
        turned(image, turn).width == turn.width_after(image.width, image.height),
        turned(image, turn).height == turn.height_after(image.width, image.height),
{
    assert(image.width * image.height == image.height * image.width) by (nonlinear_arith);
}

/// Turning an image and turning it back gives the image: a quarter turn is
/// undone by the quarter turn the other way, and each flip by itself.
pub proof fn lemma_turned_back(image: ImageView, turn: Turn)
    requires
        image.wf(),
    ensures
        turned(turned(image, turn), turn.back()) == image,
{
    let there = turned(image, turn);
    let back = turned(there, turn.back());
    lemma_turned_wf(image, turn);
    lemma_turned_wf(there, turn.back());
    let w = image.width as int;
    let h = image.height as int;
    assert(back.pixels =~= image.pixels) by {
        assert forall|i: int| 0 <= i < image.pixels.len() implies back.pixels[i]
            == image.pixels[i] by {
            lemma_place(i, w, h);
            let x = i % w;
            let y = i / w;
            lemma_turned_pixel(there, turn.back(), x, y);
            let tx = turn.back().source_x(x, y, there.width as int, there.height as int);
            let ty = turn.back().source_y(x, y, there.width as int, there.height as int);
            lemma_turned_pixel(image, turn, tx, ty);
        }
    }
}

impl Clone for IndexedImage {
    fn clone(&self) -> (copy: IndexedImage)
        ensures
            copy@ == self@,
    {
        proof {
            use_type_invariant(self);
        }
        let pixels = copy_bytes(self.pixels.as_slice(), 0, self.pixels.len());
        assert(pixels@ =~= self.pixels@);
        IndexedImage {
            width: self.width,
            height: self.height,
            palette: copy_colors(self.palette.as_slice()),
            pixels,
            highest_palette_idx: self.highest_palette_idx,
        }
    }
}

impl View for IndexedImage {
    type V = ImageView;

    closed spec fn view(&self) -> ImageView {
        ImageView {
            width: self.width,
            height: self.height,
            palette: self.palette@,
            pixels: self.pixels@,
            highest_palette_idx: self.highest_palette_idx,
        }
    }
}

impl IndexedImage {
    /// Every image is well formed.
    #[verifier::type_invariant]
    pub open spec fn well_formed(&self) -> bool {
        self@.wf()
    }

    /// An image from its parts. The high-water index is the highest pixel.
    pub fn new(width: u8, height: u8, palette: Vec<Color>, pixels: Vec<u8>) -> (r: Result<
        IndexedImage,
        IndexedImageError,
    >)
        ensures
            match (r, image_new(width, height, palette@, pixels@)) {
                (Ok(image), Ok(view)) => image@ == view,
                (Err(e), Err(expected)) => e == expected,
                _ => false,
            },
    {
        if width == 0 {
            return Err(IndexedImageError::WidthIsZero);
        }
        if height == 0 {
            return Err(IndexedImageError::HeightIsZero);
        }
        if palette.len() == 0 {
            return Err(IndexedImageError::PaletteIsEmpty);
        }
        let expected: usize = area(width, height);
        if pixels.len() != expected {
            return Err(IndexedImageError::MissingData(pixels.len(), expected));
        }
        let highest_palette_idx = max_index(pixels.as_slice());
        Ok(IndexedImage { width, height, palette, pixels, highest_palette_idx })
    }

    /// An image of the given size whose pixels are all 0.
    pub fn blank(width: u8, height: u8, palette: Vec<Color>) -> (image: IndexedImage)
        requires
            width > 0,
            height > 0,
            palette@.len() > 0,
        ensures
            image@ == (ImageView {
                width,
                height,
                palette: palette@,
                pixels: Seq::new((width * height) as nat, |i: int| 0u8),
                highest_palette_idx: 0,
            }),
    {
        let count: usize = area(width, height);
        let mut pixels: Vec<u8> = Vec::new();
        while pixels.len() < count
            invariant
                pixels@.len() <= count,
                forall|i: int| 0 <= i < pixels@.len() ==> pixels@[i] == 0,
            decreases count - pixels@.len(),
        {
            pixels.push(0);
        }
        assert(pixels@ =~= Seq::new((width * height) as nat, |i: int| 0u8));
        IndexedImage { width, height, palette, pixels, highest_palette_idx: 0 }
    }

    /// An image with the palette and the high-water index of this one, and
    /// with the given size and pixels.
    pub(crate) fn derive(&self, width: u8, height: u8, pixels: Vec<u8>) -> (image: IndexedImage)
        requires
            width > 0,
            height > 0,
            pixels@.len() == width * height,
        ensures
            image@ == (ImageView { width, height, pixels: pixels@, ..self@ }),
    {
        proof {
            use_type_invariant(self);
        }
        IndexedImage {
            width,
            height,
            palette: copy_colors(self.palette.as_slice()),
            pixels,
            highest_palette_idx: self.highest_palette_idx,
        }
    }

    /// Replaces the palette. A palette with fewer colours than the
    /// high-water index is refused, and the image stays as it was.
    pub fn set_palette(&mut self, palette: &[Color]) -> (r: Result<(), IndexedImageError>)
        requires
            palette@.len() > 0,
        ensures
            match old(self)@.replace_palette(palette@) {
                Ok(view) => r is Ok && final(self)@ == view,
                Err(e) => r == Err::<(), IndexedImageError>(e) && final(self)@ == old(self)@,
            },
    {
        proof {
            use_type_invariant(&*self);
        }
        if palette.len() < self.highest_palette_idx as usize {
            return Err(IndexedImageError::PaletteTooFewColors(self.highest_palette_idx));
        }
        self.palette = copy_colors(palette);
        Ok(())
    }

    /// Replaces the palette and gives every pixel outside the new palette
    /// the index `id`. An `id` outside the new palette is refused, and the
    /// image stays as it was.
    pub fn set_palette_replace_id(&mut self, palette: &[Color], id: u8) -> (r: Result<
        (),
        IndexedImageError,
    >)
        requires
            palette@.len() > 0,
        ensures
            match old(self)@.replace_palette_and_id(palette@, id) {
                Ok(view) => r is Ok && final(self)@ == view,
                Err(e) => r == Err::<(), IndexedImageError>(e) && final(self)@ == old(self)@,
            },
    {
        proof {
            use_type_invariant(&*self);
        }
        if palette.len() <= id as usize {
            return Err(IndexedImageError::IdOutsideOfNewPalette);
        }
        let pixels = redirect(self.pixels.as_slice(), palette.len(), id);
        let top = max_index(pixels.as_slice());
        self.palette = copy_colors(palette);
        self.pixels = pixels;
        self.highest_palette_idx = top;
        Ok(())
    }

    /// Replaces the palette; where it has no colour for the high-water
    /// index, `color` is added at its end until it has.
    pub fn set_palette_replace_color(&mut self, palette: &[Color], color: Color)
        requires
            palette@.len() > 0,
        ensures
            final(self)@ == old(self)@.with_palette(
                padded(palette@, old(self)@.highest_palette_idx, color),
            ),
    {
        proof {
            use_type_invariant(&*self);
        }
        self.palette = pad(palette, self.highest_palette_idx, color);
    }

    /// Width and height.
    pub fn size(&self) -> (s: (u8, u8))
        ensures
            s == (self@.width, self@.height),
    {
        (self.width, self.height)
    }

    /// Writes one pixel. The index is not held against the palette, and
    /// the high-water index stays as it is.
    pub fn set_pixel(&mut self, pixel_idx: usize, color_idx: u8) -> (r: Result<
        (),
        IndexedImageError,
    >)
        ensures
            pixel_idx < old(self)@.pixels.len() ==> r is Ok && final(self)@ == old(
                self,
            )@.with_pixels(old(self)@.pixels.update(pixel_idx as int, color_idx)),
            pixel_idx >= old(self)@.pixels.len() ==> r == Err::<(), IndexedImageError>(
                IndexedImageError::IndexOutOfRange(
                    pixel_idx,
                    old(self)@.pixels.len() as usize,
                    "pixels",
                ),
            ) && final(self)@ == old(self)@,
    {
        if pixel_idx >= self.pixels.len() {
            return Err(IndexedImageError::IndexOutOfRange(pixel_idx, self.pixels.len(), "pixels"));
        }
        self.set_pixel_unchecked(pixel_idx, color_idx);
        Ok(())
    }

    /// Writes one pixel whose place the caller has checked.
    pub fn set_pixel_unchecked(&mut self, pixel_idx: usize, color_idx: u8)
        requires
            pixel_idx < old(self)@.pixels.len(),
        ensures
            final(self)@ == old(self)@.with_pixels(
                old(self)@.pixels.update(pixel_idx as int, color_idx),
            ),
    {
        proof {
            use_type_invariant(&*self);
        }
        self.pixels[pixel_idx] = color_idx;
    }

    /// The pixels, row by row.
    pub fn get_pixels(&self) -> (pixels: &[u8])
        ensures
            pixels@ == self@.pixels,
            self@.wf(),
    {
        proof {
            use_type_invariant(self);
        }
        self.pixels.as_slice()
    }

    /// Reads one pixel.
    pub fn get_pixel(&self, pixel_idx: usize) -> (r: Result<u8, IndexedImageError>)
        ensures
            pixel_idx < self@.pixels.len() ==> r == Ok::<u8, IndexedImageError>(
                self@.pixels[pixel_idx as int],
            ),
            pixel_idx >= self@.pixels.len() ==> r == Err::<u8, IndexedImageError>(
                IndexedImageError::IndexOutOfRange(
                    pixel_idx,
                    self@.pixels.len() as usize,
                    "pixels",
                ),
            ),
    {
        if pixel_idx >= self.pixels.len() {
            return Err(IndexedImageError::IndexOutOfRange(pixel_idx, self.pixels.len(), "pixels"));
        }
        Ok(self.pixels[pixel_idx])
    }

    /// Reads one pixel whose place the caller has checked.
    pub fn get_pixel_unchecked(&self, pixel_idx: usize) -> (p: u8)
        requires
            pixel_idx < self@.pixels.len(),
        ensures
            p == self@.pixels[pixel_idx as int],
    {
        self.pixels[pixel_idx]
    }

    /// The place of `(x, y)` among the pixels. The column is checked
    /// before the row.
    pub fn get_pixel_index(&self, x: u8, y: u8) -> (r: Result<usize, IndexedImageError>)
        ensures
            self@.wf(),
            x < self@.width && y < self@.height ==> r == Ok::<usize, IndexedImageError>(
                index_of(x as int, y as int, self@.width as int) as usize,
            ) && index_of(x as int, y as int, self@.width as int) < self@.pixels.len(),
            x >= self@.width ==> r == Err::<usize, IndexedImageError>(
                IndexedImageError::IndexOutOfRange(x as usize, self@.width as usize, "width"),
            ),
            x < self@.width && y >= self@.height ==> r == Err::<usize, IndexedImageError>(
                IndexedImageError::IndexOutOfRange(y as usize, self@.height as usize, "height"),
            ),
    {
        proof {
            use_type_invariant(self);
        }
        if x >= self.width {
            return Err(IndexedImageError::IndexOutOfRange(x as usize, self.width as usize, "width"));
        }
        if y >= self.height {
            return Err(
                IndexedImageError::IndexOutOfRange(y as usize, self.height as usize, "height"),
            );
        }
        proof {
            lemma_index_of(x as int, y as int, self.width as int, self.height as int);
        }
        Ok(self.get_pixel_index_unchecked(x, y))
    }

    /// The place that `(x, y)` has or would have among the pixels.
    pub fn get_pixel_index_unchecked(&self, x: u8, y: u8) -> (i: usize)
        ensures
            i == index_of(x as int, y as int, self@.width as int),
    {
        assert(y as int * self.width as int <= 255 * 255) by (nonlinear_arith)
            requires
                0 <= y as int <= 255,
                0 <= self.width as int <= 255,
        ;
        x as usize + y as usize * self.width as usize
    }

    /// Reads one colour of the palette.
    pub fn get_color(&self, idx: u8) -> (r: Result<Color, IndexedImageError>)
        ensures
            idx < self@.palette.len() ==> r == Ok::<Color, IndexedImageError>(
                self@.palette[idx as int],
            ),
            idx >= self@.palette.len() ==> r == Err::<Color, IndexedImageError>(
                IndexedImageError::IndexOutOfRange(
                    idx as usize,
                    self@.palette.len() as usize,
                    "palette",
                ),
            ),
    {
        if idx as usize >= self.palette.len() {
            return Err(
                IndexedImageError::IndexOutOfRange(idx as usize, self.palette.len(), "palette"),
            );
        }
        Ok(self.palette[idx as usize])
    }

    /// Reads one colour whose index the caller has checked.
    pub fn get_color_unchecked(&self, idx: u8) -> (c: Color)
        requires
            idx < self@.palette.len(),
        ensures
            c == self@.palette[idx as int],
    {
        self.palette[idx as usize]
    }

    /// Writes one colour of the palette.
    pub fn set_color(&mut self, idx: u8, color: Color) -> (r: Result<(), IndexedImageError>)
        ensures
            idx < old(self)@.palette.len() ==> r is Ok && final(self)@ == old(
                self,
            )@.with_palette(old(self)@.palette.update(idx as int, color)),
            idx >= old(self)@.palette.len() ==> r == Err::<(), IndexedImageError>(
                IndexedImageError::IndexOutOfRange(
                    idx as usize,
                    old(self)@.palette.len() as usize,
                    "palette",
                ),
            ) && final(self)@ == old(self)@,
    {
        if idx as usize >= self.palette.len() {
            return Err(
                IndexedImageError::IndexOutOfRange(idx as usize, self.palette.len(), "palette"),
            );
        }
        self.set_color_unchecked(idx, color);
        Ok(())
    }

    /// Writes one colour whose index the caller has checked.
    pub fn set_color_unchecked(&mut self, idx: u8, color: Color)
        requires
            idx < old(self)@.palette.len(),
        ensures
            final(self)@ == old(self)@.with_palette(
                old(self)@.palette.update(idx as int, color),
            ),
    {
        proof {
            use_type_invariant(&*self);
        }
        self.palette[idx as usize] = color;
    }

    /// The palette.
    pub fn get_palette(&self) -> (palette: &[Color])
        ensures
            palette@ == self@.palette,
    {
        self.palette.as_slice()
    }

    /// The high-water index: a new palette needs at least this many
    /// colours.
    pub fn min_palette_size_supported(&self) -> (top: u8)
        ensures
            top == self@.highest_palette_idx,
    {
        self.highest_palette_idx
    }

    /// The width, which is 1 at least.
    pub fn width(&self) -> (w: u8)
        ensures
            w == self@.width,
            w > 0,
    {
        proof {
            use_type_invariant(self);
        }
        self.width
    }

    /// The height, which is 1 at least.
    pub fn height(&self) -> (h: u8)
        ensures
            h == self@.height,
            h > 0,
    {
        proof {
            use_type_invariant(self);
        }
        self.height
    }

    /// The image after `turn`.
    pub fn turn(&self, turn: Turn) -> (out: IndexedImage)
        ensures
            self@.wf(),
            out@ == turned(self@, turn),
    {
        proof {
            use_type_invariant(self);
        }
        let w: usize = self.width as usize;
        let h: usize = self.height as usize;
        let (out_width, out_height) = match turn {
            Turn::Clockwise | Turn::Counterclockwise => (self.height, self.width),
            Turn::Mirror | Turn::UpsideDown => (self.width, self.height),
        };
        let ow: usize = out_width as usize;
        let count: usize = area(out_width, out_height);
        assert(count == w * h) by (nonlinear_arith)
            requires
                count == ow * (out_height as int),
                (ow == w && out_height as int == h) || (ow == h && out_height as int == w),
        ;
        let mut pixels: Vec<u8> = Vec::new();
        let mut i: usize = 0;
        while i < count
            invariant
                i <= count,
                count == ow * out_height,
                count == w * h,
                ow == turn.width_after(self.width, self.height),
                out_height == turn.height_after(self.width, self.height),
                w == self.width,
                h == self.height,
                0 < w <= 255,
                0 < h <= 255,
                self.pixels@.len() == w * h,
                pixels@.len() == i,
                forall|j: int| 0 <= j < i ==> pixels@[j] == turned(self@, turn).pixels[j],
            decreases count - i,
        {
            proof {
                lemma_place(i as int, ow as int, out_height as int);
            }
            let x: usize = i % ow;
            let y: usize = i / ow;
            let (sx, sy) = match turn {
                Turn::Clockwise => (y, h - 1 - x),
                Turn::Counterclockwise => (w - 1 - y, x),
                Turn::Mirror => (w - 1 - x, y),
                Turn::UpsideDown => (x, h - 1 - y),
            };
            proof {
                lemma_index_of(sx as int, sy as int, w as int, h as int);
            }
            assert(sy * w <= 255 * 255) by (nonlinear_arith)
                requires
                    0 <= sy < 255,
                    0 < w <= 255,
            ;
            pixels.push(self.pixels[sx + sy * w]);
            i += 1;
        }
        assert(pixels@ =~= turned(self@, turn).pixels);
        self.derive(out_width, out_height, pixels)
    }

    /// The image turned a quarter clockwise: the pixel at `(x, y)` goes to
    /// column `height - 1 - y` of row `x`.
    pub fn rotate_cw(&self) -> (out: IndexedImage)
        ensures
            out@ == turned(self@, Turn::Clockwise),
            forall|x: int, y: int|
                0 <= x < self@.width && 0 <= y < self@.height ==> out@.pixel_at(
                    self@.height - 1 - y,
                    x,
                ) == #[trigger] self@.pixel_at(x, y),
    {
        let out = self.turn(Turn::Clockwise);
        assert forall|x: int, y: int| 0 <= x < self@.width && 0 <= y < self@.height implies out@.pixel_at(
            self@.height - 1 - y,
            x,
        ) == #[trigger] self@.pixel_at(x, y) by {
            lemma_turned_pixel(self@, Turn::Clockwise, self@.height - 1 - y, x);
        }
        out
    }

    /// As `rotate_cw`.
    pub fn rotate_cw_unchecked(&self) -> (out: IndexedImage)
        ensures
            out@ == turned(self@, Turn::Clockwise),
    {
        self.turn(Turn::Clockwise)
    }

    /// The image turned a quarter counterclockwise: the pixel at `(x, y)`
    /// goes to column `y` of row `width - 1 - x`.
    pub fn rotate_ccw(&self) -> (out: IndexedImage)
        ensures
            out@ == turned(self@, Turn::Counterclockwise),
            forall|x: int, y: int|
                0 <= x < self@.width && 0 <= y < self@.height ==> out@.pixel_at(
                    y,
                    self@.width - 1 - x,
                ) == #[trigger] self@.pixel_at(x, y),
    {
        let out = self.turn(Turn::Counterclockwise);
        assert forall|x: int, y: int| 0 <= x < self@.width && 0 <= y < self@.height implies out@.pixel_at(
            y,
            self@.width - 1 - x,
        ) == #[trigger] self@.pixel_at(x, y) by {
            lemma_turned_pixel(self@, Turn::Counterclockwise, y, self@.width - 1 - x);
        }
        out
    }

    /// As `rotate_ccw`.
    pub fn rotate_ccw_unchecked(&self) -> (out: IndexedImage)
        ensures
            out@ == turned(self@, Turn::Counterclockwise),
    {
        self.turn(Turn::Counterclockwise)
    }

    /// The image with top and bottom exchanged: the pixel at `(x, y)`
    /// goes to row `height - 1 - y` of its column. Never fails.
    pub fn flip_vertical(&self) -> (r: Result<IndexedImage, IndexedImageError>)
        ensures
            r matches Ok(out) && out@ == turned(self@, Turn::UpsideDown),
            forall|x: int, y: int|
                0 <= x < self@.width && 0 <= y < self@.height ==> r->Ok_0@.pixel_at(
                    x,
                    self@.height - 1 - y,
                ) == #[trigger] self@.pixel_at(x, y),
    {
        let out = self.turn(Turn::UpsideDown);
        assert forall|x: int, y: int| 0 <= x < self@.width && 0 <= y < self@.height implies out@.pixel_at(
            x,
            self@.height - 1 - y,
        ) == #[trigger] self@.pixel_at(x, y) by {
            lemma_turned_pixel(self@, Turn::UpsideDown, x, self@.height - 1 - y);
        }
        Ok(out)
    }

    /// As `flip_vertical`, without the `Result`.
    pub fn flip_vertical_unchecked(&self) -> (out: IndexedImage)
        ensures
            out@ == turned(self@, Turn::UpsideDown),
    {
        self.turn(Turn::UpsideDown)
    }

    /// The image with left and right exchanged: the pixel at `(x, y)`
    /// goes to column `width - 1 - x` of its row. Never fails.
    pub fn flip_horizontal(&self) -> (r: Result<IndexedImage, IndexedImageError>)
        ensures
            r matches Ok(out) && out@ == turned(self@, Turn::Mirror),
            forall|x: int, y: int|
                0 <= x < self@.width && 0 <= y < self@.height ==> r->Ok_0@.pixel_at(
                    self@.width - 1 - x,
                    y,
                ) == #[trigger] self@.pixel_at(x, y),
    {
        let out = self.turn(Turn::Mirror);
        assert forall|x: int, y: int| 0 <= x < self@.width && 0 <= y < self@.height implies out@.pixel_at(
            self@.width - 1 - x,
            y,
        ) == #[trigger] self@.pixel_at(x, y) by {
            lemma_turned_pixel(self@, Turn::Mirror, self@.width - 1 - x, y);
        }
        Ok(out)
    }

    /// As `flip_horizontal`, without the `Result`.
    pub fn flip_horizontal_unchecked(&self) -> (out: IndexedImage)
        ensures
            out@ == turned(self@, Turn::Mirror),
    {
        self.turn(Turn::Mirror)
    }

    /// The image made larger as `algo` says. A factor of zero is refused,
    /// and so is a result wider or higher than 255; `Epx4x` is refused as
    /// soon as one of its two doublings is.
    pub fn scale(&self, algo: Scaling) -> (r: Result<IndexedImage, IndexedImageError>)
        ensures
            scaling_agrees(r, scaled(self@, algo)),
    {
        match algo {
            Scaling::NearestNeighbour { x_scale, y_scale } => scale_nearest_neighbor(
                self,
                x_scale,
                y_scale,
            ),
            Scaling::Epx2x => scale_epx(self),
            Scaling::Epx4x => match scale_epx(self) {
                Err(e) => Err(e),
                Ok(doubled) => scale_epx(&doubled),
            },
        }
    }

    /// As `scale`, for an image and factors that the caller has checked.
    pub fn scale_unchecked(&self, algo: Scaling) -> (out: IndexedImage)
        requires
            scaled(self@, algo) is Ok,
        ensures
            scaled(self@, algo) == Ok::<ImageView, IndexedImageError>(out@),
    {
        match algo {
            Scaling::NearestNeighbour { x_scale, y_scale } => scale_nearest_neighbor_unchecked(
                self,
                x_scale,
                y_scale,
            ),
            Scaling::Epx2x => scale_epx_unchecked(self),
            Scaling::Epx4x => {
                let doubled = scale_epx_unchecked(self);
                scale_epx_unchecked(&doubled)
            },
        }
    }

    /// The image with `color_diff[i]` added to colour `i` of the palette,
    /// channel by channel.
    pub fn tint_palette_add(&self, color_diff: &[(isize, isize, isize, isize)]) -> (out:
        IndexedImage)
        requires
            color_diff@.len() >= self@.palette.len(),
        ensures
            out@ == self@.with_palette(
                Seq::new(
                    self@.palette.len(),
                    |i: int|
                        shifted(
                            self@.palette[i],
                            color_diff@[i].0 as int,
                            color_diff@[i].1 as int,
                            color_diff@[i].2 as int,
                            color_diff@[i].3 as int,
                        ),
                ),
            ),
    {
        proof {
            use_type_invariant(self);
        }
        let mut palette: Vec<Color> = Vec::new();
        let mut i: usize = 0;
        while i < self.palette.len()
            invariant
                i <= self.palette@.len() <= color_diff@.len(),
                palette@.len() == i,
                forall|j: int|
                    0 <= j < i ==> palette@[j] == shifted(
                        self.palette@[j],
                        color_diff@[j].0 as int,
                        color_diff@[j].1 as int,
                        color_diff@[j].2 as int,
                        color_diff@[j].3 as int,
                    ),
            decreases self.palette@.len() - i,
        {
            let diff = color_diff[i];
            let mut color = self.palette[i];
            color.tint_add(diff.0, diff.1, diff.2, diff.3);
            palette.push(color);
            i += 1;
        }
        let pixels = copy_bytes(self.pixels.as_slice(), 0, self.pixels.len());
        assert(pixels@ =~= self.pixels@);
        let out = IndexedImage {
            width: self.width,
            height: self.height,
            palette,
            pixels,
            highest_palette_idx: self.highest_palette_idx,
        };
        assert(out@.palette =~= Seq::new(
            self@.palette.len(),
            |i: int|
                shifted(
                    self@.palette[i],
                    color_diff@[i].0 as int,
                    color_diff@[i].1 as int,
                    color_diff@[i].2 as int,
                    color_diff@[i].3 as int,
                ),
        ));
        out
    }

    /// The image with the same amounts added to every colour of the
    /// palette.
    pub fn tint_add(&self, color_diff: &(isize, isize, isize, isize)) -> (out: IndexedImage)
        ensures
            out@ == self@.with_palette(
                Seq::new(
                    self@.palette.len(),
                    |i: int|
                        shifted(
                            self@.palette[i],
                            color_diff.0 as int,
                            color_diff.1 as int,
                            color_diff.2 as int,
                            color_diff.3 as int,
                        ),
                ),
            ),
    {
        proof {
            use_type_invariant(self);
        }
        let mut palette: Vec<Color> = Vec::new();
        let mut i: usize = 0;
        while i < self.palette.len()
            invariant
                i <= self.palette@.len(),
                palette@.len() == i,
                forall|j: int|
                    0 <= j < i ==> palette@[j] == shifted(
                        self.palette@[j],
                        color_diff.0 as int,
                        color_diff.1 as int,
                        color_diff.2 as int,
                        color_diff.3 as int,
                    ),
            decreases self.palette@.len() - i,
        {
            let mut color = self.palette[i];
            color.tint_add(color_diff.0, color_diff.1, color_diff.2, color_diff.3);
            palette.push(color);
            i += 1;
        }
        let pixels = copy_bytes(self.pixels.as_slice(), 0, self.pixels.len());
        assert(pixels@ =~= self.pixels@);
        let out = IndexedImage {
            width: self.width,
            height: self.height,
            palette,
            pixels,
            highest_palette_idx: self.highest_palette_idx,
        };
        assert(out@.palette =~= Seq::new(
            self@.palette.len(),
            |i: int|
                shifted(
                    self@.palette[i],
                    color_diff.0 as int,
                    color_diff.1 as int,
                    color_diff.2 as int,
                    color_diff.3 as int,
                ),
        ));
        out
    }

    /// The container of the image, with its palette stored as `palette`
    /// says. Fails only where `palette` is a name without bytes or with more
    /// than 255.
    pub fn to_file_contents(&self, palette: &FilePalette) -> (r: Result<
        Vec<u8>,
        IndexedImageError,
    >)
        ensures
            match palette@.fault() {
                Some(e) => r == Err::<Vec<u8>, IndexedImageError>(e),
                None => r matches Ok(bytes) && bytes@ == image_file(self@, palette@),
            },
    {
        let mut output: Vec<u8> = Vec::new();
        output.push(HEADER[0]);
        output.push(HEADER[1]);
        output.push(HEADER[2]);
        output.push(HEADER[3]);
        output.push(FileType::Image.to_byte());
        assert(output@ =~= header_bytes() + seq![FileType::Image.byte()]);
        match crate::palette::write(palette, self.get_palette(), &mut output) {
            Err(e) => {
                return Err(e);
            },
            Ok(()) => {},
        }
        output.push(self.width);
        output.push(self.height);
        append_bytes(&mut output, self.pixels.as_slice());
        assert(output@ =~= image_file(self@, palette@));
        Ok(output)
    }

    /// Reads a still image from its container, and how its palette was
    /// stored. Where the container brings no colours, the palette is
    /// transparent throughout: replace it with one of `set_palette`,
    /// `set_palette_replace_id` and `set_palette_replace_color`.
    pub fn from_file_contents(bytes: &[u8]) -> (r: Result<
        (IndexedImage, FilePalette),
        IndexedImageError,
    >)
        ensures
            decoded_agrees(r, parse_image(bytes@)),
    {
        let file_type = match verify_format(bytes) {
            Err(e) => {
                return Err(e);
            },
            Ok(file_type) => file_type,
        };
        match file_type {
            FileType::Animated => {
                return Err(
                    IndexedImageError::InvalidFileFormat(
                        0,
                        FormatIssue::WrongFileType {
                            expected: FileType::Image,
                            found: FileType::Animated,
                        },
                    ),
                );
            },
            FileType::Image => {},
        }
        let (skip, pal_type, colors) = match crate::palette::read(5, bytes) {
            Err(e) => {
                return Err(e);
            },
            Ok(block) => block,
        };
        let start: usize = 5 + skip;
        if bytes.len() - start < 3 {
            return Err(IndexedImageError::InvalidFileFormat(start, FormatIssue::IncompletePixels));
        }
        let width: u8 = bytes[start];
        let height: u8 = bytes[start + 1];
        let pixels_len: usize = area(width, height);
        let found: usize = bytes.len() - start - 2;
        if found < pixels_len {
            return Err(
                IndexedImageError::InvalidFileFormat(
                    start + 2,
                    FormatIssue::MissingPixels(found, pixels_len),
                ),
            );
        }
        let pixels = copy_bytes(bytes, start + 2, start + 2 + pixels_len);
        let colors = match colors {
            None => transparent_palette(max_index(pixels.as_slice()) as usize + 1),
            Some(colors) => colors,
        };
        match IndexedImage::new(width, height, colors, pixels) {
            Err(e) => Err(e),
            Ok(image) => Ok((image, pal_type)),
        }
    }
}

} // verus!
