//! Making an image larger: by repeating pixels, or by EPX, which keeps
//! edges sharp.
use vstd::prelude::*;
use crate::errors::IndexedImageError;
use crate::image::ImageView;
use crate::image::IndexedImage;
use crate::indexed::area;
use crate::indexed::lemma_index_of;
use crate::indexed::lemma_place;

verus! {

/// The ways to scale an image.
#[derive(Debug, Clone, Copy, PartialEq, Eq, Structural)]
pub enum Scaling {
    /// Makes every pixel `x_scale` pixels wide and `y_scale` pixels high;
    /// `{2, 2}` doubles the image. Both factors are at least 1.
    NearestNeighbour { x_scale: usize, y_scale: usize },
    /// Doubles the image by EPX.
    Epx2x,
    /// Doubles the image by EPX, twice.
    Epx4x,
}

/// A product, or the highest `usize` where the product is higher.
pub open spec fn capped_product(a: int, b: int) -> usize {
    if a * b > usize::MAX {
        usize::MAX
    } else {
        (a * b) as usize
    }
}

/// The image with every pixel repeated `x_scale` times in its row and
/// every row `y_scale` times: the pixel at `(x, y)` is the pixel of `image`
/// at `(x / x_scale, y / y_scale)`. For factors of at least 1 and a result
/// of at most 255 each way.
pub open spec fn nearest(image: ImageView, x_scale: int, y_scale: int) -> ImageView {
    let width = image.width * x_scale;
    let height = image.height * y_scale;
    ImageView {
        width: width as u8,
        height: height as u8,
        pixels: Seq::new(
            (width * height) as nat,
            |i: int| image.pixel_at((i % width) / x_scale, (i / width) / y_scale),
        ),
        ..image
    }
}

/// What `scale_nearest_neighbor` returns: a factor of zero is refused, then
/// a result wider or higher than 255.
pub open spec fn nearest_scaled(image: ImageView, x_scale: usize, y_scale: usize) -> Result<
    ImageView,
    IndexedImageError,
> {
    if x_scale == 0 || y_scale == 0 {
        Err(IndexedImageError::InvalidScaleParams(x_scale, y_scale))
    } else if image.width * x_scale > 255 || image.height * y_scale > 255 {
        Err(
            IndexedImageError::TooBigPostScale(
                capped_product(image.width as int, x_scale as int),
                capped_product(image.height as int, y_scale as int),
            ),
        )
    } else {
        Ok(nearest(image, x_scale as int, y_scale as int))
    }
}

/// One of the four pixels that EPX makes of the pixel at `(x, y)`.
///
/// `right` and `below` say which of the four: the pixel at
/// `(2 * x + right, 2 * y + below)` of the doubled image. Each starts as
/// the pixel itself. With A the pixel above, C to the left, B to the right
/// and D below, the top left becomes A if C == A, C != D and A != B; the top
/// right becomes B if A == B, A != C and B != D; the bottom left becomes C
/// if D == C, D != B and C != A; the bottom right becomes D if B == D,
/// B != A and D != C. At the top and the left edge the pixel stands for its
/// missing neighbour; to the right and below it does so from the last
/// column but one and the last row but one on.
pub open spec fn epx_pixel(image: ImageView, x: int, y: int, right: int, below: int) -> u8 {
    let p = image.pixel_at(x, y);
    let a = image.pixel_at(x, if y > 0 { y - 1 } else { y });
    let c = image.pixel_at(if x > 0 { x - 1 } else { x }, y);
    let b = image.pixel_at(if x + 2 < image.width { x + 1 } else { x }, y);
    let d = image.pixel_at(x, if y + 2 < image.height { y + 1 } else { y });
    if right == 0 && below == 0 {
        if c == a && c != d && a != b {
            a
        } else {
            p
        }
    } else if below == 0 {
        if a == b && a != c && b != d {
            b
        } else {
            p
        }
    } else if right == 0 {
        if d == c && d != b && c != a {
            c
        } else {
            p
        }
    } else {
        if b == d && b != a && d != c {
            d
        } else {
            p
        }
    }
}

/// The image doubled by EPX. For a result of at most 255 each way.
pub open spec fn epx(image: ImageView) -> ImageView {
    let width = image.width * 2;
    let height = image.height * 2;
    ImageView {
        width: width as u8,
        height: height as u8,
        pixels: Seq::new(
            (width * height) as nat,
            |i: int| epx_pixel(image, (i % width) / 2, (i / width) / 2, (i % width) % 2, (i / width) % 2),
        ),
        ..image
    }
}

/// What `scale_epx` returns: a result wider or higher than 255 is refused.
pub open spec fn epx_scaled(image: ImageView) -> Result<ImageView, IndexedImageError> {
    if image.width * 2 > 255 || image.height * 2 > 255 {
        Err(
            IndexedImageError::TooBigPostScale(
                (image.width * 2) as usize,
                (image.height * 2) as usize,
            ),
        )
    } else {
        Ok(epx(image))
    }
}

/// What `IndexedImage::scale` returns.
pub open spec fn scaled(image: ImageView, algo: Scaling) -> Result<ImageView, IndexedImageError> {
    match algo {
        Scaling::NearestNeighbour { x_scale, y_scale } => nearest_scaled(image, x_scale, y_scale),
        Scaling::Epx2x => epx_scaled(image),
        Scaling::Epx4x => match epx_scaled(image) {
            Err(e) => Err(e),
            Ok(doubled) => epx_scaled(doubled),
        },
    }
}

/// Whether what a scaling function returned is what its spec function says.
pub open spec fn scaling_agrees(
    r: Result<IndexedImage, IndexedImageError>,
    expected: Result<ImageView, IndexedImageError>,
) -> bool {
    match (r, expected) {
        (Ok(image), Ok(view)) => image@ == view,
        (Err(e), Err(expected_error)) => e == expected_error,
        _ => false,
    }
}

/// An image scaled by repeating pixels is well formed, and its pixel at
/// `(x, y)` is the pixel of the image at `(x / x_scale, y / y_scale)`.
pub proof fn lemma_nearest_pixel(image: ImageView, x_scale: int, y_scale: int, x: int, y: int)
    requires
        image.wf(),
        x_scale > 0,
        y_scale > 0,
        image.width * x_scale <= 255,
        image.height * y_scale <= 255,
        0 <= x < image.width * x_scale,
        0 <= y < image.height * y_scale,
    ensures
        nearest(image, x_scale, y_scale).wf(),
        nearest(image, x_scale, y_scale).pixel_at(x, y) == image.pixel_at(
            x / x_scale,
            y / y_scale,
        ),
        0 <= x / x_scale < image.width,
        0 <= y / y_scale < image.height,
{
    let width = image.width * x_scale;
    let height = image.height * y_scale;
    assert(width > 0 && height > 0) by (nonlinear_arith)
        requires
            width == image.width * x_scale,
            height == image.height * y_scale,
            image.width > 0,
            image.height > 0,
            x_scale > 0,
            y_scale > 0,
    ;
    lemma_index_of(x, y, width, height);
    lemma_scaled_down(x, x_scale, image.width as int);
    lemma_scaled_down(y, y_scale, image.height as int);
}

/// A place below `count * scale`, divided by `scale`, lies below `count`.
pub proof fn lemma_scaled_down(i: int, scale: int, count: int)
    requires
        scale > 0,
        0 <= i < count * scale,
    ensures
        0 <= i / scale < count,
{
    vstd::arithmetic::div_mod::lemma_fundamental_div_mod(i, scale);
    vstd::arithmetic::div_mod::lemma_mod_bound(i, scale);
    let q = i / scale;
    assert(0 <= q < count) by (nonlinear_arith)
        requires
            i == scale * q + i % scale,
            0 <= i % scale < scale,
            0 <= i < count * scale,
            scale > 0,
    ;
}

/// An image doubled by EPX is well formed, and its pixel at `(x, y)` is
/// the `epx_pixel` for `(x / 2, y / 2)` and the corner `(x % 2, y % 2)`.
pub proof fn lemma_epx_pixel(image: ImageView, x: int, y: int)
    requires
        image.wf(),
        image.width * 2 <= 255,
        image.height * 2 <= 255,
        0 <= x < image.width * 2,
        0 <= y < image.height * 2,
    ensures
        epx(image).wf(),
        epx(image).pixel_at(x, y) == epx_pixel(image, x / 2, y / 2, x % 2, y % 2),
{
    let width = image.width * 2;
    let height = image.height * 2;
    lemma_index_of(x, y, width, height);
}

/// EPX leaves an image of one colour at that colour: where every pixel of
/// the image is `index`, every pixel of the doubled image is.
pub proof fn lemma_epx_of_one_colour(image: ImageView, index: u8)
    requires
        image.wf(),
        image.width * 2 <= 255,
        image.height * 2 <= 255,
        forall|i: int| 0 <= i < image.pixels.len() ==> image.pixels[i] == index,
    ensures
        epx(image).width == image.width * 2,
        epx(image).height == image.height * 2,
        epx(image).palette == image.palette,
        epx(image).pixels.len() == epx(image).width * epx(image).height,
        forall|i: int| 0 <= i < epx(image).pixels.len() ==> epx(image).pixels[i] == index,
{
    let width = image.width * 2;
    let height = image.height * 2;
    let w = image.width as int;
    let h = image.height as int;
    assert forall|i: int| 0 <= i < epx(image).pixels.len() implies epx(image).pixels[i]
        == index by {
        lemma_place(i, width, height);
        let x = (i % width) / 2;
        let y = (i / width) / 2;
        lemma_index_of(x, y, w, h);
        lemma_index_of(x, if y > 0 { y - 1 } else { y }, w, h);
        lemma_index_of(if x > 0 { x - 1 } else { x }, y, w, h);
        lemma_index_of(if x + 2 < w { x + 1 } else { x }, y, w, h);
        lemma_index_of(x, if y + 2 < h { y + 1 } else { y }, w, h);
    }
}

impl Scaling {
    /// Scaling by repeating pixels. A factor of zero is refused.
    pub fn nearest_neighbour(x: usize, y: usize) -> (r: Result<Scaling, IndexedImageError>)
        ensures
            x != 0 && y != 0 ==> r == Ok::<Scaling, IndexedImageError>(
                Scaling::NearestNeighbour { x_scale: x, y_scale: y },
            ),
            x == 0 || y == 0 ==> r == Err::<Scaling, IndexedImageError>(
                IndexedImageError::InvalidScaleParams(x, y),
            ),
    {
        if x == 0 || y == 0 {
            return Err(IndexedImageError::InvalidScaleParams(x, y));
        }
        Ok(Scaling::NearestNeighbour { x_scale: x, y_scale: y })
    }

    /// Doubling by repeating pixels.
    pub fn nn_double() -> (s: Scaling)
        ensures
            s == (Scaling::NearestNeighbour { x_scale: 2, y_scale: 2 }),
    {
        Scaling::NearestNeighbour { x_scale: 2, y_scale: 2 }
    }
}

/// `side * scale`, or the highest `usize` where that is higher.
fn stretched(side: u8, scale: usize) -> (r: usize)
    ensures
        r == capped_product(side as int, scale as int),
{
    match (side as usize).checked_mul(scale) {
        Some(product) => product,
        None => usize::MAX,
    }
}

/// The image with every pixel repeated `x_scale` times in its row and
/// every row `y_scale` times.
pub fn scale_nearest_neighbor(image: &IndexedImage, x_scale: usize, y_scale: usize) -> (r: Result<
    IndexedImage,
    IndexedImageError,
>)
    ensures
        scaling_agrees(r, nearest_scaled(image@, x_scale, y_scale)),
{
    if x_scale == 0 || y_scale == 0 {
        return Err(IndexedImageError::InvalidScaleParams(x_scale, y_scale));
    }
    let wide: usize = stretched(image.width(), x_scale);
    let high: usize = stretched(image.height(), y_scale);
    if high > 255 || wide > 255 {
        return Err(IndexedImageError::TooBigPostScale(wide, high));
    }
    Ok(scale_nearest_neighbor_unchecked(image, x_scale, y_scale))
}

/// As `scale_nearest_neighbor`, for factors that the caller has checked.
pub fn scale_nearest_neighbor_unchecked(image: &IndexedImage, x_scale: usize, y_scale: usize) -> (out:
    IndexedImage)
    requires
        x_scale > 0,
        y_scale > 0,
        image@.width * x_scale <= 255,
        image@.height * y_scale <= 255,
    ensures
        out@ == nearest(image@, x_scale as int, y_scale as int),
{
    let w: usize = image.width() as usize;
    let h: usize = image.height() as usize;
    let source = image.get_pixels();
    assert(x_scale <= 255 && y_scale <= 255) by (nonlinear_arith)
        requires
            w * x_scale <= 255,
            h * y_scale <= 255,
            w > 0,
            h > 0,
    ;
    let wide: usize = w * x_scale;
    let high: usize = h * y_scale;
    assert(wide > 0 && high > 0) by (nonlinear_arith)
        requires
            wide == w * x_scale,
            high == h * y_scale,
            w > 0,
            h > 0,
            x_scale > 0,
            y_scale > 0,
    ;
    let count: usize = area(wide as u8, high as u8);
    let mut pixels: Vec<u8> = Vec::new();
    let mut i: usize = 0;
    while i < count
        invariant
            i <= count,
            count == wide * high,
            wide == w * x_scale,
            high == h * y_scale,
            0 < wide <= 255,
            0 < high <= 255,
            x_scale > 0,
            y_scale > 0,
            w == image@.width,
            h == image@.height,
            image@.wf(),
            source@ == image@.pixels,
            pixels@.len() == i,
            forall|j: int|
                0 <= j < i ==> pixels@[j] == nearest(image@, x_scale as int, y_scale as int).pixels[j],
        decreases count - i,
    {
        proof {
            lemma_place(i as int, wide as int, high as int);
            lemma_scaled_down((i % wide) as int, x_scale as int, w as int);
            lemma_scaled_down((i / wide) as int, y_scale as int, h as int);
        }
        let px: usize = (i % wide) / x_scale;
        let py: usize = (i / wide) / y_scale;
        proof {
            lemma_index_of(px as int, py as int, w as int, h as int);
        }
        assert(py * w <= 255 * 255) by (nonlinear_arith)
            requires
                0 <= py < 255,
                0 < w <= 255,
        ;
        pixels.push(source[px + py * w]);
        i += 1;
    }
    assert(pixels@ =~= nearest(image@, x_scale as int, y_scale as int).pixels);
    image.derive(wide as u8, high as u8, pixels)
}

/// The image doubled by EPX.
pub fn scale_epx(image: &IndexedImage) -> (r: Result<IndexedImage, IndexedImageError>)
    ensures
        scaling_agrees(r, epx_scaled(image@)),
{
    let wide: usize = image.width() as usize * 2;
    let high: usize = image.height() as usize * 2;
    if high > 255 || wide > 255 {
        return Err(IndexedImageError::TooBigPostScale(wide, high));
    }
    Ok(scale_epx_unchecked(image))
}

/// As `scale_epx`, for an image that the caller has checked.
pub fn scale_epx_unchecked(image: &IndexedImage) -> (out: IndexedImage)
    requires
        image@.width * 2 <= 255,
        image@.height * 2 <= 255,
    ensures
        out@ == epx(image@),
{
    let w: usize = image.width() as usize;
    let h: usize = image.height() as usize;
    let source = image.get_pixels();
    let wide: usize = w * 2;
    let high: usize = h * 2;
    let count: usize = area(wide as u8, high as u8);
    let mut pixels: Vec<u8> = Vec::new();
    let mut i: usize = 0;
    while i < count
        invariant
            i <= count,
            count == wide * high,
            wide == w * 2,
            high == h * 2,
            0 < w <= 127,
            0 < h <= 127,
            w == image@.width,
            h == image@.height,
            image@.wf(),
            source@ == image@.pixels,
            pixels@.len() == i,
            forall|j: int| 0 <= j < i ==> pixels@[j] == epx(image@).pixels[j],
        decreases count - i,
    {
        proof {
            lemma_place(i as int, wide as int, high as int);
        }
        let x: usize = (i % wide) / 2;
        let y: usize = (i / wide) / 2;
        let right: usize = (i % wide) % 2;
        let below: usize = (i / wide) % 2;
        let up: usize = if y > 0 {
            y - 1
        } else {
            y
        };
        let left: usize = if x > 0 {
            x - 1
        } else {
            x
        };
        let next: usize = if x + 2 < w {
            x + 1
        } else {
            x
        };
        let down: usize = if y + 2 < h {
            y + 1
        } else {
            y
        };
        proof {
            lemma_index_of(x as int, y as int, w as int, h as int);
            lemma_index_of(x as int, up as int, w as int, h as int);
            lemma_index_of(left as int, y as int, w as int, h as int);
            lemma_index_of(next as int, y as int, w as int, h as int);
            lemma_index_of(x as int, down as int, w as int, h as int);
        }
        assert(y * w <= 127 * 127 && up * w <= 127 * 127 && down * w <= 127 * 127)
            by (nonlinear_arith)
            requires
                0 <= y < 127,
                0 <= up < 127,
                0 <= down < 127,
                0 < w <= 127,
        ;
        let p: u8 = source[x + y * w];
        let a: u8 = source[x + up * w];
        let c: u8 = source[left + y * w];
        let b: u8 = source[next + y * w];
        let d: u8 = source[x + down * w];
        let value: u8 = if right == 0 && below == 0 {
            if c == a && c != d && a != b {
                a
            } else {
                p
            }
        } else if below == 0 {
            if a == b && a != c && b != d {
                b
            } else {
                p
            }
        } else if right == 0 {
            if d == c && d != b && c != a {
                c
            } else {
                p
            }
        } else {
            if b == d && b != a && d != c {
                d
            } else {
                p
            }
        };
        pixels.push(value);
        i += 1;
    }
    assert(pixels@ =~= epx(image@).pixels);
    image.derive(wide as u8, high as u8, pixels)
}

} // verus!
