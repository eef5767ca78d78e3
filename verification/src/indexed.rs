//! What still and animated images share: the flat array of palette
//! indices, its highest entry, and the rules for replacing a palette.
use vstd::prelude::*;
use crate::color::Color;

verus! {

/// The highest value in a sequence of palette indices; 0 where it is empty.
pub open spec fn highest(pixels: Seq<u8>) -> u8
    decreases pixels.len(),
{
    if pixels.len() == 0 {
        0
    } else if pixels.last() > highest(pixels.drop_last()) {
        pixels.last()
    } else {
        highest(pixels.drop_last())
    }
}

/// `highest` is an upper bound, and an entry where there is any.
pub proof fn lemma_highest(pixels: Seq<u8>)
    ensures
        forall|i: int| 0 <= i < pixels.len() ==> #[trigger] pixels[i] <= highest(pixels),
        pixels.len() > 0 ==> exists|i: int| 0 <= i < pixels.len() && pixels[i] == highest(pixels),
    decreases pixels.len(),
{
    if pixels.len() > 0 {
        let front = pixels.drop_last();
        lemma_highest(front);
        assert forall|i: int| 0 <= i < pixels.len() implies #[trigger] pixels[i] <= highest(
            pixels,
        ) by {
            if i < front.len() {
                assert(pixels[i] == front[i]);
            }
        }
        if front.len() > 0 && pixels.last() <= highest(front) {
            let k = choose|k: int| 0 <= k < front.len() && front[k] == highest(front);
            assert(pixels[k] == highest(pixels));
        } else {
            assert(pixels[pixels.len() - 1] == highest(pixels));
        }
    }
}

/// A palette of `count` fully transparent colours.
pub open spec fn transparent_colors(count: int) -> Seq<Color> {
    Seq::new(count as nat, |i: int| Color { r: 0, g: 0, b: 0, a: 0 })
}

/// The pixels with every index that lies outside a palette of `len`
/// colours replaced by `id`.
pub open spec fn redirected(pixels: Seq<u8>, len: int, id: u8) -> Seq<u8> {
    Seq::new(
        pixels.len(),
        |i: int|
            if pixels[i] >= len {
                id
            } else {
                pixels[i]
            },
    )
}

/// The palette, with `fill` added at its end until it has a colour for
/// every index up to `top`.
pub open spec fn padded(palette: Seq<Color>, top: u8, fill: Color) -> Seq<Color> {
    if palette.len() > top {
        palette
    } else {
        Seq::new((top + 1) as nat, |i: int| if i < palette.len() { palette[i] } else { fill })
    }
}

/// The place of `(x, y)` in a row-major array of rows `width` long.
pub open spec fn index_of(x: int, y: int, width: int) -> int {
    x + y * width
}

/// A place inside a `width` by `height` grid lies inside its array, and
/// its row and column can be read off the place.
pub proof fn lemma_index_of(x: int, y: int, width: int, height: int)
    requires
        0 <= x < width,
        0 <= y < height,
    ensures
        0 <= index_of(x, y, width) < width * height,
        index_of(x, y, width) / width == y,
        index_of(x, y, width) % width == x,
{
    assert(y * width + width <= height * width) by (nonlinear_arith)
        requires
            0 <= y < height,
            0 < width,
    ;
    assert(0 <= y * width) by (nonlinear_arith)
        requires
            0 <= y,
            0 < width,
    ;
    assert(height * width == width * height) by (nonlinear_arith);
    vstd::arithmetic::div_mod::lemma_fundamental_div_mod_converse(x + y * width, width, y, x);
}

/// A place in the array of a `width` by `height` grid has a column and a
/// row inside the grid.
pub proof fn lemma_place(i: int, width: int, height: int)
    requires
        0 <= i < width * height,
        0 < width,
    ensures
        0 <= i % width < width,
        0 <= i / width < height,
        index_of(i % width, i / width, width) == i,
{
    vstd::arithmetic::div_mod::lemma_fundamental_div_mod(i, width);
    vstd::arithmetic::div_mod::lemma_mod_bound(i, width);
    let q = i / width;
    assert(width * q == q * width) by (nonlinear_arith);
    assert(q >= 0 && q < height) by (nonlinear_arith)
        requires
            0 <= i < width * height,
            0 < width,
            i == width * q + i % width,
            0 <= i % width < width,
    ;
}

/// The number of pixels of a `width` by `height` grid.
pub fn area(width: u8, height: u8) -> (count: usize)
    ensures
        count == width * height,
        count <= 65025,
{
    assert(width as int * height as int <= 255 * 255) by (nonlinear_arith)
        requires
            0 <= width as int <= 255,
            0 <= height as int <= 255,
    ;
    width as usize * height as usize
}

/// The highest entry of `pixels`.
pub fn max_index(pixels: &[u8]) -> (top: u8)
    ensures
        top == highest(pixels@),
{
    let mut top: u8 = 0;
    let mut i: usize = 0;
    while i < pixels.len()
        invariant
            i <= pixels@.len(),
            top == highest(pixels@.take(i as int)),
        decreases pixels@.len() - i,
    {
        assert(pixels@.take(i + 1).drop_last() =~= pixels@.take(i as int));
        if pixels[i] > top {
            top = pixels[i];
        }
        i += 1;
    }
    assert(pixels@.take(i as int) =~= pixels@);
    top
}

/// A vector of `count` fully transparent colours.
pub fn transparent_palette(count: usize) -> (palette: Vec<Color>)
    ensures
        palette@ == transparent_colors(count as int),
{
    let mut palette: Vec<Color> = Vec::new();
    let mut i: usize = 0;
    while i < count
        invariant
            i <= count,
            palette@ == transparent_colors(i as int),
        decreases count - i,
    {
        palette.push(Color::transparent());
        i += 1;
        assert(palette@ =~= transparent_colors(i as int));
    }
    palette
}

/// A copy of the colours.
pub fn copy_colors(colors: &[Color]) -> (copy: Vec<Color>)
    ensures
        copy@ == colors@,
{
    let mut copy: Vec<Color> = Vec::new();
    let mut i: usize = 0;
    while i < colors.len()
        invariant
            i <= colors@.len(),
            copy@ == colors@.take(i as int),
        decreases colors@.len() - i,
    {
        copy.push(colors[i]);
        i += 1;
        assert(copy@ =~= colors@.take(i as int));
    }
    assert(colors@.take(i as int) =~= colors@);
    copy
}

/// A copy of `bytes[from..to]`.
pub fn copy_bytes(bytes: &[u8], from: usize, to: usize) -> (copy: Vec<u8>)
    requires
        from <= to <= bytes@.len(),
    ensures
        copy@ == bytes@.subrange(from as int, to as int),
{
    let mut copy: Vec<u8> = Vec::new();
    let mut i: usize = from;
    while i < to
        invariant
            from <= i <= to <= bytes@.len(),
            copy@ == bytes@.subrange(from as int, i as int),
        decreases to - i,
    {
        copy.push(bytes[i]);
        i += 1;
        assert(copy@ =~= bytes@.subrange(from as int, i as int));
    }
    copy
}

/// Appends `bytes` to `output`.
pub fn append_bytes(output: &mut Vec<u8>, bytes: &[u8])
    ensures
        final(output)@ == old(output)@ + bytes@,
{
    let mut i: usize = 0;
    while i < bytes.len()
        invariant
            i <= bytes@.len(),
            output@ == old(output)@ + bytes@.take(i as int),
        decreases bytes@.len() - i,
    {
        output.push(bytes[i]);
        i += 1;
        assert(output@ =~= old(output)@ + bytes@.take(i as int));
    }
    assert(bytes@.take(i as int) =~= bytes@);
}

/// The pixels with every index from `len` on replaced by `id`.
pub fn redirect(pixels: &[u8], len: usize, id: u8) -> (out: Vec<u8>)
    ensures
        out@ == redirected(pixels@, len as int, id),
{
    let mut out: Vec<u8> = Vec::new();
    let mut i: usize = 0;
    while i < pixels.len()
        invariant
            i <= pixels@.len(),
            out@ == redirected(pixels@.take(i as int), len as int, id),
        decreases pixels@.len() - i,
    {
        if pixels[i] as usize >= len {
            out.push(id);
        } else {
            out.push(pixels[i]);
        }
        i += 1;
        assert(out@ =~= redirected(pixels@.take(i as int), len as int, id));
    }
    assert(pixels@.take(i as int) =~= pixels@);
    out
}

/// The palette, filled up with `fill` to a colour for every index up to
/// `top`.
pub fn pad(palette: &[Color], top: u8, fill: Color) -> (out: Vec<Color>)
    ensures
        out@ == padded(palette@, top, fill),
{
    let mut out = copy_colors(palette);
    if out.len() > top as usize {
        return out;
    }
    while out.len() <= top as usize
        invariant
            palette@.len() <= out@.len() <= top + 1,
            forall|i: int|
                0 <= i < out@.len() ==> out@[i] == if i < palette@.len() {
                    palette@[i]
                } else {
                    fill
                },
        decreases top + 1 - out@.len(),
    {
        out.push(fill);
    }
    assert(out@ =~= padded(palette@, top, fill));
    out
}

} // verus!
