//! How a container stores its palette: not at all, by id, by name, or as a
//! table of colours.
use vstd::prelude::*;
use std::collections::HashSet;
use vstd::utf8::decode_utf8;
use vstd::utf8::encode_utf8;
use vstd::utf8::valid_utf8;
use crate::color::Color;
use crate::color::distance;
use crate::color::lemma_unpack_packed;
use crate::color::midway;
use crate::color::packed;
use crate::indexed::copy_bytes;
use crate::indexed::copy_colors;
use crate::errors::FormatIssue;
use crate::errors::IndexedImageError;

verus! {

/// Tag of a palette block that holds nothing more.
pub const PAL_NO_DATA: u8 = 0;

/// Tag of a palette block that holds a 16-bit id.
pub const PAL_ID: u8 = 1;

/// Tag of a palette block that holds a name.
pub const PAL_NAME: u8 = 2;

/// Tag of a palette block that holds the colours themselves.
pub const PAL_COLORS: u8 = 3;

/// How palette data is stored in a container.
#[derive(Debug, Clone, PartialEq, Eq)]
pub enum FilePalette {
    /// No palette information.
    NoData,
    /// The id of a palette that the reader knows.
    ID(u16),
    /// The name of a palette that the reader knows: 1 to 255 bytes of UTF-8.
    Name(String),
    /// The colours of the image's palette, in order.
    Colors,
}

/// A `FilePalette` as a mathematical value: the name by its characters.
pub enum PaletteDescriptor {
    NoData,
    ID(u16),
    Name(Seq<char>),
    Colors,
}

impl View for FilePalette {
    type V = PaletteDescriptor;

    open spec fn view(&self) -> PaletteDescriptor {
        match self {
            FilePalette::NoData => PaletteDescriptor::NoData,
            FilePalette::ID(id) => PaletteDescriptor::ID(*id),
            FilePalette::Name(name) => PaletteDescriptor::Name(name@),
            FilePalette::Colors => PaletteDescriptor::Colors,
        }
    }
}

impl PaletteDescriptor {
    /// The tag byte of the descriptor.
    pub open spec fn tag(self) -> u8 {
        match self {
            PaletteDescriptor::NoData => PAL_NO_DATA,
            PaletteDescriptor::ID(_) => PAL_ID,
            PaletteDescriptor::Name(_) => PAL_NAME,
            PaletteDescriptor::Colors => PAL_COLORS,
        }
    }

    /// Why the descriptor cannot be written, if it cannot: a name must have
    /// 1 to 255 bytes.
    pub open spec fn fault(self) -> Option<IndexedImageError> {
        match self {
            PaletteDescriptor::Name(name) => if encode_utf8(name).len() < 1 {
                Some(IndexedImageError::PaletteNameTooShort)
            } else if encode_utf8(name).len() > 255 {
                Some(IndexedImageError::PaletteNameTooLong)
            } else {
                None
            },
            _ => None,
        }
    }
}

/// One channel of a colour: 0 is red, 1 green, 2 blue, anything else alpha.
pub open spec fn channel(c: Color, k: int) -> u8 {
    if k == 0 {
        c.r
    } else if k == 1 {
        c.g
    } else if k == 2 {
        c.b
    } else {
        c.a
    }
}

/// A colour table as bytes: four bytes per colour, in the order red, green,
/// blue, alpha.
pub open spec fn color_bytes(colors: Seq<Color>) -> Seq<u8> {
    Seq::new(4 * colors.len(), |i: int| channel(colors[i / 4], i % 4))
}

/// The `count` colours whose bytes start at `at`.
pub open spec fn colors_at(bytes: Seq<u8>, at: int, count: int) -> Seq<Color> {
    Seq::new(
        count as nat,
        |i: int|
            Color {
                r: bytes[at + 4 * i],
                g: bytes[at + 4 * i + 1],
                b: bytes[at + 4 * i + 2],
                a: bytes[at + 4 * i + 3],
            },
    )
}

/// The palette block of a descriptor that has no `fault`. A table of more
/// than 255 colours is written whole, under its count modulo 256.
pub open spec fn palette_block(palette: PaletteDescriptor, colors: Seq<Color>) -> Seq<u8> {
    match palette {
        PaletteDescriptor::NoData => seq![PAL_NO_DATA],
        PaletteDescriptor::ID(id) => seq![PAL_ID, (id / 256) as u8, (id % 256) as u8],
        PaletteDescriptor::Name(name) => seq![PAL_NAME, encode_utf8(name).len() as u8]
            + encode_utf8(name),
        PaletteDescriptor::Colors => seq![PAL_COLORS, (colors.len() % 256) as u8] + color_bytes(
            colors,
        ),
    }
}

/// A palette block as read: the number of bytes it takes, the descriptor,
/// and the colours where the block holds them.
pub struct PaletteBlock {
    pub consumed: int,
    pub palette: PaletteDescriptor,
    pub colors: Option<Seq<Color>>,
}

/// The palette block that starts at `start`, or the reason why there is
/// none. Bytes behind the block are not looked at. The offset of an error
/// is the place where reading stopped.
pub open spec fn parse_palette(bytes: Seq<u8>, start: int) -> Result<
    PaletteBlock,
    IndexedImageError,
> {
    if bytes.len() <= start {
        Err(
            IndexedImageError::InvalidFileFormat(
                start as usize,
                FormatIssue::MissingPaletteFormat,
            ),
        )
    } else if bytes[start] == PAL_NO_DATA {
        Ok(PaletteBlock { consumed: 1, palette: PaletteDescriptor::NoData, colors: None })
    } else if bytes[start] == PAL_ID {
        if bytes.len() < start + 3 {
            Err(
                IndexedImageError::InvalidFileFormat(
                    (start + 1) as usize,
                    FormatIssue::MissingPaletteId,
                ),
            )
        } else {
            Ok(
                PaletteBlock {
                    consumed: 3,
                    palette: PaletteDescriptor::ID(
                        (bytes[start + 1] * 256 + bytes[start + 2]) as u16,
                    ),
                    colors: None,
                },
            )
        }
    } else if bytes[start] == PAL_NAME {
        if bytes.len() < start + 2 {
            Err(
                IndexedImageError::InvalidFileFormat(
                    (start + 1) as usize,
                    FormatIssue::MissingPaletteNameLength,
                ),
            )
        } else if bytes.len() < start + 2 + bytes[start + 1] {
            Err(
                IndexedImageError::InvalidFileFormat(
                    (start + 2) as usize,
                    FormatIssue::IncompletePaletteName,
                ),
            )
        } else {
            let name = bytes.subrange(start + 2, start + 2 + bytes[start + 1]);
            if valid_utf8(name) {
                Ok(
                    PaletteBlock {
                        consumed: bytes[start + 1] + 2,
                        palette: PaletteDescriptor::Name(decode_utf8(name)),
                        colors: None,
                    },
                )
            } else {
                Err(IndexedImageError::PaletteNameNotUtf8)
            }
        }
    } else if bytes[start] == PAL_COLORS {
        if bytes.len() < start + 2 {
            Err(
                IndexedImageError::InvalidFileFormat(
                    (start + 1) as usize,
                    FormatIssue::MissingPaletteColorCount,
                ),
            )
        } else if bytes.len() < start + 2 + bytes[start + 1] * 4 {
            Err(
                IndexedImageError::InvalidFileFormat(
                    (start + 2) as usize,
                    FormatIssue::IncompletePaletteColors(bytes[start + 1]),
                ),
            )
        } else {
            Ok(
                PaletteBlock {
                    consumed: bytes[start + 1] * 4 + 2,
                    palette: PaletteDescriptor::Colors,
                    colors: Some(colors_at(bytes, start + 2, bytes[start + 1] as int)),
                },
            )
        }
    } else {
        Err(
            IndexedImageError::InvalidFileFormat(
                (start + 1) as usize,
                FormatIssue::UnsupportedPaletteType(bytes[start]),
            ),
        )
    }
}

/// Whether what `read` returned is what `parse_palette` says.
pub open spec fn read_agrees(
    r: Result<(usize, FilePalette, Option<Vec<Color>>), IndexedImageError>,
    expected: Result<PaletteBlock, IndexedImageError>,
) -> bool {
    match (r, expected) {
        (Ok((skip, palette, colors)), Ok(block)) => {
            &&& skip == block.consumed
            &&& palette@ == block.palette
            &&& match (colors, block.colors) {
                (Some(found), Some(table)) => found@ == table,
                (None, None) => true,
                _ => false,
            }
        },
        (Err(e), Err(expected_error)) => e == expected_error,
        _ => false,
    }
}

/// `String::from_utf8` of std: the text whose UTF-8 encoding the bytes are,
/// and nothing where the bytes are no valid UTF-8.
#[verifier::external_body]
fn string_from_utf8(bytes: Vec<u8>) -> (text: Option<String>)
    ensures
        text is Some <==> valid_utf8(bytes@),
        text matches Some(s) ==> s@ == decode_utf8(bytes@),
{
    String::from_utf8(bytes).ok()
}

impl FilePalette {
    /// The tag byte of the descriptor.
    pub fn to_byte(&self) -> (b: u8)
        ensures
            b == self@.tag(),
    {
        match self {
            FilePalette::NoData => PAL_NO_DATA,
            FilePalette::ID(_) => PAL_ID,
            FilePalette::Name(_) => PAL_NAME,
            FilePalette::Colors => PAL_COLORS,
        }
    }
}

/// Appends the palette block for `palette` to `output`; `colors` is the
/// table that `Colors` writes.
///
/// A name without bytes or with more than 255 is refused; by then the tag
/// byte stands in `output`.
pub fn write(palette: &FilePalette, colors: &[Color], output: &mut Vec<u8>) -> (r: Result<
    (),
    IndexedImageError,
>)
    ensures
        match palette@.fault() {
            Some(e) => r == Err::<(), IndexedImageError>(e) && final(output)@ == old(output)@.push(
                PAL_NAME,
            ),
            None => r is Ok && final(output)@ == old(output)@ + palette_block(palette@, colors@),
        },
{
    output.push(palette.to_byte());
    match palette {
        FilePalette::NoData => {
            assert(output@ =~= old(output)@ + palette_block(palette@, colors@));
        },
        FilePalette::ID(id) => {
            output.push((*id / 256) as u8);
            output.push((*id % 256) as u8);
            assert(output@ =~= old(output)@ + palette_block(palette@, colors@));
        },
        FilePalette::Name(name) => {
            let bytes = name.as_str().as_bytes();
            let len: usize = bytes.len();
            if len < 1 {
                return Err(IndexedImageError::PaletteNameTooShort);
            }
            if len > 255 {
                return Err(IndexedImageError::PaletteNameTooLong);
            }
            output.push(len as u8);
            let mut i: usize = 0;
            while i < len
                invariant
                    i <= len,
                    len == bytes@.len(),
                    output@ == old(output)@ + seq![PAL_NAME, len as u8] + bytes@.take(i as int),
                decreases len - i,
            {
                output.push(bytes[i]);
                i += 1;
                assert(bytes@.take(i as int) =~= bytes@.take(i - 1).push(bytes@[i - 1]));
            }
            assert(bytes@.take(len as int) =~= bytes@);
            assert(output@ =~= old(output)@ + palette_block(palette@, colors@));
        },
        FilePalette::Colors => {
            let count: usize = colors.len();
            output.push((count % 256) as u8);
            let mut i: usize = 0;
            while i < count
                invariant
                    i <= count,
                    count == colors@.len(),
                    output@ == old(output)@ + seq![PAL_COLORS, (count % 256) as u8] + color_bytes(
                        colors@.take(i as int),
                    ),
                decreases count - i,
            {
                let color = colors[i];
                output.push(color.r);
                output.push(color.g);
                output.push(color.b);
                output.push(color.a);
                i += 1;
                assert(color_bytes(colors@.take(i as int)) =~= color_bytes(colors@.take(i - 1))
                    + seq![color.r, color.g, color.b, color.a]);
            }
            assert(colors@.take(count as int) =~= colors@);
            assert(output@ =~= old(output)@ + palette_block(palette@, colors@));
        },
    }
    Ok(())
}

/// Reads the palette block that starts at `start_idx`: the number of bytes
/// it takes, the descriptor, and the colours where the block holds them.
pub fn read(start_idx: usize, bytes: &[u8]) -> (r: Result<
    (usize, FilePalette, Option<Vec<Color>>),
    IndexedImageError,
>)
    ensures
        read_agrees(r, parse_palette(bytes@, start_idx as int)),
{
    if bytes.len() <= start_idx {
        return Err(
            IndexedImageError::InvalidFileFormat(start_idx, FormatIssue::MissingPaletteFormat),
        );
    }
    let pal_type: u8 = bytes[start_idx];
    let rest: usize = bytes.len() - start_idx - 1;
    let at: usize = start_idx + 1;
    if pal_type == PAL_NO_DATA {
        Ok((1, FilePalette::NoData, None))
    } else if pal_type == PAL_ID {
        if rest < 2 {
            return Err(IndexedImageError::InvalidFileFormat(at, FormatIssue::MissingPaletteId));
        }
        let id: u16 = bytes[at] as u16 * 256 + bytes[at + 1] as u16;
        Ok((3, FilePalette::ID(id), None))
    } else if pal_type == PAL_NAME {
        if rest < 1 {
            return Err(
                IndexedImageError::InvalidFileFormat(at, FormatIssue::MissingPaletteNameLength),
            );
        }
        let len: usize = bytes[at] as usize;
        if rest - 1 < len {
            return Err(
                IndexedImageError::InvalidFileFormat(at + 1, FormatIssue::IncompletePaletteName),
            );
        }
        let raw = copy_bytes(bytes, at + 1, at + 1 + len);
        match string_from_utf8(raw) {
            Some(name) => Ok((len + 2, FilePalette::Name(name), None)),
            None => Err(IndexedImageError::PaletteNameNotUtf8),
        }
    } else if pal_type == PAL_COLORS {
        if rest < 1 {
            return Err(
                IndexedImageError::InvalidFileFormat(at, FormatIssue::MissingPaletteColorCount),
            );
        }
        let count: u8 = bytes[at];
        let end: usize = count as usize * 4;
        if rest - 1 < end {
            return Err(
                IndexedImageError::InvalidFileFormat(
                    at + 1,
                    FormatIssue::IncompletePaletteColors(count),
                ),
            );
        }
        let mut colors: Vec<Color> = Vec::new();
        let mut i: usize = 0;
        while i < count as usize
            invariant
                i <= count,
                at + 1 + count * 4 <= bytes@.len() <= usize::MAX,
                colors@ == colors_at(bytes@, at + 1, i as int),
            decreases count - i,
        {
            let p: usize = at + 1 + 4 * i;
            colors.push(Color::new(bytes[p], bytes[p + 1], bytes[p + 2], bytes[p + 3]));
            i += 1;
            assert(colors@ =~= colors_at(bytes@, at + 1, i as int));
        }
        Ok((end + 2, FilePalette::Colors, Some(colors)))
    } else {
        Err(
            IndexedImageError::InvalidFileFormat(
                at,
                FormatIssue::UnsupportedPaletteType(pal_type),
            ),
        )
    }
}

/// Whether colour `i` is another colour than colour `idx`, and nearer to it
/// than `threshold`.
pub open spec fn near(colors: Seq<Color>, idx: int, i: int, threshold: int) -> bool {
    i != idx && 0 < distance(colors[idx], colors[i]) < threshold
}

/// The first colour from place `from` on that is `near` colour `idx`, if
/// there is one.
pub open spec fn first_near(colors: Seq<Color>, idx: int, threshold: int, from: int) -> Option<int>
    decreases colors.len() - from,
{
    if from < 0 || from >= colors.len() {
        None
    } else if near(colors, idx, from, threshold) {
        Some(from)
    } else {
        first_near(colors, idx, threshold, from + 1)
    }
}

/// The palette with the colours `idx` and `i` both replaced by the colour
/// half way between them.
pub open spec fn merged(colors: Seq<Color>, idx: int, i: int) -> Seq<Color> {
    colors.update(idx, midway(colors[idx], colors[i])).update(i, midway(colors[idx], colors[i]))
}

/// The sum of the squares of the channels of a colour.
pub open spec fn weight(c: Color) -> nat {
    (c.r * c.r + c.g * c.g + c.b * c.b + c.a * c.a) as nat
}

/// The sum of the weights of the colours.
pub open spec fn total_weight(colors: Seq<Color>) -> nat
    decreases colors.len(),
{
    if colors.len() == 0 {
        0
    } else {
        total_weight(colors.drop_last()) + weight(colors.last())
    }
}

/// Replacing one colour changes the total weight by the difference of the
/// two weights.
pub proof fn lemma_update_weight(colors: Seq<Color>, k: int, c: Color)
    requires
        0 <= k < colors.len(),
    ensures
        total_weight(colors.update(k, c)) + weight(colors[k]) == total_weight(colors) + weight(c),
    decreases colors.len(),
{
    if k == colors.len() - 1 {
        assert(colors.update(k, c).drop_last() =~= colors.drop_last());
    } else {
        assert(colors.update(k, c).drop_last() =~= colors.drop_last().update(k, c));
        lemma_update_weight(colors.drop_last(), k, c);
    }
}

/// The value half way between two channel values weighs at most half of
/// what the two weigh together, and less where they differ.
pub proof fn lemma_mid_channel_weight(lhs: u8, rhs: u8)
    ensures
        2 * (crate::color::mid_channel(lhs, rhs) * crate::color::mid_channel(lhs, rhs)) <= lhs
            * lhs + rhs * rhs,
        lhs != rhs ==> 2 * (crate::color::mid_channel(lhs, rhs) * crate::color::mid_channel(
            lhs,
            rhs,
        )) < lhs * lhs + rhs * rhs,
{
    let m = crate::color::mid_channel(lhs, rhs) as int;
    let l = lhs as int;
    let r = rhs as int;
    assert(0 <= 2 * m <= l + r);
    assert(2 * (m * m) <= l * l + r * r && (l != r ==> 2 * (m * m) < l * l + r * r))
        by (nonlinear_arith)
        requires
            0 <= 2 * m <= l + r,
            0 <= l,
            0 <= r,
    ;
}

/// Merging two colours that differ makes the palette weigh less.
pub proof fn lemma_merge_weighs_less(colors: Seq<Color>, idx: int, i: int)
    requires
        0 <= idx < colors.len(),
        0 <= i < colors.len(),
        i != idx,
        distance(colors[idx], colors[i]) > 0,
    ensures
        total_weight(merged(colors, idx, i)) < total_weight(colors),
{
    let x = colors[idx];
    let y = colors[i];
    let m = midway(x, y);
    lemma_update_weight(colors, idx, m);
    lemma_update_weight(colors.update(idx, m), i, m);
    lemma_mid_channel_weight(x.r, y.r);
    lemma_mid_channel_weight(x.g, y.g);
    lemma_mid_channel_weight(x.b, y.b);
    lemma_mid_channel_weight(x.a, y.a);
}

/// Where `first_near` finds a colour, it is `near` and inside the palette.
pub proof fn lemma_first_near(colors: Seq<Color>, idx: int, threshold: int, from: int)
    requires
        0 <= from,
    ensures
        match first_near(colors, idx, threshold, from) {
            Some(i) => from <= i < colors.len() && near(colors, idx, i, threshold) && forall|j: int|
                from <= j < i ==> !near(colors, idx, j, threshold),
            None => forall|j: int| from <= j < colors.len() ==> !near(colors, idx, j, threshold),
        },
    decreases colors.len() - from,
{
    if from < colors.len() && !near(colors, idx, from, threshold) {
        lemma_first_near(colors, idx, threshold, from + 1);
    }
}

/// What `simplify_palette` makes of a palette when it has dealt with the
/// colours before `idx`.
///
/// It looks for the first colour that is `near` colour `idx`. Where there
/// is one, the two are merged and it looks again; where there is none, it
/// goes on to the next colour, until it has dealt with the last.
pub open spec fn simplified_from(colors: Seq<Color>, idx: int, threshold: int) -> Seq<Color>
    decreases total_weight(colors), colors.len() - idx,
{
    if idx < 0 || idx >= colors.len() {
        colors
    } else {
        match first_near(colors, idx, threshold, 0) {
            Some(i) => {
                proof {
                    lemma_first_near(colors, idx, threshold, 0);
                    lemma_merge_weighs_less(colors, idx, i);
                }
                simplified_from(merged(colors, idx, i), idx, threshold)
            },
            None => simplified_from(colors, idx + 1, threshold),
        }
    }
}

/// The palette that `simplify_palette` returns.
pub open spec fn simplified(colors: Seq<Color>, threshold: int) -> Seq<Color> {
    simplified_from(colors, 0, threshold)
}

/// Whether all colours are the same.
pub open spec fn all_same(colors: Seq<Color>) -> bool {
    forall|i: int, j: int| 0 <= i < colors.len() && 0 <= j < colors.len() ==> colors[i] == colors[j]
}

/// Two colours at no distance are the same colour.
pub proof fn lemma_no_distance(lhs: Color, rhs: Color)
    ensures
        0 <= distance(lhs, rhs) <= 1020,
        distance(lhs, rhs) == 0 ==> lhs == rhs,
{
}

/// With a threshold above the greatest distance there is, simplifying
/// leaves one colour only, and as many colours as before.
pub proof fn lemma_simplified_to_one(colors: Seq<Color>, idx: int, threshold: int)
    requires
        0 <= idx < colors.len(),
        threshold > 1020,
    ensures
        all_same(simplified_from(colors, idx, threshold)),
    decreases total_weight(colors), colors.len() - idx,
{
    lemma_first_near(colors, idx, threshold, 0);
    match first_near(colors, idx, threshold, 0) {
        Some(i) => {
            lemma_merge_weighs_less(colors, idx, i);
            lemma_simplified_to_one(merged(colors, idx, i), idx, threshold);
            assert(simplified_from(colors, idx, threshold) == simplified_from(
                merged(colors, idx, i),
                idx,
                threshold,
            ));
        },
        None => {
            assert forall|j: int| 0 <= j < colors.len() implies #[trigger] colors[j]
                == colors[idx] by {
                lemma_no_distance(colors[idx], colors[j]);
                assert(!near(colors, idx, j, threshold));
            }
            assert(simplified_from(colors, idx, threshold) == simplified_from(
                colors,
                idx + 1,
                threshold,
            ));
            if idx + 1 < colors.len() {
                lemma_simplified_to_one(colors, idx + 1, threshold);
            } else {
                assert(simplified_from(colors, idx + 1, threshold) == colors);
                assert(all_same(colors));
            }
        },
    }
}

/// Simplifying keeps the number of colours.
pub proof fn lemma_simplified_len(colors: Seq<Color>, idx: int, threshold: int)
    ensures
        simplified_from(colors, idx, threshold).len() == colors.len(),
    decreases total_weight(colors), colors.len() - idx,
{
    if 0 <= idx < colors.len() {
        lemma_first_near(colors, idx, threshold, 0);
        match first_near(colors, idx, threshold, 0) {
            Some(i) => {
                lemma_merge_weighs_less(colors, idx, i);
                lemma_simplified_len(merged(colors, idx, i), idx, threshold);
            },
            None => {
                lemma_simplified_len(colors, idx + 1, threshold);
            },
        }
    }
}

/// A palette of one colour throughout has one colour, unless it is empty.
pub proof fn lemma_one_colour(colors: Seq<Color>)
    requires
        all_same(colors),
    ensures
        colors.to_set().len() <= 1,
{
    if colors.len() == 0 {
        colors.lemma_cardinality_of_set();
    } else {
        assert(colors.to_set() =~= set![colors[0]]) by {
            assert forall|c: Color| colors.to_set().contains(c) implies c == colors[0] by {
                let k = choose|k: int| 0 <= k < colors.len() && colors[k] == c;
                assert(colors[k] == colors[0]);
            }
            assert(colors.to_set().contains(colors[0]));
        }
    }
}

/// The palette that `simplify_palette_to_fit` returns when it has come to
/// `threshold`: the palette itself where it has fewer than `max` colours
/// that differ, and otherwise what becomes of the simplified palette at
/// the next threshold, ten higher. Above 1020 no threshold is tried, since
/// by then one colour is left.
pub open spec fn fitted(colors: Seq<Color>, threshold: int, max: int) -> Seq<Color>
    decreases 1032 - threshold,
{
    if colors.to_set().len() < max || threshold > 1022 {
        colors
    } else {
        fitted(simplified(colors, threshold), threshold + 10, max)
    }
}

/// The colours of a palette as numbers: each by the number that its four
/// bytes spell. Two colours are the same where their numbers are.
pub open spec fn packed_colors(colors: Seq<Color>) -> Set<u32> {
    Set::new(|v: u32| exists|i: int| 0 <= i < colors.len() && packed(colors[i]) == v)
}

/// A longer palette has the numbers of the shorter one, and that of the
/// colour added.
pub proof fn lemma_packed_colors_push(colors: Seq<Color>, c: Color)
    ensures
        packed_colors(colors.push(c)) == packed_colors(colors).insert(packed(c) as u32),
{
    let more = colors.push(c);
    let v = packed(c) as u32;
    lemma_unpack_packed(c);
    assert forall|w: u32| packed_colors(more).contains(w) <==> packed_colors(colors).insert(
        v,
    ).contains(w) by {
        if packed_colors(more).contains(w) {
            let k = choose|k: int| 0 <= k < more.len() && packed(more[k]) == w;
            if k < colors.len() {
                assert(colors[k] == more[k]);
            }
        }
        if packed_colors(colors).contains(w) {
            let k = choose|k: int| 0 <= k < colors.len() && packed(colors[k]) == w;
            assert(more[k] == colors[k]);
        }
        if w == v {
            assert(more[more.len() - 1] == c);
        }
    }
    assert(packed_colors(more) =~= packed_colors(colors).insert(v));
}

/// There are as many numbers of colours as there are colours that differ.
pub proof fn lemma_packed_colors_len(colors: Seq<Color>)
    ensures
        packed_colors(colors).finite(),
        packed_colors(colors).len() == colors.to_set().len(),
    decreases colors.len(),
{
    broadcast use vstd::seq_lib::seq_to_set_is_finite;

    if colors.len() == 0 {
        assert(packed_colors(colors) =~= Set::<u32>::empty());
        colors.lemma_cardinality_of_set();
    } else {
        let front = colors.drop_last();
        let c = colors.last();
        let v = packed(c) as u32;
        lemma_packed_colors_len(front);
        lemma_unpack_packed(c);
        assert(colors =~= front.push(c));
        front.lemma_push_to_set_commute(c);
        assert(front.push(c).to_set() == front.to_set().insert(c));
        lemma_packed_colors_push(front, c);
        if front.to_set().contains(c) {
            let k = choose|k: int| 0 <= k < front.len() && front[k] == c;
            assert(packed_colors(front).contains(v));
        }
        if packed_colors(front).contains(v) {
            let k = choose|k: int| 0 <= k < front.len() && packed(front[k]) == v;
            lemma_unpack_packed(front[k]);
            assert(front[k] == c);
            assert(front.to_set().contains(c));
        }
    }
}

/// The number of colours that differ from each other.
pub fn distinct_count(colors: &[Color]) -> (n: usize)
    ensures
        n == colors@.to_set().len(),
{
    broadcast use vstd::std_specs::hash::group_hash_axioms;

    let mut seen: HashSet<u32> = HashSet::new();
    let mut i: usize = 0;
    assert(packed_colors(colors@.take(0)) =~= Set::<u32>::empty());
    while i < colors.len()
        invariant
            i <= colors@.len(),
            seen@ == packed_colors(colors@.take(i as int)),
        decreases colors@.len() - i,
    {
        proof {
            lemma_unpack_packed(colors@[i as int]);
            lemma_packed_colors_push(colors@.take(i as int), colors@[i as int]);
            assert(colors@.take(i + 1) =~= colors@.take(i as int).push(colors@[i as int]));
        }
        seen.insert(colors[i].as_u32());
        i += 1;
    }
    proof {
        assert(colors@.take(i as int) =~= colors@);
        lemma_packed_colors_len(colors@);
    }
    seen.len()
}

/// Merges colours that lie within `threshold` of each other. Start with a
/// threshold of 2; above 1020 all colours become one. The result has as many
/// entries as the palette, so every index stays good.
pub fn simplify_palette(colors: &[Color], threshold: usize) -> (out: Vec<Color>)
    requires
        colors@.len() > 0,
    ensures
        out@ == simplified(colors@, threshold as int),
        out@.len() == colors@.len(),
{
    let mut output = copy_colors(colors);
    let mut idx: usize = 0;
    proof {
        lemma_simplified_len(colors@, 0, threshold as int);
    }
    loop
        invariant_except_break
            idx < output@.len(),
            simplified_from(output@, idx as int, threshold as int) == simplified(
                colors@,
                threshold as int,
            ),
        invariant
            output@.len() == colors@.len(),
        ensures
            output@ == simplified(colors@, threshold as int),
        decreases total_weight(output@), output@.len() - idx,
    {
        let color = output[idx];
        let mut to_merge: Option<usize> = None;
        let mut i: usize = 0;
        while i < output.len() && to_merge.is_none()
            invariant
                i <= output@.len(),
                idx < output@.len(),
                color == output@[idx as int],
                to_merge is None ==> first_near(output@, idx as int, threshold as int, 0)
                    == first_near(output@, idx as int, threshold as int, i as int),
                to_merge matches Some(found) ==> first_near(
                    output@,
                    idx as int,
                    threshold as int,
                    0,
                ) == Some(found as int),
            decreases output@.len() - i + (if to_merge is None { 1int } else { 0int }),
        {
            let diff = color.diff(&output[i]);
            if idx != i && diff > 0 && diff < threshold {
                to_merge = Some(i);
            } else {
                i += 1;
            }
        }
        proof {
            lemma_first_near(output@, idx as int, threshold as int, 0);
        }
        let ghost before = output@;
        match to_merge {
            Some(i) => {
                proof {
                    lemma_merge_weighs_less(output@, idx as int, i as int);
                }
                let c = output[idx].mid(&output[i]);
                output[idx] = c;
                output[i] = c;
                assert(output@ == merged(before, idx as int, i as int));
            },
            None => {
                assert(first_near(before, idx as int, threshold as int, 0) is None);
                assert(simplified_from(before, idx as int, threshold as int) == simplified_from(
                    before,
                    idx + 1,
                    threshold as int,
                ));
                idx += 1;
                if idx >= output.len() {
                    assert(simplified_from(before, idx as int, threshold as int) == before);
                    break ;
                }
            },
        }
    }
    output
}

/// Merges colours, with a threshold that starts at 2 and grows by 10,
/// until fewer than `max` colours differ. The result has as many entries as
/// the palette, so every index stays good.
///
/// One colour at least is left of a palette that has any, so `max` is 2
/// or more; of an empty palette it may be 1.
pub fn simplify_palette_to_fit(colors: &[Color], max: usize) -> (out: Vec<Color>)
    requires
        max >= 2 || (max == 1 && colors@.len() == 0),
    ensures
        out@ == fitted(colors@, 2, max as int),
        out@.len() == colors@.len(),
        out@.to_set().len() < max,
{
    let mut output = copy_colors(colors);
    let mut threshold: usize = 2;
    loop
        invariant_except_break
            fitted(output@, threshold as int, max as int) == fitted(colors@, 2, max as int),
        invariant
            2 <= threshold <= 1032,
            threshold % 10 == 2,
            max >= 2 || (max == 1 && colors@.len() == 0),
            output@.len() == colors@.len(),
            threshold == 1032 ==> output@.to_set().len() < max,
        ensures
            output@ == fitted(colors@, 2, max as int),
            output@.to_set().len() < max,
        decreases 1032 - threshold,
    {
        if distinct_count(output.as_slice()) < max {
            break ;
        }
        proof {
            output@.lemma_cardinality_of_empty_set_is_0();
            lemma_simplified_len(output@, 0, threshold as int);
            if threshold > 1020 {
                lemma_simplified_to_one(output@, 0, threshold as int);
                lemma_one_colour(simplified(output@, threshold as int));
            }
        }
        output = simplify_palette(output.as_slice(), threshold);
        threshold += 10;
    }
    output
}

} // verus!
