//! Reading a container gives back what was written.
use vstd::prelude::*;
use vstd::utf8::encode_utf8;
use vstd::utf8::encode_utf8_decode_utf8;
use vstd::utf8::encode_utf8_valid_utf8;
use crate::animated::AnimationView;
use crate::animated::Playback;
use crate::animated::PlayType;
use crate::animated::animation_file;
use crate::animated::parse_animation;
use crate::animated::parse_frames;
use crate::color::Color;
use crate::errors::IndexedImageError;
use crate::file::FileType;
use crate::file::format_of;
use crate::file::header_bytes;
use crate::image::ImageView;
use crate::image::image_file;
use crate::image::parse_image;
use crate::indexed::highest;
use crate::indexed::transparent_colors;
use crate::palette::PaletteBlock;
use crate::palette::PaletteDescriptor;
use crate::palette::color_bytes;
use crate::palette::colors_at;
use crate::palette::palette_block;
use crate::palette::parse_palette;
use crate::seconds::Seconds;
use crate::seconds::be_bytes;
use crate::seconds::from_be_bytes;
use crate::seconds::lemma_be_round_trip;

verus! {

/// The colours that a palette block hands to its reader: the table where
/// the descriptor is `Colors`, nothing otherwise.
pub open spec fn colors_stored(palette: PaletteDescriptor, colors: Seq<Color>) -> Option<
    Seq<Color>,
> {
    match palette {
        PaletteDescriptor::Colors => Some(colors),
        _ => None,
    }
}

/// The palette that an image has after it was written and read again: its
/// own where the descriptor is `Colors`, and otherwise a transparent colour
/// for each index up to `top`.
pub open spec fn palette_read_back(palette: PaletteDescriptor, colors: Seq<Color>, top: u8) -> Seq<
    Color,
> {
    match palette {
        PaletteDescriptor::Colors => colors,
        _ => transparent_colors(top + 1),
    }
}

/// A palette block that was written is read back as it was, whatever
/// stands before and behind it: the descriptor, the colours where they were
/// stored, and the length of the block as the number of bytes taken. Holds
/// for every descriptor that can be written and every table of up to 255
/// colours.
pub proof fn lemma_palette_round_trip(
    before: Seq<u8>,
    palette: PaletteDescriptor,
    colors: Seq<Color>,
    behind: Seq<u8>,
)
    requires
        palette.fault() is None,
        palette is Colors ==> colors.len() <= 255,
    ensures
        parse_palette(before + palette_block(palette, colors) + behind, before.len() as int)
            == Ok::<PaletteBlock, IndexedImageError>(
            PaletteBlock {
                consumed: palette_block(palette, colors).len() as int,
                palette,
                colors: colors_stored(palette, colors),
            },
        ),
{
    let block = palette_block(palette, colors);
    let bytes = before + block + behind;
    let start = before.len() as int;
    assert(forall|i: int| 0 <= i < block.len() ==> bytes[start + i] == block[i]);
    assert(bytes[start] == block[0]);
    match palette {
        PaletteDescriptor::NoData => {},
        PaletteDescriptor::ID(id) => {
            assert(bytes[start + 1] == block[1]);
            assert(bytes[start + 2] == block[2]);
            assert((id / 256) * 256 + id % 256 == id);
        },
        PaletteDescriptor::Name(name) => {
            let encoded = encode_utf8(name);
            assert(bytes[start + 1] == block[1]);
            assert(bytes.subrange(start + 2, start + 2 + encoded.len()) =~= encoded) by {
                assert forall|i: int| 0 <= i < encoded.len() implies bytes[start + 2 + i]
                    == encoded[i] by {
                    assert(bytes[start + (2 + i)] == block[2 + i]);
                }
            }
            encode_utf8_valid_utf8(name);
            encode_utf8_decode_utf8(name);
        },
        PaletteDescriptor::Colors => {
            let count = colors.len() as int;
            assert(bytes[start + 1] == block[1]);
            assert(colors_at(bytes, start + 2, count) =~= colors) by {
                assert forall|i: int| 0 <= i < count implies colors_at(bytes, start + 2, count)[i]
                    == colors[i] by {
                    assert(bytes[start + (2 + 4 * i)] == block[2 + 4 * i]);
                    assert(bytes[start + (2 + 4 * i + 1)] == block[2 + 4 * i + 1]);
                    assert(bytes[start + (2 + 4 * i + 2)] == block[2 + 4 * i + 2]);
                    assert(bytes[start + (2 + 4 * i + 3)] == block[2 + 4 * i + 3]);
                    assert(block[2 + 4 * i] == color_bytes(colors)[4 * i]);
                    assert(block[2 + 4 * i + 1] == color_bytes(colors)[4 * i + 1]);
                    assert(block[2 + 4 * i + 2] == color_bytes(colors)[4 * i + 2]);
                    assert(block[2 + 4 * i + 3] == color_bytes(colors)[4 * i + 3]);
                }
            }
        },
    }
}

/// A still image that was written is read back as it was, whatever stands
/// behind it in the buffer.
///
/// With the descriptor `Colors` the image read equals the image written.
/// With any other descriptor it differs in its palette alone, which is
/// transparent and has a colour for each index up to the highest pixel;
/// `set_palette` with the palette of the image written then gives that
/// image.
///
/// The image written is well formed and its high-water index is its
/// highest pixel. The descriptor can be written; for `Colors` the palette
/// has at most 255 colours, and otherwise at least as many as the
/// high-water index, which is what `set_palette` asks.
pub proof fn lemma_image_round_trip(image: ImageView, palette: PaletteDescriptor, behind: Seq<u8>)
    requires
        image.wf(),
        image.highest_palette_idx == highest(image.pixels),
        palette.fault() is None,
        palette is Colors ==> image.palette.len() <= 255,
        !(palette is Colors) ==> image.palette.len() >= image.highest_palette_idx,
    ensures
        parse_image(image_file(image, palette) + behind) == Ok::<
            (ImageView, PaletteDescriptor),
            IndexedImageError,
        >(
            (
                image.with_palette(
                    palette_read_back(palette, image.palette, image.highest_palette_idx),
                ),
                palette,
            ),
        ),
        palette is Colors ==> image.with_palette(
            palette_read_back(palette, image.palette, image.highest_palette_idx),
        ) == image,
        !(palette is Colors) ==> image.with_palette(
            palette_read_back(palette, image.palette, image.highest_palette_idx),
        ).replace_palette(image.palette) == Ok::<ImageView, IndexedImageError>(image),
{
    let block = palette_block(palette, image.palette);
    let before = header_bytes() + seq![FileType::Image.byte()];
    let tail = seq![image.width, image.height] + image.pixels + behind;
    let bytes = image_file(image, palette) + behind;
    assert(bytes =~= before + block + tail);
    lemma_palette_round_trip(before, palette, image.palette, tail);
    assert(bytes.subrange(0, 4) =~= header_bytes());
    assert(bytes[4] == FileType::Image.byte());
    assert(format_of(bytes) == Ok::<FileType, IndexedImageError>(FileType::Image));
    let start = 5 + block.len() as int;
    assert(forall|i: int| 0 <= i < tail.len() ==> bytes[start + i] == tail[i]);
    assert(bytes[start] == tail[0]);
    assert(bytes[start + 1] == tail[1]);
    let count = image.width * image.height;
    assert(count >= 1) by (nonlinear_arith)
        requires
            count == image.width * image.height,
            image.width >= 1,
            image.height >= 1,
    ;
    assert(bytes.subrange(start + 2, start + 2 + count) =~= image.pixels) by {
        assert forall|i: int| 0 <= i < count implies bytes[start + 2 + i] == image.pixels[i] by {
            assert(bytes[start + (2 + i)] == tail[2 + i]);
        }
    }
    assert(image.with_palette(image.palette) == image);
}

/// An animated image that was written is read back as it was, whatever
/// stands behind it in the buffer.
///
/// With the descriptor `Colors` the image read equals the image written.
/// With any other descriptor it differs in its palette alone, which is
/// transparent and has a colour for each index up to the highest pixel;
/// `set_palette` with the palette of the image written then gives that
/// image.
///
/// The image written is well formed, its time per frame is above zero, its
/// high-water index is its highest pixel and its clock is in the state in
/// which a new image starts, for the clock is not stored. The descriptor
/// can be written; for `Colors` the palette has at most 255 colours, and
/// otherwise at least as many as the high-water index.
pub proof fn lemma_animation_round_trip(
    image: AnimationView,
    palette: PaletteDescriptor,
    behind: Seq<u8>,
)
    requires
        image.wf(),
        !image.per_frame.at_most_zero(),
        image.highest_palette_idx == highest(image.pixels),
        image.playback == Playback::start(image.playback.play_type, image.per_frame),
        palette.fault() is None,
        palette is Colors ==> image.palette.len() <= 255,
        !(palette is Colors) ==> image.palette.len() >= image.highest_palette_idx,
    ensures
        parse_animation(animation_file(image, palette) + behind) == Ok::<
            (AnimationView, PaletteDescriptor),
            IndexedImageError,
        >(
            (
                image.with_palette(
                    palette_read_back(palette, image.palette, image.highest_palette_idx),
                ),
                palette,
            ),
        ),
        palette is Colors ==> image.with_palette(
            palette_read_back(palette, image.palette, image.highest_palette_idx),
        ) == image,
        !(palette is Colors) ==> image.with_palette(
            palette_read_back(palette, image.palette, image.highest_palette_idx),
        ).replace_palette(image.palette) == Ok::<AnimationView, IndexedImageError>(image),
{
    let block = palette_block(palette, image.palette);
    let before = header_bytes() + seq![FileType::Animated.byte()];
    let head = seq![
        image.width,
        image.height,
        image.playback.play_type.byte(),
        image.frame_count,
    ];
    let time = be_bytes(image.per_frame.bits);
    let tail = head + time + image.pixels + behind;
    let bytes = animation_file(image, palette) + behind;
    assert(bytes =~= before + block + tail);
    lemma_palette_round_trip(before, palette, image.palette, tail);
    assert(bytes.subrange(0, 4) =~= header_bytes());
    assert(bytes[4] == FileType::Animated.byte());
    assert(format_of(bytes) == Ok::<FileType, IndexedImageError>(FileType::Animated));
    let start = 5 + block.len() as int;
    let count = image.width * image.height * image.frame_count;
    assert(bytes.subrange(start, start + 12 + count) =~= head + time + image.pixels);
    lemma_frames_round_trip(bytes, start, image, palette);
    assert(image.with_palette(image.palette) == image);
}

/// The part of `lemma_animation_round_trip` behind the palette block: where
/// the bytes from `start` on are the frame header, the time per frame and the
/// pixels of `image`, `parse_frames` reads `image` with the palette that the
/// descriptor leaves it.
proof fn lemma_frames_round_trip(
    bytes: Seq<u8>,
    start: int,
    image: AnimationView,
    palette: PaletteDescriptor,
)
    requires
        image.wf(),
        !image.per_frame.at_most_zero(),
        image.highest_palette_idx == highest(image.pixels),
        image.playback == Playback::start(image.playback.play_type, image.per_frame),
        0 <= start,
        start + 12 + image.width * image.height * image.frame_count <= bytes.len(),
        bytes.subrange(start, start + 12 + image.width * image.height * image.frame_count) == seq![
            image.width,
            image.height,
            image.playback.play_type.byte(),
            image.frame_count,
        ] + be_bytes(image.per_frame.bits) + image.pixels,
    ensures
        parse_frames(bytes, start, palette, colors_stored(palette, image.palette)) == Ok::<
            (AnimationView, PaletteDescriptor),
            IndexedImageError,
        >(
            (
                image.with_palette(
                    palette_read_back(palette, image.palette, image.highest_palette_idx),
                ),
                palette,
            ),
        ),
{
    let count = image.width * image.height * image.frame_count;
    assert(count >= 0) by (nonlinear_arith)
        requires
            count == image.width * image.height * image.frame_count,
    ;
    let head = seq![
        image.width,
        image.height,
        image.playback.play_type.byte(),
        image.frame_count,
    ];
    let time = be_bytes(image.per_frame.bits);
    let part = bytes.subrange(start, start + 12 + count);
    assert(part == head + time + image.pixels);
    assert(bytes[start] == part[0] && part[0] == head[0]);
    assert(bytes[start + 1] == part[1] && part[1] == head[1]);
    assert(bytes[start + 2] == part[2] && part[2] == head[2]);
    assert(bytes[start + 3] == part[3] && part[3] == head[3]);
    assert(PlayType::of_byte(image.playback.play_type.byte()) == Some(image.playback.play_type));
    assert(bytes.subrange(start + 4, start + 12) =~= time) by {
        assert forall|i: int| 0 <= i < 8 implies bytes[start + 4 + i] == time[i] by {
            assert(bytes[start + 4 + i] == part[4 + i]);
        }
    }
    lemma_be_round_trip(image.per_frame.bits);
    assert(bytes.subrange(start + 12, start + 12 + count) =~= image.pixels) by {
        assert forall|i: int| 0 <= i < count implies bytes[start + 12 + i] == image.pixels[i] by {
            assert(bytes[start + 12 + i] == part[12 + i]);
        }
    }
    let per_frame = Seconds { bits: from_be_bytes(bytes.subrange(start + 4, start + 12)) as u64 };
    assert(per_frame == image.per_frame);
}

} // verus!
