//! The animated image: frames of equal size over one palette, and the
//! clock that says which frame shows.
use vstd::prelude::*;
use crate::color::Color;
use crate::errors::FormatIssue;
use crate::errors::IndexedImageError;
use crate::file::FileType;
use crate::file::HEADER;
use crate::file::format_of;
use crate::file::header_bytes;
use crate::file::verify_format;
use crate::indexed::append_bytes;
use crate::indexed::area;
use crate::indexed::copy_bytes;
use crate::indexed::copy_colors;
use crate::indexed::highest;
use crate::indexed::index_of;
use crate::indexed::lemma_index_of;
use crate::indexed::max_index;
use crate::indexed::pad;
use crate::indexed::padded;
use crate::indexed::redirect;
use crate::indexed::redirected;
use crate::indexed::transparent_colors;
use crate::indexed::transparent_palette;
use crate::palette::FilePalette;
use crate::palette::PaletteDescriptor;
use crate::palette::palette_block;
use crate::palette::parse_palette;
use crate::seconds::Seconds;
use crate::seconds::SKIP_BITS;
use crate::seconds::be_bytes;
use crate::seconds::from_be_bytes;

verus! {

/// In which order the frames show, and whether they show again.
#[derive(Debug, Clone, Copy, PartialEq, Eq, Structural)]
pub enum PlayType {
    /// From the first frame to the last, once. Plays after `set_animate(true)`
    /// and resets when done.
    Once,
    /// From the last frame to the first, once. Plays after
    /// `set_animate(true)` and resets when done.
    OnceReversed,
    /// From the first frame to the last, again and again.
    Loops,
    /// From the last frame to the first, again and again.
    LoopsReversed,
    /// From the first frame to the last and back, again and again.
    LoopsBoth,
}

impl PlayType {
    /// The byte that names the play type in a container.
    pub open spec fn byte(self) -> u8 {
        match self {
            PlayType::Once => 0,
            PlayType::OnceReversed => 1,
            PlayType::Loops => 2,
            PlayType::LoopsReversed => 3,
            PlayType::LoopsBoth => 4,
        }
    }

    /// The play type that a byte names, if any.
    pub open spec fn of_byte(value: u8) -> Option<PlayType> {
        if value == 0 {
            Some(PlayType::Once)
        } else if value == 1 {
            Some(PlayType::OnceReversed)
        } else if value == 2 {
            Some(PlayType::Loops)
        } else if value == 3 {
            Some(PlayType::LoopsReversed)
        } else if value == 4 {
            Some(PlayType::LoopsBoth)
        } else {
            None
        }
    }

    /// Whether an image of this play type plays from the start, without
    /// `set_animate(true)`.
    pub open spec fn loops(self) -> bool {
        self == PlayType::Loops || self == PlayType::LoopsReversed || self == PlayType::LoopsBoth
    }

    /// The byte that names the play type in a container.
    pub fn to_byte(&self) -> (b: u8)
        ensures
            b == self.byte(),
    {
        match self {
            PlayType::Once => 0,
            PlayType::OnceReversed => 1,
            PlayType::Loops => 2,
            PlayType::LoopsReversed => 3,
            PlayType::LoopsBoth => 4,
        }
    }

    /// The play type that a byte names, if any.
    pub fn from_byte(value: u8) -> (t: Option<PlayType>)
        ensures
            t == PlayType::of_byte(value),
    {
        if value == 0 {
            Some(PlayType::Once)
        } else if value == 1 {
            Some(PlayType::OnceReversed)
        } else if value == 2 {
            Some(PlayType::Loops)
        } else if value == 3 {
            Some(PlayType::LoopsReversed)
        } else if value == 4 {
            Some(PlayType::LoopsBoth)
        } else {
            None
        }
    }
}

/// The state of the clock of an animated image.
pub struct Playback {
    /// The order of the frames.
    pub play_type: PlayType,
    /// The frame that shows.
    pub current_frame: u8,
    /// The time left until the next frame.
    pub next_frame_time: Seconds,
    /// Whether the clock runs.
    pub animate: bool,
    /// With `LoopsBoth`, whether the frames go up.
    pub loop_increasing: bool,
}

impl Playback {
    /// The state of a new image: the first frame, a full frame's time left,
    /// running only where the play type loops, and going up.
    pub open spec fn start(play_type: PlayType, per_frame: Seconds) -> Playback {
        Playback {
            play_type,
            current_frame: 0,
            next_frame_time: per_frame,
            animate: play_type.loops(),
            loop_increasing: true,
        }
    }

    /// The state after `reset`: a full frame's time left; `Once` stops at
    /// the first frame, `OnceReversed` stops at the last, and each looping
    /// type runs from the first.
    pub open spec fn reset(self, per_frame: Seconds, frame_count: u8) -> Playback {
        match self.play_type {
            PlayType::Once => Playback {
                current_frame: 0,
                animate: false,
                next_frame_time: per_frame,
                ..self
            },
            PlayType::OnceReversed => Playback {
                current_frame: (frame_count - 1) as u8,
                animate: false,
                next_frame_time: per_frame,
                ..self
            },
            _ => Playback { current_frame: 0, animate: true, next_frame_time: per_frame, ..self },
        }
    }

    /// The state one frame on, for an image of `frame_count` frames.
    ///
    /// `Once` goes up and resets behind the last frame; `OnceReversed` goes
    /// down and resets at the first. `Loops` goes up and wraps to the first
    /// frame, `LoopsReversed` goes down and wraps to the last. `LoopsBoth`
    /// goes up until it reaches the last frame, where it turns, and down
    /// until it reaches the first, where it turns again; where it cannot
    /// move in its direction it turns on the spot.
    pub open spec fn step(self, per_frame: Seconds, frame_count: u8) -> Playback {
        match self.play_type {
            PlayType::Once => if self.current_frame + 1 >= frame_count {
                self.reset(per_frame, frame_count)
            } else {
                Playback { current_frame: (self.current_frame + 1) as u8, ..self }
            },
            PlayType::OnceReversed => if self.current_frame > 0 {
                Playback { current_frame: (self.current_frame - 1) as u8, ..self }
            } else {
                self.reset(per_frame, frame_count)
            },
            PlayType::Loops => if self.current_frame + 1 >= frame_count {
                Playback { current_frame: 0, ..self }
            } else {
                Playback { current_frame: (self.current_frame + 1) as u8, ..self }
            },
            PlayType::LoopsReversed => if self.current_frame > 0 {
                Playback { current_frame: (self.current_frame - 1) as u8, ..self }
            } else {
                Playback { current_frame: (frame_count - 1) as u8, ..self }
            },
            PlayType::LoopsBoth => if self.loop_increasing {
                if self.current_frame + 1 >= frame_count {
                    Playback { loop_increasing: false, ..self }
                } else {
                    Playback {
                        current_frame: (self.current_frame + 1) as u8,
                        loop_increasing: self.current_frame + 2 < frame_count,
                        ..self
                    }
                }
            } else {
                if self.current_frame == 0 {
                    Playback { loop_increasing: true, ..self }
                } else {
                    Playback {
                        current_frame: (self.current_frame - 1) as u8,
                        loop_increasing: self.current_frame == 1,
                        ..self
                    }
                }
            },
        }
    }

    /// The state after `update`, where `remaining` is the time left once
    /// the time that has passed is taken off.
    ///
    /// A clock that does not run stays as it is. Where the time left is
    /// below zero, a full frame's time is left again and the clock steps
    /// once, however far below zero it was. Otherwise the time left is
    /// `remaining`.
    pub open spec fn update(self, remaining: Seconds, per_frame: Seconds, frame_count: u8)
        -> Playback {
        if !self.animate {
            self
        } else if remaining.below_zero() {
            (Playback { next_frame_time: per_frame, ..self }).step(per_frame, frame_count)
        } else {
            Playback { next_frame_time: remaining, ..self }
        }
    }

    /// The state after `reverse`: `Once` and `OnceReversed` change places,
    /// and so do `Loops` and `LoopsReversed`; `LoopsBoth` changes direction.
    pub open spec fn reverse(self) -> Playback {
        match self.play_type {
            PlayType::Once => Playback { play_type: PlayType::OnceReversed, ..self },
            PlayType::OnceReversed => Playback { play_type: PlayType::Once, ..self },
            PlayType::Loops => Playback { play_type: PlayType::LoopsReversed, ..self },
            PlayType::LoopsReversed => Playback { play_type: PlayType::Loops, ..self },
            PlayType::LoopsBoth => Playback { loop_increasing: !self.loop_increasing, ..self },
        }
    }

    /// The state after one `update` for each entry of `remaining`, in order.
    pub open spec fn updates(self, remaining: Seq<Seconds>, per_frame: Seconds, frame_count: u8)
        -> Playback
        decreases remaining.len(),
    {
        if remaining.len() == 0 {
            self
        } else {
            self.updates(remaining.drop_last(), per_frame, frame_count).update(
                remaining.last(),
                per_frame,
                frame_count,
            )
        }
    }
}

/// Whether every entry of `remaining` is below zero, so that each `update`
/// with one of them steps.
pub open spec fn all_below_zero(remaining: Seq<Seconds>) -> bool {
    forall|i: int| 0 <= i < remaining.len() ==> (#[trigger] remaining[i]).below_zero()
}

/// Where a running `Once` stands after fewer updates than there are
/// frames, each with the time left below zero: at the frame of that number.
proof fn lemma_once_on_its_way(
    playback: Playback,
    remaining: Seq<Seconds>,
    per_frame: Seconds,
    frame_count: u8,
)
    requires
        playback.play_type == PlayType::Once,
        playback.current_frame == 0,
        playback.animate,
        remaining.len() < frame_count,
        all_below_zero(remaining),
    ensures
        playback.updates(remaining, per_frame, frame_count).play_type == PlayType::Once,
        playback.updates(remaining, per_frame, frame_count).current_frame == remaining.len(),
        playback.updates(remaining, per_frame, frame_count).animate,
    decreases remaining.len(),
{
    if remaining.len() > 0 {
        let front = remaining.drop_last();
        assert(all_below_zero(front)) by {
            assert forall|i: int| 0 <= i < front.len() implies (#[trigger] front[i]).below_zero() by {
                assert(front[i] == remaining[i]);
            }
        }
        lemma_once_on_its_way(playback, front, per_frame, frame_count);
        assert(remaining[remaining.len() - 1].below_zero());
    }
}

/// An image of play type `Once` that stands at its first frame is back
/// there, and stopped, after as many updates as it has frames, where each
/// update finds the time left below zero.
pub proof fn lemma_once_plays_through(
    playback: Playback,
    remaining: Seq<Seconds>,
    per_frame: Seconds,
    frame_count: u8,
)
    requires
        playback.play_type == PlayType::Once,
        playback.current_frame == 0,
        frame_count > 0,
        remaining.len() == frame_count,
        all_below_zero(remaining),
    ensures
        playback.updates(remaining, per_frame, frame_count).current_frame == 0,
        !playback.updates(remaining, per_frame, frame_count).animate,
{
    if playback.animate {
        let front = remaining.drop_last();
        assert(all_below_zero(front)) by {
            assert forall|i: int| 0 <= i < front.len() implies (#[trigger] front[i]).below_zero() by {
                assert(front[i] == remaining[i]);
            }
        }
        lemma_once_on_its_way(playback, front, per_frame, frame_count);
        assert(remaining[remaining.len() - 1].below_zero());
    } else {
        lemma_stopped_stays(playback, remaining, per_frame, frame_count);
    }
}

/// A clock that does not run is not changed by updates.
pub proof fn lemma_stopped_stays(
    playback: Playback,
    remaining: Seq<Seconds>,
    per_frame: Seconds,
    frame_count: u8,
)
    requires
        !playback.animate,
    ensures
        playback.updates(remaining, per_frame, frame_count) == playback,
    decreases remaining.len(),
{
    if remaining.len() > 0 {
        lemma_stopped_stays(playback, remaining.drop_last(), per_frame, frame_count);
    }
}

/// Where a running `LoopsBoth` that set out upwards from its first frame
/// stands after up to twice the number of its frames less two updates, each
/// with the time left below zero: on its way up at the frame of that
/// number, or on its way down as far from the last frame as it has gone
/// on since, or back at the first frame and bound upwards.
proof fn lemma_loops_both_on_its_way(
    playback: Playback,
    remaining: Seq<Seconds>,
    per_frame: Seconds,
    frame_count: u8,
)
    requires
        playback.play_type == PlayType::LoopsBoth,
        playback.current_frame == 0,
        playback.loop_increasing,
        playback.animate,
        frame_count >= 2,
        remaining.len() <= 2 * (frame_count - 1),
        all_below_zero(remaining),
    ensures
        ({
            let after = playback.updates(remaining, per_frame, frame_count);
            let last = frame_count - 1;
            &&& after.play_type == PlayType::LoopsBoth
            &&& after.animate
            &&& remaining.len() < last ==> after.current_frame == remaining.len()
                && after.loop_increasing
            &&& last <= remaining.len() < 2 * last ==> after.current_frame == 2 * last
                - remaining.len() && !after.loop_increasing
            &&& remaining.len() == 2 * last ==> after.current_frame == 0 && after.loop_increasing
        }),
    decreases remaining.len(),
{
    if remaining.len() > 0 {
        let front = remaining.drop_last();
        assert(all_below_zero(front)) by {
            assert forall|i: int| 0 <= i < front.len() implies (#[trigger] front[i]).below_zero() by {
                assert(front[i] == remaining[i]);
            }
        }
        lemma_loops_both_on_its_way(playback, front, per_frame, frame_count);
        assert(remaining[remaining.len() - 1].below_zero());
    }
}

/// An image of play type `LoopsBoth` that stands at its first frame and is
/// bound upwards is back there, and bound upwards again, after twice as
/// many updates as it has frames besides the first, where each update
/// finds the time left below zero.
pub proof fn lemma_loops_both_comes_back(
    playback: Playback,
    remaining: Seq<Seconds>,
    per_frame: Seconds,
    frame_count: u8,
)
    requires
        playback.play_type == PlayType::LoopsBoth,
        playback.current_frame == 0,
        playback.loop_increasing,
        frame_count > 0,
        remaining.len() == 2 * (frame_count - 1),
        all_below_zero(remaining),
    ensures
        playback.updates(remaining, per_frame, frame_count).current_frame == 0,
        playback.updates(remaining, per_frame, frame_count).loop_increasing,
{
    if !playback.animate {
        lemma_stopped_stays(playback, remaining, per_frame, frame_count);
    } else if frame_count >= 2 {
        lemma_loops_both_on_its_way(playback, remaining, per_frame, frame_count);
    }
}

/// A series of frames to play as an animation.
///
/// Start and stop the clock with `set_animate`. On every tick, take the
/// time that has passed off `next_frame_time` and hand the difference to
/// `update`.
#[derive(Debug, PartialEq, Eq)]
pub struct AnimatedIndexedImage {
    width: u8,
    height: u8,
    per_frame: Seconds,
    palette: Vec<Color>,
    frame_count: u8,
    pixels: Vec<u8>,
    current_frame: u8,
    next_frame_time: Seconds,
    highest_palette_idx: u8,
    animate: bool,
    play_type: PlayType,
    loop_increasing: bool,
}

/// An `AnimatedIndexedImage` as a mathematical value.
pub struct AnimationView {
    pub width: u8,
    pub height: u8,
    /// The time for which each frame shows.
    pub per_frame: Seconds,
    pub palette: Seq<Color>,
    pub frame_count: u8,
    /// The pixels of all frames, frame after frame.
    pub pixels: Seq<u8>,
    pub highest_palette_idx: u8,
    pub playback: Playback,
}

impl AnimationView {
    /// What holds of every animated image: sides, palette and frames are
    /// not empty, there is one pixel for each place of each frame, and the
    /// frame that shows is one of the frames.
    pub open spec fn wf(self) -> bool {
        &&& self.width > 0
        &&& self.height > 0
        &&& self.palette.len() > 0
        &&& self.frame_count > 0
        &&& self.pixels.len() == self.width * self.height * self.frame_count
        &&& self.playback.current_frame < self.frame_count
    }

    /// The number of pixels of one frame.
    pub open spec fn frame_size(self) -> int {
        self.width * self.height
    }

    /// The pixel at place `pixel_idx` of frame `frame`.
    pub open spec fn pixel(self, frame: int, pixel_idx: int) -> u8 {
        self.pixels[frame * self.frame_size() + pixel_idx]
    }

    /// The image with another palette.
    pub open spec fn with_palette(self, palette: Seq<Color>) -> AnimationView {
        AnimationView { palette, ..self }
    }

    /// The image with other pixels.
    pub open spec fn with_pixels(self, pixels: Seq<u8>) -> AnimationView {
        AnimationView { pixels, ..self }
    }

    /// The image with its clock in another state.
    pub open spec fn with_playback(self, playback: Playback) -> AnimationView {
        AnimationView { playback, ..self }
    }

    /// The image that `set_palette` leaves, or the error it returns: a
    /// palette with fewer colours than the high-water index is refused.
    pub open spec fn replace_palette(self, palette: Seq<Color>) -> Result<
        AnimationView,
        IndexedImageError,
    > {
        if palette.len() < self.highest_palette_idx {
            Err(IndexedImageError::PaletteTooFewColors(self.highest_palette_idx))
        } else {
            Ok(self.with_palette(palette))
        }
    }

    /// The image that `set_palette_replace_id` leaves, or the error it
    /// returns: `id` must lie inside the new palette; pixels outside it
    /// become `id`, and the high-water index is taken anew.
    pub open spec fn replace_palette_and_id(self, palette: Seq<Color>, id: u8) -> Result<
        AnimationView,
        IndexedImageError,
    > {
        if palette.len() <= id {
            Err(IndexedImageError::IdOutsideOfNewPalette)
        } else {
            Ok(
                AnimationView {
                    palette,
                    pixels: redirected(self.pixels, palette.len() as int, id),
                    highest_palette_idx: highest(
                        redirected(self.pixels, palette.len() as int, id),
                    ),
                    ..self
                },
            )
        }
    }
}

/// The image that `AnimatedIndexedImage::new` builds, or the error it
/// returns. The checks come in this order: width, height, palette, time per
/// frame, number of pixels. Without frames there is no image: the value for
/// no frames and no pixels is none that `new` builds.
pub open spec fn animation_new(
    width: u8,
    height: u8,
    per_frame: Seconds,
    frame_count: u8,
    palette: Seq<Color>,
    pixels: Seq<u8>,
    play_type: PlayType,
) -> Result<AnimationView, IndexedImageError> {
    if width == 0 {
        Err(IndexedImageError::WidthIsZero)
    } else if height == 0 {
        Err(IndexedImageError::HeightIsZero)
    } else if palette.len() == 0 {
        Err(IndexedImageError::PaletteIsEmpty)
    } else if per_frame.at_most_zero() {
        Err(IndexedImageError::NegativePerFrame(per_frame))
    } else if pixels.len() != width * height * frame_count {
        Err(
            IndexedImageError::MissingData(
                pixels.len() as usize,
                (width * height * frame_count) as usize,
            ),
        )
    } else {
        Ok(
            AnimationView {
                width,
                height,
                per_frame,
                palette,
                frame_count,
                pixels,
                highest_palette_idx: highest(pixels),
                playback: Playback::start(play_type, per_frame),
            },
        )
    }
}

/// The bytes of an animated image's container, for a descriptor that has
/// no `fault`. The state of the clock is not stored.
pub open spec fn animation_file(image: AnimationView, palette: PaletteDescriptor) -> Seq<u8> {
    header_bytes() + seq![FileType::Animated.byte()] + palette_block(palette, image.palette)
        + seq![image.width, image.height, image.playback.play_type.byte(), image.frame_count]
        + be_bytes(image.per_frame.bits) + image.pixels
}

/// The animated image that a buffer holds and the descriptor it was stored
/// with, or the reason why it holds none. Bytes behind the last pixel are
/// not looked at. Where the container brings no colours, the palette is
/// transparent throughout and has a colour for each index up to the highest
/// pixel.
pub open spec fn parse_animation(bytes: Seq<u8>) -> Result<
    (AnimationView, PaletteDescriptor),
    IndexedImageError,
> {
    match format_of(bytes) {
        Err(e) => Err(e),
        Ok(FileType::Image) => Err(
            IndexedImageError::InvalidFileFormat(
                0,
                FormatIssue::WrongFileType {
                    expected: FileType::Animated,
                    found: FileType::Image,
                },
            ),
        ),
        Ok(FileType::Animated) => match parse_palette(bytes, 5) {
            Err(e) => Err(e),
            Ok(block) => parse_frames(bytes, 5 + block.consumed, block.palette, block.colors),
        },
    }
}

/// The part of `parse_animation` behind the palette block, which ends
/// before `start`.
pub open spec fn parse_frames(
    bytes: Seq<u8>,
    start: int,
    descriptor: PaletteDescriptor,
    colors: Option<Seq<Color>>,
) -> Result<(AnimationView, PaletteDescriptor), IndexedImageError> {
    if bytes.len() < start + 3 {
        Err(IndexedImageError::InvalidFileFormat(start as usize, FormatIssue::IncompletePixels))
    } else if PlayType::of_byte(bytes[start + 2]) is None {
        Err(
            IndexedImageError::InvalidFileFormat(
                (start + 2) as usize,
                FormatIssue::UnsupportedPlayType(bytes[start + 2]),
            ),
        )
    } else if bytes.len() < start + 4 {
        Err(
            IndexedImageError::InvalidFileFormat(
                (start + 3) as usize,
                FormatIssue::IncompleteFrames,
            ),
        )
    } else if bytes[start + 3] == 0 {
        Err(IndexedImageError::InvalidFileFormat((start + 3) as usize, FormatIssue::NoFrames))
    } else if bytes.len() < start + 12 {
        Err(
            IndexedImageError::InvalidFileFormat(
                (start + 4) as usize,
                FormatIssue::IncompleteFrames,
            ),
        )
    } else {
        let width = bytes[start];
        let height = bytes[start + 1];
        let play_type = PlayType::of_byte(bytes[start + 2])->Some_0;
        let frame_count = bytes[start + 3];
        let per_frame = Seconds {
            bits: from_be_bytes(bytes.subrange(start + 4, start + 12)) as u64,
        };
        let count = width * height * frame_count;
        if per_frame.at_most_zero() {
            Err(
                IndexedImageError::InvalidFileFormat(
                    (start + 4) as usize,
                    FormatIssue::InvalidPerFrame(per_frame),
                ),
            )
        } else if bytes.len() < start + 12 + count {
            Err(
                IndexedImageError::InvalidFileFormat(
                    (start + 12) as usize,
                    FormatIssue::IncompleteFrames,
                ),
            )
        } else {
            let pixels = bytes.subrange(start + 12, start + 12 + count);
            let palette = match colors {
                Some(colors) => colors,
                None => transparent_colors(highest(pixels) + 1),
            };
            match animation_new(width, height, per_frame, frame_count, palette, pixels, play_type) {
                Err(e) => Err(e),
                Ok(image) => Ok((image, descriptor)),
            }
        }
    }
}

/// Whether what `from_file_contents` returned is what `parse_animation`
/// says.
pub open spec fn decoded_agrees(
    r: Result<(AnimatedIndexedImage, FilePalette), IndexedImageError>,
    expected: Result<(AnimationView, PaletteDescriptor), IndexedImageError>,
) -> bool {
    match (r, expected) {
        (Ok((image, palette)), Ok((view, descriptor))) => image@ == view && palette@
            == descriptor,
        (Err(e), Err(expected_error)) => e == expected_error,
        _ => false,
    }
}

/// The number of pixels of `frame_count` frames of `width` by `height`.
fn volume(width: u8, height: u8, frame_count: u8) -> (count: usize)
    ensures
        count == width * height * frame_count,
        count <= 16581375,
{
    let frame_size: usize = area(width, height);
    assert(frame_size as int * frame_count as int <= 65025 * 255) by (nonlinear_arith)
        requires
            0 <= frame_size as int <= 65025,
            0 <= frame_count as int <= 255,
    ;
    frame_size * frame_count as usize
}

impl Clone for AnimatedIndexedImage {
    fn clone(&self) -> (copy: AnimatedIndexedImage)
        ensures
            copy@ == self@,
    {
        proof {
            use_type_invariant(self);
        }
        let pixels = copy_bytes(self.pixels.as_slice(), 0, self.pixels.len());
        assert(pixels@ =~= self.pixels@);
        AnimatedIndexedImage {
            width: self.width,
            height: self.height,
            per_frame: self.per_frame,
            palette: copy_colors(self.palette.as_slice()),
            frame_count: self.frame_count,
            pixels,
            current_frame: self.current_frame,
            next_frame_time: self.next_frame_time,
            highest_palette_idx: self.highest_palette_idx,
            animate: self.animate,
            play_type: self.play_type,
            loop_increasing: self.loop_increasing,
        }
    }
}

impl View for AnimatedIndexedImage {
    type V = AnimationView;

    closed spec fn view(&self) -> AnimationView {
        AnimationView {
            width: self.width,
            height: self.height,
            per_frame: self.per_frame,
            palette: self.palette@,
            frame_count: self.frame_count,
            pixels: self.pixels@,
            highest_palette_idx: self.highest_palette_idx,
            playback: Playback {
                play_type: self.play_type,
                current_frame: self.current_frame,
                next_frame_time: self.next_frame_time,
                animate: self.animate,
                loop_increasing: self.loop_increasing,
            },
        }
    }
}

impl AnimatedIndexedImage {
    /// Every animated image is well formed.
    #[verifier::type_invariant]
    pub open spec fn well_formed(&self) -> bool {
        self@.wf()
    }

    /// An animated image from its parts: `frame_count` frames of `width` by
    /// `height` pixels, each shown for `per_frame`. The high-water index is
    /// the highest pixel, and the clock is in its `start` state.
    ///
    /// A frame count of zero is refused like any other that does not go
    /// with the number of pixels. Only where there are no pixels either, and
    /// nothing else is wrong, is there nothing to return: leave that call
    /// out.
    pub fn new(
        width: u8,
        height: u8,
        per_frame: Seconds,
        frame_count: u8,
        palette: Vec<Color>,
        pixels: Vec<u8>,
        play_type: PlayType,
    ) -> (r: Result<AnimatedIndexedImage, IndexedImageError>)
        requires
            frame_count > 0 || animation_new(
                width,
                height,
                per_frame,
                frame_count,
                palette@,
                pixels@,
                play_type,
            ) is Err,
        ensures
            match (
                r,
                animation_new(width, height, per_frame, frame_count, palette@, pixels@, play_type),
            ) {
                (Ok(image), Ok(view)) => image@ == view,
                (Err(e), Err(expected)) => e == expected,
                _ => false,
            },
    {
        if width == 0 {
            return Err(IndexedImageError::WidthIsZero);
        }
        if height == 0 {
            return Err(IndexedImageError::HeightIsZero);
        }
        if palette.len() == 0 {
            return Err(IndexedImageError::PaletteIsEmpty);
        }
        if per_frame.zero_or_negative() {
            return Err(IndexedImageError::NegativePerFrame(per_frame));
        }
        let expected: usize = volume(width, height, frame_count);
        if pixels.len() != expected {
            return Err(IndexedImageError::MissingData(pixels.len(), expected));
        }
        let highest_palette_idx = max_index(pixels.as_slice());
        let animate = match play_type {
            PlayType::Loops | PlayType::LoopsReversed | PlayType::LoopsBoth => true,
            _ => false,
        };
        Ok(
            AnimatedIndexedImage {
                width,
                height,
                per_frame,
                palette,
                pixels,
                current_frame: 0,
                next_frame_time: per_frame,
                highest_palette_idx,
                animate,
                frame_count,
                play_type,
                loop_increasing: true,
            },
        )
    }

    /// Replaces the palette. A palette with fewer colours than the
    /// high-water index is refused, and the image stays as it was.
    pub fn set_palette(&mut self, palette: &[Color]) -> (r: Result<(), IndexedImageError>)
        requires
            palette@.len() > 0,
        ensures
            match old(self)@.replace_palette(palette@) {
                Ok(view) => r is Ok && final(self)@ == view,
                Err(e) => r == Err::<(), IndexedImageError>(e) && final(self)@ == old(self)@,
            },
    {
        proof {
            use_type_invariant(&*self);
        }
        if palette.len() < self.highest_palette_idx as usize {
            return Err(IndexedImageError::PaletteTooFewColors(self.highest_palette_idx));
        }
        self.palette = copy_colors(palette);
        Ok(())
    }

    /// Replaces the palette and gives every pixel outside the new palette
    /// the index `id`. An `id` outside the new palette is refused, and the
    /// image stays as it was.
    pub fn set_palette_replace_id(&mut self, palette: &[Color], id: u8) -> (r: Result<
        (),
        IndexedImageError,
    >)
        requires
            palette@.len() > 0,
        ensures
            match old(self)@.replace_palette_and_id(palette@, id) {
                Ok(view) => r is Ok && final(self)@ == view,
                Err(e) => r == Err::<(), IndexedImageError>(e) && final(self)@ == old(self)@,
            },
    {
        proof {
            use_type_invariant(&*self);
        }
        if palette.len() <= id as usize {
            return Err(IndexedImageError::IdOutsideOfNewPalette);
        }
        let pixels = redirect(self.pixels.as_slice(), palette.len(), id);
        let top = max_index(pixels.as_slice());
        self.palette = copy_colors(palette);
        self.pixels = pixels;
        self.highest_palette_idx = top;
        Ok(())
    }

    /// Replaces the palette; where it has no colour for the high-water
    /// index, `color` is added at its end until it has.
    pub fn set_palette_replace_color(&mut self, palette: &[Color], color: Color)
        requires
            palette@.len() > 0,
        ensures
            final(self)@ == old(self)@.with_palette(
                padded(palette@, old(self)@.highest_palette_idx, color),
            ),
    {
        proof {
            use_type_invariant(&*self);
        }
        self.palette = pad(palette, self.highest_palette_idx, color);
    }

    /// Width and height.
    pub fn size(&self) -> (s: (u8, u8))
        ensures
            s == (self@.width, self@.height),
    {
        (self.width, self.height)
    }

    /// Writes one pixel of one frame. The frame is checked before the
    /// place; the index is not held against the palette, and the
    /// high-water index stays as it is.
    pub fn set_pixel(&mut self, frame: u8, pixel_idx: usize, color_idx: u8) -> (r: Result<
        (),
        IndexedImageError,
    >)
        ensures
            frame < old(self)@.frame_count && pixel_idx < old(self)@.frame_size() ==> r is Ok
                && final(self)@ == old(self)@.with_pixels(
                old(self)@.pixels.update(
                    frame * old(self)@.frame_size() + pixel_idx,
                    color_idx,
                ),
            ),
            frame >= old(self)@.frame_count ==> r == Err::<(), IndexedImageError>(
                IndexedImageError::IndexOutOfRange(
                    frame as usize,
                    old(self)@.frame_count as usize,
                    "frames",
                ),
            ) && final(self)@ == old(self)@,
            frame < old(self)@.frame_count && pixel_idx >= old(self)@.frame_size() ==> r == Err::<
                (),
                IndexedImageError,
            >(
                IndexedImageError::IndexOutOfRange(
                    pixel_idx,
                    old(self)@.frame_size() as usize,
                    "pixels",
                ),
            ) && final(self)@ == old(self)@,
    {
        proof {
            use_type_invariant(&*self);
        }
        if frame >= self.frame_count {
            return Err(
                IndexedImageError::IndexOutOfRange(
                    frame as usize,
                    self.frame_count as usize,
                    "frames",
                ),
            );
        }
        let frame_size: usize = area(self.width, self.height);
        if pixel_idx >= frame_size {
            return Err(IndexedImageError::IndexOutOfRange(pixel_idx, frame_size, "pixels"));
        }
        proof {
            lemma_index_of(
                pixel_idx as int,
                frame as int,
                frame_size as int,
                self.frame_count as int,
            );
        }
        assert(frame as int * frame_size as int == frame_size as int * frame as int && 0 <= frame
            as int * frame_size as int <= 255 * 65025) by (nonlinear_arith)
            requires
                0 <= frame as int <= 255,
                0 <= frame_size as int <= 65025,
        ;
        let idx: usize = frame as usize * frame_size + pixel_idx;
        self.pixels[idx] = color_idx;
        Ok(())
    }

    /// Reads one pixel of one frame. The frame is checked before the place.
    pub fn get_pixel(&self, frame: u8, pixel_idx: usize) -> (r: Result<u8, IndexedImageError>)
        ensures
            frame < self@.frame_count && pixel_idx < self@.frame_size() ==> r == Ok::<
                u8,
                IndexedImageError,
            >(self@.pixel(frame as int, pixel_idx as int)),
            frame >= self@.frame_count ==> r == Err::<u8, IndexedImageError>(
                IndexedImageError::IndexOutOfRange(
                    frame as usize,
                    self@.frame_count as usize,
                    "frames",
                ),
            ),
            frame < self@.frame_count && pixel_idx >= self@.frame_size() ==> r == Err::<
                u8,
                IndexedImageError,
            >(
                IndexedImageError::IndexOutOfRange(
                    pixel_idx,
                    self@.frame_size() as usize,
                    "pixels",
                ),
            ),
    {
        proof {
            use_type_invariant(self);
        }
        if frame >= self.frame_count {
            return Err(
                IndexedImageError::IndexOutOfRange(
                    frame as usize,
                    self.frame_count as usize,
                    "frames",
                ),
            );
        }
        let frame_size: usize = area(self.width, self.height);
        if pixel_idx >= frame_size {
            return Err(IndexedImageError::IndexOutOfRange(pixel_idx, frame_size, "pixels"));
        }
        proof {
            lemma_index_of(
                pixel_idx as int,
                frame as int,
                frame_size as int,
                self.frame_count as int,
            );
        }
        assert(frame as int * frame_size as int == frame_size as int * frame as int && 0 <= frame
            as int * frame_size as int <= 255 * 65025) by (nonlinear_arith)
            requires
                0 <= frame as int <= 255,
                0 <= frame_size as int <= 65025,
        ;
        let idx: usize = frame as usize * frame_size + pixel_idx;
        Ok(self.pixels[idx])
    }

    /// The pixels of all frames, frame after frame.
    pub fn get_pixels(&self) -> (pixels: &[u8])
        ensures
            pixels@ == self@.pixels,
            self@.wf(),
    {
        proof {
            use_type_invariant(self);
        }
        self.pixels.as_slice()
    }

    /// The place of `(x, y)` among the pixels of a frame. The column is
    /// checked before the row.
    pub fn get_pixel_index(&self, x: u8, y: u8) -> (r: Result<usize, IndexedImageError>)
        ensures
            x < self@.width && y < self@.height ==> r == Ok::<usize, IndexedImageError>(
                index_of(x as int, y as int, self@.width as int) as usize,
            ) && index_of(x as int, y as int, self@.width as int) < self@.frame_size(),
            x >= self@.width ==> r == Err::<usize, IndexedImageError>(
                IndexedImageError::IndexOutOfRange(x as usize, self@.width as usize, "width"),
            ),
            x < self@.width && y >= self@.height ==> r == Err::<usize, IndexedImageError>(
                IndexedImageError::IndexOutOfRange(y as usize, self@.height as usize, "height"),
            ),
    {
        proof {
            use_type_invariant(self);
        }
        if x >= self.width {
            return Err(IndexedImageError::IndexOutOfRange(x as usize, self.width as usize, "width"));
        }
        if y >= self.height {
            return Err(
                IndexedImageError::IndexOutOfRange(y as usize, self.height as usize, "height"),
            );
        }
        proof {
            lemma_index_of(x as int, y as int, self.width as int, self.height as int);
        }
        assert(0 <= y as int * self.width as int <= 255 * 255) by (nonlinear_arith)
            requires
                0 <= y as int <= 255,
                0 <= self.width as int <= 255,
        ;
        Ok(x as usize + y as usize * self.width as usize)
    }

    /// Reads one colour of the palette.
    pub fn get_color(&self, idx: u8) -> (r: Result<Color, IndexedImageError>)
        ensures
            idx < self@.palette.len() ==> r == Ok::<Color, IndexedImageError>(
                self@.palette[idx as int],
            ),
            idx >= self@.palette.len() ==> r == Err::<Color, IndexedImageError>(
                IndexedImageError::IndexOutOfRange(
                    idx as usize,
                    self@.palette.len() as usize,
                    "palette",
                ),
            ),
    {
        if idx as usize >= self.palette.len() {
            return Err(
                IndexedImageError::IndexOutOfRange(idx as usize, self.palette.len(), "palette"),
            );
        }
        Ok(self.palette[idx as usize])
    }

    /// Writes one colour of the palette.
    pub fn set_color(&mut self, idx: u8, color: Color) -> (r: Result<(), IndexedImageError>)
        ensures
            idx < old(self)@.palette.len() ==> r is Ok && final(self)@ == old(
                self,
            )@.with_palette(old(self)@.palette.update(idx as int, color)),
            idx >= old(self)@.palette.len() ==> r == Err::<(), IndexedImageError>(
                IndexedImageError::IndexOutOfRange(
                    idx as usize,
                    old(self)@.palette.len() as usize,
                    "palette",
                ),
            ) && final(self)@ == old(self)@,
    {
        proof {
            use_type_invariant(&*self);
        }
        if idx as usize >= self.palette.len() {
            return Err(
                IndexedImageError::IndexOutOfRange(idx as usize, self.palette.len(), "palette"),
            );
        }
        self.palette[idx as usize] = color;
        Ok(())
    }

    /// The palette.
    pub fn get_palette(&self) -> (palette: &[Color])
        ensures
            palette@ == self@.palette,
    {
        self.palette.as_slice()
    }

    /// The high-water index: a new palette needs at least this many
    /// colours.
    pub fn min_palette_size_supported(&self) -> (top: u8)
        ensures
            top == self@.highest_palette_idx,
    {
        self.highest_palette_idx
    }

    /// The width of a frame, which is 1 at least.
    pub fn width(&self) -> (w: u8)
        ensures
            w == self@.width,
            w > 0,
    {
        proof {
            use_type_invariant(self);
        }
        self.width
    }

    /// The height of a frame, which is 1 at least.
    pub fn height(&self) -> (h: u8)
        ensures
            h == self@.height,
            h > 0,
    {
        proof {
            use_type_invariant(self);
        }
        self.height
    }

    /// The time for which each frame shows.
    pub fn get_per_frame(&self) -> (seconds: Seconds)
        ensures
            seconds == self@.per_frame,
    {
        self.per_frame
    }

    /// Sets the time for which each frame shows. The time left on the
    /// frame that shows stays as it is.
    pub fn set_per_frame(&mut self, seconds: Seconds)
        ensures
            final(self)@ == (AnimationView { per_frame: seconds, ..old(self)@ }),
    {
        proof {
            use_type_invariant(&*self);
        }
        self.per_frame = seconds;
    }

    /// Starts or stops the clock.
    pub fn set_animate(&mut self, animate: bool)
        ensures
            final(self)@ == old(self)@.with_playback(
                Playback { animate, ..old(self)@.playback },
            ),
    {
        proof {
            use_type_invariant(&*self);
        }
        self.animate = animate;
    }

    /// Whether the clock runs.
    pub fn animate(&self) -> (a: bool)
        ensures
            a == self@.playback.animate,
    {
        self.animate
    }

    /// The number of frames.
    pub fn frame_count(&self) -> (n: u8)
        ensures
            n == self@.frame_count,
            n > 0,
    {
        proof {
            use_type_invariant(self);
        }
        self.frame_count
    }

    /// The frame that shows.
    pub fn current_frame(&self) -> (frame: u8)
        ensures
            frame == self@.playback.current_frame,
            frame < self@.frame_count,
    {
        proof {
            use_type_invariant(self);
        }
        self.current_frame
    }

    /// The time left until the next frame.
    pub fn next_frame_time(&self) -> (seconds: Seconds)
        ensures
            seconds == self@.playback.next_frame_time,
    {
        self.next_frame_time
    }

    /// With `LoopsBoth`, whether the frames go up.
    pub fn loop_increasing(&self) -> (up: bool)
        ensures
            up == self@.playback.loop_increasing,
    {
        self.loop_increasing
    }

    /// Makes the next `update` step to the next frame: the time left
    /// becomes a tenth of a second below zero.
    pub fn skip_to_next_frame(&mut self)
        ensures
            final(self)@ == old(self)@.with_playback(
                Playback { next_frame_time: Seconds { bits: SKIP_BITS }, ..old(self)@.playback },
            ),
            (Seconds { bits: SKIP_BITS }).below_zero(),
    {
        proof {
            use_type_invariant(&*self);
        }
        self.next_frame_time = Seconds { bits: SKIP_BITS };
    }

    /// Lets the frame that shows stay longer, once: `delayed` is the sum of
    /// `next_frame_time` and the extra time, and becomes the time left.
    pub fn delay_next_frame(&mut self, delayed: Seconds)
        ensures
            final(self)@ == old(self)@.with_playback(
                Playback { next_frame_time: delayed, ..old(self)@.playback },
            ),
    {
        proof {
            use_type_invariant(&*self);
        }
        self.next_frame_time = delayed;
    }

    /// The order of the frames.
    pub fn play_type(&self) -> (t: PlayType)
        ensures
            t == self@.playback.play_type,
    {
        self.play_type
    }

    /// Leaves a full frame's time on the clock; `Once` stops at the first
    /// frame, `OnceReversed` stops at the last, and each looping type runs
    /// from the first.
    pub fn reset(&mut self)
        ensures
            final(self)@ == old(self)@.with_playback(
                old(self)@.playback.reset(old(self)@.per_frame, old(self)@.frame_count),
            ),
    {
        proof {
            use_type_invariant(&*self);
        }
        let (idx, animated) = match self.play_type {
            PlayType::Once => (0, false),
            PlayType::OnceReversed => (self.frame_count - 1, false),
            _ => (0, true),
        };
        self.current_frame = idx;
        self.animate = animated;
        self.next_frame_time = self.per_frame;
    }

    /// Sets the play type and resets.
    pub fn set_play_type(&mut self, play_type: PlayType)
        ensures
            final(self)@ == old(self)@.with_playback(
                (Playback { play_type, ..old(self)@.playback }).reset(
                    old(self)@.per_frame,
                    old(self)@.frame_count,
                ),
            ),
    {
        proof {
            use_type_invariant(&*self);
        }
        self.play_type = play_type;
        self.reset();
    }

    /// Sets the play type and nothing else.
    pub fn set_just_play_type(&mut self, play_type: PlayType)
        ensures
            final(self)@ == old(self)@.with_playback(
                Playback { play_type, ..old(self)@.playback },
            ),
    {
        proof {
            use_type_invariant(&*self);
        }
        self.play_type = play_type;
    }

    /// Exchanges `Once` and `OnceReversed`, and `Loops` and
    /// `LoopsReversed`; with `LoopsBoth`, changes the direction.
    pub fn reverse(&mut self)
        ensures
            final(self)@ == old(self)@.with_playback(old(self)@.playback.reverse()),
    {
        proof {
            use_type_invariant(&*self);
        }
        match self.play_type {
            PlayType::Once => {
                self.play_type = PlayType::OnceReversed;
            },
            PlayType::OnceReversed => {
                self.play_type = PlayType::Once;
            },
            PlayType::Loops => {
                self.play_type = PlayType::LoopsReversed;
            },
            PlayType::LoopsReversed => {
                self.play_type = PlayType::Loops;
            },
            PlayType::LoopsBoth => {
                self.loop_increasing = !self.loop_increasing;
            },
        }
    }

    /// Moves the clock on. `remaining` is the time left on the frame that
    /// shows once the time that has passed is taken off: `next_frame_time`
    /// minus the tick.
    ///
    /// Nothing happens while the clock does not run. Where `remaining` is
    /// below zero, the image steps by one frame as its play type says, and
    /// a full frame's time is left; a step is one frame however far below
    /// zero `remaining` is.
    pub fn update(&mut self, remaining: Seconds)
        ensures
            final(self)@ == old(self)@.with_playback(
                old(self)@.playback.update(
                    remaining,
                    old(self)@.per_frame,
                    old(self)@.frame_count,
                ),
            ),
    {
        proof {
            use_type_invariant(&*self);
        }
        if !self.animate {
            return ;
        }
        if !remaining.negative() {
            self.next_frame_time = remaining;
            return ;
        }
        self.next_frame_time = self.per_frame;
        let last: u8 = self.frame_count - 1;
        match self.play_type {
            PlayType::Once => {
                if self.current_frame >= last {
                    self.reset();
                } else {
                    self.current_frame = self.current_frame + 1;
                }
            },
            PlayType::OnceReversed => {
                if self.current_frame > 0 {
                    self.current_frame = self.current_frame - 1;
                } else {
                    self.reset();
                }
            },
            PlayType::Loops => {
                if self.current_frame >= last {
                    self.current_frame = 0;
                } else {
                    self.current_frame = self.current_frame + 1;
                }
            },
            PlayType::LoopsReversed => {
                if self.current_frame > 0 {
                    self.current_frame = self.current_frame - 1;
                } else {
                    self.current_frame = last;
                }
            },
            PlayType::LoopsBoth => {
                if self.loop_increasing {
                    if self.current_frame >= last {
                        self.loop_increasing = false;
                    } else {
                        self.current_frame = self.current_frame + 1;
                        self.loop_increasing = self.current_frame < last;
                    }
                } else if self.current_frame == 0 {
                    self.loop_increasing = true;
                } else {
                    self.current_frame = self.current_frame - 1;
                    self.loop_increasing = self.current_frame == 0;
                }
            },
        }
    }

    /// The container of the image, with its palette stored as `palette`
    /// says. Fails only where `palette` is a name without bytes or with more
    /// than 255.
    pub fn to_file_contents(&self, palette: &FilePalette) -> (r: Result<
        Vec<u8>,
        IndexedImageError,
    >)
        ensures
            match palette@.fault() {
                Some(e) => r == Err::<Vec<u8>, IndexedImageError>(e),
                None => r matches Ok(bytes) && bytes@ == animation_file(self@, palette@),
            },
    {
        let mut output: Vec<u8> = Vec::new();
        output.push(HEADER[0]);
        output.push(HEADER[1]);
        output.push(HEADER[2]);
        output.push(HEADER[3]);
        output.push(FileType::Animated.to_byte());
        assert(output@ =~= header_bytes() + seq![FileType::Animated.byte()]);
        match crate::palette::write(palette, self.get_palette(), &mut output) {
            Err(e) => {
                return Err(e);
            },
            Ok(()) => {},
        }
        output.push(self.width);
        output.push(self.height);
        output.push(self.play_type.to_byte());
        output.push(self.frame_count);
        self.per_frame.write_be(&mut output);
        append_bytes(&mut output, self.pixels.as_slice());
        assert(output@ =~= animation_file(self@, palette@));
        Ok(output)
    }

    /// Reads an animated image from its container, and how its palette was
    /// stored. Where the container brings no colours, the palette is
    /// transparent throughout: replace it with one of `set_palette`,
    /// `set_palette_replace_id` and `set_palette_replace_color`.
    pub fn from_file_contents(bytes: &[u8]) -> (r: Result<
        (AnimatedIndexedImage, FilePalette),
        IndexedImageError,
    >)
        ensures
            decoded_agrees(r, parse_animation(bytes@)),
    {
        let file_type = match verify_format(bytes) {
            Err(e) => {
                return Err(e);
            },
            Ok(file_type) => file_type,
        };
        match file_type {
            FileType::Image => {
                return Err(
                    IndexedImageError::InvalidFileFormat(
                        0,
                        FormatIssue::WrongFileType {
                            expected: FileType::Animated,
                            found: FileType::Image,
                        },
                    ),
                );
            },
            FileType::Animated => {},
        }
        let (skip, pal_type, colors) = match crate::palette::read(5, bytes) {
            Err(e) => {
                return Err(e);
            },
            Ok(block) => block,
        };
        let start: usize = 5 + skip;
        let rest: usize = bytes.len() - start;
        if rest < 3 {
            return Err(IndexedImageError::InvalidFileFormat(start, FormatIssue::IncompletePixels));
        }
        let width: u8 = bytes[start];
        let height: u8 = bytes[start + 1];
        let play_type_byte: u8 = bytes[start + 2];
        let play_type = match PlayType::from_byte(play_type_byte) {
            None => {
                return Err(
                    IndexedImageError::InvalidFileFormat(
                        start + 2,
                        FormatIssue::UnsupportedPlayType(play_type_byte),
                    ),
                );
            },
            Some(play_type) => play_type,
        };
        if rest < 4 {
            return Err(
                IndexedImageError::InvalidFileFormat(start + 3, FormatIssue::IncompleteFrames),
            );
        }
        let frame_count: u8 = bytes[start + 3];
        if frame_count == 0 {
            return Err(IndexedImageError::InvalidFileFormat(start + 3, FormatIssue::NoFrames));
        }
        if rest < 12 {
            return Err(
                IndexedImageError::InvalidFileFormat(start + 4, FormatIssue::IncompleteFrames),
            );
        }
        let per_frame = Seconds::read_be(bytes, start + 4);
        if per_frame.zero_or_negative() {
            return Err(
                IndexedImageError::InvalidFileFormat(
                    start + 4,
                    FormatIssue::InvalidPerFrame(per_frame),
                ),
            );
        }
        let pixels_start: usize = start + 12;
        let frame_pixel_count: usize = volume(width, height, frame_count);
        if rest - 12 < frame_pixel_count {
            return Err(
                IndexedImageError::InvalidFileFormat(pixels_start, FormatIssue::IncompleteFrames),
            );
        }
        let pixels = copy_bytes(bytes, pixels_start, pixels_start + frame_pixel_count);
        let colors = match colors {
            None => transparent_palette(max_index(pixels.as_slice()) as usize + 1),
            Some(colors) => colors,
        };
        match AnimatedIndexedImage::new(
            width,
            height,
            per_frame,
            frame_count,
            colors,
            pixels,
            play_type,
        ) {
            Err(e) => Err(e),
            Ok(image) => Ok((image, pal_type)),
        }
    }
}

} // verus!
