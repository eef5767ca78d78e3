//! Palettes as JASC text: three lines of header, then a line for each
//! colour.
use vstd::prelude::*;
use vstd::string::StringExecFns;
use crate::color::Color;
use crate::indexed::copy_colors;
use crate::text::chars_of;
use crate::text::decimal;
use crate::text::lemma_decimal;
use crate::text::lemma_digits_are_plain;
use crate::text::is_plain;
use crate::text::lemma_lines_of_plain_and_rest;
use crate::text::lemma_plain_two;
use crate::text::lemma_lines_of_two;
use crate::text::lemma_parse_decimal;
use crate::text::lemma_words_of_word;
use crate::text::lemma_words_of_word_and_rest;
use crate::text::lines;
use crate::text::lines_of;
use crate::text::parse_u8;
use crate::text::push_decimal;
use crate::text::read_u8;
use crate::text::rows;
use crate::text::same_chars;
use crate::text::words;
use crate::text::words_of;

verus! {

/// The first line of a palette file.
pub const FILE_HEADER: &'static str = "JASC-PAL";

/// The second line of a palette file: the version.
pub const FILE_VER: &'static str = "0100";

/// What in a palette file could not be read.
#[derive(Debug, Copy, Clone, Eq, PartialEq, Structural)]
pub enum ParseIssue {
    /// The first line is missing.
    FileDesc,
    /// The second line is missing.
    Version,
    /// The third line is missing or no number from 0 to 255.
    ColorCount,
    /// The colour line of this number has neither three words nor four.
    ColorSplitting(usize),
    /// A word of the colour line of this number is no number from 0 to 255.
    ColorNumbers(usize),
}

/// Why a text is no palette file.
#[derive(Debug, Copy, Clone, Eq, PartialEq, Structural)]
pub enum PaletteError {
    /// The first line is not `JASC-PAL`.
    InvalidFileType,
    /// The second line is not `0100`.
    UnsupportedVersion,
    /// The third line and the number of colour lines differ.
    IncorrectNumberOfColors,
    /// A part of the file could not be read.
    ParseError(ParseIssue),
}

/// A palette that can be written as JASC text.
#[derive(Debug, Eq, PartialEq, Clone)]
pub struct JascPalette {
    pub colors: Vec<Color>,
}

/// The line of one colour: red, green and blue in decimal with a blank
/// between them, then a blank and alpha unless alpha is 255, then a line
/// feed.
pub open spec fn color_line(c: Color) -> Seq<char> {
    decimal(c.r as nat) + seq![' '] + decimal(c.g as nat) + seq![' '] + decimal(c.b as nat) + (
    if c.a != 255 {
        seq![' '] + decimal(c.a as nat)
    } else {
        Seq::empty()
    }) + seq!['\n']
}

/// The lines of the colours, one after the other.
pub open spec fn color_lines(colors: Seq<Color>) -> Seq<char>
    decreases colors.len(),
{
    if colors.len() == 0 {
        Seq::empty()
    } else {
        color_lines(colors.drop_last()) + color_line(colors.last())
    }
}

/// The palette file of the colours: header, version, the number of
/// colours, and their lines.
pub open spec fn jasc_text(colors: Seq<Color>) -> Seq<char> {
    FILE_HEADER@ + seq!['\n'] + FILE_VER@ + seq!['\n'] + decimal(colors.len()) + seq!['\n']
        + color_lines(colors)
}

/// The colour that the colour line of number `i` spells, or what is wrong
/// with it: it has three words or four, each a number from 0 to 255; a
/// missing fourth stands for an alpha of 255.
pub open spec fn row_color(row: Seq<char>, i: int) -> Result<Color, PaletteError> {
    let values = words_of(row);
    if values.len() != 3 && values.len() != 4 {
        Err(PaletteError::ParseError(ParseIssue::ColorSplitting(i as usize)))
    } else if parse_u8(values[0]) is None || parse_u8(values[1]) is None || parse_u8(values[2])
        is None || (values.len() == 4 && parse_u8(values[3]) is None) {
        Err(PaletteError::ParseError(ParseIssue::ColorNumbers(i as usize)))
    } else {
        Ok(
            Color {
                r: parse_u8(values[0])->Some_0,
                g: parse_u8(values[1])->Some_0,
                b: parse_u8(values[2])->Some_0,
                a: if values.len() == 4 {
                    parse_u8(values[3])->Some_0
                } else {
                    255
                },
            },
        )
    }
}

/// The colours that the colour lines spell, or what is wrong with the
/// first line that spells none.
pub open spec fn rows_colors(lines: Seq<Seq<char>>) -> Result<Seq<Color>, PaletteError>
    decreases lines.len(),
{
    if lines.len() == 0 {
        Ok(Seq::empty())
    } else {
        match rows_colors(lines.drop_last()) {
            Err(e) => Err(e),
            Ok(colors) => match row_color(lines.last(), lines.len() - 1) {
                Err(e) => Err(e),
                Ok(color) => Ok(colors.push(color)),
            },
        }
    }
}

/// The colours of a palette file, or why the text is none.
///
/// The first line is `JASC-PAL` and the second `0100`. The third is a
/// number from 0 to 255: the number of the lines that follow, taken modulo
/// 256. Every further line spells a colour.
pub open spec fn parse_jasc(text: Seq<char>) -> Result<Seq<Color>, PaletteError> {
    let all = lines_of(text);
    if all.len() < 1 {
        Err(PaletteError::ParseError(ParseIssue::FileDesc))
    } else if all[0] != FILE_HEADER@ {
        Err(PaletteError::InvalidFileType)
    } else if all.len() < 2 {
        Err(PaletteError::ParseError(ParseIssue::Version))
    } else if all[1] != FILE_VER@ {
        Err(PaletteError::UnsupportedVersion)
    } else if all.len() < 3 || parse_u8(all[2]) is None {
        Err(PaletteError::ParseError(ParseIssue::ColorCount))
    } else if (all.len() - 3) % 256 != parse_u8(all[2])->Some_0 {
        Err(PaletteError::IncorrectNumberOfColors)
    } else {
        rows_colors(all.skip(3))
    }
}

/// What went wrong, in words.
pub open spec fn message_of(e: PaletteError) -> Seq<char> {
    match e {
        PaletteError::InvalidFileType => "Invalid file type"@,
        PaletteError::UnsupportedVersion => "Palette file version is not supported"@,
        PaletteError::IncorrectNumberOfColors => "Palette file has the wrong number of colors"@,
        PaletteError::ParseError(ParseIssue::FileDesc) => "Error parsing the file type descriptor"@,
        PaletteError::ParseError(ParseIssue::Version) => "Error parsing the version"@,
        PaletteError::ParseError(ParseIssue::ColorCount) => "Error parsing the color count"@,
        PaletteError::ParseError(ParseIssue::ColorSplitting(num)) => "Error splitting color "@
            + decimal(num as nat),
        PaletteError::ParseError(ParseIssue::ColorNumbers(num)) => "Error parsing color "@
            + decimal(num as nat),
    }
}

impl PaletteError {
    /// What went wrong, in words.
    pub fn message(&self) -> (text: String)
        ensures
            text@ == message_of(*self),
    {
        match self {
            PaletteError::InvalidFileType => String::from_str("Invalid file type"),
            PaletteError::UnsupportedVersion => String::from_str(
                "Palette file version is not supported",
            ),
            PaletteError::IncorrectNumberOfColors => String::from_str(
                "Palette file has the wrong number of colors",
            ),
            PaletteError::ParseError(ParseIssue::FileDesc) => String::from_str(
                "Error parsing the file type descriptor",
            ),
            PaletteError::ParseError(ParseIssue::Version) => String::from_str(
                "Error parsing the version",
            ),
            PaletteError::ParseError(ParseIssue::ColorCount) => String::from_str(
                "Error parsing the color count",
            ),
            PaletteError::ParseError(ParseIssue::ColorSplitting(num)) => {
                let mut text = String::from_str("Error splitting color ");
                push_decimal(&mut text, *num);
                text
            },
            PaletteError::ParseError(ParseIssue::ColorNumbers(num)) => {
                let mut text = String::from_str("Error parsing color ");
                push_decimal(&mut text, *num);
                text
            },
        }
    }
}

impl JascPalette {
    /// A palette of these colours.
    pub fn new(colors: Vec<Color>) -> (palette: JascPalette)
        ensures
            palette.colors == colors,
    {
        JascPalette { colors }
    }

    /// A palette of a copy of these colours.
    pub fn from(colors: &[Color]) -> (palette: JascPalette)
        ensures
            palette.colors@ == colors@,
    {
        JascPalette { colors: copy_colors(colors) }
    }

    /// The palette as a palette file.
    pub fn to_file_contents(&self) -> (text: String)
        ensures
            text@ == jasc_text(self.colors@),
    {
        proof {
            reveal_strlit(" ");
            reveal_strlit("\n");
        }
        let mut output = String::new();
        output.append(FILE_HEADER);
        output.append("\n");
        output.append(FILE_VER);
        output.append("\n");
        push_decimal(&mut output, self.colors.len());
        output.append("\n");
        let ghost head = output@;
        assert(head =~= FILE_HEADER@ + seq!['\n'] + FILE_VER@ + seq!['\n'] + decimal(
            self.colors@.len(),
        ) + seq!['\n']);
        let mut i: usize = 0;
        while i < self.colors.len()
            invariant
                i <= self.colors@.len(),
                output@ == head + color_lines(self.colors@.take(i as int)),
                " "@ == seq![' '],
                "\n"@ == seq!['\n'],
            decreases self.colors@.len() - i,
        {
            let ghost before = output@;
            let color = self.colors[i];
            push_decimal(&mut output, color.r as usize);
            output.append(" ");
            push_decimal(&mut output, color.g as usize);
            output.append(" ");
            push_decimal(&mut output, color.b as usize);
            if color.a != 255 {
                output.append(" ");
                push_decimal(&mut output, color.a as usize);
            }
            output.append("\n");
            assert(output@ =~= before + color_line(color));
            i += 1;
            assert(self.colors@.take(i as int).drop_last() =~= self.colors@.take(i - 1));
        }
        assert(self.colors@.take(i as int) =~= self.colors@);
        output
    }

    /// Reads a palette file.
    pub fn from_file_contents(text: &str) -> (r: Result<JascPalette, PaletteError>)
        ensures
            match (r, parse_jasc(text@)) {
                (Ok(palette), Ok(colors)) => palette.colors@ == colors,
                (Err(e), Err(expected)) => e == expected,
                _ => false,
            },
    {
        let chars = chars_of(text);
        let all = lines(chars.as_slice());
        assert(forall|i: int| 0 <= i < all@.len() ==> rows(all@)[i] == all@[i]@);
        if all.len() < 1 {
            return Err(PaletteError::ParseError(ParseIssue::FileDesc));
        }
        if !same_chars(all[0].as_slice(), chars_of(FILE_HEADER).as_slice()) {
            return Err(PaletteError::InvalidFileType);
        }
        if all.len() < 2 {
            return Err(PaletteError::ParseError(ParseIssue::Version));
        }
        if !same_chars(all[1].as_slice(), chars_of(FILE_VER).as_slice()) {
            return Err(PaletteError::UnsupportedVersion);
        }
        if all.len() < 3 {
            return Err(PaletteError::ParseError(ParseIssue::ColorCount));
        }
        let count: u8 = match read_u8(all[2].as_slice()) {
            None => {
                return Err(PaletteError::ParseError(ParseIssue::ColorCount));
            },
            Some(count) => count,
        };
        let found: usize = all.len() - 3;
        if (found % 256) as u8 != count {
            return Err(PaletteError::IncorrectNumberOfColors);
        }
        let ghost colour_rows = lines_of(text@).skip(3);
        let mut output: Vec<Color> = Vec::new();
        let mut i: usize = 0;
        assert(colour_rows.take(0) =~= Seq::<Seq<char>>::empty());
        assert(parse_jasc(text@) == rows_colors(colour_rows));
        while i < found
            invariant
                i <= found,
                found == all@.len() - 3,
                all@.len() <= usize::MAX,
                parse_jasc(text@) == rows_colors(colour_rows),
                colour_rows == rows(all@).skip(3),
                rows_colors(colour_rows.take(i as int)) == Ok::<Seq<Color>, PaletteError>(
                    output@,
                ),
            decreases found - i,
        {
            assert(colour_rows.take(i + 1).drop_last() =~= colour_rows.take(i as int));
            assert(colour_rows.take(i + 1).last() == all@[i + 3]@);
            let values = words(all[i + 3].as_slice());
            assert(forall|k: int| 0 <= k < values@.len() ==> rows(values@)[k] == values@[k]@);
            if values.len() != 3 && values.len() != 4 {
                proof {
                    lemma_rows_fail(colour_rows, i + 1);
                }
                return Err(PaletteError::ParseError(ParseIssue::ColorSplitting(i)));
            }
            let r = read_u8(values[0].as_slice());
            let g = read_u8(values[1].as_slice());
            let b = read_u8(values[2].as_slice());
            let a = if values.len() == 4 {
                read_u8(values[3].as_slice())
            } else {
                Some(255)
            };
            match (r, g, b, a) {
                (Some(r), Some(g), Some(b), Some(a)) => {
                    output.push(Color { r, g, b, a });
                },
                _ => {
                    proof {
                        lemma_rows_fail(colour_rows, i + 1);
                    }
                    return Err(PaletteError::ParseError(ParseIssue::ColorNumbers(i)));
                },
            }
            i += 1;
        }
        assert(colour_rows.take(i as int) =~= colour_rows);
        Ok(JascPalette::new(output))
    }
}

/// Where the first `n` colour lines spell no colours, neither do all of
/// them, and what is wrong is the same.
pub proof fn lemma_rows_fail(lines: Seq<Seq<char>>, n: int)
    requires
        0 <= n <= lines.len(),
        rows_colors(lines.take(n)) is Err,
    ensures
        rows_colors(lines) == rows_colors(lines.take(n)),
    decreases lines.len() - n,
{
    if n < lines.len() {
        assert(lines.take(n + 1).drop_last() =~= lines.take(n));
        lemma_rows_fail(lines, n + 1);
    } else {
        assert(lines.take(n) =~= lines);
    }
}

/// The line of one colour without its line feed.
pub open spec fn color_row(c: Color) -> Seq<char> {
    decimal(c.r as nat) + seq![' '] + decimal(c.g as nat) + seq![' '] + decimal(c.b as nat) + (
    if c.a != 255 {
        seq![' '] + decimal(c.a as nat)
    } else {
        Seq::empty()
    })
}

/// The lines of the colours, each without its line feed.
pub open spec fn color_rows(colors: Seq<Color>) -> Seq<Seq<char>> {
    Seq::new(colors.len(), |i: int| color_row(colors[i]))
}

/// The words of the line of a colour are its channels in decimal; alpha
/// is among them unless it is 255.
proof fn lemma_row_words(c: Color)
    ensures
        words_of(color_row(c)) == if c.a != 255 {
            seq![
                decimal(c.r as nat),
                decimal(c.g as nat),
                decimal(c.b as nat),
                decimal(c.a as nat),
            ]
        } else {
            seq![decimal(c.r as nat), decimal(c.g as nat), decimal(c.b as nat)]
        },
{
    let r = decimal(c.r as nat);
    let g = decimal(c.g as nat);
    let b = decimal(c.b as nat);
    let a = decimal(c.a as nat);
    lemma_decimal(c.r as nat);
    lemma_decimal(c.g as nat);
    lemma_decimal(c.b as nat);
    lemma_decimal(c.a as nat);
    lemma_digits_are_plain(r);
    lemma_digits_are_plain(g);
    lemma_digits_are_plain(b);
    lemma_digits_are_plain(a);
    let row = color_row(c);
    if c.a != 255 {
        let behind_b = a;
        let behind_g = b + seq![' '] + behind_b;
        let behind_r = g + seq![' '] + behind_g;
        assert(row =~= r + seq![' '] + behind_r);
        lemma_words_of_word(a);
        lemma_words_of_word_and_rest(b, behind_b);
        lemma_words_of_word_and_rest(g, behind_g);
        lemma_words_of_word_and_rest(r, behind_r);
        assert(seq![r] + (seq![g] + (seq![b] + seq![a])) =~= seq![r, g, b, a]);
    } else {
        let behind_g = b;
        let behind_r = g + seq![' '] + behind_g;
        assert(row =~= r + seq![' '] + behind_r);
        lemma_words_of_word(b);
        lemma_words_of_word_and_rest(g, behind_g);
        lemma_words_of_word_and_rest(r, behind_r);
        assert(seq![r] + (seq![g] + seq![b]) =~= seq![r, g, b]);
    }
}

/// The line of a colour, without its line feed, is plain and not empty.
proof fn lemma_row_plain(c: Color)
    ensures
        is_plain(color_row(c)),
        color_row(c).len() > 0,
        color_line(c) == color_row(c) + seq!['\n'],
{
    let r = decimal(c.r as nat);
    let g = decimal(c.g as nat);
    let b = decimal(c.b as nat);
    let a = decimal(c.a as nat);
    let blank = seq![' '];
    lemma_decimal(c.r as nat);
    lemma_decimal(c.g as nat);
    lemma_decimal(c.b as nat);
    lemma_decimal(c.a as nat);
    lemma_digits_are_plain(r);
    lemma_digits_are_plain(g);
    lemma_digits_are_plain(b);
    lemma_digits_are_plain(a);
    assert(is_plain(blank));
    lemma_plain_two(r, blank);
    lemma_plain_two(r + blank, g);
    lemma_plain_two(r + blank + g, blank);
    lemma_plain_two(r + blank + g + blank, b);
    if c.a != 255 {
        lemma_plain_two(blank, a);
        lemma_plain_two(r + blank + g + blank + b, blank + a);
    } else {
        assert(r + blank + g + blank + b + Seq::<char>::empty() =~= r + blank + g + blank + b);
    }
    assert(color_line(c) =~= color_row(c) + seq!['\n']);
}

/// The line of a colour is read as that colour, whatever its number.
proof fn lemma_row_round_trip(c: Color, i: int)
    ensures
        row_color(color_row(c), i) == Ok::<Color, PaletteError>(c),
{
    lemma_row_words(c);
    lemma_parse_decimal(c.r);
    lemma_parse_decimal(c.g);
    lemma_parse_decimal(c.b);
    lemma_parse_decimal(c.a);
}

/// The lines of the colours, read as lines, are their lines without the
/// line feeds.
proof fn lemma_color_lines(colors: Seq<Color>)
    ensures
        lines_of(color_lines(colors)) == color_rows(colors),
        color_lines(colors).len() > 0 ==> color_lines(colors).last() == '\n',
    decreases colors.len(),
{
    if colors.len() == 0 {
        assert(color_rows(colors) =~= Seq::<Seq<char>>::empty());
    } else {
        let front = colors.drop_last();
        let last = colors.last();
        lemma_color_lines(front);
        lemma_row_plain(last);
        lemma_lines_of_two(color_lines(front), color_line(last));
        lemma_lines_of_plain_and_rest(color_row(last), Seq::empty());
        assert(color_row(last) + seq!['\n'] + Seq::<char>::empty() =~= color_line(last));
        assert(lines_of(color_line(last)) =~= seq![color_row(last)]);
        assert(color_rows(colors) =~= color_rows(front) + seq![color_row(last)]);
    }
}

/// The lines of colours are read as those colours.
proof fn lemma_rows_round_trip(colors: Seq<Color>)
    ensures
        rows_colors(color_rows(colors)) == Ok::<Seq<Color>, PaletteError>(colors),
    decreases colors.len(),
{
    if colors.len() == 0 {
        assert(colors =~= Seq::<Color>::empty());
    } else {
        let front = colors.drop_last();
        lemma_rows_round_trip(front);
        assert(color_rows(colors).drop_last() =~= color_rows(front));
        lemma_row_round_trip(colors.last(), colors.len() - 1);
        assert(front.push(colors.last()) =~= colors);
    }
}

/// The two header lines are plain.
proof fn lemma_header_plain()
    ensures
        is_plain(FILE_HEADER@),
        is_plain(FILE_VER@),
{
    reveal_strlit("JASC-PAL");
    reveal_strlit("0100");
}

/// The lines of a palette file are its two header lines, the number of
/// colours, and a line for each colour.
proof fn lemma_jasc_lines(colors: Seq<Color>)
    ensures
        lines_of(jasc_text(colors)) == seq![FILE_HEADER@, FILE_VER@, decimal(colors.len())]
            + color_rows(colors),
{
    let header = FILE_HEADER@;
    let version = FILE_VER@;
    let count = decimal(colors.len());
    let body = color_lines(colors);
    let feed = seq!['\n'];
    lemma_header_plain();
    lemma_decimal(colors.len());
    lemma_digits_are_plain(count);
    let behind_count = body;
    let behind_version = count + feed + behind_count;
    let behind_header = version + feed + behind_version;
    assert(jasc_text(colors) =~= header + feed + behind_header);
    lemma_lines_of_plain_and_rest(count, behind_count);
    lemma_lines_of_plain_and_rest(version, behind_version);
    lemma_lines_of_plain_and_rest(header, behind_header);
    lemma_color_lines(colors);
    assert(seq![header] + (seq![version] + (seq![count] + color_rows(colors))) =~= seq![
        header,
        version,
        count,
    ] + color_rows(colors));
}

/// A palette of up to 255 colours that is written as a palette file is
/// read back as it was.
pub proof fn lemma_jasc_round_trip(colors: Seq<Color>)
    requires
        colors.len() <= 255,
    ensures
        parse_jasc(jasc_text(colors)) == Ok::<Seq<Color>, PaletteError>(colors),
{
    lemma_jasc_lines(colors);
    lemma_parse_decimal(colors.len() as u8);
    let all = lines_of(jasc_text(colors));
    assert(all.len() == 3 + colors.len());
    assert(all[0] == FILE_HEADER@);
    assert(all[1] == FILE_VER@);
    assert(all[2] == decimal(colors.len()));
    assert(all.skip(3) =~= color_rows(colors));
    lemma_rows_round_trip(colors);
}

} // verus!
