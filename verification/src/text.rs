//! Reading and writing text a character at a time: lines, words, and
//! numbers in decimal and hexadecimal.
use vstd::prelude::*;
use vstd::string::StringExecFns;

verus! {

/// Whether a character is white space, as Unicode's `White_Space` has it.
pub open spec fn is_space(c: char) -> bool {
    let v = c as u32;
    (0x09 <= v <= 0x0D) || v == 0x20 || v == 0x85 || v == 0xA0 || v == 0x1680 || (0x2000 <= v
        <= 0x200A) || v == 0x2028 || v == 0x2029 || v == 0x202F || v == 0x205F || v == 0x3000
}

/// Whether a character is one of the ten digits.
pub open spec fn is_digit(c: char) -> bool {
    '0' <= c <= '9'
}

/// The value of a digit.
pub open spec fn digit_value(c: char) -> int {
    c as int - '0' as int
}

/// The character for a digit's value, which is below ten.
pub open spec fn digit_char(v: int) -> char {
    (v + '0' as int) as char
}

/// The number that a row of digits spells.
pub open spec fn digits_value(s: Seq<char>) -> int
    decreases s.len(),
{
    if s.len() == 0 {
        0
    } else {
        digits_value(s.drop_last()) * 10 + digit_value(s.last())
    }
}

/// Whether every character is a digit.
pub open spec fn all_digits(s: Seq<char>) -> bool {
    forall|i: int| 0 <= i < s.len() ==> is_digit(#[trigger] s[i])
}

/// A word without the `+` in front of it, if it has one.
pub open spec fn without_plus(word: Seq<char>) -> Seq<char> {
    if word.len() > 0 && word[0] == '+' {
        word.drop_first()
    } else {
        word
    }
}

/// The number from 0 to 255 that a word spells, if it spells one: an
/// optional `+`, then one digit or more and nothing else; zeros in front
/// count for nothing.
pub open spec fn parse_u8(word: Seq<char>) -> Option<u8> {
    let body = without_plus(word);
    if body.len() > 0 && all_digits(body) && digits_value(body) <= 255 {
        Some(digits_value(body) as u8)
    } else {
        None
    }
}

/// A number in decimal, without zeros in front.
pub open spec fn decimal(n: nat) -> Seq<char>
    decreases n,
{
    if n < 10 {
        seq![digit_char(n as int)]
    } else {
        decimal(n / 10).push(digit_char((n % 10) as int))
    }
}

/// The number of characters before the first line feed, or of all where
/// there is none.
pub open spec fn line_end(text: Seq<char>) -> nat
    decreases text.len(),
{
    if text.len() == 0 || text[0] == '\n' {
        0
    } else {
        1 + line_end(text.drop_first())
    }
}

/// A line without the carriage return at its end, if it has one.
pub open spec fn without_cr(line: Seq<char>) -> Seq<char> {
    if line.len() > 0 && line.last() == '\r' {
        line.drop_last()
    } else {
        line
    }
}

/// The lines of a text. A line ends at a line feed, which is no part of
/// it, and neither is a carriage return just before the line feed. What
/// follows the last line feed is a line as it stands, unless it is empty.
pub open spec fn lines_of(text: Seq<char>) -> Seq<Seq<char>>
    decreases text.len(),
{
    if text.len() == 0 {
        Seq::empty()
    } else if line_end(text) >= text.len() {
        seq![text]
    } else {
        seq![without_cr(text.take(line_end(text) as int))] + lines_of(
            text.skip(line_end(text) as int + 1),
        )
    }
}

/// The number of characters before the first white space, or of all where
/// there is none.
pub open spec fn word_end(text: Seq<char>) -> nat
    decreases text.len(),
{
    if text.len() == 0 || is_space(text[0]) {
        0
    } else {
        1 + word_end(text.drop_first())
    }
}

/// The words of a text: its longest runs of characters that are no white
/// space, in order.
pub open spec fn words_of(text: Seq<char>) -> Seq<Seq<char>>
    decreases text.len(),
{
    if text.len() == 0 {
        Seq::empty()
    } else if is_space(text[0]) {
        words_of(text.drop_first())
    } else if word_end(text) >= text.len() {
        seq![text]
    } else {
        seq![text.take(word_end(text) as int)] + words_of(text.skip(word_end(text) as int))
    }
}

/// Whether a character is a hexadecimal digit, in either case.
pub open spec fn is_hex_digit(c: char) -> bool {
    ('0' <= c <= '9') || ('a' <= c <= 'f') || ('A' <= c <= 'F')
}

/// Whether every character is a hexadecimal digit.
pub open spec fn all_hex_digits(s: Seq<char>) -> bool {
    forall|i: int| 0 <= i < s.len() ==> is_hex_digit(#[trigger] s[i])
}

/// The value of a hexadecimal digit.
pub open spec fn hex_value(c: char) -> int {
    if '0' <= c <= '9' {
        c as int - '0' as int
    } else if 'a' <= c <= 'f' {
        c as int - 'a' as int + 10
    } else {
        c as int - 'A' as int + 10
    }
}

/// The upper-case hexadecimal digit for a value below sixteen.
pub open spec fn hex_char(v: int) -> char {
    if v < 10 {
        (v + '0' as int) as char
    } else {
        (v - 10 + 'A' as int) as char
    }
}

/// The byte that two hexadecimal digits spell.
pub open spec fn hex_pair(high: char, low: char) -> u8 {
    (hex_value(high) * 16 + hex_value(low)) as u8
}

/// The rows of a vector of rows, each as a sequence.
pub open spec fn rows(v: Seq<Vec<char>>) -> Seq<Seq<char>> {
    Seq::new(v.len(), |i: int| v[i]@)
}

/// `line_end` is the place of the first line feed.
pub proof fn lemma_line_end(text: Seq<char>, end: int)
    requires
        0 <= end <= text.len(),
        forall|i: int| 0 <= i < end ==> text[i] != '\n',
        end < text.len() ==> text[end] == '\n',
    ensures
        line_end(text) == end,
    decreases text.len(),
{
    if end > 0 {
        lemma_line_end(text.drop_first(), end - 1);
    }
}

/// `word_end` is the place of the first white space.
pub proof fn lemma_word_end(text: Seq<char>, end: int)
    requires
        0 <= end <= text.len(),
        forall|i: int| 0 <= i < end ==> !is_space(#[trigger] text[i]),
        end < text.len() ==> is_space(text[end]),
    ensures
        word_end(text) == end,
    decreases text.len(),
{
    if end > 0 {
        assert(!is_space(text[0]));
        assert forall|i: int| 0 <= i < end - 1 implies !is_space(
            #[trigger] text.drop_first()[i],
        ) by {
            assert(text.drop_first()[i] == text[i + 1]);
        }
        lemma_word_end(text.drop_first(), end - 1);
    }
}

/// White space in front of a text has no part in its words.
pub proof fn lemma_words_skip_spaces(text: Seq<char>, from: int)
    requires
        0 <= from <= text.len(),
        forall|i: int| 0 <= i < from ==> is_space(#[trigger] text[i]),
    ensures
        words_of(text) == words_of(text.skip(from)),
    decreases from,
{
    if from == 0 {
        assert(text.skip(0) =~= text);
    } else {
        assert(is_space(text[0]));
        assert forall|i: int| 0 <= i < from - 1 implies is_space(
            #[trigger] text.drop_first()[i],
        ) by {
            assert(text.drop_first()[i] == text[i + 1]);
        }
        lemma_words_skip_spaces(text.drop_first(), from - 1);
        assert(text.drop_first().skip(from - 1) =~= text.skip(from));
    }
}

/// `line_end` lies inside the text or at its end; no line feed stands
/// before it, and one stands at it unless it is the end.
pub proof fn lemma_line_end_is_first(text: Seq<char>)
    ensures
        line_end(text) <= text.len(),
        forall|i: int| 0 <= i < line_end(text) ==> text[i] != '\n',
        line_end(text) < text.len() ==> text[line_end(text) as int] == '\n',
    decreases text.len(),
{
    if text.len() > 0 && text[0] != '\n' {
        let rest = text.drop_first();
        lemma_line_end_is_first(rest);
        assert forall|i: int| 0 <= i < line_end(text) implies text[i] != '\n' by {
            if i > 0 {
                assert(text[i] == rest[i - 1]);
            }
        }
        if line_end(text) < text.len() {
            assert(text[line_end(text) as int] == rest[line_end(rest) as int]);
        }
    }
}

/// The lines of a line, a line feed and a text are the line, without a
/// carriage return at its end, and the lines of the text.
pub proof fn lemma_lines_of_line_and_rest(line: Seq<char>, rest: Seq<char>)
    requires
        forall|i: int| 0 <= i < line.len() ==> line[i] != '\n',
    ensures
        lines_of(line + seq!['\n'] + rest) == seq![without_cr(line)] + lines_of(rest),
{
    let text = line + seq!['\n'] + rest;
    lemma_line_end(text, line.len() as int);
    assert(text.take(line.len() as int) =~= line);
    assert(text.skip(line.len() as int + 1) =~= rest);
}

/// The lines of two texts in a row are the lines of the first and the
/// lines of the second, where the first is empty or ends in a line feed.
pub proof fn lemma_lines_of_two(first: Seq<char>, second: Seq<char>)
    requires
        first.len() > 0 ==> first.last() == '\n',
    ensures
        lines_of(first + second) == lines_of(first) + lines_of(second),
    decreases first.len(),
{
    if first.len() == 0 {
        assert(first + second =~= second);
        assert(lines_of(first) + lines_of(second) =~= lines_of(second));
    } else {
        lemma_line_end_is_first(first);
        let n = line_end(first) as int;
        assert(n < first.len()) by {
            if n >= first.len() {
                assert(first[first.len() - 1] != '\n');
            }
        }
        let line = first.take(n);
        let tail = first.skip(n + 1);
        assert(first =~= line + seq!['\n'] + tail);
        assert(first + second =~= line + seq!['\n'] + (tail + second));
        lemma_lines_of_line_and_rest(line, tail);
        lemma_lines_of_line_and_rest(line, tail + second);
        if tail.len() > 0 {
            assert(tail.last() == first.last());
        }
        lemma_lines_of_two(tail, second);
        assert(seq![without_cr(line)] + (lines_of(tail) + lines_of(second)) =~= (seq![
            without_cr(line),
        ] + lines_of(tail)) + lines_of(second));
    }
}

/// A word by itself: a text without white space, and not empty, has itself
/// as its one word.
pub proof fn lemma_words_of_word(word: Seq<char>)
    requires
        word.len() > 0,
        forall|i: int| 0 <= i < word.len() ==> !is_space(#[trigger] word[i]),
    ensures
        words_of(word) == seq![word],
{
    lemma_word_end(word, word.len() as int);
    assert(!is_space(word[0]));
}

/// The words of a word, a blank and a text are the word and the words of
/// the text.
pub proof fn lemma_words_of_word_and_rest(word: Seq<char>, rest: Seq<char>)
    requires
        word.len() > 0,
        forall|i: int| 0 <= i < word.len() ==> !is_space(#[trigger] word[i]),
    ensures
        words_of(word + seq![' '] + rest) == seq![word] + words_of(rest),
{
    let text = word + seq![' '] + rest;
    assert(is_space(' '));
    assert forall|i: int| 0 <= i < word.len() implies !is_space(#[trigger] text[i]) by {
        assert(text[i] == word[i]);
    }
    assert(text[word.len() as int] == ' ');
    lemma_word_end(text, word.len() as int);
    assert(!is_space(text[0]));
    assert(text.take(word.len() as int) =~= word);
    let tail = text.skip(word.len() as int);
    assert(tail =~= seq![' '] + rest);
    assert(is_space(tail[0]));
    assert(tail.drop_first() =~= rest);
    assert(words_of(tail) == words_of(rest));
    assert(word_end(text) < text.len());
    assert(words_of(text) == seq![text.take(word_end(text) as int)] + words_of(
        text.skip(word_end(text) as int),
    ));
}

/// A number in decimal is a row of digits, one at least, that spells the
/// number.
pub proof fn lemma_decimal(n: nat)
    ensures
        decimal(n).len() > 0,
        all_digits(decimal(n)),
        digits_value(decimal(n)) == n,
    decreases n,
{
    if n < 10 {
        let s = decimal(n);
        assert(s.len() == 1);
        assert(is_digit(s[0]));
        assert(s.drop_last() =~= Seq::<char>::empty());
        assert(digits_value(s.drop_last()) == 0);
    } else {
        lemma_decimal(n / 10);
        let front = decimal(n / 10);
        let s = decimal(n);
        assert(s.drop_last() =~= front);
        assert(is_digit(s.last()));
        assert forall|i: int| 0 <= i < s.len() implies is_digit(#[trigger] s[i]) by {
            if i < front.len() {
                assert(s[i] == front[i]);
            }
        }
    }
}

/// A number from 0 to 255 in decimal is read as that number.
pub proof fn lemma_parse_decimal(n: u8)
    ensures
        parse_u8(decimal(n as nat)) == Some(n),
{
    lemma_decimal(n as nat);
    let s = decimal(n as nat);
    assert(is_digit(s[0]));
    assert(without_plus(s) == s);
}

/// Whether a text has no line feed and no carriage return in it.
pub open spec fn is_plain(s: Seq<char>) -> bool {
    forall|i: int| 0 <= i < s.len() ==> (#[trigger] s[i]) != '\n' && s[i] != '\r'
}

/// Two plain texts in a row are a plain text.
pub proof fn lemma_plain_two(first: Seq<char>, second: Seq<char>)
    requires
        is_plain(first),
        is_plain(second),
    ensures
        is_plain(first + second),
{
    assert forall|i: int| 0 <= i < (first + second).len() implies (#[trigger] (first + second)[i])
        != '\n' && (first + second)[i] != '\r' by {
        if i < first.len() {
            assert((first + second)[i] == first[i]);
        } else {
            assert((first + second)[i] == second[i - first.len()]);
        }
    }
}

/// A row of digits is plain, and has no white space in it.
pub proof fn lemma_digits_are_plain(s: Seq<char>)
    requires
        all_digits(s),
    ensures
        forall|i: int| 0 <= i < s.len() ==> !is_space(#[trigger] s[i]),
        is_plain(s),
{
    assert forall|i: int| 0 <= i < s.len() implies !is_space(#[trigger] s[i]) by {
        assert(is_digit(s[i]));
    }
    assert forall|i: int| 0 <= i < s.len() implies (#[trigger] s[i]) != '\n' && s[i] != '\r' by {
        assert(is_digit(s[i]));
    }
}

/// A plain text is one line: with a line feed behind it, and a text behind
/// that, its lines are itself and the lines of that text.
pub proof fn lemma_lines_of_plain_and_rest(line: Seq<char>, rest: Seq<char>)
    requires
        is_plain(line),
    ensures
        lines_of(line + seq!['\n'] + rest) == seq![line] + lines_of(rest),
{
    lemma_lines_of_line_and_rest(line, rest);
    if line.len() > 0 {
        assert(line[line.len() - 1] != '\r');
    }
}

/// The characters of `text`.
pub fn chars_of(text: &str) -> (chars: Vec<char>)
    ensures
        chars@ == text@,
{
    let mut chars: Vec<char> = Vec::new();
    for c in it: text.chars()
        invariant
            chars@ == it.seq().take(it.index() as int),
            it.seq() == text@,
    {
        chars.push(c);
    }
    chars
}

/// A copy of `text[from..to]`.
pub fn copy_chars(text: &[char], from: usize, to: usize) -> (copy: Vec<char>)
    requires
        from <= to <= text@.len(),
    ensures
        copy@ == text@.subrange(from as int, to as int),
{
    let mut copy: Vec<char> = Vec::new();
    let mut i: usize = from;
    while i < to
        invariant
            from <= i <= to <= text@.len(),
            copy@ == text@.subrange(from as int, i as int),
        decreases to - i,
    {
        copy.push(text[i]);
        i += 1;
        assert(copy@ =~= text@.subrange(from as int, i as int));
    }
    copy
}

/// Whether two rows of characters are the same.
pub fn same_chars(a: &[char], b: &[char]) -> (same: bool)
    ensures
        same == (a@ == b@),
{
    if a.len() != b.len() {
        return false;
    }
    let mut i: usize = 0;
    while i < a.len()
        invariant
            i <= a@.len(),
            a@.len() == b@.len(),
            forall|j: int| 0 <= j < i ==> a@[j] == b@[j],
        decreases a@.len() - i,
    {
        if a[i] != b[i] {
            return false;
        }
        i += 1;
    }
    assert(a@ =~= b@);
    true
}

/// Tests `is_space`.
pub fn space(c: char) -> (b: bool)
    ensures
        b == is_space(c),
{
    let v: u32 = c as u32;
    (0x09 <= v && v <= 0x0D) || v == 0x20 || v == 0x85 || v == 0xA0 || v == 0x1680 || (0x2000 <= v
        && v <= 0x200A) || v == 0x2028 || v == 0x2029 || v == 0x202F || v == 0x205F || v
        == 0x3000
}

/// The lines of `text`.
pub fn lines(text: &[char]) -> (out: Vec<Vec<char>>)
    ensures
        rows(out@) == lines_of(text@),
{
    let mut out: Vec<Vec<char>> = Vec::new();
    let mut pos: usize = 0;
    assert(text@.skip(0) =~= text@);
    assert(rows(out@) =~= Seq::<Seq<char>>::empty());
    while pos < text.len()
        invariant
            pos <= text@.len(),
            rows(out@) + lines_of(text@.skip(pos as int)) == lines_of(text@),
        decreases text@.len() - pos,
    {
        let ghost rest = text@.skip(pos as int);
        let ghost before = rows(out@);
        let mut end: usize = pos;
        while end < text.len() && text[end] != '\n'
            invariant
                pos <= end <= text@.len(),
                forall|i: int| pos <= i < end ==> text@[i] != '\n',
            decreases text@.len() - end,
        {
            end += 1;
        }
        proof {
            lemma_line_end(rest, end - pos);
        }
        if end < text.len() {
            let stop: usize = if end > pos && text[end - 1] == '\r' {
                end - 1
            } else {
                end
            };
            let line = copy_chars(text, pos, stop);
            assert(line@ =~= without_cr(rest.take(end - pos)));
            out.push(line);
            assert(rest.skip(end - pos + 1) =~= text@.skip(end + 1));
            assert(rows(out@) =~= before + seq![line@]);
            pos = end + 1;
        } else {
            let line = copy_chars(text, pos, end);
            assert(line@ =~= rest);
            out.push(line);
            assert(rows(out@) =~= before + seq![line@]);
            assert(text@.skip(end as int).len() == 0);
            pos = end;
        }
    }
    assert(text@.skip(pos as int).len() == 0);
    out
}

/// The words of `text`.
pub fn words(text: &[char]) -> (out: Vec<Vec<char>>)
    ensures
        rows(out@) == words_of(text@),
{
    let mut out: Vec<Vec<char>> = Vec::new();
    let mut pos: usize = 0;
    assert(text@.skip(0) =~= text@);
    assert(rows(out@) =~= Seq::<Seq<char>>::empty());
    while pos < text.len()
        invariant
            pos <= text@.len(),
            rows(out@) + words_of(text@.skip(pos as int)) == words_of(text@),
        decreases text@.len() - pos,
    {
        let ghost before = rows(out@);
        let mut begin: usize = pos;
        while begin < text.len() && space(text[begin])
            invariant
                pos <= begin <= text@.len(),
                forall|i: int| pos <= i < begin ==> is_space(#[trigger] text@[i]),
            decreases text@.len() - begin,
        {
            begin += 1;
        }
        proof {
            let rest = text@.skip(pos as int);
            assert forall|i: int| 0 <= i < begin - pos implies is_space(#[trigger] rest[i]) by {
                assert(rest[i] == text@[pos + i]);
            }
            lemma_words_skip_spaces(rest, begin - pos);
            assert(rest.skip(begin - pos) =~= text@.skip(begin as int));
        }
        if begin < text.len() {
            let ghost rest = text@.skip(begin as int);
            let mut end: usize = begin + 1;
            while end < text.len() && !space(text[end])
                invariant
                    begin < end <= text@.len(),
                    forall|i: int| begin <= i < end ==> !is_space(#[trigger] text@[i]),
                decreases text@.len() - end,
            {
                end += 1;
            }
            proof {
                assert forall|i: int| 0 <= i < end - begin implies !is_space(#[trigger] rest[i]) by {
                    assert(rest[i] == text@[begin + i]);
                }
                lemma_word_end(rest, end - begin);
                assert(!is_space(rest[0]));
            }
            let word = copy_chars(text, begin, end);
            assert(word@ =~= rest.take(end - begin));
            out.push(word);
            assert(rows(out@) =~= before + seq![word@]);
            assert(rest.skip(end - begin) =~= text@.skip(end as int));
            proof {
                if end == text@.len() {
                    assert(rest.take(end - begin) =~= rest);
                    assert(text@.skip(end as int).len() == 0);
                }
            }
            pos = end;
        } else {
            assert(text@.skip(begin as int).len() == 0);
            pos = begin;
        }
    }
    assert(text@.skip(pos as int).len() == 0);
    out
}

/// The number from 0 to 255 that `word` spells, if it spells one.
pub fn read_u8(word: &[char]) -> (n: Option<u8>)
    ensures
        n == parse_u8(word@),
{
    let start: usize = if word.len() > 0 && word[0] == '+' {
        1
    } else {
        0
    };
    let ghost body = word@.skip(start as int);
    assert(body =~= without_plus(word@));
    if start == word.len() {
        return None;
    }
    let mut value: u32 = 0;
    let mut i: usize = start;
    assert(body.take(0) =~= Seq::<char>::empty());
    while i < word.len()
        invariant
            start <= i <= word@.len(),
            body == word@.skip(start as int),
            body == without_plus(word@),
            forall|j: int| 0 <= j < i - start ==> is_digit(#[trigger] body[j]),
            value == digits_value(body.take(i - start)),
            value <= 255,
        decreases word@.len() - i,
    {
        let c: char = word[i];
        assert(body[i - start] == c);
        if !('0' <= c && c <= '9') {
            assert(!is_digit(body[i - start]));
            return None;
        }
        assert(body.take(i - start + 1).drop_last() =~= body.take(i - start));
        let next: u32 = value * 10 + (c as u32 - '0' as u32);
        if next > 255 {
            proof {
                if all_digits(body) {
                    lemma_digits_grow(body, i - start + 1);
                }
            }
            return None;
        }
        value = next;
        i += 1;
    }
    assert(body.take(i - start) =~= body);
    Some(value as u8)
}

/// A row of digits spells at least what any of its beginnings spells.
pub proof fn lemma_digits_grow(s: Seq<char>, n: int)
    requires
        0 <= n <= s.len(),
        all_digits(s),
    ensures
        digits_value(s.take(n)) <= digits_value(s),
        0 <= digits_value(s.take(n)),
    decreases s.len() - n,
{
    lemma_digits_nonnegative(s.take(n));
    if n < s.len() {
        assert(s.take(n + 1).drop_last() =~= s.take(n));
        assert(is_digit(s[n]));
        lemma_digits_grow(s, n + 1);
    } else {
        assert(s.take(n) =~= s);
    }
}

/// A row of digits spells no negative number.
pub proof fn lemma_digits_nonnegative(s: Seq<char>)
    requires
        all_digits(s),
    ensures
        0 <= digits_value(s),
    decreases s.len(),
{
    if s.len() > 0 {
        assert(is_digit(s[s.len() - 1]));
        lemma_digits_nonnegative(s.drop_last());
    }
}

/// The digit for a value below ten, as text.
pub fn digit_str(v: u8) -> (s: &'static str)
    requires
        v < 10,
    ensures
        s@ == seq![digit_char(v as int)],
{
    proof {
        reveal_strlit("0");
        reveal_strlit("1");
        reveal_strlit("2");
        reveal_strlit("3");
        reveal_strlit("4");
        reveal_strlit("5");
        reveal_strlit("6");
        reveal_strlit("7");
        reveal_strlit("8");
        reveal_strlit("9");
    }
    let s = if v == 0 {
        "0"
    } else if v == 1 {
        "1"
    } else if v == 2 {
        "2"
    } else if v == 3 {
        "3"
    } else if v == 4 {
        "4"
    } else if v == 5 {
        "5"
    } else if v == 6 {
        "6"
    } else if v == 7 {
        "7"
    } else if v == 8 {
        "8"
    } else {
        "9"
    };
    assert(s@ =~= seq![digit_char(v as int)]);
    s
}

/// Appends `n` in decimal.
pub fn push_decimal(out: &mut String, n: usize)
    ensures
        final(out)@ == old(out)@ + decimal(n as nat),
    decreases n,
{
    if n < 10 {
        out.append(digit_str(n as u8));
    } else {
        push_decimal(out, n / 10);
        out.append(digit_str((n % 10) as u8));
        assert(out@ =~= old(out)@ + decimal(n as nat));
    }
}

/// The upper-case hexadecimal digit for a value below sixteen, as text.
pub fn hex_str(v: u8) -> (s: &'static str)
    requires
        v < 16,
    ensures
        s@ == seq![hex_char(v as int)],
{
    proof {
        reveal_strlit("A");
        reveal_strlit("B");
        reveal_strlit("C");
        reveal_strlit("D");
        reveal_strlit("E");
        reveal_strlit("F");
    }
    let s = if v < 10 {
        digit_str(v)
    } else if v == 10 {
        "A"
    } else if v == 11 {
        "B"
    } else if v == 12 {
        "C"
    } else if v == 13 {
        "D"
    } else if v == 14 {
        "E"
    } else {
        "F"
    };
    assert(s@ =~= seq![hex_char(v as int)]);
    s
}

/// Appends the two upper-case hexadecimal digits of a byte.
pub fn push_hex(out: &mut String, byte: u8)
    ensures
        final(out)@ == old(out)@ + seq![hex_char(byte as int / 16), hex_char(byte as int % 16)],
{
    out.append(hex_str(byte / 16));
    out.append(hex_str(byte % 16));
    assert(out@ =~= old(out)@ + seq![hex_char(byte as int / 16), hex_char(byte as int % 16)]);
}

/// The value of a hexadecimal digit, if the character is one.
pub fn read_hex_digit(c: char) -> (v: Option<u8>)
    ensures
        v is Some <==> is_hex_digit(c),
        v matches Some(value) ==> value == hex_value(c) && value < 16,
{
    if '0' <= c && c <= '9' {
        Some((c as u32 - '0' as u32) as u8)
    } else if 'a' <= c && c <= 'f' {
        Some((c as u32 - 'a' as u32 + 10) as u8)
    } else if 'A' <= c && c <= 'F' {
        Some((c as u32 - 'A' as u32 + 10) as u8)
    } else {
        None
    }
}

} // verus!
