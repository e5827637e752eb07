//! The preferences panel: the colours of the shell prompt, and the list of
//! keyboard shortcuts.

use crate::config::{AppConfig, Rgb};
use crate::message::Message;
use vstd::prelude::*;

verus! {

/// `String::push` of std, which appends the character to the end of the string.
pub assume_specification[ String::push ](s: &mut String, c: char)
    ensures
        final(s)@ == old(s)@.push(c),
;

/// Whether Unicode counts `c` as white space.
pub open spec fn is_white_space(c: char) -> bool {
    ||| 0x09 <= c as u32 <= 0x0d
    ||| c as u32 == 0x20
    ||| c as u32 == 0x85
    ||| c as u32 == 0xa0
    ||| c as u32 == 0x1680
    ||| 0x2000 <= c as u32 <= 0x200a
    ||| c as u32 == 0x2028
    ||| c as u32 == 0x2029
    ||| c as u32 == 0x202f
    ||| c as u32 == 0x205f
    ||| c as u32 == 0x3000
}

/// `s` without the white space before its first other character.
pub open spec fn trim_start(s: Seq<char>) -> Seq<char>
    decreases s.len(),
{
    if s.len() > 0 && is_white_space(s[0]) {
        trim_start(s.skip(1))
    } else {
        s
    }
}

/// `s` without the white space after its last other character.
pub open spec fn trim_end(s: Seq<char>) -> Seq<char>
    decreases s.len(),
{
    if s.len() > 0 && is_white_space(s.last()) {
        trim_end(s.drop_last())
    } else {
        s
    }
}

/// `s` without the number signs at its front.
pub open spec fn trim_hashes(s: Seq<char>) -> Seq<char>
    decreases s.len(),
{
    if s.len() > 0 && s[0] == '#' {
        trim_hashes(s.skip(1))
    } else {
        s
    }
}

/// The part of an entered text that has to be six hexadecimal digits.
pub open spec fn color_digits(s: Seq<char>) -> Seq<char> {
    trim_hashes(trim_end(trim_start(s)))
}

/// The value of a hexadecimal digit, in either case.
pub open spec fn digit_value(b: u8) -> Option<u8> {
    if 0x30 <= b <= 0x39 {
        Some((b - 0x30) as u8)
    } else if 0x41 <= b <= 0x46 {
        Some((b - 0x37) as u8)
    } else if 0x61 <= b <= 0x66 {
        Some((b - 0x57) as u8)
    } else {
        None
    }
}

/// The number that two characters write in hexadecimal: two digits, or a plus
/// sign and one digit.
pub open spec fn pair_value(high: u8, low: u8) -> Option<u8> {
    match digit_value(low) {
        Some(l) => if high == 0x2b {
            Some(l)
        } else {
            match digit_value(high) {
                Some(h) => Some((16 * h + l) as u8),
                None => None,
            }
        },
        None => None,
    }
}

/// The colour that a text stands for, if it stands for one: three hexadecimal
/// numbers of two characters each, with any white space around them and any
/// number signs in front.
pub open spec fn parsed_color(s: Seq<char>) -> Option<Rgb> {
    let b = vstd::utf8::encode_utf8(color_digits(s));
    if b.len() != 6 {
        None
    } else {
        match (pair_value(b[0], b[1]), pair_value(b[2], b[3]), pair_value(b[4], b[5])) {
            (Some(red), Some(green), Some(blue)) => Some((red, green, blue)),
            _ => None,
        }
    }
}

/// Whether a text can be cut into pairs of bytes as far as it has to be read:
/// not where a character of several bytes stands across the cut.
pub open spec fn readable_color(s: Seq<char>) -> bool {
    let b = vstd::utf8::encode_utf8(color_digits(s));
    b.len() == 6 ==> {
        &&& vstd::utf8::is_char_boundary(b, 2)
        &&& pair_value(b[0], b[1]) is Some ==> vstd::utf8::is_char_boundary(b, 4)
    }
}

/// The digit for a number below sixteen.
pub open spec fn digit_char(n: u8) -> char {
    if n < 10 {
        (0x30 + n) as char
    } else {
        (0x37 + n) as char
    }
}

/// A colour as text: a number sign and six digits in upper case.
pub open spec fn color_text(color: Rgb) -> Seq<char> {
    seq![
        '#',
        digit_char(color.0 / 16),
        digit_char(color.0 % 16),
        digit_char(color.1 / 16),
        digit_char(color.1 % 16),
        digit_char(color.2 / 16),
        digit_char(color.2 % 16),
    ]
}

fn white_space(c: char) -> (white: bool)
    ensures
        white == is_white_space(c),
{
    let n: u32 = c as u32;
    (0x09 <= n && n <= 0x0d) || n == 0x20 || n == 0x85 || n == 0xa0 || n == 0x1680 || (0x2000 <= n
        && n <= 0x200a) || n == 0x2028 || n == 0x2029 || n == 0x202f || n == 0x205f || n == 0x3000
}

/// The part of an entered text that has to be six hexadecimal digits.
fn digits_of(s: &str) -> (digits: &str)
    ensures
        digits@ == color_digits(s@),
{
    let len = s.unicode_len();
    let mut from: usize = 0;
    assert(s@.skip(0) =~= s@);
    while from < len && white_space(s.get_char(from))
        invariant
            len == s@.len(),
            from <= len,
            trim_start(s@) == trim_start(s@.skip(from as int)),
        decreases len - from,
    {
        assert(s@.skip(from as int).skip(1) =~= s@.skip(from + 1));
        from = from + 1;
    }
    let ghost started = s@.skip(from as int);
    let mut to = len;
    assert(s@.subrange(from as int, to as int) =~= started);
    while from < to && white_space(s.get_char(to - 1))
        invariant
            len == s@.len(),
            from <= to <= len,
            trim_end(started) == trim_end(s@.subrange(from as int, to as int)),
        decreases to - from,
    {
        assert(s@.subrange(from as int, to as int).drop_last() =~= s@.subrange(
            from as int,
            to - 1,
        ));
        to = to - 1;
    }
    let ghost ended = s@.subrange(from as int, to as int);
    while from < to && s.get_char(from) == '#'
        invariant
            len == s@.len(),
            from <= to <= len,
            trim_hashes(ended) == trim_hashes(s@.subrange(from as int, to as int)),
        decreases to - from,
    {
        assert(s@.subrange(from as int, to as int).skip(1) =~= s@.subrange(from + 1, to as int));
        from = from + 1;
    }
    s.substring_char(from, to)
}

fn digit(b: u8) -> (value: Option<u8>)
    ensures
        value == digit_value(b),
{
    if 0x30 <= b && b <= 0x39 {
        Some(b - 0x30)
    } else if 0x41 <= b && b <= 0x46 {
        Some(b - 0x37)
    } else if 0x61 <= b && b <= 0x66 {
        Some(b - 0x57)
    } else {
        None
    }
}

fn pair(high: u8, low: u8) -> (value: Option<u8>)
    ensures
        value == pair_value(high, low),
{
    match digit(low) {
        Some(l) => {
            if high == 0x2b {
                Some(l)
            } else {
                match digit(high) {
                    Some(h) => Some(16 * h + l),
                    None => None,
                }
            }
        },
        None => None,
    }
}

/// Whether [`parse_hex_color`] can read the text: a character of several bytes
/// must not stand where the text is cut into pairs of bytes.
pub fn is_readable_color(s: &str) -> (readable: bool)
    ensures
        readable == readable_color(s@),
{
    let digits = digits_of(s);
    let bytes = digits.as_bytes();
    if bytes.len() != 6 {
        return true;
    }
    digits.is_char_boundary(2) && (pair(bytes[0], bytes[1]).is_none() || digits.is_char_boundary(4))
}

/// The colour that an entered text stands for, if it stands for one.
pub fn parse_hex_color(s: &str) -> (color: Option<Rgb>)
    requires
        readable_color(s@),
    ensures
        color == parsed_color(s@),
{
    let bytes = digits_of(s).as_bytes();
    if bytes.len() != 6 {
        return None;
    }
    match (pair(bytes[0], bytes[1]), pair(bytes[2], bytes[3]), pair(bytes[4], bytes[5])) {
        (Some(red), Some(green), Some(blue)) => Some((red, green, blue)),
        _ => None,
    }
}

fn hex_digit(n: u8) -> (c: char)
    requires
        n < 16,
    ensures
        c == digit_char(n),
{
    if n < 10 {
        (0x30 + n) as char
    } else {
        (0x37 + n) as char
    }
}

/// A colour as text: a number sign and six digits in upper case.
pub fn hex_string(color: Rgb) -> (text: String)
    ensures
        text@ == color_text(color),
{
    let mut text = String::new();
    text.push('#');
    text.push(hex_digit(color.0 / 16));
    text.push(hex_digit(color.0 % 16));
    text.push(hex_digit(color.1 / 16));
    text.push(hex_digit(color.1 % 16));
    text.push(hex_digit(color.2 / 16));
    text.push(hex_digit(color.2 % 16));
    assert(text@ =~= color_text(color));
    text
}

/// The digit of a number is no white space, and reads back as that number.
proof fn lemma_digit(n: u8)
    requires
        n < 16,
    ensures
        !is_white_space(digit_char(n)),
        digit_char(n) != '#',
        (digit_char(n) as u32) < 0x80,
        digit_value(digit_char(n) as u8) == Some(n),
        digit_char(n) as u8 != 0x2b,
{
}

/// A colour that is written as text is read back as it was.
pub proof fn law_color_text_reads_back(color: Rgb)
    ensures
        readable_color(color_text(color)),
        parsed_color(color_text(color)) == Some(color),
{
    let text = color_text(color);
    let digits = text.skip(1);
    lemma_digit(color.0 / 16);
    lemma_digit(color.0 % 16);
    lemma_digit(color.1 / 16);
    lemma_digit(color.1 % 16);
    lemma_digit(color.2 / 16);
    lemma_digit(color.2 % 16);
    assert(trim_start(text) == text);
    assert(trim_end(text) == text);
    assert(digits[0] == digit_char(color.0 / 16));
    assert(trim_hashes(digits) == digits);
    assert(color_digits(text) == digits);
    assert(vstd::utf8::is_ascii_chars(digits));
    vstd::utf8::is_ascii_chars_encode_utf8(digits);
    vstd::utf8::encode_utf8_valid_utf8(digits);
    let b = vstd::utf8::encode_utf8(digits);
    assert(b.len() == 6);
    vstd::utf8::is_char_boundary_iff_not_is_continuation_byte(b, 2);
    vstd::utf8::is_char_boundary_iff_not_is_continuation_byte(b, 4);
}

/// Whether a text is white space only.
pub open spec fn all_white_space(s: Seq<char>) -> bool {
    forall|i: int| 0 <= i < s.len() ==> is_white_space(#[trigger] s[i])
}

/// Whether a text is number signs only.
pub open spec fn all_hashes(s: Seq<char>) -> bool {
    forall|i: int| 0 <= i < s.len() ==> (#[trigger] s[i]) == '#'
}

proof fn lemma_trim_start_skips(front: Seq<char>, s: Seq<char>)
    requires
        all_white_space(front),
    ensures
        trim_start(front + s) == trim_start(s),
    decreases front.len(),
{
    if front.len() == 0 {
        assert(front + s =~= s);
    } else {
        assert((front + s)[0] == front[0]);
        assert((front + s).skip(1) =~= front.skip(1) + s);
        lemma_trim_start_skips(front.skip(1), s);
    }
}

proof fn lemma_trim_end_skips(s: Seq<char>, back: Seq<char>)
    requires
        all_white_space(back),
    ensures
        trim_end(s + back) == trim_end(s),
    decreases back.len(),
{
    if back.len() == 0 {
        assert(s + back =~= s);
    } else {
        assert((s + back).last() == back.last());
        assert((s + back).drop_last() =~= s + back.drop_last());
        lemma_trim_end_skips(s, back.drop_last());
    }
}

/// White space behind a text does not change what trimming both ends leaves.
proof fn lemma_trim_skips_behind(s: Seq<char>, back: Seq<char>)
    requires
        all_white_space(back),
    ensures
        trim_end(trim_start(s + back)) == trim_end(trim_start(s)),
    decreases s.len(),
{
    if s.len() == 0 {
        let none = Seq::<char>::empty();
        assert(s + back =~= back + none);
        lemma_trim_start_skips(back, none);
        assert(s =~= none);
    } else if is_white_space(s[0]) {
        assert((s + back)[0] == s[0]);
        assert((s + back).skip(1) =~= s.skip(1) + back);
        lemma_trim_skips_behind(s.skip(1), back);
    } else {
        assert((s + back)[0] == s[0]);
        lemma_trim_end_skips(s, back);
    }
}

/// White space around a text does not change the colour that it stands for.
pub proof fn law_white_space_does_not_count(front: Seq<char>, s: Seq<char>, back: Seq<char>)
    requires
        all_white_space(front),
        all_white_space(back),
    ensures
        readable_color(front + s + back) == readable_color(s),
        parsed_color(front + s + back) == parsed_color(s),
{
    assert(front + s + back =~= front + (s + back));
    lemma_trim_start_skips(front, s + back);
    lemma_trim_skips_behind(s, back);
}

proof fn lemma_trim_end_keeps_front(s: Seq<char>)
    requires
        s.len() > 0,
        !is_white_space(s[0]),
    ensures
        trim_end(s).len() > 0,
        trim_end(s)[0] == s[0],
        trim_end(s).skip(1) == trim_end(s.skip(1)),
    decreases s.len(),
{
    if is_white_space(s.last()) {
        assert(s.len() > 1);
        assert(s.skip(1).last() == s.last());
        assert(s.skip(1).drop_last() =~= s.drop_last().skip(1));
        lemma_trim_end_keeps_front(s.drop_last());
    } else if s.len() > 1 {
        assert(s.skip(1).last() == s.last());
    }
}

/// Number signs in front of a text, behind any white space, do not change the
/// colour that it stands for.
pub proof fn law_number_signs_do_not_count(hashes: Seq<char>, s: Seq<char>)
    requires
        all_hashes(hashes),
        s.len() > 0 ==> !is_white_space(s[0]),
    ensures
        readable_color(hashes + s) == readable_color(s),
        parsed_color(hashes + s) == parsed_color(s),
    decreases hashes.len(),
{
    let all = hashes + s;
    if hashes.len() == 0 {
        assert(all =~= s);
    } else {
        let rest = hashes.skip(1) + s;
        assert(all[0] == hashes[0]);
        assert(all.skip(1) =~= rest);
        assert(rest.len() > 0 ==> !is_white_space(rest[0]));
        law_number_signs_do_not_count(hashes.skip(1), s);
        lemma_trim_end_keeps_front(all);
        assert(trim_start(all) == all);
        assert(trim_start(rest) == rest);
        assert(color_digits(all) == color_digits(rest));
    }
}

/// Whether two texts differ in the case of ASCII letters at most.
pub open spec fn same_but_case(s: Seq<char>, t: Seq<char>) -> bool {
    &&& s.len() == t.len()
    &&& forall|i: int|
        0 <= i < s.len() ==> crate::keys::ascii_upper(#[trigger] s[i]) == crate::keys::ascii_upper(
            t[i],
        )
}

proof fn lemma_trims_ignore_case(s: Seq<char>, t: Seq<char>)
    requires
        same_but_case(s, t),
    ensures
        same_but_case(trim_start(s), trim_start(t)),
        same_but_case(trim_end(s), trim_end(t)),
        same_but_case(trim_hashes(s), trim_hashes(t)),
    decreases s.len(),
{
    if s.len() > 0 {
        assert(crate::keys::ascii_upper(s[0]) == crate::keys::ascii_upper(t[0]));
        assert(crate::keys::ascii_upper(s.last()) == crate::keys::ascii_upper(t.last()));
        assert(same_but_case(s.skip(1), t.skip(1)));
        assert(same_but_case(s.drop_last(), t.drop_last()));
        lemma_trims_ignore_case(s.skip(1), t.skip(1));
        lemma_trims_ignore_case(s.drop_last(), t.drop_last());
    }
}

/// Whether two bytes stand for the same digit, sign or part of a character.
spec fn reads_alike(a: u8, b: u8) -> bool {
    a == b || (a < 0x80 && b < 0x80 && digit_value(a) == digit_value(b) && a != 0x2b && b != 0x2b)
}

proof fn lemma_bytes_ignore_case(s: Seq<char>, t: Seq<char>)
    requires
        same_but_case(s, t),
    ensures
        vstd::utf8::encode_utf8(s).len() == vstd::utf8::encode_utf8(t).len(),
        forall|i: int|
            0 <= i < vstd::utf8::encode_utf8(s).len() ==> reads_alike(
                #[trigger] vstd::utf8::encode_utf8(s)[i],
                vstd::utf8::encode_utf8(t)[i],
            ),
    decreases s.len(),
{
    if s.len() > 0 {
        let a = vstd::utf8::encode_scalar(s[0] as u32);
        let b = vstd::utf8::encode_scalar(t[0] as u32);
        assert(crate::keys::ascii_upper(s[0]) == crate::keys::ascii_upper(t[0]));
        assert(same_but_case(s.drop_first(), t.drop_first()));
        lemma_bytes_ignore_case(s.drop_first(), t.drop_first());
        if s[0] != t[0] {
            assert((s[0] as u32) < 0x80 && (t[0] as u32) < 0x80);
            assert(a.len() == 1 && b.len() == 1);
            let m = s[0] as u32;
            let n = t[0] as u32;
            assert(m & 0x7f == m) by (bit_vector)
                requires
                    m < 0x80,
            ;
            assert(n & 0x7f == n) by (bit_vector)
                requires
                    n < 0x80,
            ;
            assert(a[0] == m && b[0] == n);
            assert(reads_alike(a[0], b[0]));
        }
        let x = vstd::utf8::encode_utf8(s);
        let y = vstd::utf8::encode_utf8(t);
        assert forall|i: int| 0 <= i < x.len() implies reads_alike(#[trigger] x[i], y[i]) by {
            if i < a.len() {
                assert(x[i] == a[i] && y[i] == b[i]);
            } else {
                assert(x[i] == vstd::utf8::encode_utf8(s.drop_first())[i - a.len()]);
                assert(y[i] == vstd::utf8::encode_utf8(t.drop_first())[i - b.len()]);
            }
        }
    }
}

/// The case of its letters does not change the colour that a text stands for.
pub proof fn law_case_does_not_count(s: Seq<char>, t: Seq<char>)
    requires
        same_but_case(s, t),
    ensures
        readable_color(s) == readable_color(t),
        parsed_color(s) == parsed_color(t),
{
    lemma_trims_ignore_case(s, t);
    lemma_trims_ignore_case(trim_start(s), trim_start(t));
    lemma_trims_ignore_case(trim_end(trim_start(s)), trim_end(trim_start(t)));
    lemma_bytes_ignore_case(color_digits(s), color_digits(t));
    let x = vstd::utf8::encode_utf8(color_digits(s));
    let y = vstd::utf8::encode_utf8(color_digits(t));
    if x.len() == 6 {
        vstd::utf8::encode_utf8_valid_utf8(color_digits(s));
        vstd::utf8::encode_utf8_valid_utf8(color_digits(t));
        vstd::utf8::is_char_boundary_iff_not_is_continuation_byte(x, 2);
        vstd::utf8::is_char_boundary_iff_not_is_continuation_byte(x, 4);
        vstd::utf8::is_char_boundary_iff_not_is_continuation_byte(y, 2);
        vstd::utf8::is_char_boundary_iff_not_is_continuation_byte(y, 4);
        assert(reads_alike(x[0], y[0]) && reads_alike(x[1], y[1]) && reads_alike(x[2], y[2]));
        assert(reads_alike(x[3], y[3]) && reads_alike(x[4], y[4]) && reads_alike(x[5], y[5]));
    }
}

/// The colours that can be picked.
pub const PALETTE: [(u8, u8, u8); 55] = [
    (0, 0, 0), (64, 64, 64), (128, 128, 128), (192, 192, 192), (255, 255, 255), (30, 30, 30), (229, 229, 229),
    (205, 0, 0), (255, 0, 0), (255, 105, 97), (139, 0, 0), (255, 69, 0), (255, 127, 80),
    (205, 133, 0), (255, 165, 0), (255, 200, 87), (184, 134, 11), (210, 105, 30), (255, 218, 121),
    (205, 205, 0), (255, 255, 0), (255, 255, 153), (154, 205, 50), (173, 255, 47), (240, 230, 140),
    (0, 205, 0), (0, 255, 0), (144, 238, 144), (0, 100, 0), (34, 139, 34), (46, 204, 113),
    (0, 205, 205), (0, 255, 255), (153, 255, 255), (0, 139, 139), (32, 178, 170), (72, 209, 204),
    (0, 0, 238), (0, 102, 255), (135, 206, 250), (25, 25, 112), (65, 105, 225), (70, 130, 180),
    (85, 26, 139), (148, 0, 211), (218, 112, 214), (75, 0, 130), (138, 43, 226), (186, 85, 211),
    (205, 0, 205), (255, 0, 255), (255, 182, 193), (199, 21, 133), (219, 112, 147), (255, 20, 147),
];

/// How many colours stand in one row of a chart.
pub const CHART_WIDTH: usize = 7;

/// Which colour a chart is for.
#[derive(Debug, Clone, Copy, PartialEq, Eq, Structural)]
pub enum ColorTarget {
    UserHost,
    Directory,
}

impl ColorTarget {
    /// The message that enters a text for this colour.
    pub fn input(self, text: String) -> (message: Message)
        ensures
            match self {
                ColorTarget::UserHost => message == Message::UserHostColorInput(text),
                ColorTarget::Directory => message == Message::DirectoryColorInput(text),
            },
    {
        match self {
            ColorTarget::UserHost => Message::UserHostColorInput(text),
            ColorTarget::Directory => Message::DirectoryColorInput(text),
        }
    }
}

/// A colour of a chart.
#[derive(Debug)]
pub struct Swatch {
    pub color: Rgb,
    /// Whether this is the colour that is set.
    pub is_selected: bool,
    /// What a click on it means.
    pub pick: Message,
}

/// Whether a message enters the text of `color` for `target`.
pub open spec fn enters(message: Message, target: ColorTarget, color: Rgb) -> bool {
    match target {
        ColorTarget::UserHost => message matches Message::UserHostColorInput(text) && text@
            == color_text(color),
        ColorTarget::Directory => message matches Message::DirectoryColorInput(text) && text@
            == color_text(color),
    }
}

/// Whether a swatch offers `color` for `target`, while `selected` is set.
pub open spec fn offers(swatch: Swatch, target: ColorTarget, selected: Rgb, color: Rgb) -> bool {
    &&& swatch.color == color
    &&& swatch.is_selected == (color == selected)
    &&& enters(swatch.pick, target, color)
}

/// Whether `row` is the row `r` of the chart for `target`: the palette from the
/// row's first colour on, as far as the row and the palette go.
pub open spec fn is_chart_row(row: Seq<Swatch>, r: int, target: ColorTarget, selected: Rgb) -> bool {
    &&& row.len() == (if PALETTE.len() - CHART_WIDTH * r < CHART_WIDTH {
        PALETTE.len() - CHART_WIDTH * r
    } else {
        CHART_WIDTH as int
    })
    &&& forall|k: int|
        0 <= k < row.len() ==> offers(
            #[trigger] row[k],
            target,
            selected,
            PALETTE[CHART_WIDTH * r + k],
        )
}

/// Whether `chart` is the chart for `target`: the palette, row by row.
pub open spec fn is_chart(chart: Seq<Vec<Swatch>>, target: ColorTarget, selected: Rgb) -> bool {
    &&& chart.len() == 8
    &&& forall|r: int|
        0 <= r < chart.len() ==> is_chart_row((#[trigger] chart[r])@, r, target, selected)
}

/// The chart of colours to pick from, while `selected` is set.
pub fn color_chart(target: ColorTarget, selected: Rgb) -> (chart: Vec<Vec<Swatch>>)
    ensures
        is_chart(chart@, target, selected),
{
    let mut chart: Vec<Vec<Swatch>> = Vec::new();
    let mut from: usize = 0;
    while from < PALETTE.len()
        invariant
            PALETTE.len() == 55,
            chart@.len() <= 8,
            from <= 55,
            from == 55 ==> chart@.len() == 8,
            from < 55 ==> from == CHART_WIDTH * chart@.len(),
            forall|r: int|
                0 <= r < chart@.len() ==> is_chart_row(
                    (#[trigger] chart@[r])@,
                    r,
                    target,
                    selected,
                ),
        decreases 55 - from,
    {
        let to: usize = if PALETTE.len() - from < CHART_WIDTH {
            PALETTE.len()
        } else {
            from + CHART_WIDTH
        };
        let mut row: Vec<Swatch> = Vec::new();
        for k in from..to
            invariant
                PALETTE.len() == 55,
                from <= to <= 55,
                row@.len() == k - from,
                forall|j: int|
                    0 <= j < row@.len() ==> offers(
                        #[trigger] row@[j],
                        target,
                        selected,
                        PALETTE[from + j],
                    ),
        {
            let color = PALETTE[k];
            let is_selected = color.0 == selected.0 && color.1 == selected.1 && color.2
                == selected.2;
            row.push(Swatch { color, is_selected, pick: target.input(hex_string(color)) });
        }
        chart.push(row);
        from = to;
    }
    chart
}

/// No colour is in the palette twice.
pub proof fn law_palette_colors_differ(i: int, j: int)
    requires
        0 <= i < j < PALETTE.len(),
    ensures
        PALETTE[i] != PALETTE[j],
{
}

/// At most one swatch of a chart is marked as the colour that is set.
pub proof fn law_one_swatch_is_selected(
    chart: Seq<Vec<Swatch>>,
    target: ColorTarget,
    selected: Rgb,
    r: int,
    k: int,
    q: int,
    l: int,
)
    requires
        is_chart(chart, target, selected),
        0 <= r < chart.len(),
        0 <= k < chart[r]@.len(),
        0 <= q < chart.len(),
        0 <= l < chart[q]@.len(),
        chart[r]@[k].is_selected,
        chart[q]@[l].is_selected,
    ensures
        r == q,
        k == l,
{
    let a = CHART_WIDTH * r + k;
    let b = CHART_WIDTH * q + l;
    assert(is_chart_row(chart[r]@, r, target, selected));
    assert(is_chart_row(chart[q]@, q, target, selected));
    assert(PALETTE[a] == selected && PALETTE[b] == selected);
    if a < b {
        law_palette_colors_differ(a, b);
    } else if b < a {
        law_palette_colors_differ(b, a);
    }
}

/// A keyboard shortcut, and the name under which its description is translated.
#[derive(Debug, Clone, Copy)]
pub struct KeyBinding {
    pub shortcut: &'static str,
    pub description: &'static str,
}

/// The list of shortcuts: the keys, the name of the description, and what the
/// keys do.
pub open spec fn keybindings() -> Seq<(Seq<char>, Seq<char>, crate::keys::Shortcut)> {
    seq![
        ("Ctrl+Shift+O"@, "kb-split-h"@, crate::keys::Shortcut::SplitHorizontal),
        ("Ctrl+Shift+E"@, "kb-split-v"@, crate::keys::Shortcut::SplitVertical),
        ("Ctrl+Shift+Q"@, "kb-close-pane"@, crate::keys::Shortcut::ClosePane),
        ("Ctrl+Shift+Z"@, "kb-next-pane"@, crate::keys::Shortcut::NextPane),
        ("Ctrl+Shift+X"@, "kb-prev-pane"@, crate::keys::Shortcut::PreviousPane),
        ("Ctrl+Shift+T"@, "kb-new-tab"@, crate::keys::Shortcut::NewTab),
        ("Ctrl+Shift+W"@, "kb-close-tab"@, crate::keys::Shortcut::CloseTab),
        ("Ctrl+Tab"@, "kb-next-tab"@, crate::keys::Shortcut::NextTab),
        ("Ctrl+Shift+Tab"@, "kb-prev-tab"@, crate::keys::Shortcut::PreviousTab),
        ("Ctrl+Shift+P"@, "kb-toggle-pin"@, crate::keys::Shortcut::TogglePin),
        ("Ctrl+Shift+C"@, "kb-copy"@, crate::keys::Shortcut::Copy),
        ("Ctrl+Shift+V"@, "kb-paste"@, crate::keys::Shortcut::Paste),
        ("F12"@, "kb-hide"@, crate::keys::Shortcut::TogglePopup),
    ]
}

/// Whether `rows` is the list of shortcuts.
pub open spec fn is_keybindings(rows: Seq<KeyBinding>) -> bool {
    &&& rows.len() == keybindings().len()
    &&& forall|i: int|
        0 <= i < rows.len() ==> (#[trigger] rows[i]).shortcut@ == keybindings()[i].0
            && rows[i].description@ == keybindings()[i].1
}

/// The list of shortcuts.
pub fn keybindings_chart() -> (rows: Vec<KeyBinding>)
    ensures
        is_keybindings(rows@),
{
    vec![
        KeyBinding { shortcut: "Ctrl+Shift+O", description: "kb-split-h" },
        KeyBinding { shortcut: "Ctrl+Shift+E", description: "kb-split-v" },
        KeyBinding { shortcut: "Ctrl+Shift+Q", description: "kb-close-pane" },
        KeyBinding { shortcut: "Ctrl+Shift+Z", description: "kb-next-pane" },
        KeyBinding { shortcut: "Ctrl+Shift+X", description: "kb-prev-pane" },
        KeyBinding { shortcut: "Ctrl+Shift+T", description: "kb-new-tab" },
        KeyBinding { shortcut: "Ctrl+Shift+W", description: "kb-close-tab" },
        KeyBinding { shortcut: "Ctrl+Tab", description: "kb-next-tab" },
        KeyBinding { shortcut: "Ctrl+Shift+Tab", description: "kb-prev-tab" },
        KeyBinding { shortcut: "Ctrl+Shift+P", description: "kb-toggle-pin" },
        KeyBinding { shortcut: "Ctrl+Shift+C", description: "kb-copy" },
        KeyBinding { shortcut: "Ctrl+Shift+V", description: "kb-paste" },
        KeyBinding { shortcut: "F12", description: "kb-hide" },
    ]
}

/// How a key press is written in the list: the modifiers, and the key's name or
/// its character in upper case.
pub open spec fn press_label(
    key: crate::keys::Key,
    modifiers: crate::keys::Modifiers,
) -> Option<Seq<char>> {
    let control = if modifiers.control {
        "Ctrl+"@
    } else {
        seq![]
    };
    let shift = if modifiers.shift {
        "Shift+"@
    } else {
        seq![]
    };
    match key {
        crate::keys::Key::Named(crate::keys::NamedKey::Tab) => Some(control + shift + "Tab"@),
        crate::keys::Key::Named(crate::keys::NamedKey::F12) => Some(control + shift + "F12"@),
        crate::keys::Key::Character(text) => if text@.len() == 1 {
            Some(control + shift + seq![crate::keys::ascii_upper(text@[0])])
        } else {
            None
        },
        _ => None,
    }
}

/// The list tells the truth: a key press that is written as in one of its rows is
/// the shortcut of that row.
pub proof fn law_listed_keys_are_shortcuts(
    row: int,
    key: crate::keys::Key,
    modifiers: crate::keys::Modifiers,
)
    requires
        0 <= row < keybindings().len(),
        press_label(key, modifiers) == Some(keybindings()[row].0),
    ensures
        crate::keys::shortcut_of(key, modifiers) == Some(keybindings()[row].2),
{
    reveal_strlit("Ctrl+");
    reveal_strlit("Shift+");
    reveal_strlit("Tab");
    reveal_strlit("Ctrl+Shift+O");
    reveal_strlit("Ctrl+Shift+E");
    reveal_strlit("Ctrl+Shift+Q");
    reveal_strlit("Ctrl+Shift+Z");
    reveal_strlit("Ctrl+Shift+X");
    reveal_strlit("Ctrl+Shift+T");
    reveal_strlit("Ctrl+Shift+W");
    reveal_strlit("Ctrl+Tab");
    reveal_strlit("Ctrl+Shift+Tab");
    reveal_strlit("Ctrl+Shift+P");
    reveal_strlit("Ctrl+Shift+C");
    reveal_strlit("Ctrl+Shift+V");
    reveal_strlit("F12");
    let label = press_label(key, modifiers)->0;
    let listed = keybindings()[row].0;
    assert(label.len() == listed.len());
    assert(forall|i: int| 0 <= i < label.len() ==> label[i] == listed[i]);
    assert(label.last() == listed.last());
    assert(label.len() >= 3 && label[label.len() - 3] == listed[listed.len() - 3]);
}

/// One colour in the panel: its name, the text to enter it in, and the chart to
/// pick it from.
#[derive(Debug)]
pub struct ColorSetting {
    /// The name under which the setting's title is translated.
    pub title: &'static str,
    /// What the empty text field shows.
    pub placeholder: &'static str,
    /// What the text field holds.
    pub value: String,
    pub target: ColorTarget,
    pub color: Rgb,
    pub chart: Vec<Vec<Swatch>>,
}

/// The panel.
#[derive(Debug)]
pub struct PreferencesView {
    /// The name under which the panel's heading is translated.
    pub title: &'static str,
    pub user_host: ColorSetting,
    pub directory: ColorSetting,
    /// The name under which the heading of the list of shortcuts is translated.
    pub keybindings_title: &'static str,
    pub keybindings: Vec<KeyBinding>,
}

/// Whether a setting shows `color` for `target`.
pub open spec fn shows(setting: ColorSetting, target: ColorTarget, color: Rgb) -> bool {
    &&& setting.target == target
    &&& setting.color == color
    &&& setting.value@ == color_text(color)
    &&& is_chart(setting.chart@, target, color)
}

/// Whether `panel` shows the settings `config`.
pub open spec fn is_panel(panel: PreferencesView, config: AppConfig) -> bool {
    &&& panel.title@ == "preferences"@
    &&& shows(panel.user_host, ColorTarget::UserHost, config.user_host_color)
    &&& panel.user_host.title@ == "user-host-color"@
    &&& panel.user_host.placeholder@ == "#00CD00"@
    &&& shows(panel.directory, ColorTarget::Directory, config.directory_color)
    &&& panel.directory.title@ == "directory-color"@
    &&& panel.directory.placeholder@ == "#0000EE"@
    &&& panel.keybindings_title@ == "keybindings"@
    &&& is_keybindings(panel.keybindings@)
}

/// What the panel shows.
pub fn view(config: &AppConfig) -> (panel: PreferencesView)
    ensures
        is_panel(panel, *config),
{
    PreferencesView {
        title: "preferences",
        user_host: ColorSetting {
            title: "user-host-color",
            placeholder: "#00CD00",
            value: hex_string(config.user_host_color),
            target: ColorTarget::UserHost,
            color: config.user_host_color,
            chart: color_chart(ColorTarget::UserHost, config.user_host_color),
        },
        directory: ColorSetting {
            title: "directory-color",
            placeholder: "#0000EE",
            value: hex_string(config.directory_color),
            target: ColorTarget::Directory,
            color: config.directory_color,
            chart: color_chart(ColorTarget::Directory, config.directory_color),
        },
        keybindings_title: "keybindings",
        keybindings: keybindings_chart(),
    }
}

} // verus!
