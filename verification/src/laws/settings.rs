//! What the settings are, and how they are shown and entered.

use crate::config::{AppConfig, Rgb};
use crate::message::Message;
use crate::preferences::{ColorTarget, PreferencesView, Swatch};
use vstd::prelude::*;

verus! {

/// Stored settings are taken over with their colours, in a window raised to five
/// hundred by three hundred pixels where it is smaller, and are not stored again.
pub proof fn law_stored_settings_are_taken_over(stored: AppConfig)
    ensures
        ({
            let (config, store) = crate::config::loaded(Some(stored));
            &&& !store
            &&& config.user_host_color == stored.user_host_color
            &&& config.directory_color == stored.directory_color
            &&& config.window_width == (if stored.window_width < 500 {
                500u32
            } else {
                stored.window_width
            })
            &&& config.window_height == (if stored.window_height < 300 {
                300u32
            } else {
                stored.window_height
            })
        }),
{
}

/// Without stored settings there are these, and they are stored.
pub proof fn law_first_settings()
    ensures
        crate::config::loaded(None) == (
            AppConfig {
                window_width: 900,
                window_height: 500,
                user_host_color: (0, 205, 0),
                directory_color: (0, 0, 238),
            },
            true,
        ),
{
}

/// The value of a character as a hexadecimal digit, in either case.
pub open spec fn hex_value(c: char) -> Option<int> {
    if '0' <= c <= '9' {
        Some(c as int - '0' as int)
    } else if 'a' <= c <= 'f' {
        Some(c as int - 'a' as int + 10)
    } else if 'A' <= c <= 'F' {
        Some(c as int - 'A' as int + 10)
    } else {
        None
    }
}

/// The number that two characters write: two digits, or a plus sign and one.
pub open spec fn two_digits(high: char, low: char) -> Option<int> {
    match (hex_value(high), hex_value(low)) {
        (Some(h), Some(l)) => Some(16 * h + l),
        (None, Some(l)) => if high == '+' {
            Some(l)
        } else {
            None
        },
        _ => None,
    }
}

/// Whether a text has no white space at its ends and no number sign in front.
pub open spec fn is_bare(s: Seq<char>) -> bool {
    s.len() > 0 ==> {
        &&& !crate::preferences::is_white_space(s[0])
        &&& !crate::preferences::is_white_space(s.last())
        &&& s[0] != '#'
    }
}

proof fn lemma_bare(s: Seq<char>)
    requires
        is_bare(s),
    ensures
        crate::preferences::color_digits(s) == s,
{
}

proof fn lemma_char(c: char)
    ensures
        '\0' <= c,
        c > '\u{7f}' <==> c as u32 > 0x7f,
{
}

proof fn lemma_pair(high: char, low: char)
    requires
        high <= '\u{7f}',
        low <= '\u{7f}',
    ensures
        match two_digits(high, low) {
            Some(n) => 0 <= n < 256 && crate::preferences::pair_value(high as u8, low as u8)
                == Some(n as u8),
            None => crate::preferences::pair_value(high as u8, low as u8) is None,
        },
{
}

/// Six plain characters stand for the colour whose parts each two of them write, and
/// for none where two of them write no number.
pub proof fn law_six_digits_are_a_color(s: Seq<char>)
    requires
        is_bare(s),
        s.len() == 6,
        forall|i: int| 0 <= i < 6 ==> (#[trigger] s[i]) <= '\u{7f}',
    ensures
        crate::preferences::readable_color(s),
        match (two_digits(s[0], s[1]), two_digits(s[2], s[3]), two_digits(s[4], s[5])) {
            (Some(r), Some(g), Some(b)) => crate::preferences::parsed_color(s) == Some(
                (r as u8, g as u8, b as u8),
            ),
            _ => crate::preferences::parsed_color(s) is None,
        },
{
    lemma_bare(s);
    assert forall|i: int| 0 <= i < s.len() implies '\0' <= (#[trigger] s[i]) <= '\u{7f}' by {
        lemma_char(s[i]);
    }
    assert(vstd::utf8::is_ascii_chars(s));
    vstd::utf8::is_ascii_chars_encode_utf8(s);
    vstd::utf8::encode_utf8_valid_utf8(s);
    let b = vstd::utf8::encode_utf8(s);
    assert(b.len() == 6);
    vstd::utf8::is_char_boundary_iff_not_is_continuation_byte(b, 2);
    vstd::utf8::is_char_boundary_iff_not_is_continuation_byte(b, 4);
    assert(s[0] <= '\u{7f}' && s[1] <= '\u{7f}' && s[2] <= '\u{7f}');
    assert(s[3] <= '\u{7f}' && s[4] <= '\u{7f}' && s[5] <= '\u{7f}');
    lemma_pair(s[0], s[1]);
    lemma_pair(s[2], s[3]);
    lemma_pair(s[4], s[5]);
}

/// A text of any other length stands for no colour.
pub proof fn law_other_lengths_are_no_color(s: Seq<char>)
    requires
        is_bare(s),
        vstd::utf8::encode_utf8(s).len() != 6,
    ensures
        crate::preferences::readable_color(s),
        crate::preferences::parsed_color(s) is None,
{
    lemma_bare(s);
}

/// What counts as white space.
pub proof fn law_white_space_is_unicode_white_space(c: char)
    ensures
        crate::preferences::is_white_space(c) <==> {
            ||| c == ' '
            ||| c == '\u{9}'
            ||| c == '\u{a}'
            ||| c == '\u{b}'
            ||| c == '\u{c}'
            ||| c == '\u{d}'
            ||| c == '\u{85}'
            ||| c == '\u{a0}'
            ||| c == '\u{1680}'
            ||| '\u{2000}' <= c <= '\u{200a}'
            ||| c == '\u{2028}'
            ||| c == '\u{2029}'
            ||| c == '\u{202f}'
            ||| c == '\u{205f}'
            ||| c == '\u{3000}'
        },
{
}

/// Every character beyond ASCII has a byte that is no digit and no sign.
proof fn lemma_wide_byte(s: Seq<char>, i: int)
    requires
        0 <= i < s.len(),
        s[i] > '\u{7f}',
    ensures
        exists|k: int|
            0 <= k < vstd::utf8::encode_utf8(s).len() && (#[trigger] vstd::utf8::encode_utf8(s)[k])
                >= 0x80,
    decreases s.len(),
{
    let head = vstd::utf8::encode_scalar(s[0] as u32);
    let rest = vstd::utf8::encode_utf8(s.drop_first());
    let all = vstd::utf8::encode_utf8(s);
    assert(all == head + rest);
    if i == 0 {
        if forall|k: int| 0 <= k < all.len() ==> (#[trigger] all[k]) < 0x80 {
            assert forall|k: int| 0 <= k < head.len() implies (#[trigger] head[k]) < 0x80 by {
                assert(all[k] == head[k]);
            }
            let n = s[0] as u32;
            lemma_char(s[0]);
            assert((0x80u8 | (n & 0x3F) as u8) >= 0x80) by (bit_vector);
            assert(head.len() >= 2);
            assert(head[head.len() - 1] >= 0x80);
        }
    } else {
        assert(s.drop_first()[i - 1] == s[i]);
        lemma_wide_byte(s.drop_first(), i - 1);
        let k = choose|k: int| 0 <= k < rest.len() && (#[trigger] rest[k]) >= 0x80;
        assert(all[head.len() + k] == rest[k]);
    }
}

/// A text with a character beyond ASCII stands for no colour.
pub proof fn law_wide_characters_are_no_color(s: Seq<char>, i: int)
    requires
        is_bare(s),
        0 <= i < s.len(),
        s[i] > '\u{7f}',
    ensures
        crate::preferences::parsed_color(s) is None,
{
    lemma_bare(s);
    lemma_wide_byte(s, i);
    let b = vstd::utf8::encode_utf8(s);
    let k = choose|k: int| 0 <= k < b.len() && (#[trigger] b[k]) >= 0x80;
    if b.len() == 6 {
        assert(k == 0 || k == 1 || k == 2 || k == 3 || k == 4 || k == 5);
    }
}

/// A text of six bytes can be read unless a character of several bytes stands across
/// the place between the first two bytes and the rest, or, where the first two write a
/// number, between the first four and the rest.
pub proof fn law_what_can_be_read(s: Seq<char>)
    requires
        is_bare(s),
        vstd::utf8::encode_utf8(s).len() == 6,
    ensures
        ({
            let b = vstd::utf8::encode_utf8(s);
            let number = s[0] <= '\u{7f}' && s[1] <= '\u{7f}' && two_digits(s[0], s[1]) is Some;
            crate::preferences::readable_color(s) <==> {
                &&& !(0x80 <= b[2] <= 0xbf)
                &&& number ==> !(0x80 <= b[4] <= 0xbf)
            }
        }),
{
    let b = vstd::utf8::encode_utf8(s);
    lemma_bare(s);
    vstd::utf8::encode_utf8_valid_utf8(s);
    vstd::utf8::is_char_boundary_iff_not_is_continuation_byte(b, 2);
    vstd::utf8::is_char_boundary_iff_not_is_continuation_byte(b, 4);
    let rest = s.drop_first();
    assert(s.len() > 0);
    lemma_first_byte(s);
    if s[0] <= '\u{7f}' {
        assert(b == vstd::utf8::encode_scalar(s[0] as u32) + vstd::utf8::encode_utf8(rest));
        assert(rest.len() > 0);
        lemma_first_byte(rest);
        assert(b[1] == vstd::utf8::encode_utf8(rest)[0]);
        assert(rest[0] == s[1]);
        if s[1] <= '\u{7f}' {
            lemma_pair(s[0], s[1]);
        }
    }
}

/// The first byte of a text is its first character, or no ASCII character.
proof fn lemma_first_byte(s: Seq<char>)
    requires
        s.len() > 0,
    ensures
        vstd::utf8::encode_utf8(s).len() > 0,
        s[0] <= '\u{7f}' ==> vstd::utf8::encode_scalar(s[0] as u32).len() == 1
            && vstd::utf8::encode_utf8(s)[0] == s[0] as u8,
        s[0] > '\u{7f}' ==> vstd::utf8::encode_utf8(s)[0] >= 0x80,
{
    let n = s[0] as u32;
    lemma_char(s[0]);
    lemma_small_char(s[0]);
    let head = vstd::utf8::encode_scalar(n);
    assert(vstd::utf8::encode_utf8(s)[0] == head[0]);
    if n <= 0x7f {
        assert(n & 0x7f == n) by (bit_vector)
            requires
                n <= 0x7f,
        ;
    } else {
        assert((0xC0u8 | ((n >> 6) & 0x1F) as u8) >= 0x80) by (bit_vector);
        assert((0xE0u8 | ((n >> 12) & 0x0F) as u8) >= 0x80) by (bit_vector);
        assert((0xF0u8 | ((n >> 18) & 0x07) as u8) >= 0x80) by (bit_vector);
    }
}

proof fn lemma_small_char(c: char)
    ensures
        c <= '\u{7f}' ==> c as u32 == c as u8,
{
}

/// A colour is written as a number sign and six digits, the letters among them in
/// upper case.
pub proof fn law_color_text_is_upper_case(color: Rgb, i: int)
    requires
        1 <= i < 7,
    ensures
        crate::preferences::color_text(color).len() == 7,
        crate::preferences::color_text(color)[0] == '#',
        '0' <= crate::preferences::color_text(color)[i] <= '9' || 'A'
            <= crate::preferences::color_text(color)[i] <= 'F',
{
}

/// The chart has the palette's colours in rows of seven, the last of six, from left
/// to right and top to bottom. The one that is set is marked, and no other. Picking
/// one enters a text that stands for it, for the colour that the chart is for.
pub proof fn law_chart_offers_the_palette(
    chart: Seq<Vec<Swatch>>,
    target: ColorTarget,
    selected: Rgb,
    r: int,
    k: int,
)
    requires
        crate::preferences::is_chart(chart, target, selected),
        0 <= r < chart.len(),
        0 <= k < chart[r]@.len(),
    ensures
        chart.len() == 8,
        r < 7 ==> chart[r]@.len() == 7,
        r == 7 ==> chart[r]@.len() == 6,
        ({
            let swatch = chart[r]@[k];
            &&& swatch.color == crate::preferences::PALETTE[7 * r + k]
            &&& swatch.is_selected <==> swatch.color == selected
            &&& target is UserHost ==> (swatch.pick matches Message::UserHostColorInput(text)
                && crate::preferences::parsed_color(text@) == Some(swatch.color))
            &&& target is Directory ==> (swatch.pick matches Message::DirectoryColorInput(text)
                && crate::preferences::parsed_color(text@) == Some(swatch.color))
        }),
{
    assert(crate::preferences::is_chart_row(chart[r]@, r, target, selected));
    crate::preferences::law_color_text_reads_back(chart[r]@[k].color);
}

/// The palette.
pub proof fn law_palette()
    ensures
        crate::preferences::PALETTE[0] == (0u8, 0u8, 0u8),
        crate::preferences::PALETTE[1] == (64u8, 64u8, 64u8),
        crate::preferences::PALETTE[2] == (128u8, 128u8, 128u8),
        crate::preferences::PALETTE[3] == (192u8, 192u8, 192u8),
        crate::preferences::PALETTE[4] == (255u8, 255u8, 255u8),
        crate::preferences::PALETTE[5] == (30u8, 30u8, 30u8),
        crate::preferences::PALETTE[6] == (229u8, 229u8, 229u8),
        crate::preferences::PALETTE[7] == (205u8, 0u8, 0u8),
        crate::preferences::PALETTE[8] == (255u8, 0u8, 0u8),
        crate::preferences::PALETTE[9] == (255u8, 105u8, 97u8),
        crate::preferences::PALETTE[10] == (139u8, 0u8, 0u8),
        crate::preferences::PALETTE[11] == (255u8, 69u8, 0u8),
        crate::preferences::PALETTE[12] == (255u8, 127u8, 80u8),
        crate::preferences::PALETTE[13] == (205u8, 133u8, 0u8),
        crate::preferences::PALETTE[14] == (255u8, 165u8, 0u8),
        crate::preferences::PALETTE[15] == (255u8, 200u8, 87u8),
        crate::preferences::PALETTE[16] == (184u8, 134u8, 11u8),
        crate::preferences::PALETTE[17] == (210u8, 105u8, 30u8),
        crate::preferences::PALETTE[18] == (255u8, 218u8, 121u8),
        crate::preferences::PALETTE[19] == (205u8, 205u8, 0u8),
        crate::preferences::PALETTE[20] == (255u8, 255u8, 0u8),
        crate::preferences::PALETTE[21] == (255u8, 255u8, 153u8),
        crate::preferences::PALETTE[22] == (154u8, 205u8, 50u8),
        crate::preferences::PALETTE[23] == (173u8, 255u8, 47u8),
        crate::preferences::PALETTE[24] == (240u8, 230u8, 140u8),
        crate::preferences::PALETTE[25] == (0u8, 205u8, 0u8),
        crate::preferences::PALETTE[26] == (0u8, 255u8, 0u8),
        crate::preferences::PALETTE[27] == (144u8, 238u8, 144u8),
        crate::preferences::PALETTE[28] == (0u8, 100u8, 0u8),
        crate::preferences::PALETTE[29] == (34u8, 139u8, 34u8),
        crate::preferences::PALETTE[30] == (46u8, 204u8, 113u8),
        crate::preferences::PALETTE[31] == (0u8, 205u8, 205u8),
        crate::preferences::PALETTE[32] == (0u8, 255u8, 255u8),
        crate::preferences::PALETTE[33] == (153u8, 255u8, 255u8),
        crate::preferences::PALETTE[34] == (0u8, 139u8, 139u8),
        crate::preferences::PALETTE[35] == (32u8, 178u8, 170u8),
        crate::preferences::PALETTE[36] == (72u8, 209u8, 204u8),
        crate::preferences::PALETTE[37] == (0u8, 0u8, 238u8),
        crate::preferences::PALETTE[38] == (0u8, 102u8, 255u8),
        crate::preferences::PALETTE[39] == (135u8, 206u8, 250u8),
        crate::preferences::PALETTE[40] == (25u8, 25u8, 112u8),
        crate::preferences::PALETTE[41] == (65u8, 105u8, 225u8),
        crate::preferences::PALETTE[42] == (70u8, 130u8, 180u8),
        crate::preferences::PALETTE[43] == (85u8, 26u8, 139u8),
        crate::preferences::PALETTE[44] == (148u8, 0u8, 211u8),
        crate::preferences::PALETTE[45] == (218u8, 112u8, 214u8),
        crate::preferences::PALETTE[46] == (75u8, 0u8, 130u8),
        crate::preferences::PALETTE[47] == (138u8, 43u8, 226u8),
        crate::preferences::PALETTE[48] == (186u8, 85u8, 211u8),
        crate::preferences::PALETTE[49] == (205u8, 0u8, 205u8),
        crate::preferences::PALETTE[50] == (255u8, 0u8, 255u8),
        crate::preferences::PALETTE[51] == (255u8, 182u8, 193u8),
        crate::preferences::PALETTE[52] == (199u8, 21u8, 133u8),
        crate::preferences::PALETTE[53] == (219u8, 112u8, 147u8),
        crate::preferences::PALETTE[54] == (255u8, 20u8, 147u8),
{
}

/// The panel shows each colour of the settings under its own title, as a text that
/// stands for it, as a swatch, and in a chart of its own.
pub proof fn law_panel_shows_the_settings(panel: PreferencesView, config: AppConfig)
    requires
        crate::preferences::is_panel(panel, config),
    ensures
        panel.user_host.title@ == "user-host-color"@,
        panel.user_host.target is UserHost,
        panel.user_host.color == config.user_host_color,
        crate::preferences::parsed_color(panel.user_host.value@) == Some(config.user_host_color),
        crate::preferences::is_chart(
            panel.user_host.chart@,
            ColorTarget::UserHost,
            config.user_host_color,
        ),
        panel.directory.title@ == "directory-color"@,
        panel.directory.target is Directory,
        panel.directory.color == config.directory_color,
        crate::preferences::parsed_color(panel.directory.value@) == Some(config.directory_color),
        crate::preferences::is_chart(
            panel.directory.chart@,
            ColorTarget::Directory,
            config.directory_color,
        ),
        panel.title@ == "preferences"@,
        panel.keybindings_title@ == "keybindings"@,
        panel.keybindings@.len() == 13,
{
    crate::preferences::law_color_text_reads_back(config.user_host_color);
    crate::preferences::law_color_text_reads_back(config.directory_color);
}

} // verus!
