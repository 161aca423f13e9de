//! Display width of text with emoji, corrected for terminals that draw emoji
//! at another width than the Unicode width tables give.

use crate::text::{chars_of, parse_i32, parse_i32_range};
use unicode_width::UnicodeWidthStr;
use vstd::prelude::*;

verus! {

/// Width the tables give to the emoji used for measuring.
pub const EXPECTED_UNICODE_WIDTH: i32 = 2;

/// How emoji widths are corrected.
#[derive(Debug, Clone, Copy, PartialEq, Eq, Structural)]
pub struct EmojiWidthConfig {
    /// Cells an emoji really takes minus what the tables say.
    pub offset: i32,
    /// The offset was measured or configured rather than assumed.
    pub detected: bool,
    /// Draw ASCII in place of emoji.
    pub use_ascii_fallback: bool,
}

impl Default for EmojiWidthConfig {
    fn default() -> (r: Self)
        ensures
            r.offset == 0,
            !r.detected,
            !r.use_ascii_fallback,
    {
        EmojiWidthConfig { offset: 0, detected: false, use_ascii_fallback: false }
    }
}

/// Display width in columns that the `unicode-width` tables give to `s`.
pub uninterp spec fn table_width(s: Seq<char>) -> nat;

/// Relies on `unicode_width::UnicodeWidthStr::width` for `str`: the width
/// depends on the characters alone, and an empty string has width zero.
#[verifier::external_body]
fn unicode_table_width(s: &str) -> (r: usize)
    ensures
        r == table_width(s@),
        s@.len() == 0 ==> r == 0,
{
    UnicodeWidthStr::width(s)
}

/// Code points that terminals are apt to draw at a width other than the
/// tables give: the pictograph, emoticon, transport, dingbat and symbol
/// blocks, box drawing, and the variation selectors.
pub open spec fn emoji_code(code: u32) -> bool {
    (0x1F300 <= code <= 0x1F5FF) || (0x1F600 <= code <= 0x1F64F) || (0x1F680 <= code
        <= 0x1F6FF) || (0x1F900 <= code <= 0x1F9FF) || (0x1FA00 <= code <= 0x1FA6F) || (0x1FA70
        <= code <= 0x1FAFF) || (0x2700 <= code <= 0x27BF) || (0x2600 <= code <= 0x26FF) || (0x2500
        <= code <= 0x257F) || (0xFE00 <= code <= 0xFE0F)
}

/// Number of characters of `s` that `emoji_code` selects.
pub open spec fn emoji_count(s: Seq<char>) -> nat
    decreases s.len(),
{
    if s.len() == 0 {
        0
    } else {
        emoji_count(s.drop_last()) + if emoji_code(s.last() as u32) {
            1nat
        } else {
            0nat
        }
    }
}

/// A width corrected by `offset` cells per emoji, never below zero (and
/// never above the largest `usize`).
pub open spec fn corrected(width: nat, emoji: nat, offset: int) -> nat {
    let v = width + emoji * offset;
    if v <= 0 {
        0
    } else if v > usize::MAX {
        usize::MAX as nat
    } else {
        v as nat
    }
}

/// Whether `c` is a character that may be drawn at an unexpected width.
pub fn is_emoji_char(c: char) -> (r: bool)
    ensures
        r == emoji_code(c as u32),
{
    let code = c as u32;
    (0x1F300 <= code && code <= 0x1F5FF) || (0x1F600 <= code && code <= 0x1F64F) || (0x1F680
        <= code && code <= 0x1F6FF) || (0x1F900 <= code && code <= 0x1F9FF) || (0x1FA00 <= code
        && code <= 0x1FA6F) || (0x1FA70 <= code && code <= 0x1FAFF) || (0x2700 <= code && code
        <= 0x27BF) || (0x2600 <= code && code <= 0x26FF) || (0x2500 <= code && code <= 0x257F)
        || (0xFE00 <= code && code <= 0xFE0F)
}

/// Number of characters of `s` that may be drawn at an unexpected width.
pub fn count_emoji_chars(s: &str) -> (r: usize)
    ensures
        r == emoji_count(s@),
{
    let cs = chars_of(s);
    let mut n: usize = 0;
    let mut i: usize = 0;
    while i < cs.len()
        invariant
            cs@ == s@,
            i <= cs@.len(),
            n <= i,
            n == emoji_count(cs@.subrange(0, i as int)),
        decreases cs@.len() - i,
    {
        assert(cs@.subrange(0, i + 1).drop_last() =~= cs@.subrange(0, i as int));
        if is_emoji_char(cs[i]) {
            n = n + 1;
        }
        i = i + 1;
    }
    assert(cs@.subrange(0, i as int) =~= s@);
    n
}

/// A table width corrected by `offset` cells for each of `emoji_count`
/// emoji, never below zero.
pub fn corrected_cells(width: usize, emoji_count: usize, offset: i32) -> (r: usize)
    ensures
        r == corrected(width as nat, emoji_count as nat, offset as int),
{
    let w = width as i128;
    let n = emoji_count as i128;
    let o = offset as i128;
    assert(-0x8000_0000_0000_0000_0000_0000 <= n * o <= 0x8000_0000_0000_0000_0000_0000) by (nonlinear_arith)
        requires
            0 <= n <= usize::MAX,
            i32::MIN <= o <= i32::MAX,
    ;
    let p = n * o;
    let v: i128 = w + p;
    if v <= 0 {
        0
    } else if v > usize::MAX as i128 {
        usize::MAX
    } else {
        v as usize
    }
}

impl EmojiWidthConfig {
    /// Display width of `s` with this configuration's correction.
    pub fn corrected_width(&self, s: &str) -> (r: usize)
        ensures
            r == corrected(table_width(s@), emoji_count(s@), self.offset as int),
    {
        corrected_str_width_with_offset(s, self.offset)
    }
}

/// Display width of `s` corrected by `offset` cells per emoji.
pub fn corrected_str_width_with_offset(s: &str, offset: i32) -> (r: usize)
    ensures
        r == corrected(table_width(s@), emoji_count(s@), offset as int),
{
    let width = unicode_table_width(s);
    let n = count_emoji_chars(s);
    corrected_cells(width, n, offset)
}

/// The offset assumed where nothing was measured: Linux terminals often draw
/// emoji one cell narrower; others are taken to draw them as the tables say.
pub fn get_platform_default_offset(is_linux: bool) -> (r: i32)
    ensures
        r == (if is_linux {
            -1int
        } else {
            0
        }),
{
    if is_linux {
        -1
    } else {
        0
    }
}

/// Offset measured from the cursor column before and after one emoji was
/// printed.
pub fn measured_offset(start_col: u16, end_col: u16) -> (r: i32)
    ensures
        r == end_col - start_col - EXPECTED_UNICODE_WIDTH,
{
    end_col as i32 - start_col as i32 - EXPECTED_UNICODE_WIDTH
}

/// The configuration that the environment settles, if it settles one: an
/// offset given as text that reads as an `i32` wins; otherwise a request for
/// ASCII gives ASCII with no offset; otherwise `None`, and the width must be
/// measured.
pub fn config_from_environment(offset_text: Option<&str>, ascii_requested: bool) -> (r: Option<
    EmojiWidthConfig,
>)
    ensures
        ({
            let parsed = match offset_text {
                Some(t) => parse_i32(t@),
                None => None,
            };
            match parsed {
                Some(o) => r == Some(
                    EmojiWidthConfig { offset: o as i32, detected: true, use_ascii_fallback: false },
                ),
                None => if ascii_requested {
                    r == Some(
                        EmojiWidthConfig { offset: 0, detected: true, use_ascii_fallback: true },
                    )
                } else {
                    r is None
                },
            }
        }),
{
    if let Some(t) = offset_text {
        let cs = chars_of(t);
        assert(cs@.subrange(0, cs@.len() as int) =~= t@);
        if let Some(o) = parse_i32_range(&cs, 0, cs.len()) {
            return Some(EmojiWidthConfig { offset: o, detected: true, use_ascii_fallback: false });
        }
    }
    if ascii_requested {
        Some(EmojiWidthConfig { offset: 0, detected: true, use_ascii_fallback: true })
    } else {
        None
    }
}

/// The configuration after a measurement: the measured offset when there is
/// one, else the platform default, marked as not detected.
pub fn config_from_measurement(measured: Option<i32>, is_linux: bool) -> (r: EmojiWidthConfig)
    ensures
        match measured {
            Some(o) => r == EmojiWidthConfig { offset: o, detected: true, use_ascii_fallback: false },
            None => r == EmojiWidthConfig {
                offset: if is_linux {
                    -1i32
                } else {
                    0i32
                },
                detected: false,
                use_ascii_fallback: false,
            },
        },
{
    match measured {
        Some(o) => EmojiWidthConfig { offset: o, detected: true, use_ascii_fallback: false },
        None => EmojiWidthConfig {
            offset: get_platform_default_offset(is_linux),
            detected: false,
            use_ascii_fallback: false,
        },
    }
}

} // verus!
