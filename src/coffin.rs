//! The glyph drawn at the centre of the map: three fixed templates, the
//! largest that fits the available space, with the centre's name set in it.

use vstd::prelude::*;
use vstd::string::{StrSliceExecFns, StringExecFns};

verus! {

broadcast use vstd::string::group_string_axioms;

/// Width of the large template, in characters.
pub const LARGE_COFFIN_WIDTH: usize = 14;
/// Height of the large template, in lines.
pub const LARGE_COFFIN_HEIGHT: usize = 4;
/// Width of the mid template, in characters.
pub const MID_COFFIN_WIDTH: usize = 11;
/// Height of the mid template, in lines.
pub const MID_COFFIN_HEIGHT: usize = 3;
/// Characters of name that the large and mid templates hold.
pub const COFFIN_NAME_SLOT: usize = 6;
/// Narrowest width given to the one-line label.
pub const MIN_LABEL_WIDTH: usize = 10;

/// Which template is drawn.
#[derive(Debug, Clone, Copy, PartialEq, Eq, Structural)]
pub enum CoffinVariant {
    /// Four lines, fourteen characters wide.
    Large,
    /// Three lines, eleven characters wide.
    Mid,
    /// One bracketed line.
    Label,
}

impl CoffinVariant {
    /// Distance from the centre, in canvas units, at which edges start, so
    /// that they never cross the glyph.
    pub open spec fn exclusion(self) -> nat {
        match self {
            CoffinVariant::Large => 15,
            CoffinVariant::Mid => 12,
            CoffinVariant::Label => 8,
        }
    }

    /// The exclusion radius of this variant, in canvas units.
    pub fn exclusion_radius(&self) -> (r: u32)
        ensures
            r == self.exclusion(),
    {
        match self {
            CoffinVariant::Large => 15,
            CoffinVariant::Mid => 12,
            CoffinVariant::Label => 8,
        }
    }
}

/// The glyph, ready to draw.
#[derive(Debug, Clone)]
pub struct CoffinRender {
    /// Lines from top to bottom, the name already set in.
    pub lines: Vec<String>,
    /// The template used.
    pub variant: CoffinVariant,
    /// Width in characters.
    pub width: usize,
    /// Height in lines.
    pub height: usize,
}

impl CoffinRender {
    /// The text of each line.
    pub open spec fn texts(&self) -> Seq<Seq<char>> {
        self.lines@.map_values(|l: String| l@)
    }
}

/// `n` spaces.
pub open spec fn spaces(n: nat) -> Seq<char> {
    Seq::new(n, |i: int| ' ')
}

/// `host` cut to `max_len` characters; when it is cut and more than three
/// characters remain, the last two of them are `..`.
pub open spec fn truncated(host: Seq<char>, max_len: nat) -> Seq<char> {
    if host.len() <= max_len {
        host
    } else if max_len <= 3 {
        host.take(max_len as int)
    } else {
        host.take(max_len - 2) + ".."@
    }
}

/// `s` centred in `width` characters, the odd space going to the right;
/// unchanged when it does not fit.
pub open spec fn centered(s: Seq<char>, width: nat) -> Seq<char> {
    if s.len() >= width {
        s
    } else {
        let left = ((width - s.len()) / 2) as nat;
        let right = (width - s.len() - left) as nat;
        spaces(left) + s + spaces(right)
    }
}

/// The name as the large and mid templates show it.
pub open spec fn slot_name(host: Seq<char>) -> Seq<char> {
    centered(truncated(host, COFFIN_NAME_SLOT as nat), COFFIN_NAME_SLOT as nat)
}

pub open spec fn macrons() -> Seq<char> {
    Seq::new(6, |i: int| '‾')
}

/// Lines of the large template holding `name`.
pub open spec fn large_lines(name: Seq<char>) -> Seq<Seq<char>> {
    seq![
        "   /"@ + macrons() + "\\   "@,
        "  / "@ + name + " \\  "@,
        "  \\        /  "@,
        "   \\______/   "@,
    ]
}

/// Lines of the mid template holding `name`.
pub open spec fn mid_lines(name: Seq<char>) -> Seq<Seq<char>> {
    seq![" /"@ + macrons() + "\\  "@, "/ "@ + name + " \\ "@, " \\______/  "@]
}

/// The one line of the label, for a name shown in at most `max_width`
/// characters (never fewer than three of the name).
pub open spec fn label_line(host: Seq<char>, max_width: nat) -> Seq<char> {
    let available: nat = if max_width >= 4 {
        (max_width - 4) as nat
    } else {
        0
    };
    let room: nat = if available >= 3 {
        available
    } else {
        3
    };
    "[⚰ "@ + truncated(host, room) + "]"@
}

/// Cuts `host` to at most `max_len` characters, marking a cut with `..` when
/// there is room for it.
pub fn truncate_host_name(host: &str, max_len: usize) -> (r: String)
    ensures
        r@ == truncated(host@, max_len as nat),
{
    let n = host.unicode_len();
    if n <= max_len {
        String::from_str(host)
    } else if max_len <= 3 {
        String::from_str(host.substring_char(0, max_len))
    } else {
        let mut out = String::from_str(host.substring_char(0, max_len - 2));
        out.append("..");
        proof {
            reveal_strlit("..");
        }
        out
    }
}

fn push_spaces(out: &mut String, n: usize)
    ensures
        final(out)@ == old(out)@ + spaces(n as nat),
{
    let mut i: usize = 0;
    proof {
        reveal_strlit(" ");
    }
    assert(old(out)@ + spaces(0) =~= old(out)@);
    while i < n
        invariant
            i <= n,
            out@ == old(out)@ + spaces(i as nat),
        decreases n - i,
    {
        out.append(" ");
        proof {
            reveal_strlit(" ");
        }
        assert(" "@ =~= seq![' ']);
        i = i + 1;
        assert(out@ =~= old(out)@ + spaces(i as nat));
    }
}

/// Centres `s` in `width` characters with spaces; returns it unchanged when it
/// is at least that long.
pub fn center_pad(s: &str, width: usize) -> (r: String)
    ensures
        r@ == centered(s@, width as nat),
{
    let len = s.unicode_len();
    if len >= width {
        return String::from_str(s);
    }
    let total = width - len;
    let left = total / 2;
    let right = total - left;
    let mut out = String::new();
    push_spaces(&mut out, left);
    out.append(s);
    push_spaces(&mut out, right);
    assert(out@ =~= centered(s@, width as nat));
    out
}

fn lines_of_four(a: String, b: String, c: String, d: String) -> (r: Vec<String>)
    ensures
        r@.map_values(|l: String| l@) == seq![a@, b@, c@, d@],
{
    let mut v: Vec<String> = Vec::new();
    v.push(a);
    v.push(b);
    v.push(c);
    v.push(d);
    assert(v@.map_values(|l: String| l@) =~= seq![a@, b@, c@, d@]);
    v
}

fn lines_of_three(a: String, b: String, c: String) -> (r: Vec<String>)
    ensures
        r@.map_values(|l: String| l@) == seq![a@, b@, c@],
{
    let mut v: Vec<String> = Vec::new();
    v.push(a);
    v.push(b);
    v.push(c);
    assert(v@.map_values(|l: String| l@) =~= seq![a@, b@, c@]);
    v
}

fn slot_text(host: &str) -> (r: String)
    ensures
        r@ == slot_name(host@),
{
    let name = truncate_host_name(host, COFFIN_NAME_SLOT);
    center_pad(name.as_str(), COFFIN_NAME_SLOT)
}

/// The large template with `host` set in its name slot.
pub fn build_large_coffin(host: &str) -> (r: CoffinRender)
    ensures
        r.texts() == large_lines(slot_name(host@)),
        r.variant == CoffinVariant::Large,
        r.width == LARGE_COFFIN_WIDTH,
        r.height == LARGE_COFFIN_HEIGHT,
{
    let name = slot_text(host);
    let top = String::from_str("   /‾‾‾‾‾‾\\   ");
    let mut mid = String::from_str("  / ");
    mid.append(name.as_str());
    mid.append(" \\  ");
    let low = String::from_str("  \\        /  ");
    let base = String::from_str("   \\______/   ");
    proof {
        reveal_strlit("   /‾‾‾‾‾‾\\   ");
        reveal_strlit("   /");
        reveal_strlit("\\   ");
    }
    assert(top@ =~= "   /"@ + macrons() + "\\   "@);
    let lines = lines_of_four(top, mid, low, base);
    CoffinRender {
        lines,
        variant: CoffinVariant::Large,
        width: LARGE_COFFIN_WIDTH,
        height: LARGE_COFFIN_HEIGHT,
    }
}

/// The mid template with `host` set in its name slot.
pub fn build_mid_coffin(host: &str) -> (r: CoffinRender)
    ensures
        r.texts() == mid_lines(slot_name(host@)),
        r.variant == CoffinVariant::Mid,
        r.width == MID_COFFIN_WIDTH,
        r.height == MID_COFFIN_HEIGHT,
{
    let name = slot_text(host);
    let top = String::from_str(" /‾‾‾‾‾‾\\  ");
    let mut mid = String::from_str("/ ");
    mid.append(name.as_str());
    mid.append(" \\ ");
    let base = String::from_str(" \\______/  ");
    proof {
        reveal_strlit(" /‾‾‾‾‾‾\\  ");
        reveal_strlit(" /");
        reveal_strlit("\\  ");
    }
    assert(top@ =~= " /"@ + macrons() + "\\  "@);
    let lines = lines_of_three(top, mid, base);
    CoffinRender { lines, variant: CoffinVariant::Mid, width: MID_COFFIN_WIDTH, height: MID_COFFIN_HEIGHT }
}

/// The one-line label `[⚰ name]`, the name cut so that the line fits in
/// `max_width` characters where at least three characters of name fit.
pub fn build_label_coffin(host: &str, max_width: usize) -> (r: CoffinRender)
    ensures
        r.texts() == seq![label_line(host@, max_width as nat)],
        r.variant == CoffinVariant::Label,
        r.width == label_line(host@, max_width as nat).len(),
        r.height == 1,
{
    let available = max_width.saturating_sub(4);
    let room = if available >= 3 {
        available
    } else {
        3
    };
    let name = truncate_host_name(host, room);
    let mut line = String::from_str("[⚰ ");
    line.append(name.as_str());
    line.append("]");
    let width = line.as_str().unicode_len();
    let mut lines: Vec<String> = Vec::new();
    lines.push(line);
    assert(lines@.map_values(|l: String| l@) =~= seq![label_line(host@, max_width as nat)]);
    CoffinRender { lines, variant: CoffinVariant::Label, width, height: 1 }
}

/// The variant that a space of `char_width` by `char_height` characters
/// holds: the largest that fits whole.
pub open spec fn fitting_variant(char_width: nat, char_height: nat) -> CoffinVariant {
    if char_width >= LARGE_COFFIN_WIDTH && char_height >= LARGE_COFFIN_HEIGHT {
        CoffinVariant::Large
    } else if char_width >= MID_COFFIN_WIDTH && char_height >= MID_COFFIN_HEIGHT {
        CoffinVariant::Mid
    } else {
        CoffinVariant::Label
    }
}

/// Builds the largest glyph that fits completely in `char_width` by
/// `char_height` characters; the label is given at least ten characters.
pub fn choose_coffin_for_cells(char_width: usize, char_height: usize, host: &str) -> (r:
    CoffinRender)
    ensures
        r.variant == fitting_variant(char_width as nat, char_height as nat),
        r.variant == CoffinVariant::Large ==> r.texts() == large_lines(slot_name(host@))
            && r.width == LARGE_COFFIN_WIDTH && r.height == LARGE_COFFIN_HEIGHT,
        r.variant == CoffinVariant::Mid ==> r.texts() == mid_lines(slot_name(host@)) && r.width
            == MID_COFFIN_WIDTH && r.height == MID_COFFIN_HEIGHT,
        r.variant == CoffinVariant::Label ==> ({
            let line = label_line(
                host@,
                if char_width >= MIN_LABEL_WIDTH {
                    char_width as nat
                } else {
                    MIN_LABEL_WIDTH as nat
                },
            );
            r.texts() == seq![line] && r.width == line.len() && r.height == 1
        }),
{
    if char_width >= LARGE_COFFIN_WIDTH && char_height >= LARGE_COFFIN_HEIGHT {
        build_large_coffin(host)
    } else if char_width >= MID_COFFIN_WIDTH && char_height >= MID_COFFIN_HEIGHT {
        build_mid_coffin(host)
    } else {
        let w = if char_width >= MIN_LABEL_WIDTH {
            char_width
        } else {
            MIN_LABEL_WIDTH
        };
        build_label_coffin(host, w)
    }
}

} // verus!
