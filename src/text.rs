//! Character-level text helpers: digit parsing in the manner of Rust's
//! integer parsers, digit rendering, and field splitting.

use vstd::prelude::*;
use vstd::std_specs::iter::IteratorSpec;
use vstd::string::{StrSliceExecFns, StringExecFns};

verus! {

broadcast use vstd::string::group_string_axioms;

// ---------------------------------------------------------------------------
// Digits
// ---------------------------------------------------------------------------

/// The lowercase digit characters, indexed by value.
pub open spec fn digit_chars() -> Seq<char> {
    seq!['0', '1', '2', '3', '4', '5', '6', '7', '8', '9', 'a', 'b', 'c', 'd', 'e', 'f']
}

/// Value of `c` as a digit in `radix` (10 or 16), accepting either case for
/// letters.
pub open spec fn digit_value(c: char, radix: nat) -> Option<nat> {
    let d: int = if '0' <= c && c <= '9' {
        c as int - '0' as int
    } else if 'a' <= c && c <= 'f' {
        c as int - 'a' as int + 10
    } else if 'A' <= c && c <= 'F' {
        c as int - 'A' as int + 10
    } else {
        99
    };
    if d < radix {
        Some(d as nat)
    } else {
        None
    }
}

pub open spec fn all_digits(s: Seq<char>, radix: nat) -> bool {
    forall|i: int| 0 <= i < s.len() ==> (#[trigger] digit_value(s[i], radix)) is Some
}

/// Value of a string of digits, most significant first.
pub open spec fn digits_value(s: Seq<char>, radix: nat) -> nat
    decreases s.len(),
{
    if s.len() == 0 {
        0
    } else {
        digits_value(s.drop_last(), radix) * radix + match digit_value(s.last(), radix) {
            Some(d) => d,
            None => 0,
        }
    }
}

/// What remains of `s` once one leading `+` is removed.
pub open spec fn unsigned_body(s: Seq<char>) -> Seq<char> {
    if s.len() > 0 && s[0] == '+' {
        s.drop_first()
    } else {
        s
    }
}

/// An unsigned integer as Rust's `from_str_radix` reads it: an optional `+`,
/// then one or more digits, with a value of at most `max`.
pub open spec fn parse_unsigned(s: Seq<char>, radix: nat, max: nat) -> Option<nat> {
    let b = unsigned_body(s);
    if b.len() > 0 && all_digits(b, radix) && digits_value(b, radix) <= max {
        Some(digits_value(b, radix))
    } else {
        None
    }
}

/// A signed 32-bit integer as Rust's `str::parse::<i32>` reads it.
pub open spec fn parse_i32(s: Seq<char>) -> Option<int> {
    if s.len() > 0 && s[0] == '-' {
        let b = s.drop_first();
        if b.len() > 0 && all_digits(b, 10) && digits_value(b, 10) <= 0x8000_0000 {
            Some(-(digits_value(b, 10) as int))
        } else {
            None
        }
    } else {
        match parse_unsigned(s, 10, 0x7fff_ffff) {
            Some(v) => Some(v as int),
            None => None,
        }
    }
}

proof fn lemma_digits_value_prefix_monotone(s: Seq<char>, radix: nat, i: int, j: int)
    requires
        radix >= 1,
        0 <= i <= j <= s.len(),
    ensures
        digits_value(s.subrange(0, i), radix) <= digits_value(s.subrange(0, j), radix),
    decreases j - i,
{
    if i < j {
        lemma_digits_value_prefix_monotone(s, radix, i, j - 1);
        let p = s.subrange(0, j);
        assert(p.drop_last() =~= s.subrange(0, j - 1));
        let v = digits_value(s.subrange(0, j - 1), radix);
        assert(v * radix >= v) by (nonlinear_arith)
            requires
                radix >= 1,
        ;
    }
}

fn char_digit(c: char, radix: u64) -> (r: Option<u64>)
    requires
        radix == 10 || radix == 16,
    ensures
        match digit_value(c, radix as nat) {
            Some(d) => r == Some(d as u64),
            None => r is None,
        },
{
    let d: u64 = if '0' <= c && c <= '9' {
        (c as u32 - '0' as u32) as u64
    } else if 'a' <= c && c <= 'f' {
        (c as u32 - 'a' as u32 + 10) as u64
    } else if 'A' <= c && c <= 'F' {
        (c as u32 - 'A' as u32 + 10) as u64
    } else {
        99
    };
    if d < radix {
        Some(d)
    } else {
        None
    }
}

/// Reads the digits `s[lo..hi]` (no sign) in `radix`; `None` when a character
/// is not a digit, the range is empty, or the value exceeds `max`.
pub fn parse_digits(s: &Vec<char>, lo: usize, hi: usize, radix: u64, max: u64) -> (r: Option<u64>)
    requires
        lo <= hi <= s@.len(),
        radix == 10 || radix == 16,
    ensures
        ({
            let b = s@.subrange(lo as int, hi as int);
            match r {
                Some(v) => b.len() > 0 && all_digits(b, radix as nat) && digits_value(
                    b,
                    radix as nat,
                ) <= max && v == digits_value(b, radix as nat),
                None => !(b.len() > 0 && all_digits(b, radix as nat) && digits_value(
                    b,
                    radix as nat,
                ) <= max),
            }
        }),
{
    let ghost b = s@.subrange(lo as int, hi as int);
    if lo == hi {
        return None;
    }
    let mut acc: u64 = 0;
    let mut i: usize = lo;
    while i < hi
        invariant
            lo <= i <= hi <= s@.len(),
            radix == 10 || radix == 16,
            b == s@.subrange(lo as int, hi as int),
            all_digits(b.subrange(0, i - lo), radix as nat),
            acc == digits_value(b.subrange(0, i - lo), radix as nat),
            acc <= max,
        decreases hi - i,
    {
        let c = s[i];
        let d = char_digit(c, radix);
        let ghost p = b.subrange(0, i - lo + 1);
        assert(p.drop_last() =~= b.subrange(0, i - lo));
        assert(p.last() == c);
        match d {
            None => {
                assert(!all_digits(b, radix as nat)) by {
                    assert(digit_value(b[i - lo], radix as nat) is None);
                }
                return None;
            },
            Some(dv) => {
                if dv > max || acc > (max - dv) / radix {
                    proof {
                        assert(acc * radix + dv > max) by (nonlinear_arith)
                            requires
                                dv > max || acc > (max - dv) / radix as int,
                                radix > 0,
                                acc >= 0,
                        ;
                        lemma_digits_value_prefix_monotone(b, radix as nat, i - lo + 1, b.len() as int);
                        assert(b.subrange(0, b.len() as int) =~= b);
                    }
                    return None;
                }
                proof {
                    assert(acc * radix + dv <= max) by (nonlinear_arith)
                        requires
                            acc <= (max - dv) / radix as int,
                            radix > 0,
                            dv <= max,
                    ;
                }
                acc = acc * radix + dv;
                i = i + 1;
                assert forall|k: int| 0 <= k < p.len() implies (#[trigger] digit_value(
                    p[k],
                    radix as nat,
                )) is Some by {
                    if k < p.len() - 1 {
                        assert(p[k] == b.subrange(0, i - 1 - lo)[k]);
                    }
                }
            },
        }
    }
    assert(b.subrange(0, hi - lo) =~= b);
    Some(acc)
}

/// Reads `s[lo..hi]` as Rust's `from_str_radix` does for an unsigned type
/// whose largest value is `max`.
pub fn parse_unsigned_range(s: &Vec<char>, lo: usize, hi: usize, radix: u64, max: u64) -> (r:
    Option<u64>)
    requires
        lo <= hi <= s@.len(),
        radix == 10 || radix == 16,
    ensures
        match parse_unsigned(s@.subrange(lo as int, hi as int), radix as nat, max as nat) {
            Some(v) => r == Some(v as u64),
            None => r is None,
        },
{
    let ghost t = s@.subrange(lo as int, hi as int);
    if lo < hi && s[lo] == '+' {
        assert(unsigned_body(t) =~= s@.subrange(lo + 1, hi as int));
        parse_digits(s, lo + 1, hi, radix, max)
    } else {
        assert(unsigned_body(t) =~= t);
        parse_digits(s, lo, hi, radix, max)
    }
}

/// Reads `s[lo..hi]` as Rust's `str::parse::<i32>` does.
pub fn parse_i32_range(s: &Vec<char>, lo: usize, hi: usize) -> (r: Option<i32>)
    requires
        lo <= hi <= s@.len(),
    ensures
        match parse_i32(s@.subrange(lo as int, hi as int)) {
            Some(v) => r == Some(v as i32),
            None => r is None,
        },
{
    let ghost t = s@.subrange(lo as int, hi as int);
    if lo < hi && s[lo] == '-' {
        assert(t.drop_first() =~= s@.subrange(lo + 1, hi as int));
        match parse_digits(s, lo + 1, hi, 10, 0x8000_0000) {
            Some(v) => {
                let r: i64 = 0i64 - (v as i64);
                Some(r as i32)
            },
            None => None,
        }
    } else {
        match parse_unsigned_range(s, lo, hi, 10, 0x7fff_ffff) {
            Some(v) => Some(v as i32),
            None => None,
        }
    }
}

// ---------------------------------------------------------------------------
// Rendering numbers
// ---------------------------------------------------------------------------

/// `n` written in `radix` with lowercase digits and no leading zeros.
pub open spec fn radix_text(n: nat, radix: nat) -> Seq<char>
    decreases n,
{
    if radix < 2 || radix > 16 || n < radix {
        seq![digit_chars()[(n % 16) as int]]
    } else {
        let q = n / radix;
        proof {
            assert(q < n) by (nonlinear_arith)
                requires
                    radix >= 2,
                    n >= radix,
                    q == n / radix,
            ;
        }
        radix_text(q, radix).push(digit_chars()[(n % radix) as int])
    }
}

/// Appends the digit character of value `d`.
fn push_digit(out: &mut String, d: u64)
    requires
        d < 16,
    ensures
        final(out)@ == old(out)@.push(digit_chars()[d as int]),
{
    let table = "0123456789abcdef";
    proof {
        reveal_strlit("0123456789abcdef");
    }
    assert(table@ =~= digit_chars());
    let piece = table.substring_char(d as usize, (d + 1) as usize);
    assert(piece@ =~= seq![digit_chars()[d as int]]);
    out.append(piece);
}

/// Appends `n` in `radix` (10 or 16), as `radix_text` gives it.
pub fn push_radix(out: &mut String, n: u64, radix: u64)
    requires
        radix == 10 || radix == 16,
    ensures
        final(out)@ == old(out)@ + radix_text(n as nat, radix as nat),
    decreases n,
{
    if n < radix {
        push_digit(out, n);
        assert(old(out)@ + radix_text(n as nat, radix as nat) =~= old(out)@.push(
            digit_chars()[n as int],
        ));
    } else {
        push_radix(out, n / radix, radix);
        push_digit(out, n % radix);
        assert(radix_text(n as nat, radix as nat) == radix_text((n / radix) as nat, radix as nat).push(
            digit_chars()[(n % radix) as int],
        ));
        assert(old(out)@ + radix_text(n as nat, radix as nat) =~= old(out)@ + radix_text(
            (n / radix) as nat,
            radix as nat,
        ) + seq![digit_chars()[(n % radix) as int]]);
    }
}

// ---------------------------------------------------------------------------
// Splitting
// ---------------------------------------------------------------------------

/// Unicode White_Space, as `char::is_whitespace` decides it.
pub open spec fn is_ws(c: char) -> bool {
    ('\t' <= c && c <= '\r') || c == ' ' || c == '\u{85}' || c == '\u{a0}' || c == '\u{1680}'
        || ('\u{2000}' <= c && c <= '\u{200a}') || c == '\u{2028}' || c == '\u{2029}' || c
        == '\u{202f}' || c == '\u{205f}' || c == '\u{3000}'
}

/// The pieces of `s` between occurrences of `sep`, as `str::split` gives
/// them: one more piece than there are separators.
pub open spec fn split_char(s: Seq<char>, sep: char) -> Seq<Seq<char>>
    decreases s.len(),
{
    if s.len() == 0 {
        seq![Seq::empty()]
    } else {
        let init = split_char(s.drop_last(), sep);
        if s.last() == sep {
            init.push(Seq::empty())
        } else {
            init.update(init.len() - 1, init.last().push(s.last()))
        }
    }
}

/// The maximal runs of non-whitespace characters of `s`, as
/// `str::split_whitespace` gives them.
pub open spec fn fields(s: Seq<char>) -> Seq<Seq<char>>
    decreases s.len(),
{
    if s.len() == 0 {
        Seq::empty()
    } else {
        let f = fields(s.drop_last());
        let c = s.last();
        if is_ws(c) {
            f
        } else if s.len() >= 2 && !is_ws(s[s.len() - 2]) {
            f.update(f.len() - 1, f.last().push(c))
        } else {
            f.push(seq![c])
        }
    }
}

/// The texts that the index ranges `rs` pick out of `s`.
pub open spec fn pieces(s: Seq<char>, rs: Seq<(usize, usize)>) -> Seq<Seq<char>> {
    Seq::new(rs.len(), |k: int| s.subrange(rs[k].0 as int, rs[k].1 as int))
}

pub open spec fn ranges_within(rs: Seq<(usize, usize)>, lo: int, hi: int) -> bool {
    forall|k: int| 0 <= k < rs.len() ==> lo <= (#[trigger] rs[k]).0 <= rs[k].1 <= hi
}

pub proof fn lemma_split_nonempty(s: Seq<char>, sep: char)
    ensures
        split_char(s, sep).len() >= 1,
    decreases s.len(),
{
    if s.len() > 0 {
        lemma_split_nonempty(s.drop_last(), sep);
    }
}

/// Index ranges of the pieces of `s[lo..hi]` between occurrences of `sep`.
pub fn split_ranges(s: &Vec<char>, lo: usize, hi: usize, sep: char) -> (r: Vec<(usize, usize)>)
    requires
        lo <= hi <= s@.len(),
    ensures
        ranges_within(r@, lo as int, hi as int),
        pieces(s@, r@) == split_char(s@.subrange(lo as int, hi as int), sep),
{
    let mut r: Vec<(usize, usize)> = Vec::new();
    let mut start: usize = lo;
    let mut i: usize = lo;
    assert(s@.subrange(lo as int, lo as int) =~= Seq::<char>::empty());
    assert(pieces(s@, r@).push(s@.subrange(start as int, i as int)) =~= split_char(
        s@.subrange(lo as int, i as int),
        sep,
    ));
    while i < hi
        invariant
            lo <= start <= i <= hi <= s@.len(),
            ranges_within(r@, lo as int, i as int),
            pieces(s@, r@).push(s@.subrange(start as int, i as int)) == split_char(
                s@.subrange(lo as int, i as int),
                sep,
            ),
        decreases hi - i,
    {
        let ghost sub = s@.subrange(lo as int, i + 1);
        assert(sub.drop_last() =~= s@.subrange(lo as int, i as int));
        assert(sub.last() == s@[i as int]);
        let ghost old_r = r@;
        if s[i] == sep {
            r.push((start, i));
            start = i + 1;
            assert(s@.subrange(start as int, i + 1) =~= Seq::<char>::empty());
            assert(pieces(s@, r@) =~= pieces(s@, old_r).push(s@.subrange(r@.last().0 as int, i as int)));
        } else {
            assert(s@.subrange(start as int, i + 1) =~= s@.subrange(start as int, i as int).push(
                s@[i as int],
            ));
        }
        i = i + 1;
        assert(pieces(s@, r@).push(s@.subrange(start as int, i as int)) =~= split_char(
            s@.subrange(lo as int, i as int),
            sep,
        ));
    }
    let ghost old_r = r@;
    r.push((start, hi));
    assert(pieces(s@, r@) =~= pieces(s@, old_r).push(s@.subrange(start as int, hi as int)));
    r
}

/// Index ranges of the whitespace-separated fields of `s[lo..hi]`.
pub fn field_ranges(s: &Vec<char>, lo: usize, hi: usize) -> (r: Vec<(usize, usize)>)
    requires
        lo <= hi <= s@.len(),
    ensures
        ranges_within(r@, lo as int, hi as int),
        pieces(s@, r@) == fields(s@.subrange(lo as int, hi as int)),
{
    let mut r: Vec<(usize, usize)> = Vec::new();
    let mut start: usize = lo;
    let mut in_field = false;
    let mut i: usize = lo;
    assert(pieces(s@, r@) =~= fields(s@.subrange(lo as int, i as int)));
    while i < hi
        invariant
            lo <= start <= i <= hi <= s@.len(),
            ranges_within(r@, lo as int, i as int),
            in_field ==> start < i && !is_ws(s@[i - 1]),
            !in_field ==> (i == lo || is_ws(s@[i - 1])),
            in_field ==> pieces(s@, r@).push(s@.subrange(start as int, i as int)) == fields(
                s@.subrange(lo as int, i as int),
            ),
            !in_field ==> pieces(s@, r@) == fields(s@.subrange(lo as int, i as int)),
        decreases hi - i,
    {
        let c = s[i];
        let ghost sub = s@.subrange(lo as int, i + 1);
        assert(sub.drop_last() =~= s@.subrange(lo as int, i as int));
        assert(sub.last() == c);
        let ws = is_whitespace(c);
        if ws {
            if in_field {
                let ghost old_r = r@;
                r.push((start, i));
                assert(pieces(s@, r@) =~= pieces(s@, old_r).push(s@.subrange(start as int, i as int)));
            }
            in_field = false;
        } else {
            if in_field {
                assert(sub[sub.len() - 2] == s@[i - 1]);
                assert(s@.subrange(start as int, i + 1) =~= s@.subrange(start as int, i as int).push(c));
                proof {
                    let f = fields(s@.subrange(lo as int, i as int));
                    assert(f.len() >= 1);
                    assert(f.update(f.len() - 1, f.last().push(c)) =~= pieces(s@, r@).push(
                        s@.subrange(start as int, i + 1),
                    ));
                }
            } else {
                if i > lo {
                    assert(sub[sub.len() - 2] == s@[i - 1]);
                }
                start = i;
                in_field = true;
                assert(s@.subrange(start as int, i + 1) =~= seq![c]);
            }
        }
        i = i + 1;
    }
    if in_field {
        let ghost old_r = r@;
        r.push((start, hi));
        assert(pieces(s@, r@) =~= pieces(s@, old_r).push(s@.subrange(start as int, hi as int)));
    }
    r
}

/// Whether `c` is Unicode White_Space.
pub fn is_whitespace(c: char) -> (r: bool)
    ensures
        r == is_ws(c),
{
    ('\t' <= c && c <= '\r') || c == ' ' || c == '\u{85}' || c == '\u{a0}' || c == '\u{1680}'
        || ('\u{2000}' <= c && c <= '\u{200a}') || c == '\u{2028}' || c == '\u{2029}' || c
        == '\u{202f}' || c == '\u{205f}' || c == '\u{3000}'
}

/// Whether `a` and `b` hold the same characters.
pub fn same_text(a: &str, b: &str) -> (r: bool)
    ensures
        r == (a@ == b@),
{
    let x = chars_of(a);
    let y = chars_of(b);
    if x.len() != y.len() {
        return false;
    }
    let mut i: usize = 0;
    while i < x.len()
        invariant
            x@ == a@,
            y@ == b@,
            x@.len() == y@.len(),
            i <= x@.len(),
            x@.subrange(0, i as int) == y@.subrange(0, i as int),
        decreases x@.len() - i,
    {
        if x[i] != y[i] {
            assert(x@[i as int] != y@[i as int]);
            return false;
        }
        assert(x@.subrange(0, i + 1) =~= x@.subrange(0, i as int).push(x@[i as int]));
        assert(y@.subrange(0, i + 1) =~= y@.subrange(0, i as int).push(y@[i as int]));
        i = i + 1;
    }
    assert(x@ =~= x@.subrange(0, i as int));
    assert(y@ =~= y@.subrange(0, i as int));
    true
}

/// `s` cut to its first `keep` characters and `...` when longer than
/// `limit` characters.
pub open spec fn shortened(s: Seq<char>, limit: nat, keep: nat) -> Seq<char> {
    if s.len() > limit {
        s.take(keep as int) + "..."@
    } else {
        s
    }
}

/// `s`, or its first `keep` characters and `...` when it is longer than
/// `limit` characters.
pub fn shorten_text(s: &str, limit: usize, keep: usize) -> (r: String)
    requires
        keep <= limit,
    ensures
        r@ == shortened(s@, limit as nat, keep as nat),
{
    if s.unicode_len() > limit {
        let mut out = String::from_str(s.substring_char(0, keep));
        out.append("...");
        out
    } else {
        String::from_str(s)
    }
}

/// An integer in decimal, with a leading `-` when negative.
pub open spec fn signed_text(i: int) -> Seq<char> {
    if i < 0 {
        "-"@ + radix_text((-i) as nat, 10)
    } else {
        radix_text(i as nat, 10)
    }
}

/// Appends `i` in decimal.
pub fn push_signed(out: &mut String, i: i32)
    ensures
        final(out)@ == old(out)@ + signed_text(i as int),
{
    if i < 0 {
        out.append("-");
        let m: i64 = 0i64 - (i as i64);
        push_radix(out, m as u64, 10);
        assert(final(out)@ =~= old(out)@ + signed_text(i as int));
    } else {
        push_radix(out, i as u64, 10);
    }
}

/// Whether `s` begins with the characters of `p`.
pub fn has_prefix(s: &Vec<char>, p: &str) -> (r: bool)
    ensures
        r == (p@.len() <= s@.len() && s@.subrange(0, p@.len() as int) == p@),
{
    let q = chars_of(p);
    if q.len() > s.len() {
        return false;
    }
    let mut i: usize = 0;
    while i < q.len()
        invariant
            q@ == p@,
            q@.len() <= s@.len(),
            i <= q@.len(),
            s@.subrange(0, i as int) == q@.subrange(0, i as int),
        decreases q@.len() - i,
    {
        if s[i] != q[i] {
            assert(s@.subrange(0, q@.len() as int)[i as int] != q@[i as int]);
            return false;
        }
        assert(s@.subrange(0, i + 1) =~= s@.subrange(0, i as int).push(s@[i as int]));
        assert(q@.subrange(0, i + 1) =~= q@.subrange(0, i as int).push(q@[i as int]));
        i = i + 1;
    }
    assert(q@.subrange(0, i as int) =~= q@);
    true
}

/// `s` without leading whitespace.
pub open spec fn trim_start(s: Seq<char>) -> Seq<char>
    decreases s.len(),
{
    if s.len() > 0 && is_ws(s[0]) {
        trim_start(s.drop_first())
    } else {
        s
    }
}

/// `s` without trailing whitespace.
pub open spec fn trim_end(s: Seq<char>) -> Seq<char>
    decreases s.len(),
{
    if s.len() > 0 && is_ws(s.last()) {
        trim_end(s.drop_last())
    } else {
        s
    }
}

/// `s` without leading or trailing whitespace, as `str::trim` gives it.
pub open spec fn trimmed(s: Seq<char>) -> Seq<char> {
    trim_end(trim_start(s))
}

/// `s` without leading or trailing whitespace.
pub fn trim_text(s: &str) -> (r: String)
    ensures
        r@ == trimmed(s@),
{
    let cs = chars_of(s);
    let n = cs.len();
    let mut a: usize = 0;
    assert(s@.subrange(0, n as int) =~= s@);
    while a < n && is_whitespace(cs[a])
        invariant
            cs@ == s@,
            n == cs@.len(),
            a <= n,
            trim_start(s@) == trim_start(s@.subrange(a as int, n as int)),
        decreases n - a,
    {
        assert(s@.subrange(a as int, n as int).drop_first() =~= s@.subrange(a + 1, n as int));
        a = a + 1;
    }
    assert(trim_start(s@.subrange(a as int, n as int)) == s@.subrange(a as int, n as int));
    let mut b: usize = n;
    while b > a && is_whitespace(cs[b - 1])
        invariant
            cs@ == s@,
            n == cs@.len(),
            a <= b <= n,
            trimmed(s@) == trim_end(s@.subrange(a as int, b as int)),
        decreases b,
    {
        assert(s@.subrange(a as int, b as int).drop_last() =~= s@.subrange(a as int, b - 1));
        b = b - 1;
    }
    assert(trim_end(s@.subrange(a as int, b as int)) == s@.subrange(a as int, b as int));
    String::from_str(s.substring_char(a, b))
}

// ---------------------------------------------------------------------------
// Characters of a string
// ---------------------------------------------------------------------------

/// The characters of `s`, in order, gathered into a vector.
pub fn chars_of(s: &str) -> (r: Vec<char>)
    ensures
        r@ == s@,
{
    let mut it = s.chars();
    let mut out: Vec<char> = Vec::new();
    loop
        invariant_except_break
            out@ + it.remaining() == s@,
            it.obeys_prophetic_iter_laws(),
            it.decrease() is Some,
        ensures
            out@ == s@,
        decreases it.decrease()->0,
    {
        let ghost before = it.remaining();
        match it.next() {
            Some(c) => {
                out.push(c);
            },
            None => {
                assert(before.len() == 0);
                assert(out@ =~= s@);
                break;
            },
        }
    }
    out
}

} // verus!
