//! Hex color notations: the channel bytes of `0xAARRGGBB`, `#RRGGBB` and
//! `RRGGBB` texts.
use vstd::prelude::*;
use vstd::utf8::encode_utf8;

verus! {

/// The value of an ASCII hex digit.
pub open spec fn hex_digit(b: u8) -> Option<int> {
    if 0x30 <= b <= 0x39 {
        Some(b - 0x30)
    } else if 0x41 <= b <= 0x46 {
        Some(b - 0x41 + 10)
    } else if 0x61 <= b <= 0x66 {
        Some(b - 0x61 + 10)
    } else {
        None
    }
}

/// The value of a run of hex digits, or `None` when a byte is not one.
pub open spec fn hex_digits(s: Seq<u8>) -> Option<int>
    decreases s.len(),
{
    if s.len() == 0 {
        Some(0)
    } else {
        match (hex_digits(s.drop_last()), hex_digit(s.last())) {
            (Some(v), Some(d)) => Some(16 * v + d),
            _ => None,
        }
    }
}

/// What `from_str_radix(_, 16)` reads for an unsigned integer: an optional
/// `+` and at least one hex digit.
pub open spec fn spec_hex_number(s: Seq<u8>) -> Option<int> {
    let digits = if s.len() > 0 && s[0] == 0x2b { s.drop_first() } else { s };
    if digits.len() == 0 {
        None
    } else {
        hex_digits(digits)
    }
}

/// `s` without leading `0x` pairs.
pub open spec fn trim_0x(s: Seq<u8>) -> Seq<u8>
    decreases s.len(),
{
    if s.len() >= 2 && s[0] == 0x30 && s[1] == 0x78 {
        trim_0x(s.skip(2))
    } else {
        s
    }
}

/// `s` without leading `#` bytes.
pub open spec fn trim_hash(s: Seq<u8>) -> Seq<u8>
    decreases s.len(),
{
    if s.len() >= 1 && s[0] == 0x23 {
        trim_hash(s.drop_first())
    } else {
        s
    }
}

/// The byte of `v` at `shift` bits.
pub open spec fn channel(v: int, shift: int) -> u8 {
    (if shift == 24 {
        v / 0x100_0000
    } else if shift == 16 {
        v / 0x1_0000
    } else if shift == 8 {
        v / 0x100
    } else {
        v
    } % 256) as u8
}

/// The (alpha, red, green, blue) bytes of an `0xAARRGGBB` or `#RRGGBB`
/// text (alpha full for six digits); `None` for any other text.
pub open spec fn spec_argb(text: Seq<u8>) -> Option<(u8, u8, u8, u8)> {
    let h = trim_hash(trim_0x(text));
    if h.len() == 8 {
        match spec_hex_number(h) {
            Some(v) => Some((channel(v, 24), channel(v, 16), channel(v, 8), channel(v, 0))),
            None => None,
        }
    } else if h.len() == 6 {
        match spec_hex_number(h) {
            Some(v) => Some((255u8, channel(v, 16), channel(v, 8), channel(v, 0))),
            None => None,
        }
    } else {
        None
    }
}

fn digit_value(b: u8) -> (r: Option<u32>)
    ensures
        match hex_digit(b) {
            Some(d) => r == Some(d as u32),
            None => r is None,
        },
{
    if 0x30 <= b && b <= 0x39 {
        Some((b - 0x30) as u32)
    } else if 0x41 <= b && b <= 0x46 {
        Some((b - 0x41 + 10) as u32)
    } else if 0x61 <= b && b <= 0x66 {
        Some((b - 0x61 + 10) as u32)
    } else {
        None
    }
}

/// Sixteen to the power `n`.
pub open spec fn pow16(n: nat) -> int
    decreases n,
{
    if n == 0 {
        1
    } else {
        16 * pow16((n - 1) as nat)
    }
}

proof fn lemma_pow16_mono(n: nat, m: nat)
    requires
        n <= m,
    ensures
        1 <= pow16(n) <= pow16(m),
    decreases m,
{
    if m > n {
        lemma_pow16_mono(n, (m - 1) as nat);
    } else {
        lemma_pow16_pos(n);
    }
}

proof fn lemma_pow16_pos(n: nat)
    ensures
        pow16(n) >= 1,
    decreases n,
{
    if n > 0 {
        lemma_pow16_pos((n - 1) as nat);
    }
}

proof fn lemma_pow16_le(n: nat)
    requires
        n <= 8,
    ensures
        1 <= pow16(n) <= 0x1_0000_0000,
{
    lemma_pow16_mono(n, 8);
    reveal_with_fuel(pow16, 9);
}

proof fn lemma_hex_digits_bound(s: Seq<u8>)
    ensures
        hex_digits(s) matches Some(v) ==> 0 <= v < pow16(s.len()),
    decreases s.len(),
{
    if s.len() > 0 {
        lemma_hex_digits_bound(s.drop_last());
        if let Some(v) = hex_digits(s) {
            let w = hex_digits(s.drop_last())->0;
            let p = pow16((s.len() - 1) as nat);
            assert(v == 16 * w + hex_digit(s.last())->0);
            assert(v < 16 * p) by (nonlinear_arith)
                requires
                    v == 16 * w + hex_digit(s.last())->0,
                    0 <= w < p,
                    hex_digit(s.last())->0 < 16,
            ;
        }
    }
}

/// Reads hex digits `s[from..]` as a number (at most eight digits).
fn hex_number_from(s: &[u8], from: usize) -> (r: Option<u32>)
    requires
        from <= s@.len(),
        s@.len() - from <= 8,
    ensures
        match hex_digits(s@.skip(from as int)) {
            Some(v) => r is Some && r->0 == v,
            None => r is None,
        },
{
    let mut v: u32 = 0;
    let mut i: usize = from;
    assert(s@.skip(from as int).take(0) =~= Seq::<u8>::empty());
    while i < s.len()
        invariant
            from <= i <= s@.len(),
            s@.len() - from <= 8,
            hex_digits(s@.skip(from as int).take(i - from)) == Some(v as int),
        decreases s@.len() - i,
    {
        let ghost pre = s@.skip(from as int).take(i - from);
        let ghost next = s@.skip(from as int).take(i - from + 1);
        assert(next.drop_last() =~= pre);
        assert(next.last() == s@[i as int]);
        proof {
            lemma_hex_digits_bound(next);
            lemma_pow16_le(next.len());
        }
        match digit_value(s[i]) {
            Some(d) => {
                v = 16 * v + d;
            },
            None => {
                proof {
                    lemma_hex_digits_none_extends(s@.skip(from as int), i - from + 1);
                }
                return None;
            },
        }
        i = i + 1;
    }
    assert(s@.skip(from as int).take(i - from) =~= s@.skip(from as int));
    Some(v)
}

/// Once a digit fails, longer prefixes fail too.
proof fn lemma_hex_digits_none_extends(s: Seq<u8>, n: int)
    requires
        0 <= n <= s.len(),
        hex_digits(s.take(n)) is None,
    ensures
        hex_digits(s) is None,
    decreases s.len() - n,
{
    if n < s.len() {
        assert(s.take(n + 1).drop_last() =~= s.take(n));
        lemma_hex_digits_none_extends(s, n + 1);
    } else {
        assert(s.take(n) =~= s);
    }
}

/// Reads an optional `+` and hex digits, as `from_str_radix(_, 16)` does.
fn hex_number(s: &[u8], from: usize) -> (r: Option<u32>)
    requires
        from <= s@.len(),
        s@.len() - from <= 8,
    ensures
        match spec_hex_number(s@.skip(from as int)) {
            Some(v) => r is Some && r->0 == v,
            None => r is None,
        },
{
    let ghost t = s@.skip(from as int);
    if from < s.len() && s[from] == 0x2b {
        assert(t.drop_first() =~= s@.skip(from as int + 1));
        if from + 1 == s.len() {
            return None;
        }
        hex_number_from(s, from + 1)
    } else {
        if from == s.len() {
            return None;
        }
        hex_number_from(s, from)
    }
}

fn skip_prefixes(b: &[u8]) -> (k: usize)
    ensures
        k <= b@.len(),
        b@.skip(k as int) == trim_hash(trim_0x(b@)),
{
    let mut i: usize = 0;
    assert(b@.skip(0) =~= b@);
    while b.len() - i >= 2 && b[i] == 0x30 && b[i + 1] == 0x78
        invariant
            i <= b@.len(),
            trim_0x(b@) == trim_0x(b@.skip(i as int)),
        decreases b@.len() - i,
    {
        assert(b@.skip(i as int).skip(2) =~= b@.skip(i as int + 2));
        i = i + 2;
    }
    assert(trim_0x(b@) == b@.skip(i as int));
    let ghost after = b@.skip(i as int);
    while i < b.len() && b[i] == 0x23
        invariant
            i <= b@.len(),
            trim_hash(after) == trim_hash(b@.skip(i as int)),
        decreases b@.len() - i,
    {
        assert(b@.skip(i as int).drop_first() =~= b@.skip(i as int + 1));
        i = i + 1;
    }
    i
}

/// The (alpha, red, green, blue) bytes of a hex color text: `0xAARRGGBB`,
/// `#RRGGBB` or either without its prefix; `None` when it is not one.
pub fn argb_from_hex(hex: &str) -> (r: Option<(u8, u8, u8, u8)>)
    ensures
        r == spec_argb(encode_utf8(hex@)),
{
    let b = hex.as_bytes();
    let k = skip_prefixes(b);
    let n = b.len() - k;
    if n != 8 && n != 6 {
        return None;
    }
    match hex_number(b, k) {
        Some(v) => {
            let r = ((v / 0x10000) % 256) as u8;
            let g = ((v / 0x100) % 256) as u8;
            let bl = (v % 256) as u8;
            if n == 8 {
                Some((((v / 0x100_0000) % 256) as u8, r, g, bl))
            } else {
                Some((255, r, g, bl))
            }
        },
        None => None,
    }
}


/// A two-byte channel as `u8::from_str_radix(_, 16)` reads it, 255 when it
/// is not a number.
pub open spec fn pair_value(a: u8, b: u8) -> u8 {
    match spec_hex_number(seq![a, b]) {
        Some(v) => if v < 256 { v as u8 } else { 255u8 },
        None => 255u8,
    }
}

/// The text after an optional leading `#`.
pub open spec fn without_hash(text: Seq<u8>) -> Seq<u8> {
    if text.len() > 0 && text[0] == 0x23 {
        text.drop_first()
    } else {
        text
    }
}

/// Whether `b` continues a multi-byte UTF-8 character.
pub open spec fn is_continuation(b: u8) -> bool {
    0x80 <= b < 0xc0
}

/// Whether the two-byte channels of a six-byte color can be cut out of the
/// text (each cut falls between characters).
pub open spec fn rgb_cuts_ok(text: Seq<u8>) -> bool {
    let h = without_hash(text);
    h.len() == 6 ==> !is_continuation(h[2]) && !is_continuation(h[4])
}

/// The (red, green, blue) bytes of a `#RRGGBB` or `RRGGBB` text: white for
/// any other length, 255 for a channel that is not a hex number.
pub open spec fn spec_rgb(text: Seq<u8>) -> (u8, u8, u8) {
    let h = without_hash(text);
    if h.len() != 6 {
        (255u8, 255u8, 255u8)
    } else {
        (pair_value(h[0], h[1]), pair_value(h[2], h[3]), pair_value(h[4], h[5]))
    }
}

fn pair(b: &[u8], at: usize) -> (r: u8)
    requires
        at + 2 <= b@.len(),
    ensures
        r == pair_value(b@[at as int], b@[at as int + 1]),
{
    let two = [b[at], b[at + 1]];
    assert(two@ =~= seq![b@[at as int], b@[at as int + 1]]);
    assert(two@.skip(0) =~= two@);
    proof {
        lemma_hex_digits_bound(two@);
        lemma_hex_digits_bound(two@.drop_first());
        reveal_with_fuel(pow16, 3);
    }
    match hex_number(&two, 0) {
        Some(v) => if v < 256 {
            v as u8
        } else {
            255
        },
        None => 255,
    }
}

/// The (red, green, blue) bytes of a `#RRGGBB` color; white when the text
/// is not six bytes long, 255 for a channel that is not a hex number.
pub fn rgb_from_hex(hex: &str) -> (r: (u8, u8, u8))
    requires
        rgb_cuts_ok(encode_utf8(hex@)),
    ensures
        r == spec_rgb(encode_utf8(hex@)),
{
    let b = hex.as_bytes();
    let start: usize = if b.len() > 0 && b[0] == 0x23 { 1 } else { 0 };
    if b.len() - start != 6 {
        return (255, 255, 255);
    }
    let h = vstd::slice::slice_subrange(b, start, b.len());
    assert(h@ =~= without_hash(b@));
    (pair(h, 0), pair(h, 2), pair(h, 4))
}

/// Opaque white, as `(alpha, red, green, blue)` bytes.
pub open spec fn white() -> (u8, u8, u8, u8) {
    (255u8, 255u8, 255u8, 255u8)
}

/// Fully transparent black.
pub open spec fn transparent() -> (u8, u8, u8, u8) {
    (0u8, 0u8, 0u8, 0u8)
}

/// The color a hex text gives, or `fallback` when it is not a color.
pub open spec fn text_color_or(text: Seq<char>, fallback: (u8, u8, u8, u8)) -> (u8, u8, u8, u8) {
    match spec_argb(encode_utf8(text)) {
        Some(c) => c,
        None => fallback,
    }
}

/// The color an optional hex text gives, or `fallback` when it is absent or
/// not a color.
pub open spec fn opt_color_or(text: Option<String>, fallback: (u8, u8, u8, u8)) -> (u8, u8, u8, u8) {
    match text {
        Some(t) => text_color_or(t@, fallback),
        None => fallback,
    }
}

fn color_or(text: &Option<String>, fallback: (u8, u8, u8, u8)) -> (r: (u8, u8, u8, u8))
    ensures
        r == opt_color_or(*text, fallback),
{
    match text {
        Some(t) => match argb_from_hex(t.as_str()) {
            Some(c) => c,
            None => fallback,
        },
        None => fallback,
    }
}

/// The colors an item's configuration names (hex texts, each optional).
pub struct ItemColorConfig {
    pub icon_color: Option<String>,
    pub label_color: Option<String>,
    pub background_color: Option<String>,
    pub icon_highlight_color: Option<String>,
    pub label_highlight_color: Option<String>,
    pub background_border_color: Option<String>,
}

/// The bar's default item colors (hex texts).
pub struct ColorDefaults {
    pub icon_color: String,
    pub label_color: String,
    pub background_color: String,
}

/// The resolved colors of an item, as `(alpha, red, green, blue)` bytes.
#[derive(Clone, Copy, Debug, PartialEq, Eq)]
pub struct ItemColors {
    pub icon: (u8, u8, u8, u8),
    pub label: (u8, u8, u8, u8),
    pub background: (u8, u8, u8, u8),
    pub icon_highlight: (u8, u8, u8, u8),
    pub label_highlight: (u8, u8, u8, u8),
    pub border: (u8, u8, u8, u8),
}

/// Resolves an item's colors: its own color when it names a valid one, else
/// the bar default (white for icon and label, transparent for the
/// background, when the default is not a color either); a highlight color
/// falls back to the item's resolved base color, the border to transparent.
pub fn item_colors(item: &ItemColorConfig, defaults: &ColorDefaults) -> (c: ItemColors)
    ensures
        c.icon == opt_color_or(item.icon_color, text_color_or(defaults.icon_color@, white())),
        c.label == opt_color_or(item.label_color, text_color_or(defaults.label_color@, white())),
        c.background == opt_color_or(item.background_color, text_color_or(defaults.background_color@, transparent())),
        c.icon_highlight == opt_color_or(item.icon_highlight_color, c.icon),
        c.label_highlight == opt_color_or(item.label_highlight_color, c.label),
        c.border == opt_color_or(item.background_border_color, transparent()),
{
    let white: (u8, u8, u8, u8) = (255, 255, 255, 255);
    let clear: (u8, u8, u8, u8) = (0, 0, 0, 0);
    let default_icon = color_or(&Some(defaults.icon_color.clone()), white);
    let default_label = color_or(&Some(defaults.label_color.clone()), white);
    let default_background = color_or(&Some(defaults.background_color.clone()), clear);
    let icon = color_or(&item.icon_color, default_icon);
    let label = color_or(&item.label_color, default_label);
    let background = color_or(&item.background_color, default_background);
    ItemColors {
        icon,
        label,
        background,
        icon_highlight: color_or(&item.icon_highlight_color, icon),
        label_highlight: color_or(&item.label_highlight_color, label),
        border: color_or(&item.background_border_color, clear),
    }
}

} // verus!
