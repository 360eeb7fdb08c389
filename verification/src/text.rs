//! Character-level text helpers: comparison, whitespace trimming, splitting
//! on a separator, decimal integers.
use vstd::prelude::*;
use vstd::string::StrSliceExecFns;
use crate::geometry::fits_i32;

verus! {

/// Whether `c` is a Unicode `White_Space` character (what `str::trim` removes).
pub open spec fn is_ws(c: char) -> bool {
    ||| c == '\t' || c == '\n' || c == '\u{0B}' || c == '\u{0C}' || c == '\r' || c == ' '
    ||| c == '\u{85}' || c == '\u{A0}' || c == '\u{1680}'
    ||| ('\u{2000}' <= c && c <= '\u{200A}')
    ||| c == '\u{2028}' || c == '\u{2029}' || c == '\u{202F}' || c == '\u{205F}' || c == '\u{3000}'
}

/// Whether `c` is a Unicode `White_Space` character.
pub fn is_whitespace(c: char) -> (b: bool)
    ensures
        b == is_ws(c),
{
    c == '\t' || c == '\n' || c == '\u{0B}' || c == '\u{0C}' || c == '\r' || c == ' ' || c
        == '\u{85}' || c == '\u{A0}' || c == '\u{1680}' || ('\u{2000}' <= c && c <= '\u{200A}')
        || c == '\u{2028}' || c == '\u{2029}' || c == '\u{202F}' || c == '\u{205F}' || c
        == '\u{3000}'
}

/// Number of leading whitespace characters of `s`.
pub open spec fn leading_ws(s: Seq<char>) -> nat
    decreases s.len(),
{
    if s.len() > 0 && is_ws(s[0]) {
        1 + leading_ws(s.drop_first())
    } else {
        0
    }
}

/// Number of trailing whitespace characters of `s`.
pub open spec fn trailing_ws(s: Seq<char>) -> nat
    decreases s.len(),
{
    if s.len() > 0 && is_ws(s.last()) {
        1 + trailing_ws(s.drop_last())
    } else {
        0
    }
}

/// `s` without leading and trailing whitespace.
pub open spec fn spec_trim(s: Seq<char>) -> Seq<char> {
    let t = s.skip(leading_ws(s) as int);
    t.take(t.len() - trailing_ws(t))
}

/// Whether `s` is the concatenation of `parts` with `sep` between them.
pub open spec fn spec_join(parts: Seq<Seq<char>>, sep: Seq<char>) -> Seq<char>
    decreases parts.len(),
{
    if parts.len() == 0 {
        seq![]
    } else if parts.len() == 1 {
        parts[0]
    } else {
        spec_join(parts.drop_last(), sep) + sep + parts.last()
    }
}

/// The pieces of `s` between occurrences of `sep` (like `str::split`):
/// always at least one piece.
pub open spec fn spec_split(s: Seq<char>, sep: char) -> Seq<Seq<char>>
    decreases s.len(),
{
    if s.len() == 0 {
        seq![seq![]]
    } else {
        let prev = spec_split(s.drop_last(), sep);
        if s.last() == sep {
            prev.push(seq![])
        } else {
            prev.update(prev.len() - 1, prev.last().push(s.last()))
        }
    }
}

/// The split of a nonempty text has at least one piece.
pub proof fn lemma_split_nonempty(s: Seq<char>, sep: char)
    ensures
        spec_split(s, sep).len() >= 1,
    decreases s.len(),
{
    if s.len() > 0 {
        lemma_split_nonempty(s.drop_last(), sep);
    }
}

/// Compares two string slices character by character.
pub fn str_eq(a: &str, b: &str) -> (r: bool)
    ensures
        r == (a@ == b@),
{
    let n = a.unicode_len();
    let m = b.unicode_len();
    if n != m {
        return false;
    }
    let mut i: usize = 0;
    while i < n
        invariant
            n == a@.len(),
            m == b@.len(),
            n == m,
            i <= n,
            forall|k: int| 0 <= k < i ==> a@[k] == b@[k],
        decreases n - i,
    {
        if a.get_char(i) != b.get_char(i) {
            return false;
        }
        i = i + 1;
    }
    assert(a@ =~= b@);
    true
}

/// Whether `s[from..to]` equals `lit`.
pub fn range_eq(s: &str, from: usize, to: usize, lit: &str) -> (r: bool)
    requires
        from <= to <= s@.len(),
    ensures
        r == (s@.subrange(from as int, to as int) == lit@),
{
    let m = lit.unicode_len();
    if to - from != m {
        return false;
    }
    let mut i: usize = 0;
    while i < m
        invariant
            m == lit@.len(),
            to - from == m,
            from <= to <= s@.len(),
            i <= m,
            forall|k: int| 0 <= k < i ==> s@[from + k] == lit@[k],
        decreases m - i,
    {
        if s.get_char(from + i) != lit.get_char(i) {
            return false;
        }
        i = i + 1;
    }
    assert(s@.subrange(from as int, to as int) =~= lit@);
    true
}

/// Proof that the leading-whitespace count of a range is found by scanning.
proof fn lemma_leading_ws_step(s: Seq<char>, k: int)
    requires
        0 <= k < s.len(),
        forall|j: int| 0 <= j < k ==> is_ws(s[j]),
    ensures
        is_ws(s[k]) ==> leading_ws(s) >= k + 1,
        !is_ws(s[k]) ==> leading_ws(s) == k,
    decreases k,
{
    if k > 0 {
        lemma_leading_ws_step(s.drop_first(), k - 1);
    }
}

proof fn lemma_leading_ws_all(s: Seq<char>)
    requires
        forall|j: int| 0 <= j < s.len() ==> is_ws(s[j]),
    ensures
        leading_ws(s) == s.len(),
    decreases s.len(),
{
    if s.len() > 0 {
        lemma_leading_ws_all(s.drop_first());
    }
}

proof fn lemma_trailing_ws_step(s: Seq<char>, k: int)
    requires
        0 <= k < s.len(),
        forall|j: int| s.len() - k <= j < s.len() ==> is_ws(#[trigger] s[j]),
    ensures
        is_ws(s[s.len() - 1 - k]) ==> trailing_ws(s) >= k + 1,
        !is_ws(s[s.len() - 1 - k]) ==> trailing_ws(s) == k,
    decreases k,
{
    if k > 0 {
        lemma_trailing_ws_step(s.drop_last(), k - 1);
    }
}

proof fn lemma_trailing_ws_all(s: Seq<char>)
    requires
        forall|j: int| 0 <= j < s.len() ==> is_ws(s[j]),
    ensures
        trailing_ws(s) == s.len(),
    decreases s.len(),
{
    if s.len() > 0 {
        lemma_trailing_ws_all(s.drop_last());
    }
}

/// The bounds `(a, b)` of `s[from..to]` with surrounding whitespace
/// removed: `s[a..b]` is the trimmed range.
pub fn trim_range(s: &str, from: usize, to: usize) -> (r: (usize, usize))
    requires
        from <= to <= s@.len(),
    ensures
        from <= r.0 <= r.1 <= to,
        s@.subrange(r.0 as int, r.1 as int) == spec_trim(s@.subrange(from as int, to as int)),
{
    let ghost seg = s@.subrange(from as int, to as int);
    let mut a = from;
    while a < to && is_whitespace(s.get_char(a))
        invariant
            from <= a <= to <= s@.len(),
            seg == s@.subrange(from as int, to as int),
            forall|j: int| from <= j < a ==> is_ws(s@[j]),
        decreases to - a,
    {
        a = a + 1;
    }
    proof {
        if a < to {
            lemma_leading_ws_step(seg, a - from);
        } else {
            lemma_leading_ws_all(seg);
        }
        assert(seg.skip(leading_ws(seg) as int) =~= s@.subrange(a as int, to as int));
    }
    let ghost t = s@.subrange(a as int, to as int);
    let mut b = to;
    while b > a && is_whitespace(s.get_char(b - 1))
        invariant
            from <= a <= b <= to <= s@.len(),
            t == s@.subrange(a as int, to as int),
            forall|j: int| b <= j < to ==> is_ws(s@[j]),
        decreases b - a,
    {
        b = b - 1;
    }
    proof {
        if b > a {
            assert forall|j: int| t.len() - (to - b) <= j < t.len() implies is_ws(#[trigger] t[j]) by {
                assert(t[j] == s@[a + j]);
            }
            assert(t[t.len() - 1 - (to - b)] == s@[b - 1]);
            lemma_trailing_ws_step(t, (to - b) as int);
        } else {
            assert forall|j: int| 0 <= j < t.len() implies is_ws(t[j]) by {
                assert(t[j] == s@[a + j]);
            }
            lemma_trailing_ws_all(t);
        }
        assert(t.take(t.len() - trailing_ws(t)) =~= s@.subrange(a as int, b as int));
    }
    (a, b)
}

/// The value of a nonempty sequence of decimal digits.
pub open spec fn digits_value(s: Seq<char>) -> int
    decreases s.len(),
{
    if s.len() == 0 {
        0
    } else {
        digits_value(s.drop_last()) * 10 + (s.last() as int - '0' as int)
    }
}

/// Whether every character of `s` is an ASCII digit.
pub open spec fn all_digits(s: Seq<char>) -> bool {
    forall|i: int| 0 <= i < s.len() ==> '0' <= #[trigger] s[i] && s[i] <= '9'
}

/// What `str::parse::<i32>` gives for `s`: an optional `+` or `-` sign
/// followed by at least one ASCII digit, with the value in range.
pub open spec fn spec_parse_i32(s: Seq<char>) -> Option<i32> {
    let neg = s.len() > 0 && s[0] == '-';
    let signed = s.len() > 0 && (s[0] == '-' || s[0] == '+');
    let body = if signed { s.drop_first() } else { s };
    let v = if neg { -digits_value(body) } else { digits_value(body) };
    if body.len() == 0 || !all_digits(body) || !fits_i32(v) {
        None
    } else {
        Some(v as i32)
    }
}

proof fn lemma_digits_value_nonneg(s: Seq<char>)
    requires
        all_digits(s),
    ensures
        digits_value(s) >= 0,
    decreases s.len(),
{
    if s.len() > 0 {
        assert(all_digits(s.drop_last())) by {
            assert forall|i: int| 0 <= i < s.drop_last().len() implies '0' <= #[trigger] s.drop_last()[i]
                && s.drop_last()[i] <= '9' by {
                assert(s.drop_last()[i] == s[i]);
            }
        }
        lemma_digits_value_nonneg(s.drop_last());
    }
}

/// The value of a digit string is at least that of any of its prefixes.
proof fn lemma_digits_value_prefix(s: Seq<char>, k: int)
    requires
        all_digits(s),
        0 <= k <= s.len(),
    ensures
        digits_value(s.take(k)) <= digits_value(s),
    decreases s.len() - k,
{
    if k < s.len() {
        let t = s.take(k + 1);
        assert(t.drop_last() =~= s.take(k));
        assert(all_digits(t)) by {
            assert forall|i: int| 0 <= i < t.len() implies '0' <= #[trigger] t[i] && t[i] <= '9' by {
                assert(t[i] == s[i]);
            }
        }
        assert(all_digits(s.take(k))) by {
            assert forall|i: int| 0 <= i < s.take(k).len() implies '0' <= #[trigger] s.take(k)[i]
                && s.take(k)[i] <= '9' by {
                assert(s.take(k)[i] == s[i]);
            }
        }
        lemma_digits_value_nonneg(s.take(k));
        assert(t.last() == s[k]);
        lemma_digits_value_prefix(s, k + 1);
    } else {
        assert(s.take(k) =~= s);
    }
}

/// Parses a decimal `i32` exactly like `str::parse::<i32>`.
pub fn parse_i32(s: &str) -> (r: Option<i32>)
    ensures
        r == spec_parse_i32(s@),
{
    let n = s.unicode_len();
    if n == 0 {
        return None;
    }
    let c0 = s.get_char(0);
    let neg = c0 == '-';
    let start: usize = if c0 == '-' || c0 == '+' { 1 } else { 0 };
    let ghost body = if c0 == '-' || c0 == '+' { s@.drop_first() } else { s@ };
    assert(body =~= s@.subrange(start as int, n as int));
    assert(s@[0] == c0);
    assert(body == (if s@.len() > 0 && (s@[0] == '-' || s@[0] == '+') { s@.drop_first() } else { s@ }));
    if start == n {
        return None;
    }
    let mut acc: i64 = 0;
    let mut i: usize = start;
    while i < n
        invariant
            n == s@.len(),
            start <= i <= n,
            body == s@.subrange(start as int, n as int),
            body == (if s@.len() > 0 && (s@[0] == '-' || s@[0] == '+') { s@.drop_first() } else { s@ }),
            neg == (s@.len() > 0 && s@[0] == '-'),
            all_digits(body.take(i - start)),
            acc == digits_value(body.take(i - start)),
            0 <= acc <= 0x8000_0000,
        decreases n - i,
    {
        let c = s.get_char(i);
        if !('0' <= c && c <= '9') {
            assert(body[i - start] == c);
            assert(!all_digits(body));
            return None;
        }
        let d = (c as u32 - '0' as u32) as i64;
        let ghost k = i - start;
        assert(body.take(k + 1).drop_last() =~= body.take(k));
        assert(body.take(k + 1).last() == c);
        acc = acc * 10 + d;
        assert(acc == digits_value(body.take(k + 1)));
        assert(all_digits(body.take(k + 1))) by {
            assert forall|j: int| 0 <= j < body.take(k + 1).len() implies '0' <= #[trigger] body.take(
                k + 1,
            )[j] && body.take(k + 1)[j] <= '9' by {
                if j < k {
                    assert(body.take(k + 1)[j] == body.take(k)[j]);
                }
            }
        }
        if acc > 0x8000_0000 {
            proof {
                if all_digits(body) {
                    lemma_digits_value_prefix(body, k + 1);
                    assert(digits_value(body) > 0x8000_0000);
                }
            }
            return None;
        }
        i = i + 1;
    }
    assert(body.take(n - start) =~= body);
    if neg {
        Some((-acc) as i32)
    } else if acc > 0x7fff_ffff {
        None
    } else {
        Some(acc as i32)
    }
}

} // verus!

verus! {

/// The character ranges of the pieces of `s` between separators.
pub open spec fn ranges_match_split(s: Seq<char>, sep: char, r: Seq<(usize, usize)>) -> bool {
    let parts = spec_split(s, sep);
    &&& r.len() == parts.len()
    &&& forall|k: int|
        #![trigger r[k]]
        0 <= k < r.len() ==> {
            &&& r[k].0 <= r[k].1 <= s.len()
            &&& s.subrange(r[k].0 as int, r[k].1 as int) == parts[k]
        }
}

/// Splits `s` on `sep` (like `str::split`), returning the character range
/// of each piece.
pub fn split_ranges(s: &str, sep: char) -> (r: Vec<(usize, usize)>)
    ensures
        ranges_match_split(s@, sep, r@),
{
    let n = s.unicode_len();
    let mut out: Vec<(usize, usize)> = Vec::new();
    let mut start: usize = 0;
    let mut i: usize = 0;
    while i < n
        invariant
            n == s@.len(),
            start <= i <= n,
            ({
                let parts = spec_split(s@.take(i as int), sep);
                &&& parts.len() == out@.len() + 1
                &&& parts.last() == s@.subrange(start as int, i as int)
                &&& forall|k: int|
                    #![trigger out@[k]]
                    0 <= k < out@.len() ==> {
                        &&& out@[k].0 <= out@[k].1 <= start
                        &&& s@.subrange(out@[k].0 as int, out@[k].1 as int) == parts[k]
                    }
            }),
        decreases n - i,
    {
        let c = s.get_char(i);
        let ghost prev = spec_split(s@.take(i as int), sep);
        assert(s@.take(i as int + 1).drop_last() =~= s@.take(i as int));
        assert(s@.take(i as int + 1).last() == c);
        if c == sep {
            out.push((start, i));
            start = i + 1;
            assert(s@.subrange(start as int, i as int + 1) =~= seq![]);
        } else {
            assert(s@.subrange(start as int, i as int + 1) =~= s@.subrange(start as int, i as int).push(c));
        }
        i = i + 1;
    }
    out.push((start, n));
    assert(s@.take(n as int) =~= s@);
    out
}

/// Joins the parts with `sep` between consecutive parts.
pub fn join_strs(parts: &[&str], from: usize, sep: &str) -> (r: String)
    requires
        from <= parts@.len(),
    ensures
        r@ == spec_join(parts@.skip(from as int).map_values(|p: &str| p@), sep@),
{
    let ghost all = parts@.skip(from as int).map_values(|p: &str| p@);
    let mut out = String::from_str("");
    proof {
        reveal_strlit("");
    }
    let mut i = from;
    while i < parts.len()
        invariant
            from <= i <= parts@.len(),
            all == parts@.skip(from as int).map_values(|p: &str| p@),
            out@ == spec_join(all.take(i - from), sep@),
        decreases parts@.len() - i,
    {
        let ghost k = i - from;
        assert(all.take(k + 1).drop_last() =~= all.take(k));
        assert(all.take(k + 1).last() == parts@[i as int]@);
        if i > from {
            out.append(sep);
        } else {
            assert(all.take(1) =~= seq![parts@[i as int]@]);
            assert(out@ =~= seq![]);
        }
        out.append(parts[i]);
        assert(i > from ==> out@ =~= spec_join(all.take(k), sep@) + sep@ + parts@[i as int]@);
        i = i + 1;
    }
    assert(all.take(parts@.len() - from) =~= all);
    out
}

} // verus!

verus! {

/// The decimal digit character for `d < 10`.
pub open spec fn digit_char(d: int) -> char {
    ('0' as int + d) as char
}

/// The decimal representation of `n` (no leading zeros; `"0"` for zero).
pub open spec fn spec_decimal(n: nat) -> Seq<char>
    decreases n,
{
    if n < 10 {
        seq![digit_char(n as int)]
    } else {
        spec_decimal(n / 10).push(digit_char((n % 10) as int))
    }
}

/// The one-character text of a decimal digit.
pub fn digit_str(d: u64) -> (s: &'static str)
    requires
        d < 10,
    ensures
        s@ == seq![digit_char(d as int)],
{
    proof {
        reveal_strlit("0");
        reveal_strlit("1");
        reveal_strlit("2");
        reveal_strlit("3");
        reveal_strlit("4");
        reveal_strlit("5");
        reveal_strlit("6");
        reveal_strlit("7");
        reveal_strlit("8");
        reveal_strlit("9");
    }
    let s = if d == 0 {
        "0"
    } else if d == 1 {
        "1"
    } else if d == 2 {
        "2"
    } else if d == 3 {
        "3"
    } else if d == 4 {
        "4"
    } else if d == 5 {
        "5"
    } else if d == 6 {
        "6"
    } else if d == 7 {
        "7"
    } else if d == 8 {
        "8"
    } else {
        "9"
    };
    assert(s@ =~= seq![digit_char(d as int)]);
    s
}

/// Appends the decimal representation of `n` to `out`.
pub fn push_decimal(out: &mut String, n: u64)
    ensures
        final(out)@ == old(out)@ + spec_decimal(n as nat),
    decreases n,
{
    if n < 10 {
        out.append(digit_str(n));
    } else {
        push_decimal(out, n / 10);
        out.append(digit_str(n % 10));
        assert(spec_decimal(n as nat) == spec_decimal((n / 10) as nat).push(digit_char((n % 10) as int)));
    }
}

/// The decimal representation of `n`.
pub fn decimal_string(n: u64) -> (s: String)
    ensures
        s@ == spec_decimal(n as nat),
{
    let mut s = String::new();
    push_decimal(&mut s, n);
    assert(s@ =~= spec_decimal(n as nat));
    s
}


/// The decimal representation of a signed integer (`-` before negatives).
pub open spec fn spec_signed_decimal(i: int) -> Seq<char> {
    if i < 0 {
        seq!['-'] + spec_decimal((-i) as nat)
    } else {
        spec_decimal(i as nat)
    }
}

/// The decimal representation of `i`, as `i64::to_string` writes it.
pub fn signed_decimal_string(i: i64) -> (s: String)
    ensures
        s@ == spec_signed_decimal(i as int),
{
    if i < 0 {
        let mut s = String::from_str("-");
        proof {
            reveal_strlit("-");
        }
        let magnitude: u64 = (0i128 - (i as i128)) as u64;
        push_decimal(&mut s, magnitude);
        assert(s@ =~= spec_signed_decimal(i as int));
        s
    } else {
        decimal_string(i as u64)
    }
}


/// The whitespace-separated words of `s` still to come, after `done` words
/// and with `cur` the word in progress.
pub open spec fn ws_words_from(s: Seq<char>, done: Seq<Seq<char>>, cur: Seq<char>) -> Seq<Seq<char>>
    decreases s.len(),
{
    if s.len() == 0 {
        if cur.len() > 0 { done.push(cur) } else { done }
    } else if is_ws(s[0]) {
        ws_words_from(s.drop_first(), if cur.len() > 0 { done.push(cur) } else { done }, seq![])
    } else {
        ws_words_from(s.drop_first(), done, cur.push(s[0]))
    }
}

/// The words of `s`: its maximal runs of non-whitespace characters (as
/// `str::split_whitespace` gives them).
pub open spec fn spec_split_whitespace(s: Seq<char>) -> Seq<Seq<char>> {
    ws_words_from(s, seq![], seq![])
}

/// The whitespace-separated words of `s`.
pub fn split_whitespace(s: &str) -> (r: Vec<String>)
    ensures
        r@.map_values(|w: String| w@) == spec_split_whitespace(s@),
{
    let n = s.unicode_len();
    let mut done: Vec<String> = Vec::new();
    let mut start: usize = 0;
    let mut i: usize = 0;
    assert(s@.skip(0) =~= s@);
    assert(done@.map_values(|w: String| w@) =~= Seq::<Seq<char>>::empty());
    assert(s@.subrange(0, 0) =~= Seq::<char>::empty());
    while i < n
        invariant
            n == s@.len(),
            start <= i <= n,
            spec_split_whitespace(s@) == ws_words_from(
                s@.skip(i as int),
                done@.map_values(|w: String| w@),
                s@.subrange(start as int, i as int),
            ),
        decreases n - i,
    {
        let ghost rest = s@.skip(i as int);
        assert(rest[0] == s@[i as int]);
        assert(rest.drop_first() =~= s@.skip(i as int + 1));
        let c = s.get_char(i);
        if is_whitespace(c) {
            if start < i {
                let ghost d = done@.map_values(|w: String| w@);
                let w = String::from_str(s.substring_char(start, i));
                done.push(w);
                assert(done@.map_values(|w: String| w@) =~= d.push(s@.subrange(start as int, i as int)));
            }
            start = i + 1;
            assert(s@.subrange(start as int, i as int + 1) =~= Seq::<char>::empty());
        } else {
            assert(s@.subrange(start as int, i as int + 1) =~= s@.subrange(start as int, i as int).push(c));
        }
        i = i + 1;
    }
    if start < n {
        let ghost d = done@.map_values(|w: String| w@);
        let w = String::from_str(s.substring_char(start, n));
        done.push(w);
        assert(done@.map_values(|w: String| w@) =~= d.push(s@.subrange(start as int, n as int)));
    }
    assert(s@.skip(n as int) =~= Seq::<char>::empty());
    done
}

/// Bytes read one character each (as Latin-1).
pub open spec fn ascii_text(b: Seq<u8>) -> Seq<char> {
    b.map_values(|x: u8| x as char)
}

/// Parses a decimal `i32` written in bytes, as `str::parse::<i32>` parses
/// the same characters.
pub fn parse_i32_ascii(b: &[u8]) -> (r: Option<i32>)
    ensures
        r == spec_parse_i32(ascii_text(b@)),
{
    let ghost s = ascii_text(b@);
    let n = b.len();
    if n == 0 {
        return None;
    }
    let c0 = b[0] as char;
    assert(s[0] == c0);
    let neg = c0 == '-';
    let start: usize = if c0 == '-' || c0 == '+' { 1 } else { 0 };
    let ghost body = if c0 == '-' || c0 == '+' { s.drop_first() } else { s };
    assert(body =~= s.subrange(start as int, n as int));
    assert(body == (if s.len() > 0 && (s[0] == '-' || s[0] == '+') { s.drop_first() } else { s }));
    if start == n {
        return None;
    }
    let mut acc: i64 = 0;
    let mut i: usize = start;
    while i < n
        invariant
            n == s.len(),
            s == ascii_text(b@),
            start <= i <= n,
            body == s.subrange(start as int, n as int),
            body == (if s.len() > 0 && (s[0] == '-' || s[0] == '+') { s.drop_first() } else { s }),
            neg == (s.len() > 0 && s[0] == '-'),
            all_digits(body.take(i - start)),
            acc == digits_value(body.take(i - start)),
            0 <= acc <= 0x8000_0000,
        decreases n - i,
    {
        let c = b[i] as char;
        assert(s[i as int] == c);
        if !('0' <= c && c <= '9') {
            assert(body[i - start] == c);
            assert(!all_digits(body));
            return None;
        }
        let d = (c as u32 - '0' as u32) as i64;
        let ghost k = i - start;
        assert(body.take(k + 1).drop_last() =~= body.take(k));
        assert(body.take(k + 1).last() == c);
        acc = acc * 10 + d;
        assert(acc == digits_value(body.take(k + 1)));
        assert(all_digits(body.take(k + 1))) by {
            assert forall|j: int| 0 <= j < body.take(k + 1).len() implies '0' <= #[trigger] body.take(
                k + 1,
            )[j] && body.take(k + 1)[j] <= '9' by {
                if j < k {
                    assert(body.take(k + 1)[j] == body.take(k)[j]);
                }
            }
        }
        if acc > 0x8000_0000 {
            proof {
                if all_digits(body) {
                    lemma_digits_value_prefix(body, k + 1);
                    assert(digits_value(body) > 0x8000_0000);
                }
            }
            return None;
        }
        i = i + 1;
    }
    assert(body.take(n - start) =~= body);
    if neg {
        Some((-acc) as i32)
    } else if acc > 0x7fff_ffff {
        None
    } else {
        Some(acc as i32)
    }
}

/// What `{:?}` writes for a text (quoted, with quotes, backslashes and
/// unprintable characters escaped).
pub uninterp spec fn debug_text(s: Seq<char>) -> Seq<char>;

/// Formats a text with `{:?}` (the `Debug` impl of `str`).
#[verifier::external_body]
pub(crate) fn text_debug(s: &str) -> (r: String)
    ensures
        r@ == debug_text(s@),
{
    format!("{s:?}")
}

/// What `{:?}` writes for a list of words: each word as `{:?}` writes it,
/// separated by a comma and a space, in square brackets.
pub open spec fn debug_words(w: Seq<Seq<char>>) -> Seq<char> {
    "["@ + spec_join(w.map_values(|x: Seq<char>| debug_text(x)), ", "@) + "]"@
}

/// Formats `parts[from..]` as `{:?}` formats a list of words.
pub fn words_debug(parts: &[&str], from: usize) -> (r: String)
    requires
        from <= parts@.len(),
    ensures
        r@ == debug_words(parts@.skip(from as int).map_values(|p: &str| p@)),
{
    let ghost words = parts@.skip(from as int).map_values(|p: &str| p@);
    let ghost all = words.map_values(|x: Seq<char>| debug_text(x));
    let mut body = String::from_str("");
    proof {
        reveal_strlit("");
    }
    let mut i = from;
    while i < parts.len()
        invariant
            from <= i <= parts@.len(),
            words == parts@.skip(from as int).map_values(|p: &str| p@),
            all == words.map_values(|x: Seq<char>| debug_text(x)),
            body@ == spec_join(all.take(i - from), ", "@),
        decreases parts@.len() - i,
    {
        let ghost k = i - from;
        let d = text_debug(parts[i]);
        assert(words[k] == parts@[i as int]@);
        assert(all.take(k + 1).drop_last() =~= all.take(k));
        assert(all.take(k + 1).last() == d@);
        if i > from {
            body.append(", ");
        } else {
            assert(all.take(1) =~= seq![d@]);
            assert(body@ =~= seq![]);
        }
        body.append(d.as_str());
        assert(i > from ==> body@ =~= spec_join(all.take(k), ", "@) + ", "@ + d@);
        i = i + 1;
    }
    assert(all.take(parts@.len() - from) =~= all);
    let mut out = String::from_str("[");
    out.append(body.as_str());
    out.append("]");
    out
}

} // verus!
