//! The wire format of the command socket.
//!
//! A message is a 4-byte little-endian length followed by that many bytes
//! of payload. A command payload is its words, each followed by a zero
//! byte; a query payload is `query\0` followed by the query name.
use vstd::prelude::*;
use vstd::slice::slice_subrange;
use vstd::utf8::{decode_utf8, encode_utf8, valid_utf8};
use crate::commands::{parse_command, spec_parse_command, Command, CommandView};
use crate::errors::Error;
use crate::text::{ascii_text, parse_i32_ascii, spec_parse_i32};

verus! {

/// The payload of a command: every word followed by a zero byte.
pub open spec fn spec_encode_words(words: Seq<Seq<u8>>) -> Seq<u8>
    decreases words.len(),
{
    if words.len() == 0 {
        seq![]
    } else {
        spec_encode_words(words.drop_last()) + words.last() + seq![0u8]
    }
}

/// The UTF-8 bytes of each word.
pub open spec fn words_bytes(words: Seq<String>) -> Seq<Seq<u8>> {
    words.map_values(|w: String| encode_utf8(w@))
}

/// The four little-endian bytes of `n`.
pub open spec fn spec_le_bytes(n: u32) -> Seq<u8> {
    seq![
        (n % 256) as u8,
        ((n / 256) % 256) as u8,
        ((n / 65536) % 256) as u8,
        (n / 16777216) as u8,
    ]
}

/// The number written by four little-endian bytes.
pub open spec fn spec_from_le(b: Seq<u8>) -> int {
    b[0] + 256 * b[1] + 65536 * b[2] + 16777216 * b[3]
}

/// The four little-endian bytes of `n`.
pub fn le_bytes(n: u32) -> (b: [u8; 4])
    ensures
        b@ == spec_le_bytes(n),
{
    let b = [(n % 256) as u8, ((n / 256) % 256) as u8, ((n / 65536) % 256) as u8, (n / 16777216) as u8];
    assert(b@ =~= spec_le_bytes(n));
    b
}

/// The length announced by a message header.
pub fn frame_len(header: [u8; 4]) -> (n: u32)
    ensures
        n == spec_from_le(header@),
{
    header[0] as u32 + 256 * (header[1] as u32) + 65536 * (header[2] as u32) + 16777216 * (header[3] as u32)
}

/// Law: reading back a header gives the length that was written.
pub proof fn lemma_le_roundtrip(n: u32)
    ensures
        spec_from_le(spec_le_bytes(n)) == n,
{
    assert(spec_le_bytes(n)[0] == n % 256);
    assert(spec_le_bytes(n)[1] == (n / 256) % 256);
    assert(spec_le_bytes(n)[2] == (n / 65536) % 256);
    assert(spec_le_bytes(n)[3] == n / 16777216);
    assert((n % 256) + 256 * ((n / 256) % 256) + 65536 * ((n / 65536) % 256) + 16777216 * (n / 16777216) == n) by (nonlinear_arith)
        requires
            0 <= n < 0x1_0000_0000;
}

/// A framed message: the length header followed by the payload.
pub open spec fn spec_frame(payload: Seq<u8>) -> Seq<u8> {
    spec_le_bytes(payload.len() as u32) + payload
}

/// Frames a payload; `None` when it is too long for a 32-bit length.
pub fn frame(payload: &Vec<u8>) -> (r: Option<Vec<u8>>)
    ensures
        payload@.len() <= u32::MAX ==> (r matches Some(m) && m@ == spec_frame(payload@)),
        payload@.len() > u32::MAX ==> r is None,
{
    if payload.len() > 0xffff_ffff {
        return None;
    }
    let n = payload.len() as u32;
    let h = le_bytes(n);
    let mut out: Vec<u8> = Vec::new();
    out.push(h[0]);
    out.push(h[1]);
    out.push(h[2]);
    out.push(h[3]);
    let mut i: usize = 0;
    while i < payload.len()
        invariant
            i <= payload@.len(),
            out@ == spec_le_bytes(n) + payload@.take(i as int),
        decreases payload@.len() - i,
    {
        out.push(payload[i]);
        assert(payload@.take(i as int + 1) == payload@.take(i as int).push(payload@[i as int]));
        i = i + 1;
    }
    assert(payload@.take(payload@.len() as int) == payload@);
    Some(out)
}

/// The payload of a command: each word's UTF-8 bytes followed by a zero.
pub fn encode_words(words: &Vec<String>) -> (p: Vec<u8>)
    ensures
        p@ == spec_encode_words(words_bytes(words@)),
{
    let ghost ws = words_bytes(words@);
    let mut out: Vec<u8> = Vec::new();
    let mut i: usize = 0;
    while i < words.len()
        invariant
            i <= words@.len(),
            ws == words_bytes(words@),
            out@ == spec_encode_words(ws.take(i as int)),
        decreases words@.len() - i,
    {
        assert(ws.take(i as int + 1).drop_last() =~= ws.take(i as int));
        let bytes = words[i].as_str().as_bytes();
        assert(bytes@ == ws[i as int]);
        let ghost before = out@;
        let mut k: usize = 0;
        while k < bytes.len()
            invariant
                k <= bytes@.len(),
                out@ == before + bytes@.take(k as int),
            decreases bytes@.len() - k,
        {
            out.push(bytes[k]);
            assert(bytes@.take(k as int + 1) == bytes@.take(k as int).push(bytes@[k as int]));
            k = k + 1;
        }
        assert(bytes@.take(bytes@.len() as int) == bytes@);
        out.push(0);
        i = i + 1;
    }
    assert(ws.take(words@.len() as int) =~= ws);
    out
}

/// The framed message sending a command; `None` when it is too long.
pub fn command_message(words: &Vec<String>) -> (r: Option<Vec<u8>>)
    ensures
        ({
            let p = spec_encode_words(words_bytes(words@));
            &&& p.len() <= u32::MAX ==> (r matches Some(m) && m@ == spec_frame(p))
            &&& p.len() > u32::MAX ==> r is None
        }),
{
    let p = encode_words(words);
    frame(&p)
}

/// The nonempty zero-separated pieces of a payload, in order.
pub open spec fn spec_decode_words(buf: Seq<u8>) -> Seq<Seq<u8>> {
    spec_decode_from(buf, seq![], seq![])
}

/// Decoding `buf` with `done` pieces found and `cur` the piece in progress.
pub open spec fn spec_decode_from(buf: Seq<u8>, done: Seq<Seq<u8>>, cur: Seq<u8>) -> Seq<Seq<u8>>
    decreases buf.len(),
{
    if buf.len() == 0 {
        if cur.len() > 0 { done.push(cur) } else { done }
    } else if buf[0] == 0 {
        spec_decode_from(buf.drop_first(), if cur.len() > 0 { done.push(cur) } else { done }, seq![])
    } else {
        spec_decode_from(buf.drop_first(), done, cur.push(buf[0]))
    }
}

/// Splits a command payload on zero bytes, dropping empty pieces.
pub fn decode_words(buf: &[u8]) -> (r: Vec<Vec<u8>>)
    ensures
        r@.map_values(|w: Vec<u8>| w@) == spec_decode_words(buf@),
{
    let mut done: Vec<Vec<u8>> = Vec::new();
    let mut cur: Vec<u8> = Vec::new();
    let mut i: usize = 0;
    assert(buf@.skip(0) =~= buf@);
    assert(done@.map_values(|w: Vec<u8>| w@) =~= Seq::<Seq<u8>>::empty());
    assert(cur@ =~= Seq::<u8>::empty());
    while i < buf.len()
        invariant
            i <= buf@.len(),
            spec_decode_words(buf@) == spec_decode_from(
                buf@.skip(i as int),
                done@.map_values(|w: Vec<u8>| w@),
                cur@,
            ),
        decreases buf@.len() - i,
    {
        let ghost rest = buf@.skip(i as int);
        assert(rest[0] == buf@[i as int]);
        assert(rest.drop_first() =~= buf@.skip(i as int + 1));
        if buf[i] == 0 {
            if cur.len() > 0 {
                let ghost d = done@.map_values(|w: Vec<u8>| w@);
                done.push(cur);
                assert(done@.map_values(|w: Vec<u8>| w@) =~= d.push(cur@));
                cur = Vec::new();
            } else {
                cur = Vec::new();
            }
            assert(cur@ =~= Seq::<u8>::empty());
        } else {
            cur.push(buf[i]);
        }
        i = i + 1;
    }
    if cur.len() > 0 {
        let ghost d = done@.map_values(|w: Vec<u8>| w@);
        done.push(cur);
        assert(done@.map_values(|w: Vec<u8>| w@) =~= d.push(cur@));
    }
    assert(buf@.skip(i as int) =~= Seq::<u8>::empty());
    done
}

/// Whether no word is empty or holds a zero byte.
pub open spec fn plain_words(words: Seq<Seq<u8>>) -> bool {
    forall|i: int| 0 <= i < words.len() ==> #[trigger] words[i].len() > 0 && !words[i].contains(0u8)
}

/// Decoding the encoding of further words appends them to what is done.
proof fn lemma_decode_encode(words: Seq<Seq<u8>>, done: Seq<Seq<u8>>, tail: Seq<u8>)
    requires
        plain_words(words),
    ensures
        spec_decode_from(spec_encode_words(words) + tail, done, seq![]) == spec_decode_from(tail, done + words, seq![]),
    decreases words.len(),
{
    if words.len() > 0 {
        let init = words.drop_last();
        let w = words.last();
        assert(plain_words(init)) by {
            assert forall|i: int| 0 <= i < init.len() implies #[trigger] init[i].len() > 0 && !init[i].contains(0u8) by {
                assert(init[i] == words[i]);
            }
        }
        assert(words[words.len() - 1] == w);
        let rest = w + seq![0u8] + tail;
        assert(spec_encode_words(words) + tail =~= spec_encode_words(init) + rest);
        lemma_decode_encode(init, done, rest);
        lemma_decode_word(w, done + init, tail, seq![]);
        assert(Seq::<u8>::empty() + w =~= w);
        assert((done + init).push(w) =~= done + words);
    } else {
        assert(spec_encode_words(words) + tail =~= tail);
        assert(done + words =~= done);
    }
}

/// Decoding one plain word followed by a zero byte finishes that word.
proof fn lemma_decode_word(w: Seq<u8>, done: Seq<Seq<u8>>, tail: Seq<u8>, cur: Seq<u8>)
    requires
        !w.contains(0u8),
        cur.len() + w.len() > 0,
    ensures
        spec_decode_from(w + seq![0u8] + tail, done, cur) == spec_decode_from(tail, done.push(cur + w), seq![]),
    decreases w.len(),
{
    if w.len() == 0 {
        assert(seq![0u8] + tail =~= (w + seq![0u8] + tail));
        assert((seq![0u8] + tail).drop_first() =~= tail);
        assert(cur + w =~= cur);
    } else {
        let s = w + seq![0u8] + tail;
        assert(s[0] == w[0]);
        assert(w[0] != 0u8) by {
            if w[0] == 0u8 {
                assert(w.contains(0u8));
            }
        }
        let w2 = w.drop_first();
        assert(!w2.contains(0u8)) by {
            if w2.contains(0u8) {
                let k = choose|k: int| 0 <= k < w2.len() && w2[k] == 0u8;
                assert(w[k + 1] == 0u8);
            }
        }
        assert(s.drop_first() =~= w2 + seq![0u8] + tail);
        lemma_decode_word(w2, done, tail, cur.push(w[0]));
        assert(cur.push(w[0]) + w2 =~= cur + w);
    }
}

/// Law: the daemon reads back exactly the words a client sent, provided no
/// word is empty or contains a zero byte.
pub proof fn lemma_words_roundtrip(words: Seq<Seq<u8>>)
    requires
        plain_words(words),
    ensures
        spec_decode_words(spec_encode_words(words)) == words,
{
    lemma_decode_encode(words, seq![], seq![]);
    assert(spec_encode_words(words) + Seq::<u8>::empty() =~= spec_encode_words(words));
    assert(Seq::<Seq<u8>>::empty() + words =~= words);
}

/// The prefix marking a query payload.
pub open spec fn query_prefix() -> Seq<u8> {
    seq![0x71u8, 0x75u8, 0x65u8, 0x72u8, 0x79u8, 0u8]
}

/// What a payload asks for.
#[derive(Clone, Copy, Debug, PartialEq, Eq, Structural)]
pub enum QueryKind {
    State,
    Focused,
    Displays,
    Config,
    /// Every configuration option.
    FullConfig,
    /// Every window, with its display and workspace.
    Windows,
    /// Every workspace, with its display and window count.
    Workspaces,
    /// The window with this identifier (`window:<id>`).
    Window(i32),
    Unknown,
}

/// The prefix of a query for one window, `window:`.
pub open spec fn window_query_prefix() -> Seq<u8> {
    seq![0x77u8, 0x69u8, 0x6eu8, 0x64u8, 0x6fu8, 0x77u8, 0x3au8]
}

/// `b` without its trailing zero bytes.
pub open spec fn trim_trailing_zeros(b: Seq<u8>) -> Seq<u8>
    decreases b.len(),
{
    if b.len() > 0 && b.last() == 0 {
        trim_trailing_zeros(b.drop_last())
    } else {
        b
    }
}

/// The query a query payload names (trailing zero bytes ignored).
pub open spec fn spec_query_kind(name: Seq<u8>) -> QueryKind {
    let q = trim_trailing_zeros(name);
    if q == seq![0x73u8, 0x74u8, 0x61u8, 0x74u8, 0x65u8] {
        QueryKind::State
    } else if q == seq![0x66u8, 0x6fu8, 0x63u8, 0x75u8, 0x73u8, 0x65u8, 0x64u8] {
        QueryKind::Focused
    } else if q == seq![0x64u8, 0x69u8, 0x73u8, 0x70u8, 0x6cu8, 0x61u8, 0x79u8, 0x73u8] {
        QueryKind::Displays
    } else if q == seq![0x63u8, 0x6fu8, 0x6eu8, 0x66u8, 0x69u8, 0x67u8] {
        QueryKind::Config
    } else if q == seq![0x66u8, 0x75u8, 0x6cu8, 0x6cu8, 0x5fu8, 0x63u8, 0x6fu8, 0x6eu8, 0x66u8, 0x69u8, 0x67u8] {
        QueryKind::FullConfig
    } else if q == seq![0x77u8, 0x69u8, 0x6eu8, 0x64u8, 0x6fu8, 0x77u8, 0x73u8] {
        QueryKind::Windows
    } else if q == seq![0x77u8, 0x6fu8, 0x72u8, 0x6bu8, 0x73u8, 0x70u8, 0x61u8, 0x63u8, 0x65u8, 0x73u8] {
        QueryKind::Workspaces
    } else if q.len() >= 7 && q.take(7) == window_query_prefix() && spec_parse_i32(ascii_text(q.skip(7))) is Some {
        QueryKind::Window(spec_parse_i32(ascii_text(q.skip(7)))->0)
    } else {
        QueryKind::Unknown
    }
}

fn bytes_eq(a: &[u8], n: usize, b: &[u8]) -> (r: bool)
    requires
        n <= a@.len(),
    ensures
        r == (a@.take(n as int) == b@),
{
    if n != b.len() {
        return false;
    }
    let mut i: usize = 0;
    while i < n
        invariant
            i <= n,
            n == b@.len(),
            n <= a@.len(),
            forall|k: int| 0 <= k < i ==> a@[k] == b@[k],
        decreases n - i,
    {
        if a[i] != b[i] {
            return false;
        }
        i = i + 1;
    }
    assert(a@.take(n as int) =~= b@);
    true
}

/// Whether a payload is a query (starts with `query\0`).
pub fn is_query(buf: &[u8]) -> (b: bool)
    ensures
        b == (buf@.len() >= 6 && buf@.take(6) == query_prefix()),
{
    if buf.len() < 6 {
        return false;
    }
    let prefix: [u8; 6] = [0x71, 0x75, 0x65, 0x72, 0x79, 0];
    assert(prefix@ =~= query_prefix());
    bytes_eq(buf, 6, &prefix)
}

/// The query named by the bytes after the query prefix.
pub fn query_kind(name: &[u8]) -> (k: QueryKind)
    ensures
        k == spec_query_kind(name@),
{
    let mut n = name.len();
    assert(name@.take(n as int) =~= name@);
    while n > 0 && name[n - 1] == 0
        invariant
            n <= name@.len(),
            trim_trailing_zeros(name@) == trim_trailing_zeros(name@.take(n as int)),
        decreases n,
    {
        assert(name@.take(n as int).drop_last() =~= name@.take(n as int - 1));
        n = n - 1;
    }
    let state: [u8; 5] = [0x73, 0x74, 0x61, 0x74, 0x65];
    let focused: [u8; 7] = [0x66, 0x6f, 0x63, 0x75, 0x73, 0x65, 0x64];
    let displays: [u8; 8] = [0x64, 0x69, 0x73, 0x70, 0x6c, 0x61, 0x79, 0x73];
    let config: [u8; 6] = [0x63, 0x6f, 0x6e, 0x66, 0x69, 0x67];
    assert(state@ =~= seq![0x73u8, 0x74u8, 0x61u8, 0x74u8, 0x65u8]);
    assert(focused@ =~= seq![0x66u8, 0x6fu8, 0x63u8, 0x75u8, 0x73u8, 0x65u8, 0x64u8]);
    assert(displays@ =~= seq![0x64u8, 0x69u8, 0x73u8, 0x70u8, 0x6cu8, 0x61u8, 0x79u8, 0x73u8]);
    assert(config@ =~= seq![0x63u8, 0x6fu8, 0x6eu8, 0x66u8, 0x69u8, 0x67u8]);
    let full_config: [u8; 11] = [0x66, 0x75, 0x6c, 0x6c, 0x5f, 0x63, 0x6f, 0x6e, 0x66, 0x69, 0x67];
    let windows: [u8; 7] = [0x77, 0x69, 0x6e, 0x64, 0x6f, 0x77, 0x73];
    let workspaces: [u8; 10] = [0x77, 0x6f, 0x72, 0x6b, 0x73, 0x70, 0x61, 0x63, 0x65, 0x73];
    let window: [u8; 7] = [0x77, 0x69, 0x6e, 0x64, 0x6f, 0x77, 0x3a];
    assert(full_config@ =~= seq![0x66u8, 0x75u8, 0x6cu8, 0x6cu8, 0x5fu8, 0x63u8, 0x6fu8, 0x6eu8, 0x66u8, 0x69u8, 0x67u8]);
    assert(windows@ =~= seq![0x77u8, 0x69u8, 0x6eu8, 0x64u8, 0x6fu8, 0x77u8, 0x73u8]);
    assert(workspaces@ =~= seq![0x77u8, 0x6fu8, 0x72u8, 0x6bu8, 0x73u8, 0x70u8, 0x61u8, 0x63u8, 0x65u8, 0x73u8]);
    assert(window@ =~= window_query_prefix());
    let ghost q = name@.take(n as int);
    if bytes_eq(name, n, &state) {
        QueryKind::State
    } else if bytes_eq(name, n, &focused) {
        QueryKind::Focused
    } else if bytes_eq(name, n, &displays) {
        QueryKind::Displays
    } else if bytes_eq(name, n, &config) {
        QueryKind::Config
    } else if bytes_eq(name, n, &full_config) {
        QueryKind::FullConfig
    } else if bytes_eq(name, n, &windows) {
        QueryKind::Windows
    } else if bytes_eq(name, n, &workspaces) {
        QueryKind::Workspaces
    } else if n >= 7 && bytes_eq(name, 7, &window) {
        assert(q == trim_trailing_zeros(name@));
        assert(q.take(7) =~= name@.take(7));
        let rest = slice_subrange(name, 7, n);
        assert(rest@ =~= q.skip(7));
        match parse_i32_ascii(rest) {
            Some(id) => QueryKind::Window(id),
            None => QueryKind::Unknown,
        }
    } else {
        assert(q == trim_trailing_zeros(name@));
        if n >= 7 {
            assert(q.take(7) =~= name@.take(7));
        }
        QueryKind::Unknown
    }
}

/// The framed message sending a query: `query\0` then the query's bytes.
pub fn query_message(query: &str) -> (r: Option<Vec<u8>>)
    ensures
        ({
            let p = query_prefix() + encode_utf8(query@);
            &&& p.len() <= u32::MAX ==> (r matches Some(m) && m@ == spec_frame(p))
            &&& p.len() > u32::MAX ==> r is None
        }),
{
    let mut payload: Vec<u8> = Vec::new();
    payload.push(0x71);
    payload.push(0x75);
    payload.push(0x65);
    payload.push(0x72);
    payload.push(0x79);
    payload.push(0);
    let bytes = query.as_bytes();
    let mut k: usize = 0;
    while k < bytes.len()
        invariant
            k <= bytes@.len(),
            bytes@ == encode_utf8(query@),
            payload@ == query_prefix() + bytes@.take(k as int),
        decreases bytes@.len() - k,
    {
        payload.push(bytes[k]);
        assert(bytes@.take(k as int + 1) == bytes@.take(k as int).push(bytes@[k as int]));
        k = k + 1;
    }
    assert(bytes@.take(bytes@.len() as int) == bytes@);
    frame(&payload)
}


/// The text `String::from_utf8_lossy` makes of `bytes`.
pub uninterp spec fn utf8_lossy(bytes: Seq<u8>) -> Seq<char>;

/// Calls `String::from_utf8_lossy`: the text of `bytes`, invalid sequences
/// replaced; valid UTF-8 is decoded unchanged.
#[verifier::external_body]
fn text_of_bytes(bytes: &[u8]) -> (s: String)
    ensures
        s@ == utf8_lossy(bytes@),
        valid_utf8(bytes@) ==> s@ == decode_utf8(bytes@),
{
    String::from_utf8_lossy(bytes).into_owned()
}

/// The words of a command payload as text.
pub open spec fn spec_command_texts(payload: Seq<u8>) -> Seq<Seq<char>> {
    spec_decode_words(payload).map_values(|w: Seq<u8>| word_text(w))
}

/// The text of one word: decoded as it is when it is valid UTF-8, else with
/// invalid sequences replaced.
pub open spec fn word_text(w: Seq<u8>) -> Seq<char> {
    if valid_utf8(w) {
        decode_utf8(w)
    } else {
        utf8_lossy(w)
    }
}

/// The words of a command payload, each converted to text (invalid UTF-8
/// replaced); a word that is valid UTF-8 is decoded as it is.
pub fn command_words(payload: &[u8]) -> (r: Vec<String>)
    ensures
        r@.map_values(|s: String| s@) == spec_command_texts(payload@),
        forall|i: int|
            0 <= i < r@.len() && valid_utf8(spec_decode_words(payload@)[i]) ==> (#[trigger] r@[i])@ == decode_utf8(
                spec_decode_words(payload@)[i],
            ),
{
    let pieces = decode_words(payload);
    let ghost d = spec_decode_words(payload@);
    assert(pieces@.len() == d.len()) by {
        assert(pieces@.map_values(|w: Vec<u8>| w@).len() == pieces@.len());
    }
    let mut out: Vec<String> = Vec::new();
    let mut i: usize = 0;
    while i < pieces.len()
        invariant
            i <= pieces@.len(),
            pieces@.len() == d.len(),
            pieces@.map_values(|w: Vec<u8>| w@) == d,
            out@.len() == i,
            forall|k: int| 0 <= k < i ==> (#[trigger] out@[k])@ == word_text(d[k]),
            forall|k: int| 0 <= k < i && valid_utf8(d[k]) ==> (#[trigger] out@[k])@ == decode_utf8(d[k]),
        decreases pieces@.len() - i,
    {
        assert(pieces@[i as int]@ == d[i as int]);
        let t = text_of_bytes(pieces[i].as_slice());
        out.push(t);
        i = i + 1;
    }
    assert(out@.map_values(|s: String| s@) =~= spec_command_texts(payload@));
    out
}

/// What the daemon makes of a message payload.
pub enum Request {
    /// A query for part of the state.
    Query(QueryKind),
    /// A command, or why its words are not one.
    Command(Result<Command, Error>),
}

/// The daemon's reading of a payload: a query when it starts with the query
/// prefix, else the command its words spell.
pub open spec fn request_matches(r: Request, payload: Seq<u8>) -> bool {
    if payload.len() >= 6 && payload.take(6) == query_prefix() {
        r matches Request::Query(k) && k == spec_query_kind(payload.skip(6))
    } else {
        r matches Request::Command(c) && match c {
            Ok(cmd) => spec_parse_command(spec_command_texts(payload)) == Some(cmd@),
            Err(_) => spec_parse_command(spec_command_texts(payload)) is None,
        }
    }
}

/// Reads a message payload as the daemon does.
pub fn read_request(payload: &[u8]) -> (r: Request)
    ensures
        request_matches(r, payload@),
{
    if is_query(payload) {
        let name = slice_subrange(payload, 6, payload.len());
        assert(name@ =~= payload@.skip(6));
        return Request::Query(query_kind(name));
    }
    let texts = command_words(payload);
    let mut argv: Vec<&str> = Vec::new();
    let mut i: usize = 0;
    while i < texts.len()
        invariant
            i <= texts@.len(),
            argv@.len() == i,
            forall|k: int| 0 <= k < i ==> (#[trigger] argv@[k])@ == texts@[k]@,
        decreases texts@.len() - i,
    {
        argv.push(texts[i].as_str());
        i = i + 1;
    }
    assert(argv@.map_values(|s: &str| s@) =~= texts@.map_values(|s: String| s@));
    Request::Command(parse_command(argv.as_slice()))
}

/// The UTF-8 encoding of each word.
pub open spec fn utf8_words(words: Seq<Seq<char>>) -> Seq<Seq<u8>> {
    words.map_values(|w: Seq<char>| encode_utf8(w))
}

/// Law: the text words a client sends arrive as the same words, when none
/// is empty or holds a zero byte.
pub proof fn lemma_text_words_roundtrip(words: Seq<Seq<char>>)
    requires
        plain_words(utf8_words(words)),
    ensures
        spec_decode_words(spec_encode_words(utf8_words(words))).map_values(
            |b: Seq<u8>| decode_utf8(b),
        ) == words,
        forall|i: int|
            0 <= i < words.len() ==> valid_utf8(
                #[trigger] spec_decode_words(spec_encode_words(utf8_words(words)))[i],
            ),
{
    let bytes = utf8_words(words);
    lemma_words_roundtrip(bytes);
    let back = spec_decode_words(spec_encode_words(bytes));
    assert forall|i: int| 0 <= i < words.len() implies valid_utf8(#[trigger] back[i]) && decode_utf8(back[i]) == words[i] by {
        vstd::utf8::encode_utf8_valid_utf8(words[i]);
        vstd::utf8::encode_utf8_decode_utf8(words[i]);
    }
    assert(back.map_values(|b: Seq<u8>| decode_utf8(b)) =~= words);
}


/// Law: the daemon reads a query payload as the query whose name follows
/// the prefix.
pub proof fn lemma_query_payload_read(name: Seq<u8>, r: Request)
    requires
        request_matches(r, query_prefix() + name),
    ensures
        r matches Request::Query(k) && k == spec_query_kind(name),
{
    let p = query_prefix() + name;
    assert(p.take(6) =~= query_prefix());
    assert(p.skip(6) =~= name);
}

/// Law: a command payload carries its words to the command parser
/// unchanged: the daemon reads the payload of words that are nonempty, hold
/// no zero byte and do not start a query as the command those very words
/// spell (or as no command, exactly when they spell none).
pub proof fn lemma_command_words_reach_parser(words: Seq<Seq<char>>, r: Request)
    requires
        plain_words(utf8_words(words)),
        !(spec_encode_words(utf8_words(words)).len() >= 6 && spec_encode_words(utf8_words(words)).take(6)
            == query_prefix()),
        request_matches(r, spec_encode_words(utf8_words(words))),
    ensures
        r matches Request::Command(c) && match c {
            Ok(cmd) => spec_parse_command(words) == Some(cmd@),
            Err(_) => spec_parse_command(words) is None,
        },
{
    let payload = spec_encode_words(utf8_words(words));
    lemma_text_words_roundtrip(words);
    let back = spec_decode_words(payload);
    assert(spec_command_texts(payload) =~= words) by {
        assert forall|i: int| 0 <= i < words.len() implies #[trigger] spec_command_texts(payload)[i] == words[i] by {
            assert(valid_utf8(back[i]));
            assert(back.map_values(|b: Seq<u8>| decode_utf8(b))[i] == decode_utf8(back[i]));
        }
    }
}

} // verus!
