//! Character-level helpers: decimal rendering of integers, the textual
//! identifiers of users and worlds, and the small string transformations the
//! relay performs (trailing-slash trimming, prefix stripping, ASCII
//! lower-casing, whitespace splitting).
use vstd::prelude::*;
use vstd::utf8::{encode_utf8, encode_utf8_decode_utf8};

verus! {

/// The character of a decimal digit `d` (`0 <= d < 10`).
pub open spec fn digit_char(d: int) -> char {
    if d == 0 {
        '0'
    } else if d == 1 {
        '1'
    } else if d == 2 {
        '2'
    } else if d == 3 {
        '3'
    } else if d == 4 {
        '4'
    } else if d == 5 {
        '5'
    } else if d == 6 {
        '6'
    } else if d == 7 {
        '7'
    } else if d == 8 {
        '8'
    } else {
        '9'
    }
}

/// The shortest decimal rendering of `n` (no sign, no leading zeros).
pub open spec fn decimal(n: nat) -> Seq<char>
    decreases n,
{
    if n < 10 {
        seq![digit_char(n as int)]
    } else {
        decimal(n / 10).push(digit_char((n % 10) as int))
    }
}

fn digit_str(d: u64) -> (s: &'static str)
    requires
        d < 10,
    ensures
        s@ == seq![digit_char(d as int)],
{
    proof {
        reveal_strlit("0");
        reveal_strlit("1");
        reveal_strlit("2");
        reveal_strlit("3");
        reveal_strlit("4");
        reveal_strlit("5");
        reveal_strlit("6");
        reveal_strlit("7");
        reveal_strlit("8");
        reveal_strlit("9");
    }
    if d == 0 {
        "0"
    } else if d == 1 {
        "1"
    } else if d == 2 {
        "2"
    } else if d == 3 {
        "3"
    } else if d == 4 {
        "4"
    } else if d == 5 {
        "5"
    } else if d == 6 {
        "6"
    } else if d == 7 {
        "7"
    } else if d == 8 {
        "8"
    } else {
        "9"
    }
}

/// Appends the decimal rendering of `n` to `s`.
pub fn push_decimal(s: &mut String, n: u64)
    ensures
        final(s)@ == old(s)@ + decimal(n as nat),
    decreases n,
{
    if n < 10 {
        let d = digit_str(n);
        s.append(d);
    } else {
        push_decimal(s, n / 10);
        let d = digit_str(n % 10);
        s.append(d);
        assert(decimal(n as nat) == decimal((n / 10) as nat).push(digit_char((n % 10) as int)));
    }
}

/// The decimal rendering of `n` as a fresh string.
pub fn to_decimal(n: u64) -> (s: String)
    ensures
        s@ == decimal(n as nat),
{
    let mut s = String::new();
    push_decimal(&mut s, n);
    s
}

/// Appends the characters of `t` to `s`.
pub fn push_str(s: &mut String, t: &str)
    ensures
        final(s)@ == old(s)@ + t@,
{
    s.append(t);
}

/// `chars` with every trailing `'/'` removed.
pub open spec fn trim_trailing_slashes(chars: Seq<char>) -> Seq<char>
    decreases chars.len(),
{
    if chars.len() > 0 && chars.last() == '/' {
        trim_trailing_slashes(chars.drop_last())
    } else {
        chars
    }
}

/// The number of characters that remain of `chars` once trailing `'/'` are removed.
fn trimmed_len(s: &str) -> (n: usize)
    ensures
        s@.subrange(0, n as int) == trim_trailing_slashes(s@),
        n <= s@.len(),
{
    let mut n = s.unicode_len();
    assert(s@.subrange(0, n as int) =~= s@);
    while n > 0 && s.get_char(n - 1) == '/'
        invariant
            n <= s@.len(),
            trim_trailing_slashes(s@.subrange(0, n as int)) == trim_trailing_slashes(s@),
        decreases n,
    {
        assert(s@.subrange(0, n as int).drop_last() =~= s@.subrange(0, n - 1));
        n = n - 1;
    }
    n
}

/// Whether `p` is a prefix of `s`.
pub open spec fn has_prefix(s: Seq<char>, p: Seq<char>) -> bool {
    p.len() <= s.len() && s.subrange(0, p.len() as int) == p
}

fn starts_with(s: &str, len: usize, p: &str) -> (b: bool)
    requires
        len <= s@.len(),
    ensures
        b == has_prefix(s@.subrange(0, len as int), p@),
{
    let pl = p.unicode_len();
    if pl > len {
        return false;
    }
    let mut i: usize = 0;
    while i < pl
        invariant
            pl == p@.len(),
            pl <= len <= s@.len(),
            i <= pl,
            forall|j: int| 0 <= j < i ==> s@[j] == p@[j],
        decreases pl - i,
    {
        if s.get_char(i) != p.get_char(i) {
            assert(s@.subrange(0, len as int).subrange(0, pl as int)[i as int] != p@[i as int]);
            return false;
        }
        i = i + 1;
    }
    assert(s@.subrange(0, len as int).subrange(0, pl as int) =~= p@);
    true
}

/// The WebSocket URL derived from a node gateway address: trailing slashes are
/// dropped, `https://` becomes `wss://`, `http://` becomes `ws://`, a bare host
/// gets `ws://`, and `/api/ws` is appended.
pub open spec fn ws_url(gateway: Seq<char>) -> Seq<char> {
    let clean = trim_trailing_slashes(gateway);
    let https = "https://"@;
    let http = "http://"@;
    if has_prefix(clean, https) {
        "wss://"@ + clean.subrange(https.len() as int, clean.len() as int) + "/api/ws"@
    } else if has_prefix(clean, http) {
        "ws://"@ + clean.subrange(http.len() as int, clean.len() as int) + "/api/ws"@
    } else {
        "ws://"@ + clean + "/api/ws"@
    }
}

/// Builds the WebSocket URL of the node server from its gateway address.
pub fn build_ws_url(node_gateway: &str) -> (url: String)
    ensures
        url@ == ws_url(node_gateway@),
{
    let n = trimmed_len(node_gateway);
    let clean = node_gateway.substring_char(0, n);
    let https: &str = "https://";
    let http: &str = "http://";
    let wss: &str = "wss://";
    let ws: &str = "ws://";
    let tail: &str = "/api/ws";
    proof {
        reveal_strlit("https://");
        reveal_strlit("http://");
    }
    let mut url = String::new();
    if starts_with(node_gateway, n, https) {
        url.append(wss);
        url.append(clean.substring_char(8, n));
    } else if starts_with(node_gateway, n, http) {
        url.append(ws);
        url.append(clean.substring_char(7, n));
    } else {
        url.append(ws);
        url.append(clean);
    }
    url.append(tail);
    url
}


/// Whether two strings hold the same characters.
pub fn str_eq(a: &str, b: &str) -> (r: bool)
    ensures
        r == (a@ == b@),
{
    let x = a.as_bytes();
    let y = b.as_bytes();
    proof {
        encode_utf8_decode_utf8(a@);
        encode_utf8_decode_utf8(b@);
    }
    assert(x@ == encode_utf8(a@));
    assert(y@ == encode_utf8(b@));
    if x.len() != y.len() {
        return false;
    }
    let mut i: usize = 0;
    while i < x.len()
        invariant
            x@ == encode_utf8(a@),
            y@ == encode_utf8(b@),
            x@.len() == y@.len(),
            i <= x@.len(),
            forall|j: int| 0 <= j < i ==> x@[j] == y@[j],
        decreases x@.len() - i,
    {
        if x[i] != y[i] {
            assert(x@ != y@);
            return false;
        }
        i = i + 1;
    }
    assert(x@ =~= y@);
    true
}

/// Whether `c` has the Unicode `White_Space` property (what `char::is_whitespace` tests).
pub open spec fn is_unicode_whitespace(c: char) -> bool {
    let u = c as u32;
    (0x09 <= u <= 0x0D) || u == 0x20 || u == 0x85 || u == 0xA0 || u == 0x1680 || (0x2000 <= u <= 0x200A)
        || u == 0x2028 || u == 0x2029 || u == 0x202F || u == 0x205F || u == 0x3000
}

/// Whether `c` is Unicode whitespace.
pub fn is_whitespace(c: char) -> (b: bool)
    ensures
        b == is_unicode_whitespace(c),
{
    let u = c as u32;
    (0x09 <= u && u <= 0x0D) || u == 0x20 || u == 0x85 || u == 0xA0 || u == 0x1680 || (0x2000 <= u && u <= 0x200A)
        || u == 0x2028 || u == 0x2029 || u == 0x202F || u == 0x205F || u == 0x3000
}

/// Whether `s` holds nothing but whitespace (so that trimming it leaves nothing).
pub open spec fn is_blank(s: Seq<char>) -> bool {
    forall|i: int| 0 <= i < s.len() ==> is_unicode_whitespace(#[trigger] s[i])
}

/// Whether `s` trims to the empty string.
pub fn blank(s: &str) -> (b: bool)
    ensures
        b == is_blank(s@),
{
    let n = s.unicode_len();
    let mut i: usize = 0;
    while i < n
        invariant
            n == s@.len(),
            i <= n,
            forall|j: int| 0 <= j < i ==> is_unicode_whitespace(#[trigger] s@[j]),
        decreases n - i,
    {
        if !is_whitespace(s.get_char(i)) {
            return false;
        }
        i = i + 1;
    }
    true
}

/// `"Player {id}"`, the name shown for a player with neither pseudonym nor user.
pub open spec fn default_player_name(id: u16) -> Seq<char> {
    "Player "@ + decimal(id as nat)
}

/// `"Player {id}"`.
pub fn player_name(id: u16) -> (s: String)
    ensures
        s@ == default_player_name(id),
{
    let mut s = String::new();
    s.append("Player ");
    push_decimal(&mut s, id as u64);
    s
}

} // verus!
