//! Splitting and matching command lines, and reading numeric arguments.
use vstd::prelude::*;

use super::{answers_to, ascii_lower, is_first_match, words, CommandKind, CommandRegistry, Resolved};
use crate::text::{decimal, digit_char, is_unicode_whitespace, is_whitespace};

verus! {

/// The characters of each string.
pub open spec fn strings_view(v: Seq<String>) -> Seq<Seq<char>> {
    v.map_values(|s: String| s@)
}

/// Splits `s` at whitespace, dropping empty pieces.
pub fn split_whitespace(s: &str) -> (ws: Vec<String>)
    ensures
        strings_view(ws@) == words(s@),
{
    let n = s.unicode_len();
    let mut out: Vec<String> = Vec::new();
    let mut in_word = false;
    let mut start: usize = 0;
    let mut i: usize = 0;
    assert(s@.take(0) =~= Seq::<char>::empty());
    while i < n
        invariant
            n == s@.len(),
            i <= n,
            start <= i,
            in_word <==> (i > 0 && !is_unicode_whitespace(s@[i - 1])),
            in_word ==> (start == 0 || is_unicode_whitespace(s@[start - 1])),
            in_word ==> start < i,
            strings_view(out@) + (if in_word { seq![s@.subrange(start as int, i as int)] } else { Seq::empty() }) == words(s@.take(i as int)),
        decreases n - i,
    {
        let c = s.get_char(i);
        let ghost t = s@.take(i + 1);
        proof {
            assert(t.drop_last() =~= s@.take(i as int));
            assert(t.last() == c);
            if i >= 1 {
                assert(t[t.len() - 2] == s@[i - 1]);
            }
        }
        if is_whitespace(c) {
            if in_word {
                let ghost before = strings_view(out@);
                out.push(s.substring_char(start, i).to_owned());
                assert(strings_view(out@) =~= before.push(s@.subrange(start as int, i as int)));
            }
            in_word = false;
            assert(strings_view(out@) + Seq::<Seq<char>>::empty() =~= strings_view(out@));
        } else if in_word {
            proof {
                let w = words(s@.take(i as int));
                assert(s@.subrange(start as int, i + 1) =~= s@.subrange(start as int, i as int).push(c));
                assert(strings_view(out@) + seq![s@.subrange(start as int, i + 1)] =~= w.update(
                    w.len() - 1,
                    w.last().push(c),
                ));
            }
        } else {
            start = i;
            in_word = true;
            proof {
                assert(s@.subrange(start as int, i + 1) =~= seq![c]);
                assert(strings_view(out@) + seq![s@.subrange(start as int, i + 1)] =~= (strings_view(out@)
                    + Seq::<Seq<char>>::empty()).push(seq![c]));
            }
        }
        i = i + 1;
    }
    if in_word {
        let ghost before = strings_view(out@);
        out.push(s.substring_char(start, n).to_owned());
        assert(strings_view(out@) =~= before.push(s@.subrange(start as int, n as int)));
    }
    assert(s@.take(n as int) =~= s@);
    assert(strings_view(out@) =~= strings_view(out@) + Seq::<Seq<char>>::empty());
    out
}

fn lower(c: char) -> (r: char)
    ensures
        r == ascii_lower(c),
{
    if 'A' <= c && c <= 'Z' {
        let u = c as u32 + 32;
        proof {
            assert(u == (c as u32) + 32);
        }
        char_from_u32(u)
    } else {
        c
    }
}

fn char_from_u32(u: u32) -> (c: char)
    requires
        0x61 <= u <= 0x7A,
    ensures
        c == u as char,
{
    if u == 0x61 { 'a' } else if u == 0x62 { 'b' } else if u == 0x63 { 'c' } else if u == 0x64 { 'd' } else if u == 0x65 { 'e' }
    else if u == 0x66 { 'f' } else if u == 0x67 { 'g' } else if u == 0x68 { 'h' } else if u == 0x69 { 'i' } else if u == 0x6A { 'j' }
    else if u == 0x6B { 'k' } else if u == 0x6C { 'l' } else if u == 0x6D { 'm' } else if u == 0x6E { 'n' } else if u == 0x6F { 'o' }
    else if u == 0x70 { 'p' } else if u == 0x71 { 'q' } else if u == 0x72 { 'r' } else if u == 0x73 { 's' } else if u == 0x74 { 't' }
    else if u == 0x75 { 'u' } else if u == 0x76 { 'v' } else if u == 0x77 { 'w' } else if u == 0x78 { 'x' } else if u == 0x79 { 'y' }
    else { 'z' }
}

/// Whether `word`, ASCII-lower-cased, is `name`.
pub fn lower_eq(word: &str, name: &str) -> (b: bool)
    ensures
        b == (word@.map_values(|c: char| ascii_lower(c)) == name@),
{
    let n = word.unicode_len();
    if n != name.unicode_len() {
        assert(word@.map_values(|c: char| ascii_lower(c)).len() != name@.len());
        return false;
    }
    let mut i: usize = 0;
    while i < n
        invariant
            n == word@.len() == name@.len(),
            i <= n,
            forall|j: int| 0 <= j < i ==> ascii_lower(#[trigger] word@[j]) == name@[j],
        decreases n - i,
    {
        if lower(word.get_char(i)) != name.get_char(i) {
            assert(word@.map_values(|c: char| ascii_lower(c))[i as int] != name@[i as int]);
            return false;
        }
        i = i + 1;
    }
    assert(word@.map_values(|c: char| ascii_lower(c)) =~= name@);
    true
}

fn answers(k: CommandKind, word: &str) -> (b: bool)
    ensures
        b == answers_to(k, word@),
{
    if lower_eq(word, k.name()) {
        return true;
    }
    match k.alias() {
        Some(a) => lower_eq(word, a),
        None => false,
    }
}

impl CommandRegistry {
    /// Splits `line` at whitespace and finds the first registered command
    /// whose name or alias is the first word, ignoring ASCII case.
    pub fn resolve(&self, line: &str) -> (r: Resolved)
        ensures
            ({
                let ws = words(line@);
                match r {
                    Resolved::Empty => ws.len() == 0,
                    Resolved::Unknown(w) => ws.len() > 0 && w@ == ws[0]
                        && forall|i: int| 0 <= i < self.commands@.len() ==> !answers_to(#[trigger] self.commands@[i], ws[0]),
                    Resolved::Found(k, args) => ws.len() > 0 && strings_view(args@) == ws.skip(1)
                        && exists|i: int| is_first_match(self.commands@, ws[0], i) && self.commands@[i] == k,
                }
            }),
    {
        let mut parts = split_whitespace(line);
        if parts.len() == 0 {
            return Resolved::Empty;
        }
        let ghost ws = strings_view(parts@);
        assert(ws == words(line@));
        assert(ws.len() == parts@.len());
        assert(ws[0] == parts@[0]@);
        let first = parts.remove(0);
        assert(strings_view(parts@) =~= ws.skip(1));
        let mut i: usize = 0;
        while i < self.commands.len()
            invariant
                i <= self.commands@.len(),
                ws == words(line@),
                ws.len() > 0,
                strings_view(parts@) == ws.skip(1),
                first@ == ws[0],
                forall|j: int| 0 <= j < i ==> !answers_to(#[trigger] self.commands@[j], ws[0]),
            decreases self.commands@.len() - i,
        {
            if answers(self.commands[i], first.as_str()) {
                assert(is_first_match(self.commands@, ws[0], i as int));
                return Resolved::Found(self.commands[i], parts);
            }
            i = i + 1;
        }
        Resolved::Unknown(first)
    }
}

/// The value of a run of decimal digits.
pub open spec fn digits_value(d: Seq<char>) -> nat
    decreases d.len(),
{
    if d.len() == 0 {
        0
    } else {
        digits_value(d.drop_last()) * 10 + ((d.last() as u32) - ('0' as u32)) as nat
    }
}

pub open spec fn is_digit(c: char) -> bool {
    '0' <= c <= '9'
}

/// What reading `s` as an unsigned integer below `bound` gives: an optional
/// `+`, then at least one decimal digit; `None` otherwise or when too large.
pub open spec fn parse_unsigned(s: Seq<char>, bound: nat) -> Option<nat> {
    let d = unsigned_digits(s);
    if d.len() == 0 || !all_digits(d) || digits_value(d) >= bound {
        None
    } else {
        Some(digits_value(d))
    }
}

/// What follows an optional leading `+`.
pub open spec fn unsigned_digits(s: Seq<char>) -> Seq<char> {
    if s.len() > 0 && s[0] == '+' {
        s.skip(1)
    } else {
        s
    }
}

/// Whether every character of `d` is a decimal digit.
pub open spec fn all_digits(d: Seq<char>) -> bool {
    forall|i: int| 0 <= i < d.len() ==> is_digit(#[trigger] d[i])
}

/// Reads `s` as a `u8` (as `str::parse::<u8>` does).
pub fn parse_u8(s: &str) -> (r: Option<u8>)
    ensures
        match r {
            Some(v) => parse_unsigned(s@, 256) == Some(v as nat),
            None => parse_unsigned(s@, 256) is None,
        },
{
    let n = s.unicode_len();
    let ghost d = unsigned_digits(s@);
    let first = if n > 0 && s.get_char(0) == '+' { 1 } else { 0 };
    assert(d =~= s@.subrange(first as int, n as int));
    if first == n {
        assert(d.len() == 0);
        assert(parse_unsigned(s@, 256) is None);
        return None;
    }
    let mut acc: u32 = 0;
    let mut i = first;
    while i < n
        invariant
            first <= i <= n == s@.len(),
            d == s@.subrange(first as int, n as int),
            d == unsigned_digits(s@),
            forall|j: int| first <= j < i ==> is_digit(#[trigger] s@[j]),
            acc as nat == digits_value(s@.subrange(first as int, i as int)),
            acc < 256,
        decreases n - i,
    {
        let c = s.get_char(i);
        assert(s@.subrange(first as int, i + 1).drop_last() =~= s@.subrange(first as int, i as int));
        if !('0' <= c && c <= '9') {
            assert(d[i - first] == c);
            assert(!is_digit(d[i - first]));
            assert(!all_digits(d));
            return None;
        }
        let v = acc * 10 + (c as u32 - '0' as u32);
        if v >= 256 {
            proof {
                assert(s@.subrange(first as int, i + 1).last() == c);
                assert(digits_value(s@.subrange(first as int, i + 1)) == v);
                if all_digits(d) {
                    lemma_digits_prefix_bound(d, (i + 1 - first) as nat);
                    assert(d.take((i + 1 - first) as int) =~= s@.subrange(first as int, i + 1));
                }
            }
            return None;
        }
        acc = v;
        i = i + 1;
    }
    proof {
        assert forall|j: int| 0 <= j < d.len() implies is_digit(#[trigger] d[j]) by {
            assert(d[j] == s@[first + j]);
        }
        assert(all_digits(d));
        assert(s@.subrange(first as int, n as int) == d);
    }
    Some(acc as u8)
}

/// A prefix of a digit run is worth at most the whole run.
proof fn lemma_digits_prefix_bound(d: Seq<char>, k: nat)
    requires
        k <= d.len(),
        forall|i: int| 0 <= i < d.len() ==> is_digit(#[trigger] d[i]),
    ensures
        digits_value(d.take(k as int)) <= digits_value(d),
    decreases d.len() - k,
{
    if k < d.len() {
        lemma_digits_prefix_bound(d, k + 1);
        assert(d.take((k + 1) as int).drop_last() =~= d.take(k as int));
        assert(digits_value(d.take((k + 1) as int)) >= digits_value(d.take(k as int)) * 10) by (nonlinear_arith)
            requires
                digits_value(d.take((k + 1) as int)) == digits_value(d.take(k as int)) * 10 + ((d[k as int] as u32) - ('0' as u32)) as nat,
        {
        }
    } else {
        assert(d.take(k as int) =~= d);
    }
}

proof fn lemma_decimal_digits(n: nat)
    ensures
        decimal(n).len() > 0,
        all_digits(decimal(n)),
        digits_value(decimal(n)) == n,
    decreases n,
{
    if n < 10 {
        let d = decimal(n);
        assert(d == seq![digit_char(n as int)]);
        assert(d.drop_last() =~= Seq::<char>::empty());
        assert(digits_value(d.drop_last()) == 0);
        assert(d.last() == digit_char(n as int));
        assert((digit_char(n as int) as u32) - ('0' as u32) == n);
        assert(digits_value(d) == n);
    } else {
        lemma_decimal_digits(n / 10);
        let p = decimal(n / 10);
        let d = decimal(n);
        let c = digit_char((n % 10) as int);
        assert(d == p.push(c));
        assert(d.drop_last() =~= p);
        assert((c as u32) - ('0' as u32) == n % 10);
        assert(d.last() == c);
        assert(digits_value(d) == digits_value(p) * 10 + n % 10);
        assert(n == (n / 10) * 10 + n % 10);
        assert(digits_value(d) == n);
        assert forall|i: int| 0 <= i < d.len() implies is_digit(#[trigger] d[i]) by {
            if i < p.len() {
                assert(d[i] == p[i]);
            }
        }
    }
}

/// Reading back the decimal rendering of a byte gives the byte.
pub proof fn lemma_parse_u8_decimal(v: u8)
    ensures
        parse_unsigned(decimal(v as nat), 256) == Some(v as nat),
{
    lemma_decimal_digits(v as nat);
    let d = decimal(v as nat);
    assert(is_digit(d[0]));
    assert(unsigned_digits(d) == d);
}

/// Lower-casing twice is lower-casing once.
proof fn lemma_lower_idempotent(c: char)
    ensures
        ascii_lower(ascii_lower(c)) == ascii_lower(c),
{
}

/// Commands are matched without regard to ASCII case: a word and its
/// lower-cased form name the same commands.
pub proof fn lemma_match_ignores_case(k: CommandKind, word: Seq<char>)
    ensures
        answers_to(k, word) == answers_to(k, word.map_values(|c: char| ascii_lower(c))),
{
    let lower = word.map_values(|c: char| ascii_lower(c));
    let twice = lower.map_values(|c: char| ascii_lower(c));
    assert forall|i: int| 0 <= i < lower.len() implies twice[i] == lower[i] by {
        lemma_lower_idempotent(word[i]);
    }
    assert(twice =~= lower);
}

} // verus!
