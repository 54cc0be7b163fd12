//! Dotted-quad IPv4 text: four decimal octets without leading zeros, joined by dots.

use vstd::prelude::*;
use vstd::string::StrSliceExecFns;

verus! {

/// Whether `c` is one of `0` to `9`.
pub open spec fn is_digit(c: char) -> bool {
    '0' <= c <= '9'
}

/// The character of the decimal digit `d`.
pub open spec fn digit_char(d: int) -> char {
    (d + 48) as char
}

/// The value of the decimal digit `c`.
pub open spec fn digit_value(c: char) -> int {
    c as int - 48
}

/// The decimal text of an octet, without leading zeros.
pub open spec fn octet_text(o: u8) -> Seq<char> {
    if o < 10 {
        seq![digit_char(o as int)]
    } else if o < 100 {
        seq![digit_char(o as int / 10), digit_char(o as int % 10)]
    } else {
        seq![digit_char(o as int / 100), digit_char(o as int / 10 % 10), digit_char(o as int % 10)]
    }
}

/// The dotted-quad text of four octets.
pub open spec fn ipv4_text(a: u8, b: u8, c: u8, d: u8) -> Seq<char> {
    octet_text(a) + seq!['.'] + octet_text(b) + seq!['.'] + octet_text(c) + seq!['.'] + octet_text(
        d,
    )
}

/// How many digits stand at `at`, counted up to four.
pub open spec fn digits_at(s: Seq<char>, at: int) -> int {
    if !(at < s.len() && is_digit(s[at])) {
        0
    } else if !(at + 1 < s.len() && is_digit(s[at + 1])) {
        1
    } else if !(at + 2 < s.len() && is_digit(s[at + 2])) {
        2
    } else if !(at + 3 < s.len() && is_digit(s[at + 3])) {
        3
    } else {
        4
    }
}

/// The octet written at `at` and the position behind it: one to three digits, no
/// leading zero unless the octet is the single digit `0`, and a value of at most 255.
pub open spec fn octet_at(s: Seq<char>, at: int) -> Option<(u8, int)> {
    let n = digits_at(s, at);
    let d0 = digit_value(s[at]);
    let d1 = digit_value(s[at + 1]);
    let d2 = digit_value(s[at + 2]);
    if n == 1 {
        Some((d0 as u8, at + 1))
    } else if n == 2 && d0 != 0 {
        Some(((d0 * 10 + d1) as u8, at + 2))
    } else if n == 3 && d0 != 0 && d0 * 100 + d1 * 10 + d2 <= 255 {
        Some(((d0 * 100 + d1 * 10 + d2) as u8, at + 3))
    } else {
        None
    }
}

/// The octet at `at` when a dot follows it, and the position behind the dot.
pub open spec fn dotted_octet_at(s: Seq<char>, at: int) -> Option<(u8, int)> {
    match octet_at(s, at) {
        Some((o, next)) => if next < s.len() && s[next] == '.' {
            Some((o, next + 1))
        } else {
            None
        },
        None => None,
    }
}

/// The four octets that `s` writes in dotted-quad form, if it is such a text.
pub open spec fn parse_ipv4_text(s: Seq<char>) -> Option<Seq<u8>> {
    match dotted_octet_at(s, 0) {
        Some((a, p1)) => match dotted_octet_at(s, p1) {
            Some((b, p2)) => match dotted_octet_at(s, p2) {
                Some((c, p3)) => match octet_at(s, p3) {
                    Some((d, p4)) => if p4 == s.len() {
                        Some(seq![a, b, c, d])
                    } else {
                        None
                    },
                    None => None,
                },
                None => None,
            },
            None => None,
        },
        None => None,
    }
}

/// An octet's text, wherever it stands, reads back as the octet, provided that no
/// digit follows it.
pub proof fn lemma_octet_at_text(s: Seq<char>, at: int, o: u8)
    requires
        0 <= at,
        at + octet_text(o).len() <= s.len(),
        s.subrange(at, at + octet_text(o).len()) == octet_text(o),
        at + octet_text(o).len() == s.len() || !is_digit(s[at + octet_text(o).len()]),
    ensures
        octet_at(s, at) == Some((o, at + octet_text(o).len())),
{
    let t = octet_text(o);
    let piece = s.subrange(at, at + t.len());
    assert(forall|i: int| 0 <= i < t.len() ==> s[at + i] == #[trigger] piece[i]);
    assert(piece[0] == t[0]);
    if o >= 10 {
        assert(piece[1] == t[1]);
    }
    if o >= 100 {
        assert(piece[2] == t[2]);
    }
}

/// What reads as an octet is that octet's text.
pub proof fn lemma_octet_at_sound(s: Seq<char>, at: int)
    requires
        0 <= at,
        octet_at(s, at) is Some,
    ensures
        ({
            let (o, next) = octet_at(s, at)->0;
            &&& next == at + octet_text(o).len()
            &&& next <= s.len()
            &&& s.subrange(at, next) == octet_text(o)
        }),
{
    let (o, next) = octet_at(s, at)->0;
    assert(s.subrange(at, next) =~= octet_text(o));
}

/// Writing four octets in dotted-quad form and reading the text back gives the octets.
pub proof fn lemma_parse_ipv4_text_of_octets(a: u8, b: u8, c: u8, d: u8)
    ensures
        parse_ipv4_text(ipv4_text(a, b, c, d)) == Some(seq![a, b, c, d]),
{
    let s = ipv4_text(a, b, c, d);
    let p1 = octet_text(a).len() as int + 1;
    let p2 = p1 + octet_text(b).len() + 1;
    let p3 = p2 + octet_text(c).len() + 1;
    let p4 = p3 + octet_text(d).len();
    assert(s.len() == p4);
    assert(s.subrange(0, p1 - 1) =~= octet_text(a));
    assert(s[p1 - 1] == '.');
    lemma_octet_at_text(s, 0, a);
    assert(s.subrange(p1, p2 - 1) =~= octet_text(b));
    assert(s[p2 - 1] == '.');
    lemma_octet_at_text(s, p1, b);
    assert(s.subrange(p2, p3 - 1) =~= octet_text(c));
    assert(s[p3 - 1] == '.');
    lemma_octet_at_text(s, p2, c);
    assert(s.subrange(p3, p4) =~= octet_text(d));
    lemma_octet_at_text(s, p3, d);
}

/// A text that reads as four octets is the dotted-quad form of exactly those octets.
pub proof fn lemma_parse_ipv4_text_sound(s: Seq<char>)
    requires
        parse_ipv4_text(s) is Some,
    ensures
        ({
            let o = parse_ipv4_text(s)->0;
            &&& o.len() == 4
            &&& s == ipv4_text(o[0], o[1], o[2], o[3])
        }),
{
    let (a, p1) = dotted_octet_at(s, 0)->0;
    let (b, p2) = dotted_octet_at(s, p1)->0;
    let (c, p3) = dotted_octet_at(s, p2)->0;
    let (d, p4) = octet_at(s, p3)->0;
    lemma_octet_at_sound(s, 0);
    lemma_octet_at_sound(s, p1);
    lemma_octet_at_sound(s, p2);
    lemma_octet_at_sound(s, p3);
    let t = ipv4_text(a, b, c, d);
    assert(s.len() == t.len());
    assert forall|i: int| 0 <= i < s.len() implies s[i] == t[i] by {
        if i < p1 - 1 {
            assert(s[i] == s.subrange(0, p1 - 1)[i]);
        } else if i == p1 - 1 {
        } else if i < p2 - 1 {
            assert(s[i] == s.subrange(p1, p2 - 1)[i - p1]);
        } else if i == p2 - 1 {
        } else if i < p3 - 1 {
            assert(s[i] == s.subrange(p2, p3 - 1)[i - p2]);
        } else if i == p3 - 1 {
        } else {
            assert(s[i] == s.subrange(p3, p4)[i - p3]);
        }
    }
    assert(s =~= t);
}

/// Reads the octet written at `at`.
pub fn read_octet(s: &str, len: usize, at: usize) -> (res: Option<(u8, usize)>)
    requires
        len == s@.len(),
        at <= len,
    ensures
        match res {
            Some((o, next)) => octet_at(s@, at as int) == Some((o, next as int)) && next <= len,
            None => octet_at(s@, at as int) is None,
        },
{
    let left = len - at;
    if left == 0 {
        return None;
    }
    let c0 = s.get_char(at);
    if !(c0 >= '0' && c0 <= '9') {
        return None;
    }
    let d0: u32 = c0 as u32 - 48;
    if left == 1 {
        return Some((d0 as u8, at + 1));
    }
    let c1 = s.get_char(at + 1);
    if !(c1 >= '0' && c1 <= '9') {
        return Some((d0 as u8, at + 1));
    }
    if d0 == 0 {
        return None;
    }
    let d1: u32 = c1 as u32 - 48;
    if left == 2 {
        return Some(((d0 * 10 + d1) as u8, at + 2));
    }
    let c2 = s.get_char(at + 2);
    if !(c2 >= '0' && c2 <= '9') {
        return Some(((d0 * 10 + d1) as u8, at + 2));
    }
    let d2: u32 = c2 as u32 - 48;
    if left > 3 {
        let c3 = s.get_char(at + 3);
        if c3 >= '0' && c3 <= '9' {
            return None;
        }
    }
    let v: u32 = d0 * 100 + d1 * 10 + d2;
    if v > 255 {
        return None;
    }
    Some((v as u8, at + 3))
}

/// Reads the octet written at `at` and the dot behind it.
pub fn read_dotted_octet(s: &str, len: usize, at: usize) -> (res: Option<(u8, usize)>)
    requires
        len == s@.len(),
        at <= len,
    ensures
        match res {
            Some((o, next)) => dotted_octet_at(s@, at as int) == Some((o, next as int)) && next
                <= len,
            None => dotted_octet_at(s@, at as int) is None,
        },
{
    match read_octet(s, len, at) {
        Some((o, next)) => {
            if next < len && s.get_char(next) == '.' {
                Some((o, next + 1))
            } else {
                None
            }
        },
        None => None,
    }
}

/// Where a dotted quad that starts at `at` ends, if one starts there.
pub open spec fn ipv4_end_at(s: Seq<char>, at: int) -> Option<int> {
    match dotted_octet_at(s, at) {
        Some((a, p1)) => match dotted_octet_at(s, p1) {
            Some((b, p2)) => match dotted_octet_at(s, p2) {
                Some((c, p3)) => match octet_at(s, p3) {
                    Some((d, p4)) => Some(p4),
                    None => None,
                },
                None => None,
            },
            None => None,
        },
        None => None,
    }
}

/// Finds where a dotted quad that starts at `at` ends.
pub fn read_ipv4_at(s: &str, len: usize, at: usize) -> (res: Option<usize>)
    requires
        len == s@.len(),
        at <= len,
    ensures
        match res {
            Some(next) => ipv4_end_at(s@, at as int) == Some(next as int) && next <= len,
            None => ipv4_end_at(s@, at as int) is None,
        },
{
    if let Some((_, p1)) = read_dotted_octet(s, len, at) {
        if let Some((_, p2)) = read_dotted_octet(s, len, p1) {
            if let Some((_, p3)) = read_dotted_octet(s, len, p2) {
                if let Some((_, p4)) = read_octet(s, len, p3) {
                    return Some(p4);
                }
            }
        }
    }
    None
}

/// Reads a dotted-quad IPv4 address.
///
/// The result is `Some` exactly for the texts that four octets write, each in decimal
/// without leading zeros, and then holds those octets.
pub fn parse_ipv4(s: &str) -> (res: Option<[u8; 4]>)
    ensures
        match res {
            Some(o) => parse_ipv4_text(s@) == Some(o@) && s@ == ipv4_text(o[0], o[1], o[2], o[3]),
            None => parse_ipv4_text(s@) is None && forall|a: u8, b: u8, c: u8, d: u8|
                s@ != #[trigger] ipv4_text(a, b, c, d),
        },
{
    let len = s.unicode_len();
    if len > 15 {
        proof {
            if parse_ipv4_text(s@) is Some {
                lemma_parse_ipv4_text_sound(s@);
            }
            assert forall|a: u8, b: u8, c: u8, d: u8| s@ != #[trigger] ipv4_text(a, b, c, d) by {
                assert(ipv4_text(a, b, c, d).len() <= 15);
            }
        }
        return None;
    }
    let mut res: Option<[u8; 4]> = None;
    if let Some((a, p1)) = read_dotted_octet(s, len, 0) {
        if let Some((b, p2)) = read_dotted_octet(s, len, p1) {
            if let Some((c, p3)) = read_dotted_octet(s, len, p2) {
                if let Some((d, p4)) = read_octet(s, len, p3) {
                    if p4 == len {
                        let o: [u8; 4] = [a, b, c, d];
                        assert(o@ =~= seq![a, b, c, d]);
                        res = Some(o);
                    }
                }
            }
        }
    }
    proof {
        if res is Some {
            lemma_parse_ipv4_text_sound(s@);
        } else {
            assert forall|a: u8, b: u8, c: u8, d: u8| s@ != #[trigger] ipv4_text(a, b, c, d) by {
                lemma_parse_ipv4_text_of_octets(a, b, c, d);
            }
        }
    }
    res
}

} // verus!
