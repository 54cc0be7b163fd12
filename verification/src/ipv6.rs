//! IPv6 address text: groups of one to four hexadecimal digits joined by colons, at
//! most one `::` standing for one or more zero groups, and optionally a dotted quad in
//! place of the last two groups.

use crate::ipv4::{ipv4_end_at, read_ipv4_at};
use vstd::prelude::*;
use vstd::string::StrSliceExecFns;

verus! {

/// Whether `c` is a hexadecimal digit, in either case.
pub open spec fn is_hex_digit(c: char) -> bool {
    ('0' <= c <= '9') || ('a' <= c <= 'f') || ('A' <= c <= 'F')
}

/// How many hexadecimal digits stand at `at`, counted up to five.
pub open spec fn hex_digits_at(s: Seq<char>, at: int) -> int {
    if !(at < s.len() && is_hex_digit(s[at])) {
        0
    } else if !(at + 1 < s.len() && is_hex_digit(s[at + 1])) {
        1
    } else if !(at + 2 < s.len() && is_hex_digit(s[at + 2])) {
        2
    } else if !(at + 3 < s.len() && is_hex_digit(s[at + 3])) {
        3
    } else if !(at + 4 < s.len() && is_hex_digit(s[at + 4])) {
        4
    } else {
        5
    }
}

/// Where the group that starts at `at` ends: behind its one to four digits.
pub open spec fn group_end_at(s: Seq<char>, at: int) -> Option<int> {
    let n = hex_digits_at(s, at);
    if 1 <= n <= 4 {
        Some(at + n)
    } else {
        None
    }
}

/// Where the item with index `i` of a colon-separated list starts when the list has
/// been read up to `at`: right there for the first item, behind a colon for the others.
pub open spec fn item_start(s: Seq<char>, at: int, i: int) -> Option<int> {
    if i == 0 {
        Some(at)
    } else if at < s.len() && s[at] == ':' {
        Some(at + 1)
    } else {
        None
    }
}

/// What a run of groups looks like.
pub struct GroupRun {
    /// How many 16-bit groups were read; a dotted quad counts as two.
    pub count: int,
    /// The position behind the run.
    pub end: int,
    /// Whether the run ends with a dotted quad.
    pub dotted: bool,
}

/// Reads groups from `at` on, of which `i` have been read already, until `limit` are
/// read or no further group follows. A dotted quad is taken when at least two groups
/// are still wanted, and ends the run.
pub open spec fn groups_at(s: Seq<char>, at: int, limit: int, i: int) -> GroupRun
    decreases limit - i,
{
    if i >= limit {
        GroupRun { count: i, end: at, dotted: false }
    } else {
        match item_start(s, at, i) {
            None => GroupRun { count: i, end: at, dotted: false },
            Some(start) => if i < limit - 1 && ipv4_end_at(s, start) is Some {
                GroupRun { count: i + 2, end: ipv4_end_at(s, start)->0, dotted: true }
            } else {
                match group_end_at(s, start) {
                    Some(next) => groups_at(s, next, limit, i + 1),
                    None => GroupRun { count: i, end: at, dotted: false },
                }
            },
        }
    }
}

/// What a reader makes of `s` that takes groups as long as they come: it reads up to
/// eight groups; with fewer than eight it wants `::` next and then reads as many
/// groups as are still missing, less one; and it must then stand at the end of `s`.
pub open spec fn reads_as_ipv6(s: Seq<char>) -> bool {
    let head = groups_at(s, 0, 8, 0);
    if head.count == 8 {
        head.end == s.len()
    } else if head.dotted {
        false
    } else if !(head.end + 1 < s.len() && s[head.end] == ':' && s[head.end + 1] == ':') {
        false
    } else {
        groups_at(s, head.end + 2, 7 - head.count, 0).end == s.len()
    }
}

/// Where a list of `k` colon-separated groups that starts at `at` ends.
pub open spec fn groups_end(s: Seq<char>, at: int, k: nat) -> Option<int>
    decreases k,
{
    if k == 0 {
        Some(at)
    } else {
        match groups_end(s, at, (k - 1) as nat) {
            None => None,
            Some(p) => match item_start(s, p, k - 1) {
                None => None,
                Some(start) => group_end_at(s, start),
            },
        }
    }
}

/// Where a list of `k` colon-separated groups and a dotted quad behind them ends.
pub open spec fn groups_and_quad_end(s: Seq<char>, at: int, k: nat) -> Option<int> {
    match groups_end(s, at, k) {
        None => None,
        Some(p) => match item_start(s, p, k as int) {
            None => None,
            Some(start) => ipv4_end_at(s, start),
        },
    }
}

/// Whether `s` is `k` groups, `::`, and then what stands for `m` groups up to the end:
/// `m` groups, or `m - 2` groups and a dotted quad.
pub open spec fn is_compressed_ipv6(s: Seq<char>, k: nat, m: nat) -> bool {
    match groups_end(s, 0, k) {
        None => false,
        Some(p) => {
            &&& p + 1 < s.len()
            &&& s[p] == ':'
            &&& s[p + 1] == ':'
            &&& {
                ||| groups_end(s, p + 2, m) == Some(s.len() as int)
                ||| (m >= 2 && groups_and_quad_end(s, p + 2, (m - 2) as nat) == Some(
                    s.len() as int,
                ))
            }
        },
    }
}

/// Whether `s` is the text of an IPv6 address: eight groups; or six groups and a dotted
/// quad; or fewer groups with one `::` among them, which stands for at least one group,
/// where a dotted quad may take the place of the last two groups.
pub open spec fn is_ipv6_text(s: Seq<char>) -> bool {
    ||| groups_end(s, 0, 8) == Some(s.len() as int)
    ||| groups_and_quad_end(s, 0, 6) == Some(s.len() as int)
    ||| exists|k: nat, m: nat| k + m <= 7 && #[trigger] is_compressed_ipv6(s, k, m)
}

/// A group that no dot follows is not the start of a dotted quad.
pub proof fn lemma_group_is_no_quad(s: Seq<char>, start: int)
    requires
        0 <= start,
        group_end_at(s, start) is Some,
        group_end_at(s, start)->0 == s.len() || s[group_end_at(s, start)->0] != '.',
    ensures
        ipv4_end_at(s, start) is None,
{
}

/// Nothing can be read where a colon stands or the text ends.
pub proof fn lemma_nothing_at_colon(s: Seq<char>, at: int)
    requires
        0 <= at,
        at >= s.len() || s[at] == ':',
    ensures
        ipv4_end_at(s, at) is None,
        group_end_at(s, at) is None,
{
}

/// A reader that has taken `n` groups of a list of groups takes them all, provided
/// that no dot follows the list.
pub proof fn lemma_reader_takes_groups(s: Seq<char>, at: int, limit: int, n: nat)
    requires
        0 <= at,
        n <= limit,
        groups_end(s, at, n) is Some,
        groups_end(s, at, n)->0 == s.len() || s[groups_end(s, at, n)->0] != '.',
    ensures
        groups_at(s, at, limit, 0) == groups_at(s, groups_end(s, at, n)->0, limit, n as int),
        at <= groups_end(s, at, n)->0,
    decreases n,
{
    if n > 0 {
        let p = groups_end(s, at, (n - 1) as nat)->0;
        let start = item_start(s, p, n - 1)->0;
        if n > 1 {
            assert(s[p] == ':');
        }
        lemma_reader_takes_groups(s, at, limit, (n - 1) as nat);
        lemma_group_is_no_quad(s, start);
    }
}

/// What a reader has read is a list of groups, or a list of groups and a dotted quad.
pub proof fn lemma_reader_reads_groups(s: Seq<char>, origin: int, at: int, limit: int, i: nat)
    requires
        i <= limit,
        groups_end(s, origin, i) == Some(at),
    ensures
        ({
            let run = groups_at(s, at, limit, i as int);
            &&& i <= run.count <= limit
            &&& !run.dotted ==> groups_end(s, origin, run.count as nat) == Some(run.end)
            &&& run.dotted ==> run.count >= 2 && groups_and_quad_end(
                s,
                origin,
                (run.count - 2) as nat,
            ) == Some(run.end)
        }),
    decreases limit - i,
{
    if i < limit {
        match item_start(s, at, i as int) {
            None => {},
            Some(start) => {
                if i < limit - 1 && ipv4_end_at(s, start) is Some {
                } else {
                    match group_end_at(s, start) {
                        Some(next) => {
                            lemma_reader_reads_groups(s, origin, next, limit, i + 1);
                        },
                        None => {},
                    }
                }
            },
        }
    }
}

/// A reader that has taken all groups of a list behind which `::` stands, or the text
/// ends, stops there.
pub proof fn lemma_reader_stops(s: Seq<char>, at: int, limit: int, n: nat)
    requires
        0 <= at,
        n <= limit,
        at >= s.len() || (s[at] == ':' && at + 1 < s.len() && s[at + 1] == ':'),
    ensures
        groups_at(s, at, limit, n as int) == (GroupRun { count: n as int, end: at, dotted: false }),
{
    if n < limit {
        lemma_nothing_at_colon(s, at);
        if at < s.len() {
            lemma_nothing_at_colon(s, at + 1);
        }
    }
}

/// A reader that has taken the groups before a dotted quad takes the quad.
pub proof fn lemma_reader_takes_quad(s: Seq<char>, at: int, limit: int, n: nat)
    requires
        0 <= at,
        n + 2 <= limit,
        groups_and_quad_end(s, at, n) is Some,
    ensures
        groups_at(s, at, limit, 0) == (GroupRun {
            count: n as int + 2,
            end: groups_and_quad_end(s, at, n)->0,
            dotted: true,
        }),
{
    let p = groups_end(s, at, n)->0;
    if n > 0 {
        assert(s[p] == ':');
    }
    lemma_reader_takes_groups(s, at, limit, n);
}

/// The reader accepts exactly the texts of IPv6 addresses.
pub proof fn lemma_reads_as_ipv6(s: Seq<char>)
    ensures
        reads_as_ipv6(s) == is_ipv6_text(s),
{
    let len = s.len() as int;
    let head = groups_at(s, 0, 8, 0);
    lemma_reader_reads_groups(s, 0, 0, 8, 0);
    if reads_as_ipv6(s) {
        if head.count == 8 {
        } else {
            let k = head.count as nat;
            let tail = groups_at(s, head.end + 2, 7 - head.count, 0);
            lemma_reader_reads_groups(s, head.end + 2, head.end + 2, 7 - head.count, 0);
            let m = tail.count as nat;
            assert(is_compressed_ipv6(s, k, m));
        }
    }
    if groups_end(s, 0, 8) == Some(len) {
        lemma_reader_takes_groups(s, 0, 8, 8);
    } else if groups_and_quad_end(s, 0, 6) == Some(len) {
        lemma_reader_takes_quad(s, 0, 8, 6);
    } else if is_ipv6_text(s) {
        let (k, m) = choose|k: nat, m: nat| k + m <= 7 && #[trigger] is_compressed_ipv6(s, k, m);
        let p = groups_end(s, 0, k)->0;
        lemma_reader_takes_groups(s, 0, 8, k);
        lemma_reader_stops(s, p, 8, k);
        assert(head == GroupRun { count: k as int, end: p, dotted: false });
        let limit = 7 - k;
        if groups_end(s, p + 2, m) == Some(len) {
            lemma_reader_takes_groups(s, p + 2, limit, m);
            lemma_reader_stops(s, len, limit, m);
        } else {
            lemma_reader_takes_quad(s, p + 2, limit, (m - 2) as nat);
        }
    }
}

/// Whether `c` is a hexadecimal digit.
fn hex_digit(c: char) -> (res: bool)
    ensures
        res == is_hex_digit(c),
{
    (c >= '0' && c <= '9') || (c >= 'a' && c <= 'f') || (c >= 'A' && c <= 'F')
}

/// Finds where the group that starts at `at` ends.
fn read_group(s: &str, len: usize, at: usize) -> (res: Option<usize>)
    requires
        len == s@.len(),
        at <= len,
    ensures
        match res {
            Some(next) => group_end_at(s@, at as int) == Some(next as int) && next <= len,
            None => group_end_at(s@, at as int) is None,
        },
{
    let left = len - at;
    let mut n: usize = 0;
    while n < 5 && n < left && hex_digit(s.get_char(at + n))
        invariant
            n <= 5,
            n <= left,
            left == len - at,
            len == s@.len(),
            forall|k: int| at <= k < at + n ==> is_hex_digit(#[trigger] s@[k]),
        decreases 5 - n,
    {
        n = n + 1;
    }
    if n >= 1 && n <= 4 {
        Some(at + n)
    } else {
        None
    }
}

/// Reads a run of groups.
fn read_groups(s: &str, len: usize, at: usize, limit: usize) -> (res: (usize, usize, bool))
    requires
        len == s@.len(),
        at <= len,
        limit <= 8,
    ensures
        groups_at(s@, at as int, limit as int, 0) == (GroupRun {
            count: res.0 as int,
            end: res.1 as int,
            dotted: res.2,
        }),
        res.1 <= len,
        res.0 <= limit,
{
    let mut i: usize = 0;
    let mut pos: usize = at;
    while i < limit
        invariant
            i <= limit <= 8,
            pos <= len,
            len == s@.len(),
            groups_at(s@, at as int, limit as int, 0) == groups_at(
                s@,
                pos as int,
                limit as int,
                i as int,
            ),
        decreases limit - i,
    {
        let start = if i == 0 {
            pos
        } else if pos < len && s.get_char(pos) == ':' {
            pos + 1
        } else {
            return (i, pos, false);
        };
        if i + 1 < limit {
            if let Some(end) = read_ipv4_at(s, len, start) {
                return (i + 2, end, true);
            }
        }
        match read_group(s, len, start) {
            Some(next) => {
                pos = next;
                i = i + 1;
            },
            None => {
                return (i, pos, false);
            },
        }
    }
    (i, pos, false)
}

/// Decides whether `s` is the text of an IPv6 address.
pub fn parse_ipv6(s: &str) -> (valid: bool)
    ensures
        valid == is_ipv6_text(s@),
{
    proof {
        lemma_reads_as_ipv6(s@);
    }
    let len = s.unicode_len();
    let (head_count, head_end, head_dotted) = read_groups(s, len, 0, 8);
    if head_count == 8 {
        return head_end == len;
    }
    if head_dotted {
        return false;
    }
    if len - head_end < 2 {
        return false;
    }
    if s.get_char(head_end) != ':' || s.get_char(head_end + 1) != ':' {
        return false;
    }
    let (_, tail_end, _) = read_groups(s, len, head_end + 2, 7 - head_count);
    tail_end == len
}

} // verus!
