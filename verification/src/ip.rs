//! Validity of IP address texts.
//!
//! An IPv4 text is four decimal octets separated by dots, each octet at most
//! 255, written without leading zeros.  An IPv6 text is up to eight groups of
//! one to four hexadecimal digits separated by colons, with one optional
//! `::` standing for a run of zero groups, and optionally an IPv4 text in
//! place of the last two groups.

use vstd::prelude::*;

verus! {

use crate::text::split_seq;
use crate::text::split_char;
use vstd::string::StrSliceExecFns;

pub open spec fn is_digit(c: char) -> bool {
    c == '0' || c == '1' || c == '2' || c == '3' || c == '4' || c == '5' || c == '6' || c == '7'
        || c == '8' || c == '9'
}

pub open spec fn digit_v(c: char) -> nat {
    if c == '0' {
        0
    } else if c == '1' {
        1
    } else if c == '2' {
        2
    } else if c == '3' {
        3
    } else if c == '4' {
        4
    } else if c == '5' {
        5
    } else if c == '6' {
        6
    } else if c == '7' {
        7
    } else if c == '8' {
        8
    } else {
        9
    }
}

/// The value of a text of decimal digits, most significant first.
pub open spec fn dec_val(p: Seq<char>) -> nat
    decreases p.len(),
{
    if p.len() == 0 {
        0
    } else {
        dec_val(p.drop_last()) * 10 + digit_v(p.last())
    }
}

/// One decimal octet of an IPv4 text: one to three digits, no leading zero,
/// value at most 255.
pub open spec fn octet_ok(p: Seq<char>) -> bool {
    &&& 1 <= p.len() <= 3
    &&& forall|i: int| 0 <= i < p.len() ==> is_digit(#[trigger] p[i])
    &&& (p.len() > 1 ==> p[0] != '0')
    &&& dec_val(p) <= 255
}

/// A well-formed IPv4 text.
#[verifier::opaque]
pub open spec fn ipv4_ok(s: Seq<char>) -> bool {
    let parts = split_seq(s, '.');
    &&& parts.len() == 4
    &&& forall|i: int| 0 <= i < 4 ==> octet_ok(#[trigger] parts[i])
}

pub open spec fn is_hex_digit(c: char) -> bool {
    is_digit(c) || c == 'a' || c == 'b' || c == 'c' || c == 'd' || c == 'e' || c == 'f'
        || c == 'A' || c == 'B' || c == 'C' || c == 'D' || c == 'E' || c == 'F'
}

/// One group of an IPv6 text: one to four hexadecimal digits.
pub open spec fn hex_group_ok(p: Seq<char>) -> bool {
    &&& 1 <= p.len() <= 4
    &&& forall|i: int| 0 <= i < p.len() ==> is_hex_digit(#[trigger] p[i])
}

/// The number of 16-bit groups the pieces stand for: each nonempty piece is
/// one group, and an IPv4 tail is worth one more.
pub open spec fn ipv6_units(parts: Seq<Seq<char>>, empties: int) -> int {
    parts.len() - empties + if ipv4_ok(parts.last()) {
        1int
    } else {
        0int
    }
}

/// A well-formed IPv6 text, described over its colon-separated pieces: every
/// piece is a hex group (the last may instead be an IPv4 tail), and the empty
/// pieces left by one `::` may stand at one interior position, at the two
/// leading positions, at the two trailing positions, or alone as the whole
/// text `::`.  Without `::` there are exactly eight groups, with it at most
/// seven.
#[verifier::opaque]
pub open spec fn ipv6_ok(s: Seq<char>) -> bool {
    let parts = split_seq(s, ':');
    let n = parts.len() as int;
    &&& forall|i: int|
        0 <= i < n - 1 && #[trigger] parts[i].len() > 0 ==> hex_group_ok(parts[i])
    &&& (parts[n - 1].len() > 0 ==> (hex_group_ok(parts[n - 1]) || ipv4_ok(parts[n - 1])))
    &&& {
        ||| ((forall|i: int| 0 <= i < n ==> #[trigger] parts[i].len() > 0)
            && ipv6_units(parts, 0) == 8)
        ||| ((exists|k: int|
            0 < k < n - 1 && #[trigger] parts[k].len() == 0 && (forall|j: int|
                0 <= j < n && j != k ==> #[trigger] parts[j].len() > 0))
            && ipv6_units(parts, 1) <= 7)
        ||| (n >= 3 && parts[0].len() == 0 && parts[1].len() == 0 && (forall|i: int|
            2 <= i < n ==> #[trigger] parts[i].len() > 0) && ipv6_units(parts, 2) <= 7)
        ||| (n >= 3 && parts[n - 1].len() == 0 && parts[n - 2].len() == 0 && (forall|i: int|
            0 <= i < n - 2 ==> #[trigger] parts[i].len() > 0) && ipv6_units(parts, 2) <= 7)
        ||| (n == 3 && parts[0].len() == 0 && parts[1].len() == 0 && parts[2].len() == 0)
    }
}

/// A well-formed IP address text, of either family.
pub open spec fn ip_ok(s: Seq<char>) -> bool {
    ipv4_ok(s) || ipv6_ok(s)
}

fn is_digit_c(c: char) -> (r: bool)
    ensures
        r == is_digit(c),
{
    c == '0' || c == '1' || c == '2' || c == '3' || c == '4' || c == '5' || c == '6' || c == '7'
        || c == '8' || c == '9'
}

fn digit_val_c(c: char) -> (r: u32)
    requires
        is_digit(c),
    ensures
        r == digit_v(c),
{
    if c == '0' {
        0
    } else if c == '1' {
        1
    } else if c == '2' {
        2
    } else if c == '3' {
        3
    } else if c == '4' {
        4
    } else if c == '5' {
        5
    } else if c == '6' {
        6
    } else if c == '7' {
        7
    } else if c == '8' {
        8
    } else {
        9
    }
}

fn is_hex_digit_c(c: char) -> (r: bool)
    ensures
        r == is_hex_digit(c),
{
    is_digit_c(c) || c == 'a' || c == 'b' || c == 'c' || c == 'd' || c == 'e' || c == 'f'
        || c == 'A' || c == 'B' || c == 'C' || c == 'D' || c == 'E' || c == 'F'
}

fn octet_check(p: &str) -> (r: bool)
    ensures
        r == octet_ok(p@),
{
    let len = p.unicode_len();
    if len < 1 || len > 3 {
        return false;
    }
    if len > 1 && p.get_char(0) == '0' {
        return false;
    }
    let mut v: u32 = 0;
    let mut i: usize = 0;
    proof {
        assert(p@.take(0) =~= Seq::<char>::empty());
    }
    while i < len
        invariant
            0 <= i <= len,
            len == p@.len(),
            len <= 3,
            forall|j: int| 0 <= j < i ==> is_digit(#[trigger] p@[j]),
            v == dec_val(p@.take(i as int)),
            i == 0 ==> v == 0,
            i == 1 ==> v <= 9,
            i == 2 ==> v <= 99,
            i == 3 ==> v <= 999,
        decreases len - i,
    {
        let c = p.get_char(i);
        if !is_digit_c(c) {
            return false;
        }
        let d = digit_val_c(c);
        proof {
            assert(p@.take(i + 1).drop_last() =~= p@.take(i as int));
            assert(p@.take(i + 1).last() == p@[i as int]);
        }
        v = v * 10 + d;
        i += 1;
    }
    proof {
        assert(p@.take(len as int) =~= p@);
    }
    v <= 255
}

/// Whether `s` is a well-formed IPv4 text.
#[verifier::loop_isolation(false)]
pub fn ipv4_check(s: &str) -> (r: bool)
    ensures
        r == ipv4_ok(s@),
{
    proof {
        reveal(ipv4_ok);
    }
    let parts = split_char(s, '.');
    proof {
        assert(parts.deep_view().len() == parts.len());
    }
    if parts.len() != 4 {
        return false;
    }
    let mut i: usize = 0;
    while i < 4
        invariant
            0 <= i <= 4,
            parts.deep_view() == split_seq(s@, '.'),
            parts.len() == 4,
            forall|j: int| 0 <= j < i ==> octet_ok(#[trigger] parts.deep_view()[j]),
        decreases 4 - i,
    {
        if !octet_check(parts[i].as_str()) {
            proof {
                assert(!octet_ok(parts.deep_view()[i as int]));
            }
            return false;
        }
        i += 1;
    }
    true
}

fn hex_group_check(p: &str) -> (r: bool)
    ensures
        r == hex_group_ok(p@),
{
    let len = p.unicode_len();
    if len < 1 || len > 4 {
        return false;
    }
    let mut i: usize = 0;
    while i < len
        invariant
            0 <= i <= len,
            len == p@.len(),
            forall|j: int| 0 <= j < i ==> is_hex_digit(#[trigger] p@[j]),
        decreases len - i,
    {
        if !is_hex_digit_c(p.get_char(i)) {
            return false;
        }
        i += 1;
    }
    true
}

/// Whether `s` is a well-formed IPv6 text.
#[verifier::loop_isolation(false)]
pub fn ipv6_check(s: &str) -> (r: bool)
    ensures
        r == ipv6_ok(s@),
{
    proof {
        reveal(ipv6_ok);
    }
    let parts = split_char(s, ':');
    let n = parts.len();
    proof {
        crate::text::lemma_split_len(s@, ':');
    }

    // Every piece but the last must be a hex group when nonempty; record the
    // positions of the empty pieces as they are met.
    let mut count: usize = 0;
    let mut first: usize = 0;
    let mut second: usize = 0;
    let mut third: usize = 0;
    let mut i: usize = 0;
    while i < n
        invariant
            0 <= i <= n,
            n == parts.len(),
            n >= 1,
            parts.deep_view() == split_seq(s@, ':'),
            count <= i,
            forall|j: int|
                0 <= j < i && j < n - 1 && #[trigger] parts.deep_view()[j].len() > 0
                    ==> hex_group_ok(parts.deep_view()[j]),
            count == 0 ==> forall|j: int| 0 <= j < i ==> #[trigger] parts.deep_view()[j].len() > 0,
            count >= 1 ==> first < i && parts.deep_view()[first as int].len() == 0,
            count == 1 ==> forall|j: int|
                0 <= j < i && j != first ==> #[trigger] parts.deep_view()[j].len() > 0,
            count >= 2 ==> first < second < i && parts.deep_view()[second as int].len() == 0,
            count == 2 ==> forall|j: int|
                0 <= j < i && j != first && j != second
                    ==> #[trigger] parts.deep_view()[j].len() > 0,
            count >= 3 ==> second < third < i && parts.deep_view()[third as int].len() == 0,
        decreases n - i,
    {
        let p_len = parts[i].as_str().unicode_len();
        if p_len == 0 {
            if count == 0 {
                first = i;
            } else if count == 1 {
                second = i;
            } else if count == 2 {
                third = i;
            }
            count += 1;
        } else {
            if i < n - 1 {
                if !hex_group_check(parts[i].as_str()) {
                    proof {
                        let pv = parts.deep_view();
                        assert(pv[i as int].len() > 0);
                        assert(!hex_group_ok(pv[i as int]));
                    }
                    return false;
                }
            }
        }
        i += 1;
    }

    // The last piece may be a hex group or an IPv4 tail.
    let last_is_v4 = ipv4_check(parts[n - 1].as_str());
    if parts[n - 1].as_str().unicode_len() > 0 {
        if !last_is_v4 && !hex_group_check(parts[n - 1].as_str()) {
            return false;
        }
    }

    let bonus: usize = if last_is_v4 {
        1
    } else {
        0
    };

    if count == 0 {
        n <= 8 && n + bonus == 8
    } else if count == 1 {
        0 < first && first < n - 1 && n - 1 + bonus <= 7
    } else if count == 2 {
        n >= 3 && ((first == 0 && second == 1) || (first == n - 2 && second == n - 1)) && n - 2
            + bonus <= 7
    } else {
        count == 3 && n == 3
    }
}

/// Whether `s` is a well-formed IP address text of either family.
pub fn ip_check(s: &str) -> (r: bool)
    ensures
        r == ip_ok(s@),
{
    ipv4_check(s) || ipv6_check(s)
}

} // verus!
