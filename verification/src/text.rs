//! Small verified helpers on strings and string vectors that the rest of the
//! library builds on: decimal rendering of integers, membership tests, deep
//! clones with known views, and lexicographic comparison.

use vstd::prelude::*;

verus! {

use vstd::string::StringExecFns;

/// The character for one decimal digit.
pub open spec fn digit_char(d: nat) -> char {
    if d == 0 {
        '0'
    } else if d == 1 {
        '1'
    } else if d == 2 {
        '2'
    } else if d == 3 {
        '3'
    } else if d == 4 {
        '4'
    } else if d == 5 {
        '5'
    } else if d == 6 {
        '6'
    } else if d == 7 {
        '7'
    } else if d == 8 {
        '8'
    } else {
        '9'
    }
}

/// The decimal rendering of a natural number, most significant digit first.
pub open spec fn dec_of(n: nat) -> Seq<char>
    decreases n,
{
    if n < 10 {
        seq![digit_char(n)]
    } else {
        dec_of(n / 10).push(digit_char(n % 10))
    }
}

fn digit_str(d: u64) -> (r: &'static str)
    requires
        d < 10,
    ensures
        r@ =~= seq![digit_char(d as nat)],
{
    proof {
        reveal_strlit("0");
        reveal_strlit("1");
        reveal_strlit("2");
        reveal_strlit("3");
        reveal_strlit("4");
        reveal_strlit("5");
        reveal_strlit("6");
        reveal_strlit("7");
        reveal_strlit("8");
        reveal_strlit("9");
    }
    if d == 0 {
        "0"
    } else if d == 1 {
        "1"
    } else if d == 2 {
        "2"
    } else if d == 3 {
        "3"
    } else if d == 4 {
        "4"
    } else if d == 5 {
        "5"
    } else if d == 6 {
        "6"
    } else if d == 7 {
        "7"
    } else if d == 8 {
        "8"
    } else {
        "9"
    }
}

/// Renders an unsigned integer in decimal.
pub fn u64_to_string(n: u64) -> (r: String)
    ensures
        r@ == dec_of(n as nat),
    decreases n,
{
    if n < 10 {
        let r = digit_str(n).to_owned();
        proof {
            assert(r@ =~= dec_of(n as nat));
        }
        r
    } else {
        let q = n / 10;
        let d = n % 10;
        let s = u64_to_string(q);
        let r = s.concat(digit_str(d));
        proof {
            assert(r@ =~= dec_of(n as nat));
        }
        r
    }
}

/// Whether some string of `ss` reads as `t`.
pub open spec fn seq_has_str(ss: Seq<Seq<char>>, t: Seq<char>) -> bool {
    exists|i: int| 0 <= i < ss.len() && ss[i] == t
}

/// Equality of two string slices, by contents.
pub fn str_eq(a: &str, b: &str) -> (r: bool)
    ensures
        r == (a@ == b@),
{
    let la = a.unicode_len();
    let lb = b.unicode_len();
    if la != lb {
        proof {
            if a@ == b@ {
                assert(a@.len() == b@.len());
            }
        }
        return false;
    }
    let mut i: usize = 0;
    while i < la
        invariant
            0 <= i <= la,
            la == a@.len(),
            la == b@.len(),
            forall|j: int| 0 <= j < i ==> a@[j] == b@[j],
        decreases la - i,
    {
        if a.get_char(i) != b.get_char(i) {
            return false;
        }
        i += 1;
    }
    proof {
        assert(a@ =~= b@);
    }
    true
}

/// Membership of a string among a vector of strings, by contents.
pub fn contains_str(ss: &Vec<String>, t: &str) -> (r: bool)
    ensures
        r == seq_has_str(ss.deep_view(), t@),
{
    let mut i: usize = 0;
    while i < ss.len()
        invariant
            0 <= i <= ss.len(),
            forall|j: int| 0 <= j < i ==> ss.deep_view()[j] != t@,
        decreases ss.len() - i,
    {
        if str_eq(ss[i].as_str(), t) {
            assert(ss.deep_view()[i as int] == t@);
            return true;
        }
        i += 1;
    }
    false
}

/// The pieces of `s` between occurrences of the separator `sep`.  A string
/// with no separator yields one piece; each separator ends a piece, so `n`
/// separators yield `n + 1` pieces, empty pieces included.
pub open spec fn split_seq(s: Seq<char>, sep: char) -> Seq<Seq<char>>
    decreases s.len(),
{
    if s.len() == 0 {
        seq![Seq::<char>::empty()]
    } else if s[0] == sep {
        seq![Seq::<char>::empty()] + split_seq(s.drop_first(), sep)
    } else {
        let rest = split_seq(s.drop_first(), sep);
        seq![seq![s[0]] + rest[0]] + rest.drop_first()
    }
}

pub proof fn lemma_split_len(s: Seq<char>, sep: char)
    ensures
        split_seq(s, sep).len() >= 1,
    decreases s.len(),
{
    if s.len() == 0 {
    } else {
        lemma_split_len(s.drop_first(), sep);
    }
}

/// Splitting at the first separator: the first piece is everything before
/// it, and the remaining pieces are those of the text after it.
pub proof fn lemma_split_at_first(s: Seq<char>, sep: char, i: int)
    requires
        0 <= i < s.len(),
        s[i] == sep,
        forall|j: int| 0 <= j < i ==> s[j] != sep,
    ensures
        split_seq(s, sep) =~= seq![s.take(i)] + split_seq(s.skip(i + 1), sep),
    decreases i,
{
    lemma_split_len(s.drop_first(), sep);
    if i == 0 {
        assert(s.take(0) =~= Seq::<char>::empty());
        assert(s.drop_first() =~= s.skip(1));
    } else {
        let t = s.drop_first();
        lemma_split_at_first(t, sep, i - 1);
        lemma_split_len(t.skip(i), sep);
        assert(t.take(i - 1) =~= s.take(i).drop_first());
        assert(t.skip(i) =~= s.skip(i + 1));
        assert(seq![s[0]] + t.take(i - 1) =~= s.take(i));
    }
}

/// Splitting a text without any separator yields that text as the one piece.
pub proof fn lemma_split_no_sep(s: Seq<char>, sep: char)
    requires
        forall|j: int| 0 <= j < s.len() ==> s[j] != sep,
    ensures
        split_seq(s, sep) =~= seq![s],
    decreases s.len(),
{
    if s.len() == 0 {
        assert(s =~= Seq::<char>::empty());
    } else {
        lemma_split_no_sep(s.drop_first(), sep);
        let rest = split_seq(s.drop_first(), sep);
        assert(rest =~= seq![s.drop_first()]);
        assert(seq![s[0]] + rest[0] =~= s);
        assert(rest.drop_first() =~= Seq::<Seq<char>>::empty());
        assert(split_seq(s, sep) =~= seq![seq![s[0]] + rest[0]] + rest.drop_first());
    }
}

/// Splits a string at every occurrence of the separator.
pub fn split_char(s: &str, sep: char) -> (r: Vec<String>)
    ensures
        r.deep_view() == split_seq(s@, sep),
{
    let len = s.unicode_len();
    let mut r: Vec<String> = Vec::new();
    let mut start: usize = 0;
    let mut i: usize = 0;
    proof {
        assert(s@.skip(0) =~= s@);
        assert(r.deep_view() =~= Seq::<Seq<char>>::empty());
        assert(r.deep_view() + split_seq(s@, sep) =~= split_seq(s@, sep));
    }
    while i < len
        invariant
            0 <= start <= i <= len,
            len == s@.len(),
            forall|j: int| start <= j < i ==> s@[j] != sep,
            split_seq(s@, sep) =~= r.deep_view() + split_seq(s@.skip(start as int), sep),
        decreases len - i,
    {
        if s.get_char(i) == sep {
            let piece = s.substring_char(start, i).to_owned();
            proof {
                let tail = s@.skip(start as int);
                lemma_split_at_first(tail, sep, i - start);
                assert(tail.take(i - start) =~= s@.subrange(start as int, i as int));
                assert(tail.skip(i - start + 1) =~= s@.skip(i + 1));
                assert((r.deep_view() + seq![piece@]) + split_seq(s@.skip(i + 1), sep)
                    =~= r.deep_view() + (seq![piece@] + split_seq(s@.skip(i + 1), sep)));
            }
            r.push(piece);
            start = i + 1;
        }
        i += 1;
    }
    let piece = s.substring_char(start, len).to_owned();
    proof {
        let tail = s@.skip(start as int);
        lemma_split_no_sep(tail, sep);
        assert(tail =~= s@.subrange(start as int, len as int));
    }
    r.push(piece);
    proof {
        assert(r.deep_view() =~= split_seq(s@, sep));
    }
    r
}

/// The pieces joined with the separator text `sep` between them.
pub open spec fn join_with(parts: Seq<Seq<char>>, sep: Seq<char>) -> Seq<char>
    decreases parts.len(),
{
    if parts.len() == 0 {
        Seq::empty()
    } else if parts.len() == 1 {
        parts[0]
    } else {
        parts[0] + sep + join_with(parts.drop_first(), sep)
    }
}

/// Joining one more piece extends the joined text by the separator and the
/// piece.
pub proof fn lemma_join_push(parts: Seq<Seq<char>>, sep: Seq<char>, more: Seq<char>)
    requires
        parts.len() >= 1,
    ensures
        join_with(parts.push(more), sep) =~= join_with(parts, sep) + sep + more,
    decreases parts.len(),
{
    assert(parts.push(more)[0] == parts[0]);
    if parts.len() == 1 {
        assert(parts.push(more).drop_first() =~= seq![more]);
        assert(join_with(parts.push(more), sep)
            =~= parts[0] + sep + join_with(seq![more], sep));
    } else {
        lemma_join_push(parts.drop_first(), sep, more);
        assert(parts.push(more).drop_first() =~= parts.drop_first().push(more));
        assert(join_with(parts.push(more), sep)
            =~= parts[0] + sep + join_with(parts.drop_first().push(more), sep));
    }
}

/// Joins string pieces with a separator between them.
pub fn join_strings(parts: &Vec<String>, sep: &str) -> (r: String)
    ensures
        r@ == join_with(parts.deep_view(), sep@),
{
    if parts.len() == 0 {
        return String::new();
    }
    let mut r = parts[0].clone();
    let mut i: usize = 1;
    while i < parts.len()
        invariant
            1 <= i <= parts.len(),
            r@ =~= join_with(parts.deep_view().take(i as int), sep@),
        decreases parts.len() - i,
    {
        r.append(sep);
        r.append(parts[i].as_str());
        proof {
            lemma_join_push(parts.deep_view().take(i as int), sep@, parts.deep_view()[i as int]);
            assert(parts.deep_view().take(i as int).push(parts.deep_view()[i as int])
                =~= parts.deep_view().take(i + 1));
        }
        i += 1;
    }
    proof {
        assert(parts.deep_view().take(parts.len() as int) =~= parts.deep_view());
    }
    r
}

/// Strict lexicographic order on texts, by character code point.
pub open spec fn str_lt(a: Seq<char>, b: Seq<char>) -> bool
    decreases a.len(),
{
    if b.len() == 0 {
        false
    } else if a.len() == 0 {
        true
    } else if a[0] != b[0] {
        a[0] < b[0]
    } else {
        str_lt(a.drop_first(), b.drop_first())
    }
}

/// The order on texts is strict: no text is below itself or below one that
/// is below it.
pub proof fn lemma_str_lt_asym(a: Seq<char>, b: Seq<char>)
    ensures
        str_lt(a, b) ==> a != b,
        str_lt(a, b) ==> !str_lt(b, a),
    decreases a.len(),
{
    if a.len() > 0 && b.len() > 0 && a[0] == b[0] {
        lemma_str_lt_asym(a.drop_first(), b.drop_first());
        if a.drop_first() == b.drop_first() && a[0] == b[0] {
            assert(a.drop_first().len() == a.len() - 1);
            assert(b.drop_first().len() == b.len() - 1);
            assert forall|i: int| 0 <= i < a.len() implies a[i] == b[i] by {
                if i > 0 {
                    assert(a.drop_first()[i - 1] == b.drop_first()[i - 1]);
                }
            }
            assert(a =~= b);
        }
        if str_lt(a, b) && a == b {
            assert(a.drop_first() == b.drop_first());
        }
    }
}

/// The order on texts is transitive.
pub proof fn lemma_str_lt_trans(a: Seq<char>, b: Seq<char>, c: Seq<char>)
    requires
        str_lt(a, b),
        str_lt(b, c),
    ensures
        str_lt(a, c),
    decreases a.len(),
{
    if a.len() > 0 {
        if a[0] == b[0] && b[0] == c[0] {
            lemma_str_lt_trans(a.drop_first(), b.drop_first(), c.drop_first());
        }
    }
}

/// Any two texts are ordered or equal.
pub proof fn lemma_str_cmp_total(a: Seq<char>, b: Seq<char>)
    ensures
        str_lt(a, b) || str_lt(b, a) || a == b,
    decreases a.len(),
{
    if a.len() == 0 && b.len() == 0 {
        assert(a =~= b);
    } else if a.len() > 0 && b.len() > 0 && a[0] == b[0] {
        lemma_str_cmp_total(a.drop_first(), b.drop_first());
        if a.drop_first() == b.drop_first() {
            assert(a.drop_first().len() == a.len() - 1);
            assert(b.drop_first().len() == b.len() - 1);
            assert forall|i: int| 0 <= i < a.len() implies a[i] == b[i] by {
                if i > 0 {
                    assert(a.drop_first()[i - 1] == b.drop_first()[i - 1]);
                }
            }
            assert(a =~= b);
        }
    }
}

/// How two texts compare once they agree on their first `i` characters.
pub proof fn lemma_str_cmp_at(a: Seq<char>, b: Seq<char>, i: int)
    requires
        0 <= i <= a.len(),
        i <= b.len(),
        forall|j: int| 0 <= j < i ==> a[j] == b[j],
    ensures
        i < a.len() && i < b.len() && a[i] != b[i] ==> (str_lt(a, b) <==> a[i] < b[i]) && (str_lt(
            b,
            a,
        ) <==> b[i] < a[i]) && a != b,
        i == a.len() && i < b.len() ==> str_lt(a, b) && !str_lt(b, a) && a != b,
        i == b.len() && i < a.len() ==> str_lt(b, a) && !str_lt(a, b) && a != b,
        i == a.len() && i == b.len() ==> a == b && !str_lt(a, b) && !str_lt(b, a),
    decreases i,
{
    if i == 0 {
        if a.len() == 0 && b.len() == 0 {
            assert(a =~= b);
        }
    } else {
        lemma_str_cmp_at(a.drop_first(), b.drop_first(), i - 1);
        if i == a.len() && i == b.len() {
            assert(a.drop_first() == b.drop_first() ==> a =~= b);
        }
    }
}

/// Compares two texts lexicographically.
pub fn cmp_str(a: &str, b: &str) -> (r: core::cmp::Ordering)
    ensures
        r is Less <==> str_lt(a@, b@),
        r is Equal <==> a@ == b@,
        r is Greater <==> str_lt(b@, a@),
{
    let la = a.unicode_len();
    let lb = b.unicode_len();
    let mut i: usize = 0;
    loop
        invariant
            0 <= i <= la,
            i <= lb,
            la == a@.len(),
            lb == b@.len(),
            forall|j: int| 0 <= j < i ==> a@[j] == b@[j],
        decreases la - i,
    {
        if i == la || i == lb {
            proof {
                lemma_str_cmp_at(a@, b@, i as int);
            }
            if la == lb {
                return core::cmp::Ordering::Equal;
            } else if i == la {
                return core::cmp::Ordering::Less;
            } else {
                return core::cmp::Ordering::Greater;
            }
        }
        let ca = a.get_char(i);
        let cb = b.get_char(i);
        if ca != cb {
            proof {
                lemma_str_cmp_at(a@, b@, i as int);
            }
            if ca < cb {
                return core::cmp::Ordering::Less;
            } else {
                return core::cmp::Ordering::Greater;
            }
        }
        i += 1;
    }
}

/// Whether `s` begins with `p`.
pub open spec fn starts_with_seq(s: Seq<char>, p: Seq<char>) -> bool {
    s.len() >= p.len() && s.take(p.len() as int) == p
}

/// Whether a string begins with a prefix.
pub fn str_starts_with(s: &str, p: &str) -> (r: bool)
    ensures
        r == starts_with_seq(s@, p@),
{
    let ls = s.unicode_len();
    let lp = p.unicode_len();
    if ls < lp {
        return false;
    }
    let mut i: usize = 0;
    while i < lp
        invariant
            0 <= i <= lp,
            lp <= ls,
            ls == s@.len(),
            lp == p@.len(),
            forall|j: int| 0 <= j < i ==> s@[j] == p@[j],
        decreases lp - i,
    {
        if s.get_char(i) != p.get_char(i) {
            proof {
                if starts_with_seq(s@, p@) {
                    assert(s@.take(lp as int)[i as int] == p@[i as int]);
                }
            }
            return false;
        }
        i += 1;
    }
    proof {
        assert(s@.take(lp as int) =~= p@);
    }
    true
}

/// A connection target split at its first `@`: the user before it and the
/// name after it, or no user at all.
pub open spec fn user_at_name_of(s: Seq<char>) -> (Option<Seq<char>>, Seq<char>) {
    if exists|i: int| 0 <= i < s.len() && s[i] == '@' {
        let i = first_at(s);
        (Some(s.take(i)), s.skip(i + 1))
    } else {
        (None, s)
    }
}

/// The first position of `@`.
pub open spec fn first_at(s: Seq<char>) -> int {
    choose|i: int|
        0 <= i < s.len() && s[i] == '@' && (forall|j: int| 0 <= j < i ==> s[j] != '@')
}

/// Splits a `user@name` target into its optional user and its name.
pub fn parse_user_at_name(user_at_name: &str) -> (r: (Option<String>, String))
    ensures
        r.0.deep_view() == user_at_name_of(user_at_name@).0,
        r.1@ == user_at_name_of(user_at_name@).1,
{
    let len = user_at_name.unicode_len();
    let mut i: usize = 0;
    while i < len
        invariant
            0 <= i <= len,
            len == user_at_name@.len(),
            forall|j: int| 0 <= j < i ==> user_at_name@[j] != '@',
        decreases len - i,
    {
        if user_at_name.get_char(i) == '@' {
            let user = user_at_name.substring_char(0, i).to_owned();
            let name = user_at_name.substring_char(i + 1, len).to_owned();
            proof {
                let sv = user_at_name@;
                assert(sv[i as int] == '@');
                let w = first_at(sv);
                assert(0 <= w < sv.len() && sv[w] == '@' && (forall|j: int|
                    0 <= j < w ==> sv[j] != '@')) by {
                    assert(sv[i as int] == '@' && (forall|j: int|
                        0 <= j < i ==> sv[j] != '@'));
                }
                assert(w == i as int);
                assert(sv.subrange(0, i as int) =~= sv.take(i as int));
                assert(sv.subrange(i + 1, len as int) =~= sv.skip(i + 1));
            }
            return (Some(user), name);
        }
        i += 1;
    }
    proof {
        if exists|j: int| 0 <= j < user_at_name@.len() && user_at_name@[j] == '@' {
            let j = choose|j: int| 0 <= j < user_at_name@.len() && user_at_name@[j] == '@';
            assert(false);
        }
    }
    (None, user_at_name.to_owned())
}

/// Whitespace that trailing trim removes.
pub open spec fn is_trim_ws(c: char) -> bool {
    c == ' ' || c == '\t' || c == '\n' || c == '\r'
}

/// The text without its trailing whitespace.
pub open spec fn trim_end_ws(s: Seq<char>) -> Seq<char>
    decreases s.len(),
{
    if s.len() > 0 && is_trim_ws(s.last()) {
        trim_end_ws(s.drop_last())
    } else {
        s
    }
}

pub proof fn lemma_trim_end_at(s: Seq<char>, end: int)
    requires
        0 <= end <= s.len(),
        forall|j: int| end <= j < s.len() ==> is_trim_ws(#[trigger] s[j]),
        end > 0 ==> !is_trim_ws(s[end - 1]),
    ensures
        trim_end_ws(s) =~= s.take(end),
    decreases s.len(),
{
    if s.len() == end {
        assert(s.take(end) =~= s);
    } else {
        assert(is_trim_ws(s.last()));
        lemma_trim_end_at(s.drop_last(), end);
        assert(s.drop_last().take(end) =~= s.take(end));
    }
}

fn is_ws_char(c: char) -> (r: bool)
    ensures
        r == is_trim_ws(c),
{
    c == ' ' || c == '\t' || c == '\n' || c == '\r'
}

/// Removes trailing whitespace.
pub fn trim_end(s: &str) -> (r: String)
    ensures
        r@ == trim_end_ws(s@),
{
    let len = s.unicode_len();
    let mut end: usize = len;
    while end > 0 && is_ws_char(s.get_char(end - 1))
        invariant
            0 <= end <= len,
            len == s@.len(),
            forall|j: int| end <= j < len ==> is_trim_ws(#[trigger] s@[j]),
        decreases end,
    {
        end -= 1;
    }
    let r = s.substring_char(0, end).to_owned();
    proof {
        lemma_trim_end_at(s@, end as int);
        assert(s@.subrange(0, end as int) =~= s@.take(end as int));
    }
    r
}

/// The text without trailing occurrences of one character.
pub open spec fn trim_trailing(s: Seq<char>, c: char) -> Seq<char>
    decreases s.len(),
{
    if s.len() > 0 && s.last() == c {
        trim_trailing(s.drop_last(), c)
    } else {
        s
    }
}

pub proof fn lemma_trim_trailing_at(s: Seq<char>, c: char, end: int)
    requires
        0 <= end <= s.len(),
        forall|j: int| end <= j < s.len() ==> s[j] == c,
        end > 0 ==> s[end - 1] != c,
    ensures
        trim_trailing(s, c) =~= s.take(end),
    decreases s.len(),
{
    if s.len() == end {
        assert(s.take(end) =~= s);
    } else {
        lemma_trim_trailing_at(s.drop_last(), c, end);
        assert(s.drop_last().take(end) =~= s.take(end));
    }
}

/// Removes trailing occurrences of one character.
pub fn trim_char_end(s: &str, c: char) -> (r: String)
    ensures
        r@ == trim_trailing(s@, c),
{
    let len = s.unicode_len();
    let mut end: usize = len;
    while end > 0 && s.get_char(end - 1) == c
        invariant
            0 <= end <= len,
            len == s@.len(),
            forall|j: int| end <= j < len ==> s@[j] == c,
        decreases end,
    {
        end -= 1;
    }
    let r = s.substring_char(0, end).to_owned();
    proof {
        lemma_trim_trailing_at(s@, c, end as int);
        assert(s@.subrange(0, end as int) =~= s@.take(end as int));
    }
    r
}

/// The decimal rendering of an integer, with a leading minus sign when it
/// is negative.
pub open spec fn int_dec_of(n: int) -> Seq<char> {
    if n < 0 {
        seq!['-'] + dec_of((-n) as nat)
    } else {
        dec_of(n as nat)
    }
}

/// Renders a signed integer in decimal.
pub fn i32_to_string(n: i32) -> (r: String)
    ensures
        r@ == int_dec_of(n as int),
{
    if n < 0 {
        let wide: i64 = n as i64;
        let mag: u64 = (-wide) as u64;
        let digits = u64_to_string(mag);
        let mut r = "-".to_owned();
        r.append(digits.as_str());
        proof {
            reveal_strlit("-");
            assert(r@ =~= int_dec_of(n as int));
        }
        r
    } else {
        let r = u64_to_string(n as u64);
        r
    }
}

/// The lower-case form of an ASCII letter; any other character is itself.
pub open spec fn lower_c(c: char) -> char {
    if 'A' <= c && c <= 'Z' {
        (((c as u8) + 32) as char)
    } else {
        c
    }
}

/// The text with ASCII letters folded to lower case.
pub open spec fn ascii_lower(s: Seq<char>) -> Seq<char> {
    Seq::new(s.len(), |i: int| lower_c(s[i]))
}

/// Whether two texts agree up to ASCII case.
pub fn eq_ignore_case(a: &str, b: &str) -> (r: bool)
    ensures
        r == (ascii_lower(a@) == ascii_lower(b@)),
{
    let la = a.unicode_len();
    let lb = b.unicode_len();
    if la != lb {
        proof {
            if ascii_lower(a@) == ascii_lower(b@) {
                assert(ascii_lower(a@).len() == ascii_lower(b@).len());
            }
        }
        return false;
    }
    let mut i: usize = 0;
    while i < la
        invariant
            0 <= i <= la,
            la == a@.len(),
            la == b@.len(),
            forall|j: int| 0 <= j < i ==> lower_c(a@[j]) == lower_c(b@[j]),
        decreases la - i,
    {
        let ca = a.get_char(i);
        let cb = b.get_char(i);
        let fa = if 'A' <= ca && ca <= 'Z' {
            (((ca as u8) + 32) as char)
        } else {
            ca
        };
        let fb = if 'A' <= cb && cb <= 'Z' {
            (((cb as u8) + 32) as char)
        } else {
            cb
        };
        if fa != fb {
            proof {
                assert(ascii_lower(a@)[i as int] != ascii_lower(b@)[i as int]);
            }
            return false;
        }
        i += 1;
    }
    proof {
        assert(ascii_lower(a@) =~= ascii_lower(b@));
    }
    true
}

/// Clones an optional string; the view is preserved.
pub fn clone_opt_string(o: &Option<String>) -> (r: Option<String>)
    ensures
        r.deep_view() == o.deep_view(),
{
    match o {
        None => None,
        Some(s) => Some(s.clone()),
    }
}

/// Clones a vector of strings; the view is preserved.
pub fn clone_vec_string(v: &Vec<String>) -> (r: Vec<String>)
    ensures
        r.deep_view() == v.deep_view(),
{
    let mut r: Vec<String> = Vec::new();
    let mut i: usize = 0;
    while i < v.len()
        invariant
            0 <= i <= v.len(),
            r.len() == i,
            forall|j: int| 0 <= j < i ==> r.deep_view()[j] == v.deep_view()[j],
        decreases v.len() - i,
    {
        r.push(v[i].clone());
        i += 1;
    }
    proof {
        assert(r.deep_view() =~= v.deep_view());
    }
    r
}

/// Clones a vector of string pairs; the view is preserved.
pub fn clone_vec_pairs(v: &Vec<(String, String)>) -> (r: Vec<(String, String)>)
    ensures
        r.deep_view() == v.deep_view(),
{
    let mut r: Vec<(String, String)> = Vec::new();
    let mut i: usize = 0;
    while i < v.len()
        invariant
            0 <= i <= v.len(),
            r.len() == i,
            forall|j: int| 0 <= j < i ==> r.deep_view()[j] == v.deep_view()[j],
        decreases v.len() - i,
    {
        let pair = (v[i].0.clone(), v[i].1.clone());
        r.push(pair);
        i += 1;
    }
    proof {
        assert(r.deep_view() =~= v.deep_view());
    }
    r
}

/// Clones an optional vector of string pairs; the view is preserved.
pub fn clone_opt_vec_pairs(o: &Option<Vec<(String, String)>>) -> (r: Option<
    Vec<(String, String)>,
>)
    ensures
        r.deep_view() == o.deep_view(),
{
    match o {
        None => None,
        Some(v) => Some(clone_vec_pairs(v)),
    }
}

/// Clones an optional vector of strings; the view is preserved.
pub fn clone_opt_vec_string(o: &Option<Vec<String>>) -> (r: Option<Vec<String>>)
    ensures
        r.deep_view() == o.deep_view(),
{
    match o {
        None => None,
        Some(v) => Some(clone_vec_string(v)),
    }
}

} // verus!
