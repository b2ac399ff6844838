//! Byte-string primitives shared by the record parsers: splitting on a
//! separator, locating a byte, trimming and reading unsigned numbers.

use vstd::prelude::*;

verus! {

pub const EQUALS: u8 = 0x3d;

pub const SPACE: u8 = 0x20;

pub const PLUS: u8 = 0x2b;

/// The views of a sequence of byte vectors.
pub open spec fn views(v: Seq<Vec<u8>>) -> Seq<Seq<u8>> {
    v.map_values(|x: Vec<u8>| x@)
}

/// The pieces of `s` between occurrences of `sep`, in order. There is always
/// one piece more than there are separators, so an empty input gives one
/// empty piece and a trailing separator gives a trailing empty piece.
pub open spec fn split_at_byte(s: Seq<u8>, sep: u8) -> Seq<Seq<u8>>
    decreases s.len(),
{
    if s.len() == 0 {
        seq![Seq::empty()]
    } else {
        let init = split_at_byte(s.drop_last(), sep);
        if s.last() == sep {
            init.push(Seq::empty())
        } else {
            init.update(init.len() - 1, init.last().push(s.last()))
        }
    }
}

pub proof fn lemma_split_nonempty(s: Seq<u8>, sep: u8)
    ensures
        split_at_byte(s, sep).len() >= 1,
    decreases s.len(),
{
    if s.len() > 0 {
        lemma_split_nonempty(s.drop_last(), sep);
    }
}

/// Splits `s` at every occurrence of `sep`.
pub fn split_bytes(s: &[u8], sep: u8) -> (r: Vec<Vec<u8>>)
    ensures
        views(r@) == split_at_byte(s@, sep),
{
    let mut out: Vec<Vec<u8>> = Vec::new();
    let mut cur: Vec<u8> = Vec::new();
    let mut i: usize = 0;
    while i < s.len()
        invariant
            i <= s.len(),
            views(out@).push(cur@) == split_at_byte(s@.take(i as int), sep),
        decreases s.len() - i,
    {
        let ghost before = s@.take(i as int);
        proof {
            assert(s@.take(i + 1).drop_last() == before);
            lemma_split_nonempty(before, sep);
        }
        if s[i] == sep {
            out.push(cur);
            cur = Vec::new();
            assert(views(out@).push(cur@) =~= split_at_byte(before, sep).push(Seq::empty()));
        } else {
            let ghost prev = cur@;
            cur.push(s[i]);
            let ghost init = split_at_byte(before, sep);
            assert(views(out@).push(cur@) =~= init.update(init.len() - 1, prev.push(s[i as int])));
        }
        i += 1;
    }
    assert(s@.take(s@.len() as int) == s@);
    out.push(cur);
    assert(views(out@) =~= split_at_byte(s@, sep));
    out
}

/// `i` is the position of the first `b` in `s`.
pub open spec fn is_first(s: Seq<u8>, b: u8, i: int) -> bool {
    &&& 0 <= i < s.len()
    &&& s[i] == b
    &&& forall|j: int| 0 <= j < i ==> s[j] != b
}

/// `s` cut at its first `=` into a key and a value; `None` where it holds
/// no `=`.
pub open spec fn assignment_of(s: Seq<u8>) -> Option<(Seq<u8>, Seq<u8>)> {
    if exists|i: int| is_first(s, EQUALS, i) {
        let i = choose|i: int| is_first(s, EQUALS, i);
        Some((s.take(i), s.skip(i + 1)))
    } else {
        None
    }
}

/// Cuts `s` at its first `=` into a key and a value.
pub fn split_assignment(s: &[u8]) -> (r: Option<(Vec<u8>, Vec<u8>)>)
    ensures
        match r {
            Some((k, v)) => assignment_of(s@) == Some((k@, v@)),
            None => assignment_of(s@) is None,
        },
{
    let mut i: usize = 0;
    while i < s.len()
        invariant
            i <= s.len(),
            forall|j: int| 0 <= j < i ==> s@[j] != EQUALS,
        decreases s.len() - i,
    {
        if s[i] == EQUALS {
            let mut key: Vec<u8> = Vec::new();
            let mut value: Vec<u8> = Vec::new();
            let mut j: usize = 0;
            while j < i
                invariant
                    j <= i < s.len(),
                    key@ == s@.take(j as int),
                decreases i - j,
            {
                key.push(s[j]);
                assert(key@ =~= s@.take(j + 1));
                j += 1;
            }
            j = i + 1;
            while j < s.len()
                invariant
                    i < j <= s.len(),
                    value@ == s@.subrange(i + 1, j as int),
                decreases s.len() - j,
            {
                value.push(s[j]);
                assert(value@ =~= s@.subrange(i + 1, j + 1));
                j += 1;
            }
            proof {
                assert(is_first(s@, EQUALS, i as int));
                let c = choose|c: int| is_first(s@, EQUALS, c);
                assert(c == i);
                assert(value@ =~= s@.skip(i + 1));
            }
            return Some((key, value));
        }
        i += 1;
    }
    None
}

/// A copy of `s`.
pub fn copy_bytes(s: &[u8]) -> (r: Vec<u8>)
    ensures
        r@ == s@,
{
    let mut r: Vec<u8> = Vec::new();
    let mut i: usize = 0;
    while i < s.len()
        invariant
            i <= s.len(),
            r@ == s@.take(i as int),
        decreases s.len() - i,
    {
        r.push(s[i]);
        assert(r@ =~= s@.take(i + 1));
        i += 1;
    }
    assert(s@.take(i as int) =~= s@);
    r
}

/// Byte-wise equality of two strings.
pub fn bytes_eq(a: &[u8], b: &[u8]) -> (r: bool)
    ensures
        r == (a@ == b@),
{
    if a.len() != b.len() {
        return false;
    }
    let mut i: usize = 0;
    while i < a.len()
        invariant
            i <= a.len() == b.len(),
            a@.take(i as int) == b@.take(i as int),
        decreases a.len() - i,
    {
        if a[i] != b[i] {
            return false;
        }
        assert(a@.take(i + 1) =~= a@.take(i as int).push(a@[i as int]));
        assert(b@.take(i + 1) =~= b@.take(i as int).push(b@[i as int]));
        i += 1;
    }
    assert(a@ =~= a@.take(i as int));
    assert(b@ =~= b@.take(i as int));
    true
}

/// ASCII white space, as `char::is_whitespace` classifies the bytes below 128.
pub open spec fn is_space(c: u8) -> bool {
    c == SPACE || (0x09 <= c && c <= 0x0d)
}

/// `s` without its trailing white space.
pub open spec fn trim_end(s: Seq<u8>) -> Seq<u8>
    decreases s.len(),
{
    if s.len() > 0 && is_space(s.last()) {
        trim_end(s.drop_last())
    } else {
        s
    }
}

/// The length of `s` once its trailing white space is removed.
pub fn trimmed_len(s: &[u8]) -> (r: usize)
    ensures
        r <= s@.len(),
        s@.take(r as int) == trim_end(s@),
{
    let mut n: usize = s.len();
    assert(s@.take(n as int) == s@);
    while n > 0 && (s[n - 1] == SPACE || (0x09 <= s[n - 1] && s[n - 1] <= 0x0d))
        invariant
            n <= s@.len(),
            trim_end(s@.take(n as int)) == trim_end(s@),
        decreases n,
    {
        assert(s@.take(n as int).drop_last() =~= s@.take(n - 1));
        n -= 1;
    }
    n
}

/// The value of `c` as a digit: decimal digits, then letters of either case
/// from ten on; 99 for any other byte.
pub open spec fn raw_digit(c: u8) -> int {
    if 0x30 <= c && c <= 0x39 {
        c - 0x30
    } else if 0x61 <= c && c <= 0x7a {
        c - 0x61 + 10
    } else if 0x41 <= c && c <= 0x5a {
        c - 0x41 + 10
    } else {
        99
    }
}

pub open spec fn digit_value(c: u8, radix: nat) -> Option<nat> {
    if raw_digit(c) < radix {
        Some(raw_digit(c) as nat)
    } else {
        None
    }
}

/// The number that the digits `s` write in base `radix`; `None` where one
/// of them is no digit of that base.
pub open spec fn digits_value(s: Seq<u8>, radix: nat) -> Option<nat>
    decreases s.len(),
{
    if s.len() == 0 {
        Some(0)
    } else {
        match (digits_value(s.drop_last(), radix), digit_value(s.last(), radix)) {
            (Some(v), Some(d)) => Some(v * radix + d),
            _ => None,
        }
    }
}

/// An unsigned number as Rust's integer parsers read it: an optional `+`,
/// then at least one digit.
pub open spec fn unsigned_value(s: Seq<u8>, radix: nat) -> Option<nat> {
    let body = if s.len() > 0 && s[0] == PLUS {
        s.skip(1)
    } else {
        s
    };
    if body.len() == 0 {
        None
    } else {
        digits_value(body, radix)
    }
}

pub proof fn lemma_digits_prefix(s: Seq<u8>, i: int, radix: nat)
    requires
        0 <= i <= s.len(),
        digits_value(s, radix) is Some,
        radix >= 1,
    ensures
        digits_value(s.take(i), radix) is Some,
        digits_value(s.take(i), radix).unwrap() <= digits_value(s, radix).unwrap(),
    decreases s.len(),
{
    if i < s.len() {
        lemma_digits_prefix(s.drop_last(), i, radix);
        assert(s.drop_last().take(i) == s.take(i));
        let v = digits_value(s.drop_last(), radix).unwrap();
        assert(v * radix + raw_digit(s.last()) >= v) by (nonlinear_arith)
            requires
                raw_digit(s.last()) >= 0,
                radix >= 1,
        ;
    } else {
        assert(s.take(i) == s);
    }
}

fn digit_of(c: u8) -> (d: usize)
    ensures
        d as int == raw_digit(c),
{
    if 0x30 <= c && c <= 0x39 {
        (c - 0x30) as usize
    } else if 0x61 <= c && c <= 0x7a {
        (c - 0x61 + 10) as usize
    } else if 0x41 <= c && c <= 0x5a {
        (c - 0x41 + 10) as usize
    } else {
        99
    }
}

/// Reads an unsigned number in base `radix`. `None` where `s` is no such
/// number or where it does not fit in a `usize`.
pub fn parse_unsigned(s: &[u8], radix: usize) -> (r: Option<usize>)
    requires
        2 <= radix <= 36,
    ensures
        match r {
            Some(v) => unsigned_value(s@, radix as nat) == Some(v as nat),
            None => match unsigned_value(s@, radix as nat) {
                Some(v) => v > usize::MAX,
                None => true,
            },
        },
{
    let start: usize = if s.len() > 0 && s[0] == PLUS {
        1
    } else {
        0
    };
    if start == s.len() {
        return None;
    }
    let ghost body = s@.skip(start as int);
    assert(start == 0 ==> body =~= s@);
    assert(unsigned_value(s@, radix as nat) == digits_value(body, radix as nat));
    let mut v: usize = 0;
    let mut i: usize = start;
    assert(s@.subrange(start as int, start as int) =~= body.take(0));
    while i < s.len()
        invariant
            start <= i <= s.len(),
            body == s@.skip(start as int),
            unsigned_value(s@, radix as nat) == digits_value(body, radix as nat),
            s@.subrange(start as int, i as int) == body.take(i - start),
            digits_value(s@.subrange(start as int, i as int), radix as nat) == Some(v as nat),
            2 <= radix <= 36,
        decreases s.len() - i,
    {
        let ghost next = s@.subrange(start as int, i + 1);
        assert(next.drop_last() =~= s@.subrange(start as int, i as int));
        assert(next =~= body.take(i + 1 - start));
        let d = digit_of(s[i]);
        assert(next.last() == s@[i as int]);
        assert(d < radix ==> digits_value(next, radix as nat) == Some((v * radix + d) as nat));
        assert(d >= radix ==> digits_value(next, radix as nat) is None);
        if d >= radix {
            proof {
                if digits_value(body, radix as nat) is Some {
                    lemma_digits_prefix(body, i + 1 - start, radix as nat);
                }
            }
            return None;
        }
        let limit = (usize::MAX - d) / radix;
        if v > limit {
            proof {
                assert(v * radix + d > usize::MAX) by (nonlinear_arith)
                    requires
                        v > limit,
                        limit == (usize::MAX - d) as int / radix as int,
                        radix > 0,
                        d <= usize::MAX,
                ;
                if digits_value(body, radix as nat) is Some {
                    lemma_digits_prefix(body, i + 1 - start, radix as nat);
                }
            }
            return None;
        }
        assert(v * radix + d <= usize::MAX) by (nonlinear_arith)
            requires
                v <= limit,
                limit == (usize::MAX - d) as int / radix as int,
                radix > 0,
                d <= usize::MAX,
        ;
        v = v * radix + d;
        i += 1;
    }
    assert(s@.subrange(start as int, s@.len() as int) =~= body);
    Some(v)
}

} // verus!
