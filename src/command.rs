use vstd::prelude::*;

use crate::error::{Error, Result};
use crate::text::chars_of;

verus! {

/// Value of a hexadecimal digit, if `c` is one.
pub open spec fn hex_digit_value(c: char) -> Option<nat> {
    if '0' <= c && c <= '9' {
        Some((c as u32 - '0' as u32) as nat)
    } else if 'a' <= c && c <= 'f' {
        Some((c as u32 - 'a' as u32 + 10) as nat)
    } else if 'A' <= c && c <= 'F' {
        Some((c as u32 - 'A' as u32 + 10) as nat)
    } else {
        None
    }
}

/// Value of a sequence of hexadecimal digits (every character a digit).
pub open spec fn hex_value(s: Seq<char>) -> nat
    decreases s.len(),
{
    if s.len() == 0 {
        0
    } else {
        hex_value(s.drop_last()) * 16 + hex_digit_value(s.last())->0
    }
}

/// Whether every character of `s` is a hexadecimal digit.
pub open spec fn all_hex(s: Seq<char>) -> bool {
    forall|i: int| 0 <= i < s.len() ==> #[trigger] hex_digit_value(s[i]) is Some
}

/// The digits of an unsigned number: an optional `+`, then the digits.
pub open spec fn unsigned_digits(s: Seq<char>) -> Seq<char> {
    if s.len() > 0 && s[0] == '+' {
        s.subrange(1, s.len() as int)
    } else {
        s
    }
}

/// A hexadecimal number that fits an address, as std's radix-16 parser reads it.
pub open spec fn hex_spec(s: Seq<char>) -> Option<usize> {
    let d = unsigned_digits(s);
    if d.len() > 0 && all_hex(d) && hex_value(d) <= usize::MAX {
        Some(hex_value(d) as usize)
    } else {
        None
    }
}

/// The value of a prefix of hexadecimal digits bounds the value of the whole.
proof fn lemma_hex_value_grows(d: Seq<char>, k: int)
    requires
        0 <= k <= d.len(),
        all_hex(d),
    ensures
        hex_value(d.subrange(0, k)) <= hex_value(d),
    decreases d.len() - k,
{
    if k < d.len() {
        lemma_hex_value_grows(d, k + 1);
        let a = d.subrange(0, k);
        let b = d.subrange(0, k + 1);
        assert(b.drop_last() =~= a);
        assert(hex_digit_value(d[k]) is Some);
    } else {
        assert(d.subrange(0, k) =~= d);
    }
}

/// Parse a hexadecimal number (the form that command arguments take).
pub fn parse_hex(s: &str) -> (r: Option<usize>)
    ensures
        r == hex_spec(s@),
{
    let v = chars_of(s);
    parse_hex_chars(&v)
}

/// Parse a hexadecimal number written as characters.
fn parse_hex_chars(v: &Vec<char>) -> (r: Option<usize>)
    ensures
        r == hex_spec(v@),
{
    let start: usize = if v.len() > 0 && v[0] == '+' {
        1
    } else {
        0
    };
    let ghost d = unsigned_digits(v@);
    assert(d =~= v@.subrange(start as int, v@.len() as int));
    if start >= v.len() {
        return None;
    }
    let mut value: usize = 0;
    let mut i = start;
    while i < v.len()
        invariant
            start <= i <= v@.len(),
            d == unsigned_digits(v@),
            d == v@.subrange(start as int, v@.len() as int),
            all_hex(v@.subrange(start as int, i as int)),
            value as nat == hex_value(v@.subrange(start as int, i as int)),
        decreases v.len() - i,
    {
        let c = v[i];
        let ghost prefix = v@.subrange(start as int, i as int);
        let ghost next = v@.subrange(start as int, i + 1);
        assert(next.drop_last() =~= prefix);
        assert(next.last() == c);
        let digit: usize = if c >= '0' && c <= '9' {
            (c as u32 - '0' as u32) as usize
        } else if c >= 'a' && c <= 'f' {
            (c as u32 - 'a' as u32 + 10) as usize
        } else if c >= 'A' && c <= 'F' {
            (c as u32 - 'A' as u32 + 10) as usize
        } else {
            assert(d[i - start] == c);
            assert(hex_digit_value(d[i - start]) is None);
            assert(!all_hex(d));
            return None;
        };
        assert(all_hex(next)) by {
            assert forall|j: int| 0 <= j < next.len() implies #[trigger] hex_digit_value(next[j]) is Some by {
                if j < prefix.len() {
                    assert(next[j] == prefix[j]);
                }
            }
        }
        assert(hex_value(next) == value * 16 + digit);
        if value > (usize::MAX - digit) / 16 {
            proof {
                if all_hex(d) {
                    lemma_hex_value_grows(d, (i + 1 - start) as int);
                    assert(d.subrange(0, (i + 1 - start) as int) =~= next);
                }
            }
            return None;
        }
        value = value * 16 + digit;
        i += 1;
    }
    assert(v@.subrange(start as int, v@.len() as int) =~= d);
    Some(value)
}

/// Whether `s` holds `..` at position `i`.
pub open spec fn dots_at(s: Seq<char>, i: int) -> bool {
    0 <= i && i + 1 < s.len() && s[i] == '.' && s[i + 1] == '.'
}

/// A range written `x..y`, split at its first `..`, with `x` and `y` hexadecimal.
pub open spec fn range_spec(s: Seq<char>) -> Result<(usize, usize)> {
    if exists|i: int| dots_at(s, i) {
        let i = choose|i: int| dots_at(s, i) && forall|j: int| 0 <= j < i ==> !dots_at(s, j);
        match (hex_spec(s.subrange(0, i)), hex_spec(s.subrange(i + 2, s.len() as int))) {
            (Some(a), Some(b)) => Ok((a, b)),
            _ => Err(Error::ParseInt),
        }
    } else {
        Err(Error::ParseInt)
    }
}

/// The position of the first `..` in `v`, if any.
fn find_dots(v: &Vec<char>) -> (r: Option<usize>)
    ensures
        match r {
            Some(i) => dots_at(v@, i as int) && forall|j: int| 0 <= j < i ==> !dots_at(v@, j),
            None => forall|j: int| !dots_at(v@, j),
        },
{
    let mut i: usize = 0;
    while i < v.len() && i + 1 < v.len()
        invariant
            i <= v@.len(),
            forall|j: int| 0 <= j < i ==> !dots_at(v@, j),
        decreases v.len() - i,
    {
        if v[i] == '.' && v[i + 1] == '.' {
            return Some(i);
        }
        i += 1;
    }
    proof {
        assert forall|j: int| !dots_at(v@, j) by {
            if dots_at(v@, j) {
                assert(j < i);
            }
        }
    }
    None
}

/// The characters of `v` from `lo` up to `hi`.
fn slice_of(v: &Vec<char>, lo: usize, hi: usize) -> (r: Vec<char>)
    requires
        lo <= hi <= v@.len(),
    ensures
        r@ == v@.subrange(lo as int, hi as int),
{
    let mut out: Vec<char> = Vec::new();
    let mut i = lo;
    while i < hi
        invariant
            lo <= i <= hi <= v@.len(),
            out@ == v@.subrange(lo as int, i as int),
        decreases hi - i,
    {
        out.push(v[i]);
        i += 1;
        assert(out@ =~= v@.subrange(lo as int, i as int));
    }
    out
}

/// Parse a range written `x..y`, where `x` and `y` are hexadecimal numbers.
pub fn parse_range(range: String) -> (r: Result<(usize, usize)>)
    ensures
        r == range_spec(range@),
{
    let v = chars_of(range.as_str());
    let i = match find_dots(&v) {
        Some(i) => i,
        None => return Err(Error::ParseInt),
    };
    proof {
        let k = choose|k: int| dots_at(v@, k) && forall|j: int| 0 <= j < k ==> !dots_at(v@, j);
        assert(k == i) by {
            if k < i {
                assert(!dots_at(v@, k));
            } else if k > i {
                assert(!dots_at(v@, i as int));
            }
        }
    }
    let n = v.len();
    let left = slice_of(&v, 0, i);
    let right = slice_of(&v, i + 2, n);
    match (parse_hex_chars(&left), parse_hex_chars(&right)) {
        (Some(a), Some(b)) => Ok((a, b)),
        _ => Err(Error::ParseInt),
    }
}

} // verus!
