use vstd::prelude::*;
use vstd::string::*;

verus! {

/// Upper-case hexadecimal digit for a value below 16.
pub open spec fn hex_char(d: int) -> char {
    seq!['0', '1', '2', '3', '4', '5', '6', '7', '8', '9', 'A', 'B', 'C', 'D', 'E', 'F'][d]
}

/// Upper-case hexadecimal digits of `n`, without leading zeros.
pub open spec fn hex_digits(n: nat) -> Seq<char>
    decreases n,
{
    if n < 16 {
        seq![hex_char(n as int)]
    } else {
        hex_digits(n / 16).push(hex_char((n % 16) as int))
    }
}

/// Upper-case hexadecimal digits of `n`, zero-padded on the left to at least `width`.
pub open spec fn hex_padded(n: nat, width: nat) -> Seq<char> {
    let d = hex_digits(n);
    if d.len() < width {
        Seq::new((width - d.len()) as nat, |i: int| '0') + d
    } else {
        d
    }
}

/// Relies on `format!` with `{:0w$X}`: the upper-case hexadecimal digits of `n`,
/// zero-padded on the left to at least `width` characters.
#[verifier::external_body]
pub(crate) fn hex_upper(n: usize, width: usize) -> (r: String)
    requires
        width <= 6,
    ensures
        r@ == hex_padded(n as nat, width as nat),
{
    format!("{:01$X}", n, width)
}

/// The two strings one after the other.
pub(crate) fn concat(a: &str, b: &str) -> (r: String)
    ensures
        r@ == a@ + b@,
{
    let mut r = a.to_owned();
    r.append(b);
    r
}

/// A string holding exactly the characters of a literal.
pub(crate) fn owned(s: &str) -> (r: String)
    ensures
        r@ == s@,
{
    s.to_owned()
}

/// The characters of a string, one per element.
pub fn chars_of(s: &str) -> (r: Vec<char>)
    ensures
        r@ == s@,
{
    let n = s.unicode_len();
    let mut v: Vec<char> = Vec::new();
    let mut i: usize = 0;
    while i < n
        invariant
            n == s@.len(),
            i <= n,
            v@ == s@.subrange(0, i as int),
        decreases n - i,
    {
        let c = s.get_char(i);
        v.push(c);
        i += 1;
        assert(v@ =~= s@.subrange(0, i as int));
    }
    assert(v@ =~= s@);
    v
}

/// The string without its first character.
pub fn drop_first(s: &str) -> (r: String)
    requires
        s@.len() > 0,
    ensures
        r@ == s@.subrange(1, s@.len() as int),
{
    let n = s.unicode_len();
    s.substring_char(1, n).to_owned()
}

/// Whether a string starts with `c`.
pub fn starts_with_char(s: &str, c: char) -> (r: bool)
    ensures
        r == (s@.len() > 0 && s@[0] == c),
{
    s.unicode_len() > 0 && s.get_char(0) == c
}

/// Whether two character sequences are equal, element by element.
pub fn chars_equal(a: &Vec<char>, b: &[char]) -> (r: bool)
    ensures
        r == (a@ == b@),
{
    if a.len() != b.len() {
        return false;
    }
    let mut i: usize = 0;
    while i < a.len()
        invariant
            a@.len() == b@.len(),
            i <= a@.len(),
            forall|j: int| 0 <= j < i ==> a@[j] == b@[j],
        decreases a.len() - i,
    {
        if a[i] != b[i] {
            return false;
        }
        i += 1;
    }
    assert(a@ =~= b@);
    true
}

/// Whether `c` is an ASCII letter.
pub open spec fn is_ascii_letter(c: char) -> bool {
    ('a' <= c && c <= 'z') || ('A' <= c && c <= 'Z')
}

/// Whether `c` is an ASCII decimal digit.
pub open spec fn is_ascii_digit(c: char) -> bool {
    '0' <= c && c <= '9'
}

/// Identifiers: a letter or underscore, then letters, digits or underscores.
pub open spec fn is_identifier(s: Seq<char>) -> bool {
    &&& s.len() > 0
    &&& (is_ascii_letter(s[0]) || s[0] == '_')
    &&& forall|i: int|
        1 <= i < s.len() ==> (is_ascii_letter(#[trigger] s[i]) || is_ascii_digit(s[i]) || s[i]
            == '_')
}

/// The regular expression that matches identifiers.
pub open spec fn identifier_pattern() -> Seq<char> {
    seq![
        '^', '[', '_', 'A', '-', 'Z', 'a', '-', 'z', ']', '[', '_', 'A', '-', 'Z', 'a', '-', 'z',
        '0', '-', '9', ']', '*', '$',
    ]
}

/// Relies on `regex::Regex::new` and `regex::Regex::is_match`: the pattern
/// `^[_A-Za-z][_A-Za-z0-9]*$` compiles, and matches exactly the identifiers
/// (`$` in this crate's syntax only matches at the end of the text).
#[verifier::external_body]
pub(crate) fn regex_is_match(pattern: &str, s: &str) -> (r: bool)
    requires
        pattern@ == identifier_pattern(),
    ensures
        r == is_identifier(s@),
{
    regex::Regex::new(pattern).unwrap().is_match(s)
}

/// Whether `s` starts with the characters of `prefix`.
pub fn starts_with(s: &Vec<char>, prefix: &[char]) -> (r: bool)
    ensures
        r == (prefix@.len() <= s@.len() && s@.subrange(0, prefix@.len() as int) == prefix@),
{
    if prefix.len() > s.len() {
        return false;
    }
    let mut i: usize = 0;
    while i < prefix.len()
        invariant
            prefix@.len() <= s@.len(),
            i <= prefix@.len(),
            forall|j: int| 0 <= j < i ==> s@[j] == prefix@[j],
        decreases prefix.len() - i,
    {
        if s[i] != prefix[i] {
            assert(s@.subrange(0, prefix@.len() as int)[i as int] != prefix@[i as int]);
            return false;
        }
        i += 1;
    }
    assert(s@.subrange(0, prefix@.len() as int) =~= prefix@);
    true
}

} // verus!
