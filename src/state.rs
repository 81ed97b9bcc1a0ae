use vstd::prelude::*;

use crate::error::{Error, Result};
use crate::text::{chars_equal, chars_of, is_ascii_digit, owned};

verus! {

/// Mask of the M bit (accumulator width) in P.
pub const M_MASK: u8 = 0x20;

/// Mask of the X bit (index width) in P.
pub const X_MASK: u8 = 0x10;

/// Mask of the bits of P that the analysis tracks.
pub const MX_MASK: u8 = 0x30;

/// SNES processor status register (P).
#[derive(Copy, Clone, Debug, PartialEq, Eq, Hash, Structural)]
pub struct State {
    pub p: u8,
}

/// Value of the M bit of a raw P value.
pub open spec fn m_of(p: u8) -> bool {
    p & 0x20 != 0
}

/// Value of the X bit of a raw P value.
pub open spec fn x_of(p: u8) -> bool {
    p & 0x10 != 0
}

/// Raw P value with only M and X set as given.
pub open spec fn p_of_mx(m: bool, x: bool) -> u8 {
    ((if m { 0x20u8 } else { 0u8 }) | (if x { 0x10u8 } else { 0u8 })) as u8
}

impl State {
    /// The M bit.
    pub open spec fn m_flag(self) -> bool {
        m_of(self.p)
    }

    /// The X bit.
    pub open spec fn x_flag(self) -> bool {
        x_of(self.p)
    }

    /// Instantiate a state register from the value of P.
    pub fn new(p: u8) -> (r: Self)
        ensures
            r.p == p,
    {
        Self { p }
    }

    /// Instantiate a P state from M/X values.
    pub fn from_mx(m: bool, x: bool) -> (r: Self)
        ensures
            r.p == p_of_mx(m, x),
            r.m_flag() == m,
            r.x_flag() == x,
    {
        let mb: u8 = if m { 0x20 } else { 0 };
        let xb: u8 = if x { 0x10 } else { 0 };
        let p = mb | xb;
        assert(m_of(mb | xb) == (mb == 0x20u8) && x_of(mb | xb) == (xb == 0x10u8)) by (bit_vector)
            requires
                mb == 0x20u8 || mb == 0u8,
                xb == 0x10u8 || xb == 0u8,
        ;
        Self { p }
    }

    /// Instantiate a state from a human-readable expression (`m=0,x=1`).
    #[verifier::rlimit(60)]
    pub fn from_expr(expr: String) -> (r: Result<Self>)
        ensures
            r == parse_state(expr@),
    {
        let v = chars_of(expr.as_str());
        let c = match find_char(&v, ',') {
            None => return Err(Error::InvalidStateExpr),
            Some(c) => c,
        };
        if find_char_from(&v, ',', c + 1).is_some() {
            return Err(Error::InvalidStateExpr);
        }
        let (a, b) = match split_assignments(&v, c) {
            Ok(ab) => ab,
            Err(e) => return Err(e),
        };
        let mx = assign_exec(assign_exec((Some(false), Some(false)), a), b);
        let st = Self::from_mx(mx.0 == Some(true), mx.1 == Some(true));
        proof {
            lemma_parse_state_pair(v@, a, b);
        }
        Ok(st)
    }

    /// Return the raw value of P.
    pub fn p(&self) -> (r: u8)
        ensures
            r == self.p,
    {
        self.p
    }

    /// Return the value of M.
    pub fn m(&self) -> (r: bool)
        ensures
            r == self.m_flag(),
    {
        (self.p & M_MASK) != 0
    }

    /// Return the value of X.
    pub fn x(&self) -> (r: bool)
        ensures
            r == self.x_flag(),
    {
        (self.p & X_MASK) != 0
    }

    /// Set the value of M.
    pub fn set_m(&mut self, m: bool)
        ensures
            final(self).m_flag() == m,
            final(self).x_flag() == old(self).x_flag(),
            final(self).p & !0x30u8 == old(self).p & !0x30u8,
    {
        if m {
            self.set(M_MASK);
        } else {
            self.reset(M_MASK);
        }
        let ghost o = old(self).p;
        let ghost n = self.p;
        assert(m_of(n) == m && x_of(n) == x_of(o)) by (bit_vector)
            requires
                (m && n == o | (0x20u8 & 0x30u8)) || (!m && n == o & !(0x20u8 & 0x30u8)),
        ;
    }

    /// Set the value of X.
    pub fn set_x(&mut self, x: bool)
        ensures
            final(self).x_flag() == x,
            final(self).m_flag() == old(self).m_flag(),
            final(self).p & !0x30u8 == old(self).p & !0x30u8,
    {
        if x {
            self.set(X_MASK);
        } else {
            self.reset(X_MASK);
        }
        let ghost o = old(self).p;
        let ghost n = self.p;
        assert(x_of(n) == x && m_of(n) == m_of(o)) by (bit_vector)
            requires
                (x && n == o | (0x10u8 & 0x30u8)) || (!x && n == o & !(0x10u8 & 0x30u8)),
        ;
    }

    /// Set bits in the state register (only M and X are affected).
    pub fn set(&mut self, p: u8)
        ensures
            final(self).p == set_spec(old(self).p, p),
            final(self).p & !0x30u8 == old(self).p & !0x30u8,
    {
        let mask = p & MX_MASK;
        self.p = self.p | mask;
        let ghost o = old(self).p;
        assert((o | (p & 0x30u8)) & !0x30u8 == o & !0x30u8) by (bit_vector);
    }

    /// Reset bits in the state register (only M and X are affected).
    pub fn reset(&mut self, p: u8)
        ensures
            final(self).p == reset_spec(old(self).p, p),
            final(self).p & !0x30u8 == old(self).p & !0x30u8,
    {
        let mask = p & MX_MASK;
        self.p = self.p & !mask;
        let ghost o = old(self).p;
        assert((o & !(p & 0x30u8)) & !0x30u8 == o & !0x30u8) by (bit_vector);
    }

    /// Return the size of the accumulator in bytes.
    pub fn a_size(&self) -> (r: usize)
        ensures
            r == (if self.m_flag() { 1usize } else { 2usize }),
    {
        if self.m() {
            1
        } else {
            2
        }
    }

    /// Return the size of the index registers in bytes.
    pub fn x_size(&self) -> (r: usize)
        ensures
            r == (if self.x_flag() { 1usize } else { 2usize }),
    {
        if self.x() {
            1
        } else {
            2
        }
    }
}

/// P after `State::set(mask)`.
pub open spec fn set_spec(p: u8, mask: u8) -> u8 {
    p | (mask & 0x30)
}

/// P after `State::reset(mask)`.
pub open spec fn reset_spec(p: u8, mask: u8) -> u8 {
    p & !(mask & 0x30)
}

/// Setting bits of a state and then resetting the same bits leaves every bit
/// that the mask does not touch as it was initially (all bits but M and X in
/// particular), and clears the M and X bits of the mask.
pub proof fn lemma_set_reset_keeps_other_bits(s: State, mask: u8)
    ensures
        reset_spec(set_spec(s.p, mask), mask) & !0x30u8 == s.p & !0x30u8,
        reset_spec(set_spec(s.p, mask), mask) == s.p & !(mask & 0x30),
{
    let p = s.p;
    assert(((p | (mask & 0x30u8)) & !(mask & 0x30u8)) & !0x30u8 == p & !0x30u8) by (bit_vector);
    assert(((p | (mask & 0x30u8)) & !(mask & 0x30u8)) == p & !(mask & 0x30u8)) by (bit_vector);
}

/// Possible reasons why a state change is unknown.
#[derive(Copy, Clone, Debug, PartialEq, Eq, Hash, Structural)]
pub enum UnknownReason {
    Known,
    Unknown,
    IndirectJump,
    MultipleReturnStates,
    StackManipulation,
    SuspectInstruction,
    Recursion,
    MutableCode,
}

/// State change caused by the execution of a subroutine.
#[derive(Copy, Clone, Debug, PartialEq, Eq, Hash, Structural)]
pub struct StateChange {
    pub m: Option<bool>,
    pub x: Option<bool>,
    pub unknown_reason: UnknownReason,
}

/// The empty, known state change.
pub open spec fn empty_change() -> StateChange {
    StateChange { m: None, x: None, unknown_reason: UnknownReason::Known }
}

/// The state change with no delta and the given unknown reason.
pub open spec fn unknown_change(reason: UnknownReason) -> StateChange {
    StateChange { m: None, x: None, unknown_reason: reason }
}

/// A component of a change, cancelled when it equals what is already inferred.
pub open spec fn cancel(c: Option<bool>, inferred: Option<bool>) -> Option<bool> {
    if c is Some && c == inferred {
        None
    } else {
        c
    }
}

/// A component of a change, cancelled when it equals the bit already in force.
pub open spec fn cancel_bit(c: Option<bool>, bit: bool) -> Option<bool> {
    if c == Some(bit) {
        None
    } else {
        c
    }
}

/// The change `c` simplified against state `s`.
pub open spec fn simplify_spec(c: StateChange, s: State) -> StateChange {
    StateChange { m: cancel_bit(c.m, s.m_flag()), x: cancel_bit(c.x, s.x_flag()), ..c }
}

/// The change `c` with the components that `inf` already infers cancelled.
pub open spec fn inference_spec(c: StateChange, inf: StateChange) -> StateChange {
    StateChange { m: cancel(c.m, inf.m), x: cancel(c.x, inf.x), ..c }
}

/// Textual form of a bit value.
pub open spec fn bit_text(b: bool) -> Seq<char> {
    if b {
        seq!['1']
    } else {
        seq!['0']
    }
}

/// Textual form of a state change: `unknown`, `none`, or `m=.`, `x=.`, `m=.,x=.`.
pub open spec fn format_change(c: StateChange) -> Seq<char> {
    if c.unknown_reason != UnknownReason::Known {
        seq!['u', 'n', 'k', 'n', 'o', 'w', 'n']
    } else {
        match (c.m, c.x) {
            (None, None) => seq!['n', 'o', 'n', 'e'],
            (Some(m), None) => seq!['m', '='] + bit_text(m),
            (None, Some(x)) => seq!['x', '='] + bit_text(x),
            (Some(m), Some(x)) => seq!['m', '='] + bit_text(m) + seq![',', 'x', '='] + bit_text(
                x,
            ),
        }
    }
}

/// Value of a sequence of decimal digits.
pub open spec fn digits_value(s: Seq<char>) -> nat
    decreases s.len(),
{
    if s.len() == 0 {
        0
    } else {
        digits_value(s.drop_last()) * 10 + ((s.last() as u32 - '0' as u32) as nat)
    }
}

/// Whether every character of `s` is a decimal digit.
pub open spec fn all_digits(s: Seq<char>) -> bool {
    forall|i: int| 0 <= i < s.len() ==> is_ascii_digit(#[trigger] s[i])
}

/// The digits of an unsigned decimal number: an optional `+`, then digits.
pub open spec fn number_digits(s: Seq<char>) -> Seq<char> {
    if s.len() > 0 && s[0] == '+' {
        s.subrange(1, s.len() as int)
    } else {
        s
    }
}

/// An 8-bit unsigned decimal number, as std's integer parser reads it.
pub open spec fn parse_u8_spec(s: Seq<char>) -> Option<u8> {
    let d = number_digits(s);
    if d.len() > 0 && all_digits(d) && digits_value(d) <= 255 {
        Some(digits_value(d) as u8)
    } else {
        None
    }
}

/// One assignment `m=<n>` or `x=<n>`: whether it names M, and the bit.
pub open spec fn assignment_spec(p: Seq<char>) -> Result<(bool, bool)> {
    if p.len() >= 2 && p[1] == '=' && (p[0] == 'm' || p[0] == 'x') {
        match parse_u8_spec(p.subrange(2, p.len() as int)) {
            Some(v) => Ok((p[0] == 'm', v != 0)),
            None => Err(Error::ParseInt),
        }
    } else {
        Err(Error::InvalidStateExpr)
    }
}

/// Whether `s` holds the character `c` at some position from `start` on.
pub open spec fn has_char_from(s: Seq<char>, c: char, start: int) -> bool {
    exists|i: int| start <= i < s.len() && s[i] == c
}

/// Index of the first `c` in `s`, given that there is one.
pub open spec fn first_index(s: Seq<char>, c: char) -> int {
    choose|i: int| 0 <= i < s.len() && s[i] == c && forall|j: int| 0 <= j < i ==> s[j] != c
}

/// The pieces of `s` around its first comma, when it has one.
pub open spec fn comma_pieces(s: Seq<char>) -> (Seq<char>, Seq<char>) {
    let c = first_index(s, ',');
    (s.subrange(0, c), s.subrange(c + 1, s.len() as int))
}

/// Apply an assignment to an optional M/X pair.
pub open spec fn assign(mx: (Option<bool>, Option<bool>), a: (bool, bool)) -> (
    Option<bool>,
    Option<bool>,
) {
    if a.0 {
        (Some(a.1), mx.1)
    } else {
        (mx.0, Some(a.1))
    }
}

/// A state expression: exactly two assignments separated by a comma.
pub open spec fn parse_state(s: Seq<char>) -> Result<State> {
    if !has_char_from(s, ',', 0) || has_char_from(s, ',', first_index(s, ',') + 1) {
        Err(Error::InvalidStateExpr)
    } else {
        let (a, b) = comma_pieces(s);
        match assignment_spec(a) {
            Err(e) => Err(e),
            Ok(pa) => match assignment_spec(b) {
                Err(e) => Err(e),
                Ok(pb) => {
                    let mx = assign(assign((Some(false), Some(false)), pa), pb);
                    Ok(State { p: p_of_mx(mx.0 == Some(true), mx.1 == Some(true)) })
                },
            },
        }
    }
}

/// A state change expression: `none`, `unknown`, or one or two assignments.
pub open spec fn parse_change(s: Seq<char>) -> Result<StateChange> {
    if s == seq!['n', 'o', 'n', 'e'] {
        Ok(empty_change())
    } else if s == seq!['u', 'n', 'k', 'n', 'o', 'w', 'n'] {
        Ok(unknown_change(UnknownReason::Unknown))
    } else if !has_char_from(s, ',', 0) {
        match assignment_spec(s) {
            Err(e) => Err(e),
            Ok(pa) => {
                let mx = assign((None, None), pa);
                Ok(StateChange { m: mx.0, x: mx.1, unknown_reason: UnknownReason::Known })
            },
        }
    } else if has_char_from(s, ',', first_index(s, ',') + 1) {
        Err(Error::InvalidStateExpr)
    } else {
        let (a, b) = comma_pieces(s);
        match assignment_spec(a) {
            Err(e) => Err(e),
            Ok(pa) => match assignment_spec(b) {
                Err(e) => Err(e),
                Ok(pb) => {
                    let mx = assign(assign((None, None), pa), pb);
                    Ok(StateChange { m: mx.0, x: mx.1, unknown_reason: UnknownReason::Known })
                },
            },
        }
    }
}

/// Position of the first `c` in `v` at or after `start`, if any.
fn find_char_from(v: &Vec<char>, c: char, start: usize) -> (r: Option<usize>)
    ensures
        match r {
            Some(i) => start <= i < v@.len() && v@[i as int] == c && forall|j: int|
                start <= j < i ==> v@[j] != c,
            None => !has_char_from(v@, c, start as int),
        },
{
    let mut i = start;
    while i < v.len()
        invariant
            start <= i,
            forall|j: int| start <= j < i && j < v@.len() ==> v@[j] != c,
        decreases v.len() - i,
    {
        if v[i] == c {
            return Some(i);
        }
        i += 1;
    }
    None
}

/// Position of the first `c` in `v`, if any.
fn find_char(v: &Vec<char>, c: char) -> (r: Option<usize>)
    ensures
        match r {
            Some(i) => i < v@.len() && v@[i as int] == c && i == first_index(v@, c),
            None => !has_char_from(v@, c, 0),
        },
{
    let r = find_char_from(v, c, 0);
    if let Some(i) = r {
        assert(0 <= i < v@.len() && v@[i as int] == c && forall|j: int| 0 <= j < i ==> v@[j] != c);
        let ghost k = first_index(v@, c);
        assert(k == i as int) by {
            if k < i {
                assert(v@[k] == c);
            } else if k > i {
                assert(v@[i as int] != c);
            }
        }
    }
    r
}

/// The characters of `v` from `lo` up to `hi`.
fn slice_chars(v: &Vec<char>, lo: usize, hi: usize) -> (r: Vec<char>)
    requires
        lo <= hi <= v@.len(),
    ensures
        r@ == v@.subrange(lo as int, hi as int),
{
    let mut out: Vec<char> = Vec::new();
    let mut i = lo;
    while i < hi
        invariant
            lo <= i <= hi <= v@.len(),
            out@ == v@.subrange(lo as int, i as int),
        decreases hi - i,
    {
        out.push(v[i]);
        i += 1;
        assert(out@ =~= v@.subrange(lo as int, i as int));
    }
    out
}

/// Parse an 8-bit unsigned decimal number.
fn parse_u8(s: &Vec<char>) -> (r: Option<u8>)
    ensures
        r == parse_u8_spec(s@),
{
    let start: usize = if s.len() > 0 && s[0] == '+' {
        1
    } else {
        0
    };
    let ghost d = number_digits(s@);
    assert(d =~= s@.subrange(start as int, s@.len() as int));
    if start >= s.len() {
        return None;
    }
    let mut value: u32 = 0;
    let mut i = start;
    while i < s.len()
        invariant
            start <= i <= s@.len(),
            d == number_digits(s@),
            d == s@.subrange(start as int, s@.len() as int),
            all_digits(s@.subrange(start as int, i as int)),
            value as nat == digits_value(s@.subrange(start as int, i as int)),
            value <= 255,
        decreases s.len() - i,
    {
        let c = s[i];
        let ghost prefix = s@.subrange(start as int, i as int);
        let ghost next = s@.subrange(start as int, i + 1);
        assert(next.drop_last() =~= prefix);
        if !(c >= '0' && c <= '9') {
            assert(d[i - start] == c);
            assert(!is_ascii_digit(d[i - start]));
            assert(!all_digits(d));
            return None;
        }
        let digit = (c as u32) - ('0' as u32);
        let nv = value * 10 + digit;
        assert(all_digits(next)) by {
            assert forall|j: int| 0 <= j < next.len() implies is_ascii_digit(#[trigger] next[j]) by {
                if j < prefix.len() {
                    assert(next[j] == prefix[j]);
                }
            }
        }
        assert(next.last() == c);
        assert(digits_value(next) == nv);
        if nv > 255 {
            // Every further digit only makes the value larger.
            proof {
                lemma_digits_value_grows(d, (i + 1 - start) as int);
                assert(d.subrange(0, (i + 1 - start) as int) =~= next);
            }
            return None;
        }
        value = nv;
        i += 1;
    }
    assert(s@.subrange(start as int, s@.len() as int) =~= d);
    Some(value as u8)
}

/// The value of a prefix of digits bounds the value of the whole.
proof fn lemma_digits_value_grows(d: Seq<char>, k: int)
    requires
        0 <= k <= d.len(),
    ensures
        digits_value(d.subrange(0, k)) <= digits_value(d),
    decreases d.len() - k,
{
    if k < d.len() {
        lemma_digits_value_grows(d, k + 1);
        let a = d.subrange(0, k);
        let b = d.subrange(0, k + 1);
        assert(b.drop_last() =~= a);
    } else {
        assert(d.subrange(0, k) =~= d);
    }
}

/// Parse one assignment `m=<n>` or `x=<n>`.
fn parse_assignment(p: &Vec<char>) -> (r: Result<(bool, bool)>)
    ensures
        r == assignment_spec(p@),
{
    if p.len() >= 2 && p[1] == '=' && (p[0] == 'm' || p[0] == 'x') {
        let value = slice_chars(p, 2, p.len());
        match parse_u8(&value) {
            Some(v) => Ok((p[0] == 'm', v != 0)),
            None => Err(Error::ParseInt),
        }
    } else {
        Err(Error::InvalidStateExpr)
    }
}

/// How a state expression with one comma reads.
proof fn lemma_parse_state_pair(s: Seq<char>, a: (bool, bool), b: (bool, bool))
    requires
        has_char_from(s, ',', 0),
        !has_char_from(s, ',', first_index(s, ',') + 1),
        assignment_spec(comma_pieces(s).0) == Ok::<(bool, bool), Error>(a),
        assignment_spec(comma_pieces(s).1) == Ok::<(bool, bool), Error>(b),
    ensures
        ({
            let mx = assign(assign((Some(false), Some(false)), a), b);
            parse_state(s) == Ok::<State, Error>(
                State { p: p_of_mx(mx.0 == Some(true), mx.1 == Some(true)) },
            )
        }),
{
}

/// Parse the two assignments on either side of the comma at `c`.
fn split_assignments(v: &Vec<char>, c: usize) -> (r: Result<((bool, bool), (bool, bool))>)
    requires
        c < v@.len(),
        v@[c as int] == ',',
        c == first_index(v@, ','),
    ensures
        match (assignment_spec(comma_pieces(v@).0), assignment_spec(comma_pieces(v@).1)) {
            (Err(e), _) => r == Err::<((bool, bool), (bool, bool)), Error>(e),
            (Ok(a), Err(e)) => r == Err::<((bool, bool), (bool, bool)), Error>(e),
            (Ok(a), Ok(b)) => r == Ok::<((bool, bool), (bool, bool)), Error>((a, b)),
        },
{
    let n = v.len();
    let first = slice_chars(v, 0, c);
    let second = slice_chars(v, c + 1, n);
    assert(first@ == comma_pieces(v@).0 && second@ == comma_pieces(v@).1);
    let a = match parse_assignment(&first) {
        Ok(a) => a,
        Err(e) => return Err(e),
    };
    let b = match parse_assignment(&second) {
        Ok(b) => b,
        Err(e) => return Err(e),
    };
    Ok((a, b))
}

/// Apply an assignment to an optional M/X pair.
fn assign_exec(mx: (Option<bool>, Option<bool>), a: (bool, bool)) -> (r: (
    Option<bool>,
    Option<bool>,
))
    ensures
        r == assign(mx, a),
{
    if a.0 {
        (Some(a.1), mx.1)
    } else {
        (mx.0, Some(a.1))
    }
}

impl StateChange {
    /// Instantiate a new known state change.
    pub fn new(m: Option<bool>, x: Option<bool>) -> (r: Self)
        ensures
            r == (StateChange { m, x, unknown_reason: UnknownReason::Known }),
    {
        Self { m, x, unknown_reason: UnknownReason::Known }
    }

    /// Instantiate an empty state change (no changes).
    pub fn new_empty() -> (r: Self)
        ensures
            r == empty_change(),
    {
        Self { m: None, x: None, unknown_reason: UnknownReason::Known }
    }

    /// Instantiate an unknown state change.
    pub fn new_unknown(reason: UnknownReason) -> (r: Self)
        ensures
            r == unknown_change(reason),
    {
        Self { m: None, x: None, unknown_reason: reason }
    }

    /// Instantiate a state change from a human-readable expression.
    pub fn from_expr(expr: String) -> (r: Result<Self>)
        ensures
            r == parse_change(expr@),
    {
        let v = chars_of(expr.as_str());
        if chars_equal(&v, &['n', 'o', 'n', 'e']) {
            return Ok(Self::new_empty());
        }
        if chars_equal(&v, &['u', 'n', 'k', 'n', 'o', 'w', 'n']) {
            return Ok(Self::new_unknown(UnknownReason::Unknown));
        }
        let mx = match find_char(&v, ',') {
            None => {
                let a = match parse_assignment(&v) {
                    Ok(a) => a,
                    Err(e) => return Err(e),
                };
                assign_exec((None, None), a)
            },
            Some(c) => {
                if find_char_from(&v, ',', c + 1).is_some() {
                    return Err(Error::InvalidStateExpr);
                }
                let (a, b) = match split_assignments(&v, c) {
                    Ok(ab) => ab,
                    Err(e) => return Err(e),
                };
                assign_exec(assign_exec((None, None), a), b)
            },
        };
        Ok(Self::new(mx.0, mx.1))
    }

    /// Return the change to M, if any.
    pub fn m(&self) -> (r: Option<bool>)
        ensures
            r == self.m,
    {
        self.m
    }

    /// Return the change to X, if any.
    pub fn x(&self) -> (r: Option<bool>)
        ensures
            r == self.x,
    {
        self.x
    }

    /// Return the reason why the change is unknown (`Known` if it is not).
    pub fn unknown_reason(&self) -> (r: UnknownReason)
        ensures
            r == self.unknown_reason,
    {
        self.unknown_reason
    }

    /// Return true if the state change is unknown, false otherwise.
    pub fn unknown(&self) -> (r: bool)
        ensures
            r == (self.unknown_reason != UnknownReason::Known),
    {
        !matches!(self.unknown_reason, UnknownReason::Known)
    }

    /// Set a state change for M.
    pub fn set_m(&mut self, m: bool)
        ensures
            *final(self) == (StateChange { m: Some(m), ..*old(self) }),
    {
        self.m = Some(m);
    }

    /// Set a state change for X.
    pub fn set_x(&mut self, x: bool)
        ensures
            *final(self) == (StateChange { x: Some(x), ..*old(self) }),
    {
        self.x = Some(x);
    }

    /// Record the bits that a SEP sets to 1.
    pub fn set(&mut self, p_change: u8)
        ensures
            final(self).m == (if m_of(p_change) { Some(true) } else { old(self).m }),
            final(self).x == (if x_of(p_change) { Some(true) } else { old(self).x }),
            final(self).unknown_reason == old(self).unknown_reason,
    {
        let change = State::new(p_change);
        if change.m() {
            self.m = Some(true);
        }
        if change.x() {
            self.x = Some(true);
        }
    }

    /// Record the bits that a REP resets to 0.
    pub fn reset(&mut self, p_change: u8)
        ensures
            final(self).m == (if m_of(p_change) { Some(false) } else { old(self).m }),
            final(self).x == (if x_of(p_change) { Some(false) } else { old(self).x }),
            final(self).unknown_reason == old(self).unknown_reason,
    {
        let change = State::new(p_change);
        if change.m() {
            self.m = Some(false);
        }
        if change.x() {
            self.x = Some(false);
        }
    }

    /// Simplify the state change based on a state inference: a component that
    /// sets a bit to the value already inferred is no change at all.
    pub fn apply_inference(&mut self, inference: StateChange)
        ensures
            *final(self) == inference_spec(*old(self), inference),
    {
        if self.m.is_some() && self.m == inference.m {
            self.m = None;
        }
        if self.x.is_some() && self.x == inference.x {
            self.x = None;
        }
    }

    /// Simplify the state change based on a state: a component that sets a
    /// bit to the value it already has is no change at all.
    pub fn simplify(&self, state: State) -> (r: StateChange)
        ensures
            r == simplify_spec(*self, state),
    {
        let mut change = *self;
        if change.m == Some(state.m()) {
            change.m = None;
        }
        if change.x == Some(state.x()) {
            change.x = None;
        }
        change
    }

    /// Return the change in human-readable form.
    pub fn to_string(&self) -> (r: String)
        ensures
            r@ == format_change(*self),
    {
        proof {
            reveal_strlit("unknown");
            reveal_strlit("none");
            reveal_strlit("m=0");
            reveal_strlit("m=1");
            reveal_strlit("x=0");
            reveal_strlit("x=1");
            reveal_strlit("m=0,x=0");
            reveal_strlit("m=0,x=1");
            reveal_strlit("m=1,x=0");
            reveal_strlit("m=1,x=1");
        }
        if self.unknown() {
            return owned("unknown");
        }
        let r = match (self.m, self.x) {
            (None, None) => owned("none"),
            (Some(false), None) => owned("m=0"),
            (Some(true), None) => owned("m=1"),
            (None, Some(false)) => owned("x=0"),
            (None, Some(true)) => owned("x=1"),
            (Some(false), Some(false)) => owned("m=0,x=0"),
            (Some(false), Some(true)) => owned("m=0,x=1"),
            (Some(true), Some(false)) => owned("m=1,x=0"),
            (Some(true), Some(true)) => owned("m=1,x=1"),
        };
        assert(r@ =~= format_change(*self));
        r
    }
}

/// The state changes that the textual form can represent: every known change,
/// and the unknown change that carries no delta and the reason `Unknown`.
pub open spec fn representable(c: StateChange) -> bool {
    c.unknown_reason == UnknownReason::Known || c == unknown_change(UnknownReason::Unknown)
}

/// Parsing the textual form of a representable state change gives it back.
pub proof fn lemma_format_parse_round_trip(c: StateChange)
    requires
        representable(c),
    ensures
        parse_change(format_change(c)) == Ok::<StateChange, Error>(c),
{
    let s = format_change(c);
    if c.unknown_reason != UnknownReason::Known {
        return;
    }
    assert(s != seq!['n', 'o', 'n', 'e'] || (c.m is None && c.x is None)) by {
        if s == seq!['n', 'o', 'n', 'e'] && !(c.m is None && c.x is None) {
            assert(s[0] == 'n');
        }
    }
    assert(s != seq!['u', 'n', 'k', 'n', 'o', 'w', 'n']) by {
        if s == seq!['u', 'n', 'k', 'n', 'o', 'w', 'n'] {
            assert(s[0] == 'u');
        }
    }
    match (c.m, c.x) {
        (None, None) => {},
        (Some(m), None) => {
            lemma_assignment_text('m', m);
            assert(!has_char_from(s, ',', 0));
        },
        (None, Some(x)) => {
            lemma_assignment_text('x', x);
            assert(!has_char_from(s, ',', 0));
        },
        (Some(m), Some(x)) => {
            lemma_assignment_text('m', m);
            lemma_assignment_text('x', x);
            let a = seq!['m', '='] + bit_text(m);
            let b = seq!['x', '='] + bit_text(x);
            assert(s =~= a + seq![','] + b);
            assert(s[3] == ',');
            assert(has_char_from(s, ',', 0));
            let k = first_index(s, ',');
            assert(k == 3) by {
                if k < 3 {
                    assert(s[k] != ',');
                } else if k > 3 {
                    assert(s[3] != ',');
                }
            }
            assert(!has_char_from(s, ',', 4));
            assert(s.subrange(0, 3) =~= a);
            assert(s.subrange(4, s.len() as int) =~= b);
        },
    }
}

/// An assignment written out by `format_change` reads back as itself.
proof fn lemma_assignment_text(r: char, b: bool)
    requires
        r == 'm' || r == 'x',
    ensures
        assignment_spec(seq![r, '='] + bit_text(b)) == Ok::<(bool, bool), Error>((r == 'm', b)),
        !has_char_from(seq![r, '='] + bit_text(b), ',', 0),
{
    let s = seq![r, '='] + bit_text(b);
    let v = s.subrange(2, s.len() as int);
    assert(v =~= bit_text(b));
    let d = number_digits(v);
    assert(d =~= v);
    assert(d.drop_last() =~= Seq::<char>::empty());
    assert(all_digits(d));
    assert(digits_value(d.drop_last()) == 0);
    if b {
        assert(d.last() == '1');
        assert(digits_value(d) == 1);
    } else {
        assert(d.last() == '0');
        assert(digits_value(d) == 0);
    }
    assert(!has_char_from(s, ',', 0)) by {
        if has_char_from(s, ',', 0) {
            let i = choose|i: int| 0 <= i < s.len() && s[i] == ',';
            assert(s[i] == ',');
        }
    }
}

/// Applying any inference to the empty change leaves it empty.
pub proof fn lemma_inference_on_empty(inf: StateChange)
    ensures
        inference_spec(empty_change(), inf) == empty_change(),
{
}

/// Simplifying against a state twice is the same as simplifying once.
pub proof fn lemma_simplify_idempotent(c: StateChange, s: State)
    ensures
        simplify_spec(simplify_spec(c, s), s) == simplify_spec(c, s),
{
}

} // verus!
