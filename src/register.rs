use vstd::prelude::*;

use crate::state::State;

verus! {

/// 8/16-bit SNES register whose bytes may each be known or unknown.
#[derive(Copy, Clone, Debug)]
pub struct Register {
    pub is_accumulator: bool,
    pub lo: Option<u16>,
    pub hi: Option<u16>,
}

/// The 16-bit value made of a high and a low byte.
pub open spec fn word_of(hi: u16, lo: u16) -> u16 {
    (hi * 256 + lo) as u16
}

impl Register {
    /// Each known byte holds a value below 256.
    pub open spec fn wf(self) -> bool {
        &&& (self.lo matches Some(l) ==> l <= 0xFF)
        &&& (self.hi matches Some(h) ==> h <= 0xFF)
    }

    /// Size of the register in bytes in the given state.
    pub open spec fn size_spec(self, state: State) -> usize {
        if self.is_accumulator {
            if state.m_flag() {
                1
            } else {
                2
            }
        } else {
            if state.x_flag() {
                1
            } else {
                2
            }
        }
    }

    /// The 16-bit value, when both bytes are known.
    pub open spec fn whole_spec(self) -> Option<u16> {
        match (self.hi, self.lo) {
            (Some(h), Some(l)) => Some(word_of(h, l)),
            _ => None,
        }
    }

    /// Instantiate a register whose value is unknown.
    pub fn new(is_accumulator: bool) -> (r: Self)
        ensures
            r.is_accumulator == is_accumulator,
            r.lo is None,
            r.hi is None,
            r.wf(),
    {
        Self { is_accumulator, lo: None, hi: None }
    }

    /// Return the size of the register in the given state.
    pub fn size(&self, state: State) -> (r: usize)
        ensures
            r == self.size_spec(state),
    {
        if self.is_accumulator {
            state.a_size()
        } else {
            state.x_size()
        }
    }

    /// Get the value of the register in the given state: the low byte in
    /// 8-bit mode, the whole word in 16-bit mode.
    pub fn get(&self, state: State) -> (r: Option<u16>)
        requires
            self.wf(),
        ensures
            r == (if self.size_spec(state) == 1 {
                self.lo
            } else {
                self.whole_spec()
            }),
    {
        if self.size(state) == 1 {
            self.lo
        } else {
            self.get_whole()
        }
    }

    /// Get the 16-bit value of the register.
    pub fn get_whole(&self) -> (r: Option<u16>)
        requires
            self.wf(),
        ensures
            r == self.whole_spec(),
    {
        match (self.hi, self.lo) {
            (Some(hi), Some(lo)) => {
                assert((hi << 8u16) | lo == hi * 256 + lo) by (bit_vector)
                    requires
                        hi <= 0xFF,
                        lo <= 0xFF,
                ;
                Some((hi << 8) | lo)
            },
            _ => None,
        }
    }

    /// Set the value of the register in the given state: in 8-bit mode only
    /// the low byte changes.
    pub fn set(&mut self, state: State, value: Option<u16>)
        requires
            old(self).wf(),
        ensures
            final(self).wf(),
            final(self).is_accumulator == old(self).is_accumulator,
            final(self).lo == (match value {
                Some(v) => Some(v % 256),
                None => None,
            }),
            final(self).hi == (if old(self).size_spec(state) > 1 {
                match value {
                    Some(v) => Some(v / 256),
                    None => None,
                }
            } else {
                old(self).hi
            }),
    {
        let wide = self.size(state) > 1;
        match value {
            Some(v) => {
                assert(v & 0xFF == v % 256 && (v >> 8u16) & 0xFF == v / 256) by (bit_vector);
                self.lo = Some(v & 0xFF);
                if wide {
                    self.hi = Some((v >> 8) & 0xFF);
                }
            },
            None => {
                self.lo = None;
                if wide {
                    self.hi = None;
                }
            },
        }
    }

    /// Set the 16-bit value of the register.
    pub fn set_whole(&mut self, value: Option<u16>)
        ensures
            final(self).wf(),
            final(self).is_accumulator == old(self).is_accumulator,
            final(self).whole_spec() == value,
            final(self).lo == (match value {
                Some(v) => Some(v % 256),
                None => None,
            }),
    {
        match value {
            Some(v) => {
                assert(v & 0xFF == v % 256 && (v >> 8u16) & 0xFF == v / 256) by (bit_vector);
                self.lo = Some(v & 0xFF);
                self.hi = Some((v >> 8) & 0xFF);
                assert(word_of(v / 256, v % 256) == v);
            },
            None => {
                self.lo = None;
                self.hi = None;
            },
        }
    }
}

/// The A, X and Y registers under a processor state.
#[derive(Copy, Clone, Debug)]
pub struct Registers {
    pub state: State,
    pub a: Register,
    pub x: Register,
    pub y: Register,
}

impl Registers {
    /// Instantiate the registers, all unknown, in the given state.
    pub fn new(state: State) -> (r: Self)
        ensures
            r.state == state,
            r.a.is_accumulator && r.a.lo is None && r.a.hi is None,
            !r.x.is_accumulator && r.x.lo is None && r.x.hi is None,
            !r.y.is_accumulator && r.y.lo is None && r.y.hi is None,
    {
        Self {
            state,
            a: Register::new(true),
            x: Register::new(false),
            y: Register::new(false),
        }
    }
}

} // verus!
