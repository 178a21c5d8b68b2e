//! One byte being typed as two hexadecimal digits.
use vstd::prelude::*;
use crate::text::push_char;

verus! {

/// The value of a hexadecimal digit, either case.
pub open spec fn hex_value(c: char) -> Option<u8> {
    if '0' <= c <= '9' {
        Some((c as u32 - 48) as u8)
    } else if 'a' <= c <= 'f' {
        Some((c as u32 - 87) as u8)
    } else if 'A' <= c <= 'F' {
        Some((c as u32 - 55) as u8)
    } else {
        None
    }
}

fn hex_value_exec(c: char) -> (r: Option<u8>)
    ensures
        r == hex_value(c),
{
    if '0' <= c && c <= '9' {
        Some((c as u32 - 48) as u8)
    } else if 'a' <= c && c <= 'f' {
        Some((c as u32 - 87) as u8)
    } else if 'A' <= c && c <= 'F' {
        Some((c as u32 - 55) as u8)
    } else {
        None
    }
}

/// A byte entered digit by digit: the high digit, then the low one.
#[derive(Debug, Clone)]
pub struct HexByte {
    pub high: Option<char>,
    pub low: Option<char>,
}

/// The byte that two digits stand for, when both are hexadecimal.
pub open spec fn byte_of(high: Option<char>, low: Option<char>) -> Option<u8> {
    match (high, low) {
        (Some(h), Some(l)) => match (hex_value(h), hex_value(l)) {
            (Some(hv), Some(lv)) => Some((hv * 16 + lv) as u8),
            _ => None,
        },
        _ => None,
    }
}

/// How a digit slot is shown: the digit, or `_` while empty.
pub open spec fn slot_char(d: Option<char>) -> char {
    match d {
        Some(c) => c,
        None => '_',
    }
}

impl HexByte {
    /// No digit entered yet.
    pub fn new() -> (r: HexByte)
        ensures
            r.high is None,
            r.low is None,
    {
        HexByte { high: None, low: None }
    }

    pub fn is_complete(&self) -> (r: bool)
        ensures
            r == (self.high is Some && self.low is Some),
    {
        self.high.is_some() && self.low.is_some()
    }

    /// The byte entered, once both digits are there and hexadecimal.
    pub fn to_byte(&self) -> (r: Option<u8>)
        ensures
            r == byte_of(self.high, self.low),
    {
        match (self.high, self.low) {
            (Some(h), Some(l)) => {
                let high_val = match hex_value_exec(h) {
                    Some(v) => v,
                    None => return None,
                };
                let low_val = match hex_value_exec(l) {
                    Some(v) => v,
                    None => return None,
                };
                Some(high_val * 16 + low_val)
            },
            _ => None,
        }
    }

    /// The two digit slots, with `_` for a missing digit.
    pub fn display(&self) -> (r: String)
        ensures
            r@ == seq![slot_char(self.high), slot_char(self.low)],
    {
        let mut s = String::new();
        let h = match self.high {
            Some(c) => c,
            None => '_',
        };
        let l = match self.low {
            Some(c) => c,
            None => '_',
        };
        push_char(&mut s, h);
        push_char(&mut s, l);
        assert(s@ =~= seq![slot_char(self.high), slot_char(self.low)]);
        s
    }

    /// Removes both digits.
    pub fn clear(&mut self)
        ensures
            final(self).high is None,
            final(self).low is None,
    {
        self.high = None;
        self.low = None;
    }
}

} // verus!
