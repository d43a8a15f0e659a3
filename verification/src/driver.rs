//! The bounded random source that feeds every generator.
//!
//! A [`Driver`] hands out primitive values within inclusive bounds, or
//! signals exhaustion by returning `None`; exhaustion propagates as "no value"
//! through every generator built on top of it.  The source is an injected
//! capability, so any implementation can be substituted without touching
//! generator logic: this module ships a seeded pseudo-random driver that never
//! exhausts and a replay driver that hands out a recorded word sequence and
//! then exhausts.

use vstd::prelude::*;

verus! {

/// A bounded random source: each method draws one value within the given
/// inclusive bounds, or returns `None` once the source is exhausted.
pub trait Driver: Sized {
    fn gen_bool(&mut self) -> (r: Option<bool>);

    fn gen_u8(&mut self, lo: u8, hi: u8) -> (r: Option<u8>)
        requires
            lo <= hi,
        ensures
            r matches Some(v) ==> lo <= v <= hi,
    ;

    fn gen_u16(&mut self, lo: u16, hi: u16) -> (r: Option<u16>)
        requires
            lo <= hi,
        ensures
            r matches Some(v) ==> lo <= v <= hi,
    ;

    fn gen_u32(&mut self, lo: u32, hi: u32) -> (r: Option<u32>)
        requires
            lo <= hi,
        ensures
            r matches Some(v) ==> lo <= v <= hi,
    ;

    fn gen_u64(&mut self, lo: u64, hi: u64) -> (r: Option<u64>)
        requires
            lo <= hi,
        ensures
            r matches Some(v) ==> lo <= v <= hi,
    ;

    fn gen_u128(&mut self, lo: u128, hi: u128) -> (r: Option<u128>)
        requires
            lo <= hi,
        ensures
            r matches Some(v) ==> lo <= v <= hi,
    ;

    fn gen_usize(&mut self, lo: usize, hi: usize) -> (r: Option<usize>)
        requires
            lo <= hi,
        ensures
            r matches Some(v) ==> lo <= v <= hi,
    ;

    fn gen_i32(&mut self, lo: i32, hi: i32) -> (r: Option<i32>)
        requires
            lo <= hi,
        ensures
            r matches Some(v) ==> lo <= v <= hi,
    ;

    fn gen_i64(&mut self, lo: i64, hi: i64) -> (r: Option<i64>)
        requires
            lo <= hi,
        ensures
            r matches Some(v) ==> lo <= v <= hi,
    ;
}

/// Fold a raw 128-bit word into the inclusive range `[lo, hi]`.
fn fold_u128(raw: u128, lo: u128, hi: u128) -> (r: u128)
    requires
        lo <= hi,
    ensures
        lo <= r <= hi,
{
    if lo == 0 && hi == u128::MAX {
        raw
    } else {
        let span: u128 = hi - lo + 1;
        lo + raw % span
    }
}

/// Fold a raw word into the inclusive signed range `[lo, hi]`.
fn fold_i128(raw: u64, lo: i128, hi: i128) -> (r: i128)
    requires
        lo <= hi,
        hi - lo <= u64::MAX,
    ensures
        lo <= r <= hi,
{
    let span: i128 = hi - lo + 1;
    lo + (raw as i128) % span
}

/// A deterministic pseudo-random driver seeded once; it never exhausts,
/// and each of its draw methods promises a value.  The mixing function is
/// a 64-bit split-mix generator.
pub struct SeededDriver {
    state: u64,
}

impl SeededDriver {
    pub fn new(seed: u64) -> SeededDriver {
        SeededDriver { state: seed }
    }

    /// One raw 64-bit word from the mixing function.
    fn next_word(&mut self) -> u64 {
        self.state = self.state.wrapping_add(0x9E3779B97F4A7C15);
        let mut z: u64 = self.state;
        z = (z ^ (z >> 30)).wrapping_mul(0xBF58476D1CE4E5B9);
        z = (z ^ (z >> 27)).wrapping_mul(0x94D049BB133111EB);
        z ^ (z >> 31)
    }
}

impl Driver for SeededDriver {
    fn gen_bool(&mut self) -> (r: Option<bool>)
        ensures
            r is Some,
    {
        let w = self.next_word();
        Some(w % 2 == 1)
    }

    fn gen_u8(&mut self, lo: u8, hi: u8) -> (r: Option<u8>)
        ensures
            r is Some,
    {
        let w = self.next_word();
        Some(fold_u128(w as u128, lo as u128, hi as u128) as u8)
    }

    fn gen_u16(&mut self, lo: u16, hi: u16) -> (r: Option<u16>)
        ensures
            r is Some,
    {
        let w = self.next_word();
        Some(fold_u128(w as u128, lo as u128, hi as u128) as u16)
    }

    fn gen_u32(&mut self, lo: u32, hi: u32) -> (r: Option<u32>)
        ensures
            r is Some,
    {
        let w = self.next_word();
        Some(fold_u128(w as u128, lo as u128, hi as u128) as u32)
    }

    fn gen_u64(&mut self, lo: u64, hi: u64) -> (r: Option<u64>)
        ensures
            r is Some,
    {
        let w = self.next_word();
        Some(fold_u128(w as u128, lo as u128, hi as u128) as u64)
    }

    fn gen_u128(&mut self, lo: u128, hi: u128) -> (r: Option<u128>)
        ensures
            r is Some,
    {
        let a = self.next_word();
        let b = self.next_word();
        let raw: u128 = (a as u128) * 0x1_0000_0000_0000_0000 + (b as u128);
        Some(fold_u128(raw, lo, hi))
    }

    fn gen_usize(&mut self, lo: usize, hi: usize) -> (r: Option<usize>)
        ensures
            r is Some,
    {
        let w = self.next_word();
        Some(fold_u128(w as u128, lo as u128, hi as u128) as usize)
    }

    fn gen_i32(&mut self, lo: i32, hi: i32) -> (r: Option<i32>)
        ensures
            r is Some,
    {
        let w = self.next_word();
        Some(fold_i128(w, lo as i128, hi as i128) as i32)
    }

    fn gen_i64(&mut self, lo: i64, hi: i64) -> (r: Option<i64>)
        ensures
            r is Some,
    {
        let w = self.next_word();
        Some(fold_i128(w, lo as i128, hi as i128) as i64)
    }
}

/// A replay driver: hands out a recorded sequence of 64-bit words, one per
/// draw, folding each into the requested range; once the recording runs out,
/// every draw reports exhaustion.
pub struct ReplayDriver {
    words: Vec<u64>,
    pos: usize,
}

impl ReplayDriver {
    pub fn new(words: Vec<u64>) -> ReplayDriver {
        ReplayDriver { words, pos: 0 }
    }

    /// The next recorded word, or `None` once the recording is exhausted.
    fn next_word(&mut self) -> Option<u64> {
        if self.pos < self.words.len() {
            let w = self.words[self.pos];
            self.pos = self.pos + 1;
            Some(w)
        } else {
            None
        }
    }
}

impl Driver for ReplayDriver {
    fn gen_bool(&mut self) -> (r: Option<bool>) {
        let w = self.next_word()?;
        Some(w % 2 == 1)
    }

    fn gen_u8(&mut self, lo: u8, hi: u8) -> (r: Option<u8>) {
        let w = self.next_word()?;
        Some(fold_u128(w as u128, lo as u128, hi as u128) as u8)
    }

    fn gen_u16(&mut self, lo: u16, hi: u16) -> (r: Option<u16>) {
        let w = self.next_word()?;
        Some(fold_u128(w as u128, lo as u128, hi as u128) as u16)
    }

    fn gen_u32(&mut self, lo: u32, hi: u32) -> (r: Option<u32>) {
        let w = self.next_word()?;
        Some(fold_u128(w as u128, lo as u128, hi as u128) as u32)
    }

    fn gen_u64(&mut self, lo: u64, hi: u64) -> (r: Option<u64>) {
        let w = self.next_word()?;
        Some(fold_u128(w as u128, lo as u128, hi as u128) as u64)
    }

    fn gen_u128(&mut self, lo: u128, hi: u128) -> (r: Option<u128>) {
        let w = self.next_word()?;
        Some(fold_u128(w as u128, lo, hi))
    }

    fn gen_usize(&mut self, lo: usize, hi: usize) -> (r: Option<usize>) {
        let w = self.next_word()?;
        Some(fold_u128(w as u128, lo as u128, hi as u128) as usize)
    }

    fn gen_i32(&mut self, lo: i32, hi: i32) -> (r: Option<i32>) {
        let w = self.next_word()?;
        Some(fold_i128(w, lo as i128, hi as i128) as i32)
    }

    fn gen_i64(&mut self, lo: i64, hi: i64) -> (r: Option<i64>) {
        let w = self.next_word()?;
        Some(fold_i128(w, lo as i128, hi as i128) as i64)
    }
}

} // verus!
