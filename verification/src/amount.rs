//! Amounts of currency: 128-bit unsigned values in raw units.

use vstd::prelude::*;

verus! {

/// A 128-bit amount in raw units. Ordinary arithmetic on amounts is checked;
/// the representative-weight cache alone uses wrapping arithmetic, which is
/// stated explicitly on those operations.
#[derive(Clone, Copy, Debug, PartialEq, Eq, Hash, Structural)]
pub struct Amount {
    pub raw: u128,
}

impl Amount {
    pub fn zero() -> (r: Amount)
        ensures
            r.raw == 0,
    {
        Amount { raw: 0 }
    }

    pub fn raw(value: u128) -> (r: Amount)
        ensures
            r.raw == value,
    {
        Amount { raw: value }
    }

    /// The largest representable amount; the total supply of a freshly
    /// initialised ledger.
    pub fn max() -> (r: Amount)
        ensures
            r.raw == u128::MAX,
    {
        Amount { raw: u128::MAX }
    }

    pub fn is_zero(&self) -> (r: bool)
        ensures
            r == (self.raw == 0),
    {
        self.raw == 0
    }

    pub fn checked_add(&self, other: Amount) -> (r: Option<Amount>)
        ensures
            self.raw + other.raw <= u128::MAX ==> r == Some(Amount { raw: (self.raw + other.raw) as u128 }),
            self.raw + other.raw > u128::MAX ==> r is None,
    {
        match self.raw.checked_add(other.raw) {
            Some(v) => Some(Amount { raw: v }),
            None => None,
        }
    }

    pub fn checked_sub(&self, other: Amount) -> (r: Option<Amount>)
        ensures
            self.raw >= other.raw ==> r == Some(Amount { raw: (self.raw - other.raw) as u128 }),
            self.raw < other.raw ==> r is None,
    {
        match self.raw.checked_sub(other.raw) {
            Some(v) => Some(Amount { raw: v }),
            None => None,
        }
    }

    /// Wrapping subtraction, used only by the representative-weight cache,
    /// which can transiently go below zero during batched rollback.
    pub fn wrapping_sub(&self, other: Amount) -> (r: Amount)
        ensures
            r.raw == vstd::wrapping::u128_specs::wrapping_sub(self.raw, other.raw),
    {
        Amount { raw: self.raw.wrapping_sub(other.raw) }
    }

    /// Wrapping addition, used only by the representative-weight cache.
    pub fn wrapping_add(&self, other: Amount) -> (r: Amount)
        ensures
            r.raw == vstd::wrapping::u128_specs::wrapping_add(self.raw, other.raw),
    {
        Amount { raw: self.raw.wrapping_add(other.raw) }
    }

    pub fn lt(&self, other: &Amount) -> (r: bool)
        ensures
            r == (self.raw < other.raw),
    {
        self.raw < other.raw
    }
}

} // verus!
