//! Fallible conversion between a signed `(seconds, nanoseconds)` pair and a
//! canonical non-negative duration.
//!
//! A signed pair may carry a nanosecond component whose magnitude exceeds one
//! billion, or whose sign disagrees with the seconds component.  Normalization
//! folds whole seconds out of the nanosecond component and, when the remainder
//! is negative, borrows one second, so that the result has
//! `0 <= nanos < 1_000_000_000`.  A pair whose overall value is negative does
//! not convert.

use vstd::prelude::*;

verus! {

use vstd::arithmetic::div_mod::{lemma_fundamental_div_mod, lemma_fundamental_div_mod_converse};

/// A signed duration as it appears on the wire: both components are signed,
/// and the pair need not be normalized.
#[derive(Clone, Copy, Debug, PartialEq, Eq, Structural)]
pub struct Duration {
    pub seconds: i64,
    pub nanos: i32,
}

/// A canonical non-negative duration: whole seconds plus a nanosecond
/// component strictly below one billion.
#[derive(Clone, Copy, Debug, PartialEq, Eq, Structural)]
pub struct CanonicalDuration {
    pub seconds: u64,
    pub nanos: u32,
}

/// Why a conversion between the signed and the canonical form failed.
/// Each variant carries the offending components unchanged.
#[derive(Clone, Copy, Debug, PartialEq, Eq, Structural)]
pub enum DurationConversionError {
    /// The signed pair denotes a net-negative span of time.
    NegativeDuration(i64, i32),
    /// A canonical component does not fit the signed target width.
    ComponentOutOfRange(u64, u32),
}

/// The overall value of a signed pair, in nanoseconds.
pub open spec fn total_nanos(seconds: i64, nanos: i32) -> int {
    seconds * 1_000_000_000 + nanos
}

/// A canonical duration is well formed when its nanosecond component is
/// strictly below one billion.
pub open spec fn canonical_wf(c: CanonicalDuration) -> bool {
    c.nanos < 1_000_000_000
}

impl Duration {
    /// Normalize this signed pair into a canonical non-negative duration.
    ///
    /// Succeeds exactly when the overall value is non-negative; the result is
    /// then the Euclidean quotient and remainder of that value by one billion.
    /// A net-negative pair is reported with its offending components.
    pub fn to_canonical(&self) -> (r: Result<CanonicalDuration, DurationConversionError>)
        ensures
            r is Ok <==> total_nanos(self.seconds, self.nanos) >= 0,
            (r matches Ok(c) ==> {
                &&& canonical_wf(c)
                &&& c.seconds == total_nanos(self.seconds, self.nanos) / 1_000_000_000
                &&& c.nanos == total_nanos(self.seconds, self.nanos) % 1_000_000_000
            }),
            (r matches Err(e) ==> e == DurationConversionError::NegativeDuration(
                self.seconds,
                self.nanos,
            )),
    {
        let ghost t: int = total_nanos(self.seconds, self.nanos);
        let n: i64 = self.nanos as i64;
        // Split the nanosecond component into whole seconds and a remainder of
        // the same sign, working on magnitudes so that division stays
        // non-negative.
        let (carry, rem): (i64, i64) = if n >= 0 {
            (n / 1_000_000_000, n % 1_000_000_000)
        } else {
            let p: i64 = -n;
            (-(p / 1_000_000_000), -(p % 1_000_000_000))
        };
        proof {
            if n >= 0 {
                lemma_fundamental_div_mod(n as int, 1_000_000_000);
            } else {
                lemma_fundamental_div_mod(-n as int, 1_000_000_000);
            }
            assert(carry * 1_000_000_000 + rem == n);
            assert(-1_000_000_000 < rem < 1_000_000_000);
        }
        let total: i128 = self.seconds as i128 + carry as i128;
        proof {
            assert(t == total * 1_000_000_000 + rem);
        }
        if rem < 0 {
            if total < 1 {
                proof {
                    lemma_fundamental_div_mod_converse(t, 1_000_000_000, total - 1, rem + 1_000_000_000);
                }
                return Err(DurationConversionError::NegativeDuration(self.seconds, self.nanos));
            }
            proof {
                lemma_fundamental_div_mod_converse(t, 1_000_000_000, total - 1, rem + 1_000_000_000);
            }
            Ok(CanonicalDuration {
                seconds: (total - 1) as u64,
                nanos: (rem + 1_000_000_000) as u32,
            })
        } else {
            proof {
                lemma_fundamental_div_mod_converse(t, 1_000_000_000, total as int, rem as int);
            }
            if total < 0 {
                return Err(DurationConversionError::NegativeDuration(self.seconds, self.nanos));
            }
            Ok(CanonicalDuration { seconds: total as u64, nanos: rem as u32 })
        }
    }
}

impl CanonicalDuration {
    /// Reinterpret this canonical duration as a signed pair.
    ///
    /// A direct, range-checked reinterpretation: it fails exactly when the
    /// seconds component does not fit the signed 64-bit target width.
    pub fn to_duration(&self) -> (r: Result<Duration, DurationConversionError>)
        requires
            canonical_wf(*self),
        ensures
            self.seconds <= i64::MAX ==> r == Ok::<Duration, DurationConversionError>(
                Duration { seconds: self.seconds as i64, nanos: self.nanos as i32 },
            ),
            self.seconds > i64::MAX ==> r == Err::<Duration, DurationConversionError>(
                DurationConversionError::ComponentOutOfRange(self.seconds, self.nanos),
            ),
    {
        if self.seconds > i64::MAX as u64 {
            Err(DurationConversionError::ComponentOutOfRange(self.seconds, self.nanos))
        } else {
            Ok(Duration { seconds: self.seconds as i64, nanos: self.nanos as i32 })
        }
    }
}

/// Round trip: any canonical duration whose seconds fit the signed width
/// converts to a signed pair and back to the identical canonical pair.
pub proof fn lemma_duration_round_trip(c: CanonicalDuration)
    requires
        canonical_wf(c),
        c.seconds <= i64::MAX,
    ensures
        ({
            let d = Duration { seconds: c.seconds as i64, nanos: c.nanos as i32 };
            &&& total_nanos(d.seconds, d.nanos) >= 0
            &&& total_nanos(d.seconds, d.nanos) / 1_000_000_000 == c.seconds
            &&& total_nanos(d.seconds, d.nanos) % 1_000_000_000 == c.nanos
        }),
{
    let d = Duration { seconds: c.seconds as i64, nanos: c.nanos as i32 };
    lemma_fundamental_div_mod_converse(
        total_nanos(d.seconds, d.nanos),
        1_000_000_000,
        c.seconds as int,
        c.nanos as int,
    );
}

} // verus!
