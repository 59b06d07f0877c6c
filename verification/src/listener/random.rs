//! Pseudo-random numbers for message IDs.

use vstd::prelude::*;

verus! {

/// A type whose values can be made of numbers.
pub trait FromU64: Sized {
    /// The value that is made of a number.
    spec fn made_of(v: u64) -> Self;

    /// Makes a value of a number.
    fn from_u64(v: u64) -> (r: Self)
        ensures
            r == Self::made_of(v),
    ;
}

impl FromU64 for u64 {
    open spec fn made_of(v: u64) -> u64 {
        v
    }

    fn from_u64(v: u64) -> (r: u64) {
        v
    }
}

/// The number that follows another in the sequence.
pub open spec fn next_number(s: u64) -> u64 {
    let a = s ^ (s << 13u64);
    let b = a ^ (a >> 7u64);
    b ^ (b << 17u64)
}

/// A sequence of pseudo-random numbers.
#[derive(Debug)]
pub struct RandomSource {
    state: u64,
}

/// Calls `std::time::SystemTime::now`. Nothing is claimed of the nanoseconds
/// since the epoch: they rest on the machine's clock.
#[verifier::external_body]
fn clock_nanos() -> (nanos: u64) {
    std::time::SystemTime::now().duration_since(std::time::UNIX_EPOCH).map_or(
        0,
        |d| d.as_nanos() as u64,
    )
}

impl RandomSource {
    /// The last number.
    pub closed spec fn state(&self) -> u64 {
        self.state
    }

    /// A source that takes its first number from the clock.
    pub fn new() -> (s: Self)
        ensures
            s.state() == 0,
    {
        RandomSource { state: 0 }
    }

    /// A source that continues after a number.
    pub fn from_seed(seed: u64) -> (s: Self)
        ensures
            s.state() == seed,
    {
        RandomSource { state: seed }
    }

    /// The next value, where a source without a number begins with a given
    /// one.
    pub fn random_from<T: FromU64>(&mut self, start: u64) -> (r: T)
        ensures
            final(self).state() == next_number(
                if old(self).state() == 0 {
                    start
                } else {
                    old(self).state()
                },
            ),
            r == T::made_of(final(self).state()),
    {
        let s: u64 = if self.state == 0 {
            start
        } else {
            self.state
        };
        let a: u64 = s ^ (s << 13u64);
        let b: u64 = a ^ (a >> 7u64);
        self.state = b ^ (b << 17u64);
        T::from_u64(self.state)
    }

    /// The next value. A source without a number begins with the clock.
    pub fn random<T: FromU64>(&mut self) -> (r: T)
        ensures
            old(self).state() != 0 ==> final(self).state() == next_number(old(self).state()),
            exists|start: u64| final(self).state() == #[trigger] next_number(start),
            r == T::made_of(final(self).state()),
    {
        let start = clock_nanos();
        self.random_from(start)
    }
}

/// The sequence never runs into zero, so that it takes its start from the
/// clock only once.
pub proof fn sequence_never_ends(s: u64)
    requires
        s != 0,
    ensures
        next_number(s) != 0,
{
    let a = s ^ (s << 13u64);
    let b = a ^ (a >> 7u64);
    assert(s != 0 ==> s ^ (s << 13u64) != 0) by (bit_vector);
    assert(a != 0 ==> a ^ (a >> 7u64) != 0) by (bit_vector);
    assert(b != 0 ==> b ^ (b << 17u64) != 0) by (bit_vector);
}

/// The bits of a small number come up again, in the next number, at the places
/// to which it is shifted.
pub proof fn small_numbers_are_spread(s: u64)
    requires
        s < 16,
    ensures
        next_number(s) == s * (1 + 0x40 + 0x2000 + 0x2_0000 + 0x80_0000 + 0x4000_0000),
{
    let a = s ^ (s << 13u64);
    let b = a ^ (a >> 7u64);
    assert(s < 16 && a == s ^ (s << 13u64) && b == a ^ (a >> 7u64) ==> b ^ (b << 17u64) == s
        * 0x4082_2041u64) by (bit_vector);
}

} // verus!
