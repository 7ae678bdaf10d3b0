//! The set of weekdays on which a service runs, one bit per weekday.

use crate::time::Weekday;
use vstd::prelude::*;

verus! {

/// The bit that stands for a weekday: Monday is bit 0, Sunday bit 6.
pub open spec fn day_bit(day: Weekday) -> u8 {
    match day {
        Weekday::Mon => 1,
        Weekday::Tue => 2,
        Weekday::Wed => 4,
        Weekday::Thu => 8,
        Weekday::Fri => 16,
        Weekday::Sat => 32,
        Weekday::Sun => 64,
    }
}

/// The bit `bit` where `on` holds, no bit otherwise.
pub open spec fn flag(on: bool, bit: u8) -> u8 {
    if on {
        bit
    } else {
        0
    }
}

/// A set of weekdays.
#[derive(Clone, Copy, Debug, PartialEq, Eq, Structural)]
pub struct Days {
    pub bits: u8,
}

impl Days {
    /// Only the seven bits of the weekdays are in use.
    pub open spec fn wf(self) -> bool {
        self.bits < 128
    }

    /// `day` is in the set.
    pub open spec fn has(self, day: Weekday) -> bool {
        self.bits & day_bit(day) != 0
    }

    /// Every day of `other` is in `self`.
    pub open spec fn includes(self, other: Days) -> bool {
        forall|day: Weekday| other.has(day) ==> self.has(day)
    }

    /// The set without a day.
    pub fn empty() -> (r: Days)
        ensures
            r.wf(),
            forall|day: Weekday| !r.has(day),
    {
        assert(forall|m: u8| 0u8 & m == 0) by (bit_vector);
        Days { bits: 0 }
    }

    /// The set of the one day `wd`.
    pub fn from_weekday(wd: Weekday) -> (r: Days)
        ensures
            r.wf(),
            r.bits == day_bit(wd),
            forall|day: Weekday| r.has(day) <==> day == wd,
    {
        let bits: u8 = match wd {
            Weekday::Sun => 64,
            Weekday::Mon => 1,
            Weekday::Tue => 2,
            Weekday::Wed => 4,
            Weekday::Thu => 8,
            Weekday::Fri => 16,
            Weekday::Sat => 32,
        };
        let r = Days { bits };
        proof {
            lemma_day_bits_apart();
            assert forall|day: Weekday| r.has(day) <==> day == wd by {
                assert(day_bit(wd) & day_bit(day) != 0 <==> wd == day);
            }
        }
        r
    }

    /// The set that holds a weekday exactly where its flag is set.
    pub open spec fn spec_from_flags(
        monday: bool,
        tuesday: bool,
        wednesday: bool,
        thursday: bool,
        friday: bool,
        saturday: bool,
        sunday: bool,
    ) -> Days {
        Days {
            bits: flag(monday, 1) | flag(tuesday, 2) | flag(wednesday, 4) | flag(thursday, 8)
                | flag(friday, 16) | flag(saturday, 32) | flag(sunday, 64),
        }
    }

    /// The set that holds a weekday exactly where its flag is set.
    #[verifier::when_used_as_spec(spec_from_flags)]
    pub fn from_flags(
        monday: bool,
        tuesday: bool,
        wednesday: bool,
        thursday: bool,
        friday: bool,
        saturday: bool,
        sunday: bool,
    ) -> (r: Days)
        ensures
            r == Self::spec_from_flags(
                monday,
                tuesday,
                wednesday,
                thursday,
                friday,
                saturday,
                sunday,
            ),
            r.wf(),
            r.has(Weekday::Mon) == monday,
            r.has(Weekday::Tue) == tuesday,
            r.has(Weekday::Wed) == wednesday,
            r.has(Weekday::Thu) == thursday,
            r.has(Weekday::Fri) == friday,
            r.has(Weekday::Sat) == saturday,
            r.has(Weekday::Sun) == sunday,
    {
        let a: u8 = if monday { 1 } else { 0 };
        let b: u8 = if tuesday { 2 } else { 0 };
        let c: u8 = if wednesday { 4 } else { 0 };
        let d: u8 = if thursday { 8 } else { 0 };
        let e: u8 = if friday { 16 } else { 0 };
        let f: u8 = if saturday { 32 } else { 0 };
        let g: u8 = if sunday { 64 } else { 0 };
        let bits: u8 = a | b | c | d | e | f | g;
        assert((a == 0 || a == 1) && (b == 0 || b == 2) && (c == 0 || c == 4) && (d == 0 || d == 8)
            && (e == 0 || e == 16) && (f == 0 || f == 32) && (g == 0 || g == 64) && bits == a | b
            | c | d | e | f | g ==> bits < 128 && ((bits & 1 != 0) == (a != 0)) && ((bits & 2 != 0)
            == (b != 0)) && ((bits & 4 != 0) == (c != 0)) && ((bits & 8 != 0) == (d != 0)) && ((
        bits & 16 != 0) == (e != 0)) && ((bits & 32 != 0) == (f != 0)) && ((bits & 64 != 0) == (g
            != 0))) by (bit_vector);
        Days { bits }
    }

    /// Whether `day` is in the set.
    pub fn has_day(&self, day: Weekday) -> (r: bool)
        ensures
            r == self.has(day),
    {
        let bit: u8 = match day {
            Weekday::Mon => 1,
            Weekday::Tue => 2,
            Weekday::Wed => 4,
            Weekday::Thu => 8,
            Weekday::Fri => 16,
            Weekday::Sat => 32,
            Weekday::Sun => 64,
        };
        self.bits & bit != 0
    }

    /// The days that are in `self` or in `other`.
    pub fn union(self, other: Days) -> (r: Days)
        requires
            self.wf(),
            other.wf(),
        ensures
            r.wf(),
            forall|day: Weekday| r.has(day) <==> self.has(day) || other.has(day),
    {
        let a: u8 = self.bits;
        let b: u8 = other.bits;
        assert(a < 128 && b < 128 ==> (a | b) < 128) by (bit_vector);
        assert(forall|m: u8| (a | b) & m != 0 <==> a & m != 0 || b & m != 0) by (bit_vector);
        Days { bits: a | b }
    }

    /// Whether every day of `other` is in `self`.
    pub fn contains(&self, other: Days) -> (r: bool)
        requires
            self.wf(),
            other.wf(),
        ensures
            r == self.includes(other),
    {
        let a: u8 = self.bits;
        let b: u8 = other.bits;
        assert(b < 128 ==> ((a & b == b) <==> (b & 1 != 0 ==> a & 1 != 0) && (b & 2 != 0 ==> a & 2
            != 0) && (b & 4 != 0 ==> a & 4 != 0) && (b & 8 != 0 ==> a & 8 != 0) && (b & 16 != 0
            ==> a & 16 != 0) && (b & 32 != 0 ==> a & 32 != 0) && (b & 64 != 0 ==> a & 64 != 0)))
            by (bit_vector);
        proof {
            if a & b != b && self.includes(other) {
                assert(other.has(Weekday::Mon) ==> self.has(Weekday::Mon));
                assert(other.has(Weekday::Tue) ==> self.has(Weekday::Tue));
                assert(other.has(Weekday::Wed) ==> self.has(Weekday::Wed));
                assert(other.has(Weekday::Thu) ==> self.has(Weekday::Thu));
                assert(other.has(Weekday::Fri) ==> self.has(Weekday::Fri));
                assert(other.has(Weekday::Sat) ==> self.has(Weekday::Sat));
                assert(other.has(Weekday::Sun) ==> self.has(Weekday::Sun));
            }
        }
        a & b == b
    }
}

/// The bits of two different weekdays do not meet, and each is a bit of its
/// own.
pub proof fn lemma_day_bits_apart()
    ensures
        forall|a: Weekday, b: Weekday| day_bit(a) & day_bit(b) != 0 <==> a == b,
        forall|a: Weekday| day_bit(a) < 128,
{
    assert(1u8 & 1u8 != 0 && 1u8 & 2u8 == 0 && 1u8 & 4u8 == 0 && 1u8 & 8u8 == 0 && 1u8 & 16u8 == 0
        && 1u8 & 32u8 == 0 && 1u8 & 64u8 == 0) by (bit_vector);
    assert(2u8 & 1u8 == 0 && 2u8 & 2u8 != 0 && 2u8 & 4u8 == 0 && 2u8 & 8u8 == 0 && 2u8 & 16u8 == 0
        && 2u8 & 32u8 == 0 && 2u8 & 64u8 == 0) by (bit_vector);
    assert(4u8 & 1u8 == 0 && 4u8 & 2u8 == 0 && 4u8 & 4u8 != 0 && 4u8 & 8u8 == 0 && 4u8 & 16u8 == 0
        && 4u8 & 32u8 == 0 && 4u8 & 64u8 == 0) by (bit_vector);
    assert(8u8 & 1u8 == 0 && 8u8 & 2u8 == 0 && 8u8 & 4u8 == 0 && 8u8 & 8u8 != 0 && 8u8 & 16u8 == 0
        && 8u8 & 32u8 == 0 && 8u8 & 64u8 == 0) by (bit_vector);
    assert(16u8 & 1u8 == 0 && 16u8 & 2u8 == 0 && 16u8 & 4u8 == 0 && 16u8 & 8u8 == 0 && 16u8 & 16u8
        != 0 && 16u8 & 32u8 == 0 && 16u8 & 64u8 == 0) by (bit_vector);
    assert(32u8 & 1u8 == 0 && 32u8 & 2u8 == 0 && 32u8 & 4u8 == 0 && 32u8 & 8u8 == 0 && 32u8 & 16u8
        == 0 && 32u8 & 32u8 != 0 && 32u8 & 64u8 == 0) by (bit_vector);
    assert(64u8 & 1u8 == 0 && 64u8 & 2u8 == 0 && 64u8 & 4u8 == 0 && 64u8 & 8u8 == 0 && 64u8 & 16u8
        == 0 && 64u8 & 32u8 == 0 && 64u8 & 64u8 != 0) by (bit_vector);
}

} // verus!
