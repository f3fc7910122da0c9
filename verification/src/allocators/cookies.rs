use vstd::prelude::*;
use std::fmt::Debug;

verus! {

/// Number of bits in each half of a handle's word.
pub const HALF_BITS: u32 = 32;

/// Mask of the bits that hold a generation in the cookie of a [`GenCookie`].
pub const GEN_MASK: u64 = 0x7FFF_FFFF;

/// The validity tag that a handle carries next to its index. A storage
/// compares it with the tag it keeps for the slot before it gives access.
pub trait Cookie: Copy + Debug + Sized {
    /// The cookie that the half word `raw` stands for.
    spec fn from_raw(raw: usize) -> Self;

    /// The half word that stands for the cookie.
    spec fn repr(&self) -> usize;

    fn get_cookie(raw: usize) -> (c: Self)
        ensures
            c == Self::from_raw(raw),
    ;

    fn get_repr(&self) -> (r: usize)
        ensures
            r == self.repr(),
    ;
}

/// A generation count with a flag that tells whether the slot is occupied.
/// In a half word the flag takes the top bit and the generation the rest.
#[derive(Clone, Copy, Debug, PartialEq, Eq, Structural)]
pub struct GenCookie {
    pub gen: u32,
    pub active: bool,
}

impl Cookie for GenCookie {
    open spec fn from_raw(raw: usize) -> Self {
        GenCookie {
            gen: ((raw as u64) & GEN_MASK) as u32,
            active: (((raw as u64) >> 31) & 1) != 0,
        }
    }

    open spec fn repr(&self) -> usize {
        ((if self.active {
            0x8000_0000u64
        } else {
            0u64
        }) | (self.gen as u64)) as usize
    }

    #[inline]
    fn get_cookie(raw: usize) -> (c: Self) {
        let raw = raw as u64;
        let value = raw & GEN_MASK;
        let flag = (raw >> 31) & 1 != 0;
        assert(raw & 0x7FFF_FFFF <= 0x7FFF_FFFF) by (bit_vector);
        GenCookie { gen: value as u32, active: flag }
    }

    #[inline]
    fn get_repr(&self) -> (r: usize) {
        let flag: u64 = if self.active { 0x8000_0000 } else { 0 };
        let gen = self.gen as u64;
        assert(flag | gen <= 0xFFFF_FFFF) by (bit_vector)
            requires
                flag == 0x8000_0000u64 || flag == 0u64,
                gen <= 0xFFFF_FFFFu64,
        ;
        (flag | gen) as usize
    }
}

impl GenCookie {
    /// A cookie whose generation leaves the top bit of the half word to the
    /// flag comes back unchanged from its half word. A generation of
    /// `2^31` or more does not: its top bit is read as the flag.
    pub proof fn lemma_round_trip(self)
        requires
            self.gen <= GEN_MASK,
        ensures
            Self::from_raw(self.repr()) == self,
            self.repr() <= u32::MAX,
    {
        let flag: u64 = if self.active { 0x8000_0000 } else { 0 };
        let gen = self.gen as u64;
        assert(flag | gen <= 0xFFFF_FFFF && (flag | gen) & 0x7FFF_FFFF == gen && ((((flag | gen)
            >> 31) & 1) != 0) == (flag != 0)) by (bit_vector)
            requires
                flag == 0x8000_0000u64 || flag == 0u64,
                gen <= 0x7FFF_FFFFu64,
        ;
    }

    /// Cookies with different generations, or different flags, have
    /// different half words, as long as the generations leave the top bit
    /// free.
    pub proof fn lemma_repr_injective(self, other: Self)
        requires
            self.gen <= GEN_MASK,
            other.gen <= GEN_MASK,
            self.repr() == other.repr(),
        ensures
            self == other,
    {
        self.lemma_round_trip();
        other.lemma_round_trip();
    }
}

/// A cookie without content, for storages that are read by index alone and
/// do not detect stale handles.
#[derive(Clone, Copy, Debug, PartialEq, Eq, Structural)]
pub struct EmptyCookie;

impl Cookie for EmptyCookie {
    open spec fn from_raw(raw: usize) -> Self {
        EmptyCookie
    }

    open spec fn repr(&self) -> usize {
        0
    }

    fn get_cookie(raw: usize) -> (c: Self) {
        EmptyCookie
    }

    fn get_repr(&self) -> (r: usize) {
        0
    }
}

} // verus!
