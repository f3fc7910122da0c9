use vstd::prelude::*;
use vstd::std_specs::cmp::PartialEqSpecImpl;
use vstd::std_specs::convert::FromSpecImpl;
use std::marker::PhantomData;
use super::cookies::{Cookie, GenCookie, HALF_BITS};

verus! {

/// Mask of the half of a handle's word that holds the index.
pub const ID_MASK: u64 = 0xFFFF_FFFF;

/// Mask of the half of a handle's word that holds the cookie.
pub const COOKIE_MASK: u64 = 0xFFFF_FFFF_0000_0000;

/// The lower half of the word `bits`: the index.
pub open spec fn index_half(bits: u64) -> usize {
    (bits & ID_MASK) as usize
}

/// The upper half of the word `bits`: the half word of the cookie.
pub open spec fn cookie_half(bits: u64) -> usize {
    ((bits & COOKIE_MASK) >> HALF_BITS) as usize
}

/// The word that holds `index` in its lower half and the lower 32 bits of
/// `repr` in its upper half.
pub open spec fn pack(index: u32, repr: usize) -> u64 {
    ((repr as u64) << HALF_BITS) | (index as u64)
}

/// Both halves of a packed word come back as they went in.
pub proof fn lemma_pack_halves(index: u32, repr: usize)
    ensures
        index_half(pack(index, repr)) == index,
        cookie_half(pack(index, repr)) == ((repr as u64) & ID_MASK) as usize,
        repr <= u32::MAX ==> cookie_half(pack(index, repr)) == repr,
{
    let r = repr as u64;
    let i = index as u64;
    assert(((r << 32) | i) & 0xFFFF_FFFF == i && (((r << 32) | i) & 0xFFFF_FFFF_0000_0000) >> 32 == r
        & 0xFFFF_FFFF) by (bit_vector)
        requires
            i <= 0xFFFF_FFFFu64,
    ;
    assert(r <= 0xFFFF_FFFF ==> r & 0xFFFF_FFFF == r) by (bit_vector);
}

/// A reference to a slot of a storage: the slot's index in the lower half of
/// a 64-bit word and a cookie in the upper half. `T` names what the slot
/// holds and `C` the kind of cookie.
#[derive(Debug)]
pub struct Handle<T, C: Cookie = GenCookie> {
    id: u64,
    _marker: PhantomData<(T, C)>,
}

impl<T, C: Cookie> Handle<T, C> {
    /// The word that the handle is packed into.
    pub closed spec fn bits(&self) -> u64 {
        self.id
    }

    /// The index of the slot.
    pub open spec fn spec_index(&self) -> usize {
        index_half(self.bits())
    }

    /// The cookie that the handle was given for the slot.
    pub open spec fn spec_cookie(&self) -> C {
        C::from_raw(cookie_half(self.bits()))
    }

    /// The handle to slot `id` with `cookie`. Only the lower 32 bits of the
    /// cookie's half word go into the handle.
    #[inline]
    pub fn new(id: u32, cookie: C) -> (h: Self)
        ensures
            h.bits() == pack(id, cookie.repr()),
            h.spec_index() == id,
            cookie.repr() <= u32::MAX ==> h.spec_cookie() == C::from_raw(cookie.repr()),
    {
        proof {
            lemma_pack_halves(id, cookie.repr());
        }
        Self { id: ((cookie.get_repr() as u64) << HALF_BITS) | (id as u64), _marker: PhantomData }
    }

    /// The index of the slot.
    #[inline]
    pub fn index(&self) -> (i: usize)
        ensures
            i == self.spec_index(),
            i <= u32::MAX,
    {
        let id = self.id;
        assert(id & 0xFFFF_FFFF <= 0xFFFF_FFFF) by (bit_vector);
        (self.id & ID_MASK) as usize
    }

    /// The cookie that the handle carries.
    #[inline]
    pub fn cookie(&self) -> (c: C)
        ensures
            c == self.spec_cookie(),
    {
        let id = self.id;
        assert((id & 0xFFFF_FFFF_0000_0000) >> 32 <= 0xFFFF_FFFF) by (bit_vector);
        C::get_cookie(((self.id & COOKIE_MASK) >> HALF_BITS) as usize)
    }
}

impl<T, C: Cookie> Clone for Handle<T, C> {
    fn clone(&self) -> (h: Self)
        ensures
            h == *self,
    {
        Self { id: self.id, _marker: PhantomData }
    }
}

impl<T, C: Cookie> Copy for Handle<T, C> {

}

impl<T, C: Cookie> Default for Handle<T, C> {
    /// The handle with every bit set.
    fn default() -> (h: Self)
        ensures
            h.bits() == u64::MAX,
    {
        Self { id: u64::MAX, _marker: PhantomData }
    }
}

impl<T, C: Cookie> PartialEq for Handle<T, C> {
    fn eq(&self, other: &Self) -> (r: bool) {
        self.id == other.id
    }
}

impl<T, C: Cookie> PartialEqSpecImpl for Handle<T, C> {
    open spec fn obeys_eq_spec() -> bool {
        true
    }

    open spec fn eq_spec(&self, other: &Self) -> bool {
        self.bits() == other.bits()
    }
}

impl<T, C: Cookie> Eq for Handle<T, C> {

}

/// A handle without the types of its slot and cookie.
#[derive(Clone, Copy, Debug, PartialEq, Eq, Structural)]
pub struct UntypedHandle {
    id: u64,
}

impl UntypedHandle {
    /// The word that the handle is packed into.
    pub closed spec fn bits(&self) -> u64 {
        self.id
    }

    /// The index of the slot.
    #[inline]
    pub fn index(&self) -> (i: usize)
        ensures
            i == index_half(self.bits()),
            i <= u32::MAX,
    {
        let id = self.id;
        assert(id & 0xFFFF_FFFF <= 0xFFFF_FFFF) by (bit_vector);
        (self.id & ID_MASK) as usize
    }

    /// The half word of the cookie.
    #[inline]
    pub fn cookie(&self) -> (c: usize)
        ensures
            c == cookie_half(self.bits()),
            c <= u32::MAX,
    {
        let id = self.id;
        assert((id & 0xFFFF_FFFF_0000_0000) >> 32 <= 0xFFFF_FFFF) by (bit_vector);
        ((self.id & COOKIE_MASK) >> HALF_BITS) as usize
    }
}

impl<T, C: Cookie> From<UntypedHandle> for Handle<T, C> {
    fn from(value: UntypedHandle) -> (h: Self) {
        Self { id: value.id, _marker: PhantomData }
    }
}

impl<T, C: Cookie> FromSpecImpl<UntypedHandle> for Handle<T, C> {
    open spec fn obeys_from_spec() -> bool {
        true
    }

    open spec fn from_spec(value: UntypedHandle) -> Self {
        Handle::with_bits(value.bits())
    }
}

impl<T, C: Cookie> Handle<T, C> {
    /// The handle that is packed into the word `bits`.
    pub closed spec fn with_bits(bits: u64) -> Self {
        Handle { id: bits, _marker: PhantomData }
    }

    /// A handle is its word.
    pub proof fn lemma_with_bits(bits: u64)
        ensures
            Self::with_bits(bits).bits() == bits,
    {
    }
}

impl<T, C: Cookie> From<Handle<T, C>> for UntypedHandle {
    fn from(value: Handle<T, C>) -> (h: Self) {
        Self { id: value.id }
    }
}

impl<T, C: Cookie> FromSpecImpl<Handle<T, C>> for UntypedHandle {
    open spec fn obeys_from_spec() -> bool {
        true
    }

    open spec fn from_spec(value: Handle<T, C>) -> Self {
        UntypedHandle::with_bits(value.bits())
    }
}

impl UntypedHandle {
    /// The handle that is packed into the word `bits`.
    pub closed spec fn with_bits(bits: u64) -> Self {
        UntypedHandle { id: bits }
    }

    /// A handle is its word.
    pub proof fn lemma_with_bits(bits: u64)
        ensures
            Self::with_bits(bits).bits() == bits,
    {
    }
}

} // verus!
