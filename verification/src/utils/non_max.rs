use vstd::prelude::*;
use vstd::string::to_string_from_display_ensures;
use std::fmt::Display;

verus! {

/// `x` folded back into the range `[lo, hi]`, for `x` less than one range
/// width outside of it.
pub open spec fn wrapped(x: int, lo: int, hi: int) -> int {
    if x > hi {
        x - (hi - lo + 1)
    } else if x < lo {
        x + (hi - lo + 1)
    } else {
        x
    }
}

/// An integer type with its limits and its wrapping arithmetic.
pub trait NumberLimits: Copy + Sized {
    const MAX: Self;

    const MIN: Self;

    const ZERO: Self;

    /// The integer that the value stands for.
    spec fn as_int(self) -> int;

    /// The largest value of the type.
    spec fn max_value() -> Self;

    /// The smallest value of the type.
    spec fn min_value() -> Self;

    /// The constants are what their names say, every value lies between the
    /// limits, and two values that stand for the same integer are the same
    /// value.
    proof fn lemma_limits(a: Self, b: Self)
        ensures
            Self::MAX == Self::max_value(),
            Self::MIN == Self::min_value(),
            Self::ZERO.as_int() == 0,
            Self::min_value().as_int() <= a.as_int() <= Self::max_value().as_int(),
            Self::min_value().as_int() <= 0 < Self::max_value().as_int(),
            a.as_int() == b.as_int() ==> a == b,
    ;

    fn wrapping_add(self, rhs: Self) -> (r: Self)
        ensures
            r.as_int() == wrapped(
                self.as_int() + rhs.as_int(),
                Self::min_value().as_int(),
                Self::max_value().as_int(),
            ),
    ;

    fn wrapping_sub(self, rhs: Self) -> (r: Self)
        ensures
            r.as_int() == wrapped(
                self.as_int() - rhs.as_int(),
                Self::min_value().as_int(),
                Self::max_value().as_int(),
            ),
    ;

    /// `true` for the largest value of the type.
    fn is_max(self) -> (b: bool)
        ensures
            b == (self == Self::max_value()),
    ;
}

impl NumberLimits for usize {
    const MAX: Self = usize::MAX;

    const MIN: Self = usize::MIN;

    const ZERO: Self = 0;

    open spec fn as_int(self) -> int {
        self as int
    }

    open spec fn max_value() -> Self {
        usize::MAX
    }

    open spec fn min_value() -> Self {
        usize::MIN
    }

    proof fn lemma_limits(a: Self, b: Self) {
    }

    fn wrapping_add(self, rhs: Self) -> (r: Self) {
        self.wrapping_add(rhs)
    }

    fn wrapping_sub(self, rhs: Self) -> (r: Self) {
        self.wrapping_sub(rhs)
    }

    fn is_max(self) -> (b: bool) {
        self == usize::MAX
    }
}

impl NumberLimits for u8 {
    const MAX: Self = u8::MAX;

    const MIN: Self = u8::MIN;

    const ZERO: Self = 0;

    open spec fn as_int(self) -> int {
        self as int
    }

    open spec fn max_value() -> Self {
        u8::MAX
    }

    open spec fn min_value() -> Self {
        u8::MIN
    }

    proof fn lemma_limits(a: Self, b: Self) {
    }

    fn wrapping_add(self, rhs: Self) -> (r: Self) {
        self.wrapping_add(rhs)
    }

    fn wrapping_sub(self, rhs: Self) -> (r: Self) {
        self.wrapping_sub(rhs)
    }

    fn is_max(self) -> (b: bool) {
        self == u8::MAX
    }
}

impl NumberLimits for u16 {
    const MAX: Self = u16::MAX;

    const MIN: Self = u16::MIN;

    const ZERO: Self = 0;

    open spec fn as_int(self) -> int {
        self as int
    }

    open spec fn max_value() -> Self {
        u16::MAX
    }

    open spec fn min_value() -> Self {
        u16::MIN
    }

    proof fn lemma_limits(a: Self, b: Self) {
    }

    fn wrapping_add(self, rhs: Self) -> (r: Self) {
        self.wrapping_add(rhs)
    }

    fn wrapping_sub(self, rhs: Self) -> (r: Self) {
        self.wrapping_sub(rhs)
    }

    fn is_max(self) -> (b: bool) {
        self == u16::MAX
    }
}

impl NumberLimits for u32 {
    const MAX: Self = u32::MAX;

    const MIN: Self = u32::MIN;

    const ZERO: Self = 0;

    open spec fn as_int(self) -> int {
        self as int
    }

    open spec fn max_value() -> Self {
        u32::MAX
    }

    open spec fn min_value() -> Self {
        u32::MIN
    }

    proof fn lemma_limits(a: Self, b: Self) {
    }

    fn wrapping_add(self, rhs: Self) -> (r: Self) {
        self.wrapping_add(rhs)
    }

    fn wrapping_sub(self, rhs: Self) -> (r: Self) {
        self.wrapping_sub(rhs)
    }

    fn is_max(self) -> (b: bool) {
        self == u32::MAX
    }
}

impl NumberLimits for u64 {
    const MAX: Self = u64::MAX;

    const MIN: Self = u64::MIN;

    const ZERO: Self = 0;

    open spec fn as_int(self) -> int {
        self as int
    }

    open spec fn max_value() -> Self {
        u64::MAX
    }

    open spec fn min_value() -> Self {
        u64::MIN
    }

    proof fn lemma_limits(a: Self, b: Self) {
    }

    fn wrapping_add(self, rhs: Self) -> (r: Self) {
        self.wrapping_add(rhs)
    }

    fn wrapping_sub(self, rhs: Self) -> (r: Self) {
        self.wrapping_sub(rhs)
    }

    fn is_max(self) -> (b: bool) {
        self == u64::MAX
    }
}

impl NumberLimits for u128 {
    const MAX: Self = u128::MAX;

    const MIN: Self = u128::MIN;

    const ZERO: Self = 0;

    open spec fn as_int(self) -> int {
        self as int
    }

    open spec fn max_value() -> Self {
        u128::MAX
    }

    open spec fn min_value() -> Self {
        u128::MIN
    }

    proof fn lemma_limits(a: Self, b: Self) {
    }

    fn wrapping_add(self, rhs: Self) -> (r: Self) {
        self.wrapping_add(rhs)
    }

    fn wrapping_sub(self, rhs: Self) -> (r: Self) {
        self.wrapping_sub(rhs)
    }

    fn is_max(self) -> (b: bool) {
        self == u128::MAX
    }
}

impl NumberLimits for i8 {
    const MAX: Self = i8::MAX;

    const MIN: Self = i8::MIN;

    const ZERO: Self = 0;

    open spec fn as_int(self) -> int {
        self as int
    }

    open spec fn max_value() -> Self {
        i8::MAX
    }

    open spec fn min_value() -> Self {
        i8::MIN
    }

    proof fn lemma_limits(a: Self, b: Self) {
    }

    fn wrapping_add(self, rhs: Self) -> (r: Self) {
        self.wrapping_add(rhs)
    }

    fn wrapping_sub(self, rhs: Self) -> (r: Self) {
        self.wrapping_sub(rhs)
    }

    fn is_max(self) -> (b: bool) {
        self == i8::MAX
    }
}

impl NumberLimits for i16 {
    const MAX: Self = i16::MAX;

    const MIN: Self = i16::MIN;

    const ZERO: Self = 0;

    open spec fn as_int(self) -> int {
        self as int
    }

    open spec fn max_value() -> Self {
        i16::MAX
    }

    open spec fn min_value() -> Self {
        i16::MIN
    }

    proof fn lemma_limits(a: Self, b: Self) {
    }

    fn wrapping_add(self, rhs: Self) -> (r: Self) {
        self.wrapping_add(rhs)
    }

    fn wrapping_sub(self, rhs: Self) -> (r: Self) {
        self.wrapping_sub(rhs)
    }

    fn is_max(self) -> (b: bool) {
        self == i16::MAX
    }
}

impl NumberLimits for i32 {
    const MAX: Self = i32::MAX;

    const MIN: Self = i32::MIN;

    const ZERO: Self = 0;

    open spec fn as_int(self) -> int {
        self as int
    }

    open spec fn max_value() -> Self {
        i32::MAX
    }

    open spec fn min_value() -> Self {
        i32::MIN
    }

    proof fn lemma_limits(a: Self, b: Self) {
    }

    fn wrapping_add(self, rhs: Self) -> (r: Self) {
        self.wrapping_add(rhs)
    }

    fn wrapping_sub(self, rhs: Self) -> (r: Self) {
        self.wrapping_sub(rhs)
    }

    fn is_max(self) -> (b: bool) {
        self == i32::MAX
    }
}

impl NumberLimits for i64 {
    const MAX: Self = i64::MAX;

    const MIN: Self = i64::MIN;

    const ZERO: Self = 0;

    open spec fn as_int(self) -> int {
        self as int
    }

    open spec fn max_value() -> Self {
        i64::MAX
    }

    open spec fn min_value() -> Self {
        i64::MIN
    }

    proof fn lemma_limits(a: Self, b: Self) {
    }

    fn wrapping_add(self, rhs: Self) -> (r: Self) {
        self.wrapping_add(rhs)
    }

    fn wrapping_sub(self, rhs: Self) -> (r: Self) {
        self.wrapping_sub(rhs)
    }

    fn is_max(self) -> (b: bool) {
        self == i64::MAX
    }
}

impl NumberLimits for i128 {
    const MAX: Self = i128::MAX;

    const MIN: Self = i128::MIN;

    const ZERO: Self = 0;

    open spec fn as_int(self) -> int {
        self as int
    }

    open spec fn max_value() -> Self {
        i128::MAX
    }

    open spec fn min_value() -> Self {
        i128::MIN
    }

    proof fn lemma_limits(a: Self, b: Self) {
    }

    fn wrapping_add(self, rhs: Self) -> (r: Self) {
        self.wrapping_add(rhs)
    }

    fn wrapping_sub(self, rhs: Self) -> (r: Self) {
        self.wrapping_sub(rhs)
    }

    fn is_max(self) -> (b: bool) {
        self == i128::MAX
    }
}

impl NumberLimits for isize {
    const MAX: Self = isize::MAX;

    const MIN: Self = isize::MIN;

    const ZERO: Self = 0;

    open spec fn as_int(self) -> int {
        self as int
    }

    open spec fn max_value() -> Self {
        isize::MAX
    }

    open spec fn min_value() -> Self {
        isize::MIN
    }

    proof fn lemma_limits(a: Self, b: Self) {
    }

    fn wrapping_add(self, rhs: Self) -> (r: Self) {
        self.wrapping_add(rhs)
    }

    fn wrapping_sub(self, rhs: Self) -> (r: Self) {
        self.wrapping_sub(rhs)
    }

    fn is_max(self) -> (b: bool) {
        self == isize::MAX
    }
}

/// An integer that is never the largest value of its type.
///
/// The integer is held as it is, and the largest value is kept out by the
/// type's invariant. The compiler is not told of the value that is left
/// out, so an `Option<NonMax<T>>` takes more room than a `NonMax<T>`: the
/// discriminant is paid for.
#[derive(Copy, Debug, PartialEq, Eq, PartialOrd, Ord, Hash)]
pub struct NonMax<T: NumberLimits>(T);

impl<T: NumberLimits> Clone for NonMax<T> {
    fn clone(&self) -> (r: Self)
        ensures
            r == *self,
    {
        *self
    }
}

impl<T: NumberLimits> NonMax<T> {
    #[verifier::type_invariant]
    spec fn below_max(self) -> bool {
        self.0 != T::max_value()
    }

    /// The integer that is held.
    pub closed spec fn view(&self) -> T {
        self.0
    }

    /// A `NonMax` is the integer that it holds.
    pub proof fn lemma_view_is_injective(self, other: Self)
        requires
            self@ == other@,
        ensures
            self == other,
    {
    }

    /// `n` as a `NonMax`, or `None` where `n` is the largest value of its
    /// type.
    #[inline]
    pub fn new(n: T) -> (r: Option<Self>)
        ensures
            n == T::max_value() ==> r is None,
            n != T::max_value() ==> r is Some && r->0@ == n,
    {
        if n.is_max() {
            None
        } else {
            Some(Self(n))
        }
    }

    /// `n` as a `NonMax`, without a look at `n`: the caller knows that `n` is
    /// not the largest value of its type.
    #[inline]
    pub fn new_unchecked(n: T) -> (r: Self)
        requires
            n != T::max_value(),
        ensures
            r@ == n,
    {
        Self(n)
    }

    /// The integer that is held.
    #[inline]
    pub fn get(self) -> (n: T)
        ensures
            n == self@,
            n != T::max_value(),
    {
        proof {
            use_type_invariant(&self);
        }
        self.0
    }
}

impl<T: NumberLimits + Display> NonMax<T> {
    /// The text that `T` displays for the integer that is held.
    pub fn to_string(&self) -> (r: String)
        ensures
            to_string_from_display_ensures::<T>(&self@, r),
    {
        self.0.to_string()
    }
}

} // verus!
