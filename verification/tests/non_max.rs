use render_alloc::utils::non_max::{NonMax, NumberLimits};
use std::collections::hash_map::DefaultHasher;
use std::hash::{Hash, Hasher};

#[test]
fn new_valid_values() {
    assert!(NonMax::<u8>::new(0).is_some());
    assert!(NonMax::<u8>::new(254).is_some());
    assert!(NonMax::<u8>::new(255).is_none());

    assert!(NonMax::<usize>::new(0).is_some());
    assert!(NonMax::<usize>::new(usize::MAX - 1).is_some());
    assert!(NonMax::<usize>::new(usize::MAX).is_none());
}

#[test]
fn get_returns_correct_value() {
    let n = NonMax::<u16>::new(1234).unwrap();
    assert_eq!(n.get(), 1234);

    let n = NonMax::<i32>::new(-42).unwrap();
    assert_eq!(n.get(), -42);
}

#[test]
fn display_formatting() {
    let n = NonMax::<u8>::new(100).unwrap();
    assert_eq!(n.to_string(), "100");

    let n = NonMax::<i64>::new(-999).unwrap();
    assert_eq!(n.to_string(), "-999");
}

#[test]
fn zero_handling() {
    assert!(NonMax::<u32>::new(0).is_some());
    assert!(NonMax::<i64>::new(0).is_some());
}

#[test]
fn max_value_handling() {
    assert!(NonMax::<u8>::new(u8::MAX).is_none());
    assert!(NonMax::<i128>::new(i128::MAX).is_none());
}

#[test]
fn new_unchecked_with_valid_value() {
    let n = NonMax::<usize>::new_unchecked(42);
    assert_eq!(n.get(), 42);
}

#[test]
fn clone_and_copy() {
    let a = NonMax::<i32>::new(42).unwrap();
    let b = a.clone();
    assert_eq!(a, b);

    let c = a;
    let d = c;
    assert_eq!(c, d);
}

#[test]
fn ordering() {
    let a = NonMax::<u8>::new(10).unwrap();
    let b = NonMax::<u8>::new(20).unwrap();
    assert!(a < b);
}

#[test]
fn hash_impl() {
    let a = NonMax::<usize>::new(42).unwrap();
    let mut hasher = DefaultHasher::new();
    a.hash(&mut hasher);
    let hash_a = hasher.finish();

    let mut hasher = DefaultHasher::new();
    42usize.hash(&mut hasher);
    let hash_b = hasher.finish();

    assert_eq!(hash_a, hash_b);
}

#[test]
fn ordering_follows_the_values_of_signed_types() {
    let low = NonMax::<i8>::new(-128).unwrap();
    let mid = NonMax::<i8>::new(0).unwrap();
    let high = NonMax::<i8>::new(126).unwrap();
    assert!(low < mid);
    assert!(mid < high);
    assert!(low < high);
}

#[test]
fn every_value_below_the_maximum_round_trips() {
    for n in 0..u8::MAX {
        assert_eq!(NonMax::<u8>::new(n).unwrap().get(), n);
    }
    for n in i8::MIN..i8::MAX {
        assert_eq!(NonMax::<i8>::new(n).unwrap().get(), n);
    }
    assert!(NonMax::<i8>::new(i8::MAX).is_none());
}

#[test]
fn limits_of_the_integer_types() {
    assert_eq!(<u8 as NumberLimits>::MAX, 255);
    assert_eq!(<u8 as NumberLimits>::MIN, 0);
    assert_eq!(<i16 as NumberLimits>::MAX, 32767);
    assert_eq!(<i16 as NumberLimits>::MIN, -32768);
    assert_eq!(<i64 as NumberLimits>::ZERO, 0);
    assert_eq!(<u128 as NumberLimits>::MAX, u128::MAX);
    assert_eq!(<isize as NumberLimits>::MIN, isize::MIN);
}

#[test]
fn wrapping_arithmetic_wraps_at_the_limits() {
    assert_eq!(NumberLimits::wrapping_add(250u8, 10u8), 4);
    assert_eq!(NumberLimits::wrapping_sub(3u8, 5u8), 254);
    assert_eq!(NumberLimits::wrapping_add(i32::MAX, 1), i32::MIN);
    assert_eq!(NumberLimits::wrapping_sub(i32::MIN, 1), i32::MAX);
    assert_eq!(NumberLimits::wrapping_add(7u64, 8u64), 15);
    assert!(NumberLimits::is_max(u16::MAX));
    assert!(!NumberLimits::is_max(0u16));
}
