use render_alloc::allocators::{Cookie, EmptyCookie, GenCookie, Handle, UntypedHandle};

#[test]
fn handle_packs_index_and_cookie() {
    let handle: Handle<u8, GenCookie> = Handle::new(5, GenCookie { gen: 3, active: true });
    assert_eq!(handle.index(), 5);
    assert_eq!(handle.cookie(), GenCookie { gen: 3, active: true });

    let handle: Handle<u8, GenCookie> = Handle::new(u32::MAX, GenCookie { gen: 0, active: false });
    assert_eq!(handle.index(), 0xFFFF_FFFF);
    assert_eq!(handle.cookie(), GenCookie { gen: 0, active: false });
}

#[test]
fn gen_cookie_half_word_layout() {
    assert_eq!(GenCookie { gen: 3, active: true }.get_repr(), 0x8000_0003);
    assert_eq!(GenCookie { gen: 3, active: false }.get_repr(), 3);
    assert_eq!(GenCookie { gen: 0x7FFF_FFFF, active: true }.get_repr(), 0xFFFF_FFFF);
    assert_eq!(GenCookie::get_cookie(0x8000_0003), GenCookie { gen: 3, active: true });
    assert_eq!(GenCookie::get_cookie(7), GenCookie { gen: 7, active: false });
    // Only the lower half of the word counts.
    assert_eq!(GenCookie::get_cookie(0x1_0000_0007), GenCookie { gen: 7, active: false });
}

#[test]
fn generation_with_the_top_bit_set_is_read_as_the_flag() {
    let cookie = GenCookie { gen: 0x8000_0001, active: false };
    assert_eq!(cookie.get_repr(), 0x8000_0001);
    assert_eq!(GenCookie::get_cookie(cookie.get_repr()), GenCookie { gen: 1, active: true });
    let handle: Handle<u8, GenCookie> = Handle::new(2, cookie);
    assert_eq!(handle.index(), 2);
    assert_eq!(handle.cookie(), GenCookie { gen: 1, active: true });
}

#[test]
fn empty_cookie_carries_nothing() {
    assert_eq!(EmptyCookie.get_repr(), 0);
    assert_eq!(EmptyCookie::get_cookie(12345), EmptyCookie);
    let handle: Handle<u8, EmptyCookie> = Handle::new(9, EmptyCookie);
    assert_eq!(handle.index(), 9);
    assert_eq!(handle.cookie(), EmptyCookie);
}

#[test]
fn handles_compare_by_their_word() {
    let a: Handle<u8, GenCookie> = Handle::new(1, GenCookie { gen: 1, active: true });
    let b: Handle<u8, GenCookie> = Handle::new(1, GenCookie { gen: 1, active: true });
    let other_gen: Handle<u8, GenCookie> = Handle::new(1, GenCookie { gen: 2, active: true });
    let other_index: Handle<u8, GenCookie> = Handle::new(2, GenCookie { gen: 1, active: true });
    assert!(a == b);
    assert!(a != other_gen);
    assert!(a != other_index);
    let copy = a;
    assert!(copy == a.clone());
}

#[test]
fn default_handle_has_every_bit_set() {
    let handle: Handle<u8, GenCookie> = Handle::default();
    assert_eq!(handle.index(), 0xFFFF_FFFF);
    assert_eq!(handle.cookie(), GenCookie { gen: 0x7FFF_FFFF, active: true });
}

#[test]
fn untyped_handle_keeps_the_word() {
    let handle: Handle<u8, GenCookie> = Handle::new(5, GenCookie { gen: 3, active: true });
    let untyped = UntypedHandle::from(handle);
    assert_eq!(untyped.index(), 5);
    assert_eq!(untyped.cookie(), 0x8000_0003);
    let back: Handle<u8, GenCookie> = Handle::from(untyped);
    assert!(back == handle);
    let retyped: Handle<u16, EmptyCookie> = Handle::from(untyped);
    assert_eq!(retyped.index(), 5);
}
