use render_alloc::allocators::{GenCookie, Handle, Pool};

#[test]
fn removed_handle_stays_dead_when_its_slot_is_reused() {
    let mut pool: Pool<i32> = Pool::new(None);
    let h1 = pool.push(10);
    assert_eq!(h1.index(), 0);
    assert_eq!(h1.cookie(), GenCookie { gen: 1, active: true });
    let h2 = pool.push(20);
    assert_eq!(h2.index(), 1);
    assert_eq!(h2.cookie(), GenCookie { gen: 1, active: true });
    pool.remove(h1);
    let h3 = pool.push(30);
    assert_eq!(h3.index(), 0);
    assert_eq!(h3.cookie(), GenCookie { gen: 2, active: true });
    assert_eq!(pool.get(h1), None);
    assert_eq!(pool.get(h3), Some(&30));
    assert_eq!(pool.get(h2), Some(&20));
}

#[test]
fn pushed_value_is_found_until_it_is_removed() {
    let mut pool: Pool<String> = Pool::new(Some(2));
    let a = pool.push("a".to_string());
    let b = pool.push("b".to_string());
    let c = pool.push("c".to_string());
    assert_eq!(pool.get(a).map(|s| s.as_str()), Some("a"));
    assert_eq!(pool.get(b).map(|s| s.as_str()), Some("b"));
    assert_eq!(pool.get(c).map(|s| s.as_str()), Some("c"));
    assert!(pool.is_valid(b));
    pool.remove(b);
    assert!(!pool.is_valid(b));
    assert_eq!(pool.get(b), None);
    assert_eq!(pool.get(a).map(|s| s.as_str()), Some("a"));
    assert_eq!(pool.get(c).map(|s| s.as_str()), Some("c"));
}

#[test]
fn remove_twice_frees_nothing_else() {
    let mut pool: Pool<i32> = Pool::new(None);
    let h1 = pool.push(1);
    let h2 = pool.push(2);
    pool.remove(h1);
    pool.remove(h1);
    assert_eq!(pool.get(h2), Some(&2));
    // The slot was freed once: it is handed out once.
    let h3 = pool.push(3);
    let h4 = pool.push(4);
    assert_eq!(h3.index(), 0);
    assert_eq!(h4.index(), 2);
    // The stale handle does not remove the value that took its slot.
    pool.remove(h1);
    assert_eq!(pool.get(h3), Some(&3));
    assert_eq!(pool.get(h4), Some(&4));
}

#[test]
fn handle_to_a_slot_that_does_not_exist_is_ignored() {
    let mut pool: Pool<i32> = Pool::new(None);
    let h1 = pool.push(1);
    let far: Handle<i32, GenCookie> = Handle::new(99, GenCookie { gen: 1, active: true });
    assert_eq!(pool.get(far), None);
    assert!(pool.get_mut(far).is_none());
    assert!(!pool.is_valid(far));
    pool.remove(far);
    assert_eq!(pool.get(h1), Some(&1));
    assert!(pool.get_many([h1, far]).is_none());
}

#[test]
fn handle_with_a_cleared_flag_reaches_nothing() {
    let mut pool: Pool<i32> = Pool::new(None);
    let h1 = pool.push(1);
    pool.remove(h1);
    // The empty slot has generation 2 and a cleared flag.
    let forged: Handle<i32, GenCookie> = Handle::new(0, GenCookie { gen: 2, active: false });
    assert_eq!(pool.get(forged), None);
    assert!(pool.get_mut(forged).is_none());
    assert!(!pool.is_valid(forged));
    pool.remove(forged);
    let h2 = pool.push(2);
    let h3 = pool.push(3);
    assert_eq!(h2.index(), 0);
    assert_eq!(h3.index(), 1);
    assert_eq!(pool.get(h2), Some(&2));
    assert_eq!(pool.get(h3), Some(&3));
}

#[test]
fn get_mut_changes_the_value_in_place() {
    let mut pool: Pool<i32> = Pool::new(None);
    let h1 = pool.push(1);
    let h2 = pool.push(2);
    *pool.get_mut(h1).unwrap() += 10;
    assert_eq!(pool.get(h1), Some(&11));
    assert_eq!(pool.get(h2), Some(&2));
    pool.remove(h1);
    assert!(pool.get_mut(h1).is_none());
}

#[test]
fn get_many_refuses_the_same_handle_twice() {
    let mut pool: Pool<i32> = Pool::new(None);
    let h = pool.push(1);
    assert!(pool.get_many([h, h]).is_none());
    assert_eq!(pool.get(h), Some(&1));
}

#[test]
fn get_many_gives_each_value_once() {
    let mut pool: Pool<i32> = Pool::new(None);
    let h1 = pool.push(1);
    let h2 = pool.push(2);
    let h3 = pool.push(3);
    {
        let [c, a] = pool.get_many([h3, h1]).unwrap();
        assert_eq!(*c, 3);
        assert_eq!(*a, 1);
        *c = 30;
        *a = 10;
    }
    assert_eq!(pool.get(h1), Some(&10));
    assert_eq!(pool.get(h2), Some(&2));
    assert_eq!(pool.get(h3), Some(&30));
    assert!(pool.get_many::<0>([]).is_some());
}

#[test]
fn get_many_refuses_a_stale_handle() {
    let mut pool: Pool<i32> = Pool::new(None);
    let h1 = pool.push(1);
    let h2 = pool.push(2);
    pool.remove(h1);
    assert!(pool.get_many([h1, h2]).is_none());
    assert!(pool.get_many([h2, h1]).is_none());
    let h3 = pool.push(3);
    assert!(pool.get_many([h1, h2]).is_none());
    assert!(pool.get_many([h3, h2]).is_some());
}

#[test]
fn generation_counts_the_removals_of_a_slot() {
    let mut pool: Pool<i32> = Pool::new(None);
    let mut handle = pool.push(0);
    for round in 1..=5u32 {
        assert_eq!(handle.cookie(), GenCookie { gen: round, active: true });
        pool.remove(handle);
        handle = pool.push(round as i32);
        assert_eq!(handle.index(), 0);
    }
    assert_eq!(pool.get(handle), Some(&5));
}

#[test]
fn emptied_slots_are_filled_last_emptied_first() {
    let mut pool: Pool<i32> = Pool::new(None);
    let a = pool.push(1);
    let b = pool.push(2);
    let c = pool.push(3);
    pool.remove(a);
    pool.remove(c);
    pool.remove(b);
    assert_eq!(pool.push(4).index(), 1);
    assert_eq!(pool.push(5).index(), 2);
    assert_eq!(pool.push(6).index(), 0);
    assert_eq!(pool.push(7).index(), 3);
}

#[test]
fn reused_slot_answers_to_another_handle() {
    let mut pool: Pool<i32> = Pool::new(None);
    let first = pool.push(1);
    pool.remove(first);
    let second = pool.push(2);
    assert_eq!(second.index(), first.index());
    assert!(second != first);
    assert_ne!(second.cookie().gen, first.cookie().gen);
    assert_eq!(pool.get(first), None);
    assert_eq!(pool.get(second), Some(&2));
}
