use render_alloc::graphics::queue::{Acquired, CommandQueue, RecyclingQueue};

fn ready(found: Acquired<&'static str>) -> &'static str {
    match found {
        Acquired::Ready(item) => item,
        other => panic!("expected a ready object, found {:?}", other),
    }
}

#[test]
fn queue_without_limit_asks_for_a_new_object() {
    let mut queue: RecyclingQueue<&str> = RecyclingQueue::new(None);
    assert!(!queue.is_bounded());
    assert!(queue.is_acquirable());
    assert!(matches!(queue.acquire(0), Acquired::Fresh));
    queue.release("a");
    assert_eq!(queue.commit(1), 1);
    // The device has not completed sync point 1.
    assert!(matches!(queue.acquire(0), Acquired::Fresh));
    assert_eq!(ready(queue.acquire(1)), "a");
    assert!(matches!(queue.acquire(1), Acquired::Fresh));
}

#[test]
fn objects_come_back_in_the_order_of_their_submission() {
    let mut queue: RecyclingQueue<&str> = RecyclingQueue::new(None);
    queue.release("a");
    queue.release("b");
    assert_eq!(queue.commit(1), 2);
    queue.release("c");
    assert_eq!(queue.commit(2), 1);
    assert_eq!(queue.commit(3), 0);
    assert_eq!(ready(queue.acquire(1)), "a");
    assert_eq!(ready(queue.acquire(1)), "b");
    assert!(matches!(queue.acquire(1), Acquired::Fresh));
    assert_eq!(ready(queue.acquire(5)), "c");
}

#[test]
fn stashed_object_comes_back_first() {
    let mut queue: RecyclingQueue<&str> = RecyclingQueue::new(None);
    queue.release("a");
    queue.commit(1);
    queue.stash("x");
    queue.stash("y");
    assert_eq!(ready(queue.acquire(0)), "y");
    assert_eq!(ready(queue.acquire(9)), "x");
    assert_eq!(ready(queue.acquire(9)), "a");
}

#[test]
fn bounded_queue_hands_out_the_oldest_object_to_wait_for() {
    let mut queue: RecyclingQueue<&str> = RecyclingQueue::new(Some(2));
    assert!(queue.is_bounded());
    assert!(!queue.is_acquirable());
    queue.release("a");
    queue.release("b");
    // Released objects are not in flight before the commit.
    assert!(!queue.is_acquirable());
    queue.commit(4);
    queue.release("c");
    queue.commit(7);
    assert!(queue.is_acquirable());
    match queue.acquire(3) {
        Acquired::MustWait(item, stamp) => {
            assert_eq!(item, "a");
            assert_eq!(stamp, 4);
        }
        other => panic!("expected an object to wait for, found {:?}", other),
    }
    assert_eq!(ready(queue.acquire(4)), "b");
    match queue.acquire(4) {
        Acquired::MustWait(item, stamp) => {
            assert_eq!(item, "c");
            assert_eq!(stamp, 7);
        }
        other => panic!("expected an object to wait for, found {:?}", other),
    }
    assert!(!queue.is_acquirable());
    queue.stash("x");
    assert!(queue.is_acquirable());
    assert_eq!(ready(queue.acquire(0)), "x");
}

#[test]
fn committed_buffer_is_complete_at_once_on_a_local_fence() {
    let mut queue: CommandQueue<&str> = CommandQueue::new(None);
    assert!(queue.can_create_command_buffer());
    assert_eq!(queue.create_command_buffer(), None);
    queue.push_cmd_buffer("a");
    assert!(!queue.is_complete(1));
    assert_eq!(queue.commit(), 1);
    assert!(queue.is_complete(1));
    assert!(!queue.is_complete(2));
    queue.push_cmd_buffer("b");
    queue.push_cmd_buffer("c");
    assert_eq!(queue.commit(), 2);
    assert_eq!(queue.commit(), 3);
    assert_eq!(queue.create_command_buffer(), Some("a"));
    assert_eq!(queue.create_command_buffer(), Some("b"));
    queue.stash_cmd_buffer("x");
    assert_eq!(queue.create_command_buffer(), Some("x"));
    assert_eq!(queue.create_command_buffer(), Some("c"));
    assert_eq!(queue.create_command_buffer(), None);
}

#[test]
fn bounded_command_queue_needs_a_buffer_to_hand_out() {
    let mut queue: CommandQueue<&str> = CommandQueue::new(Some(1));
    assert!(!queue.can_create_command_buffer());
    queue.push_cmd_buffer("a");
    assert!(!queue.can_create_command_buffer());
    queue.commit();
    assert!(queue.can_create_command_buffer());
    assert_eq!(queue.create_command_buffer(), Some("a"));
    assert!(!queue.can_create_command_buffer());
}

#[test]
fn wait_moves_the_fence_of_the_queue() {
    let mut queue: CommandQueue<&str> = CommandQueue::new(None);
    assert!(!queue.is_complete(5));
    queue.wait_cpu(5);
    assert!(queue.is_complete(5));
    assert!(!queue.is_complete(6));
    assert_eq!(queue.commit(), 6);
    assert!(queue.is_complete(6));
    assert!(!queue.is_complete(7));
}
