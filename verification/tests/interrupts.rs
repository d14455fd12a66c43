use kernel_shell::interrupts::{ScancodeQueue, QUEUE_CAPACITY, TIMER_HZ_X10};

#[test]
fn queue_is_first_in_first_out() {
    let mut q = ScancodeQueue::new();
    assert_eq!(q.pop(), None);
    q.push(1);
    q.push(2);
    q.push(3);
    assert_eq!(q.len(), 3);
    assert_eq!(q.pop(), Some(1));
    q.push(4);
    assert_eq!(q.pop(), Some(2));
    assert_eq!(q.pop(), Some(3));
    assert_eq!(q.pop(), Some(4));
    assert_eq!(q.pop(), None);
}

#[test]
fn full_queue_drops_new_scancodes() {
    let mut q = ScancodeQueue::new();
    for i in 0..QUEUE_CAPACITY {
        q.push(i as u8);
    }
    q.push(0xaa);
    assert_eq!(q.len(), 256);
    for i in 0..QUEUE_CAPACITY {
        assert_eq!(q.pop(), Some(i as u8));
    }
    assert_eq!(q.pop(), None);
}

#[test]
fn queue_wraps_around_the_ring() {
    let mut q = ScancodeQueue::new();
    for round in 0..3u32 {
        for i in 0..200u32 {
            q.push(((i + round) % 256) as u8);
        }
        for i in 0..200u32 {
            assert_eq!(q.pop(), Some(((i + round) % 256) as u8));
        }
    }
    assert_eq!(q.len(), 0);
}

#[test]
fn timer_rate_is_eighteen_point_two_hertz() {
    assert_eq!(TIMER_HZ_X10, 182);
}
