use process_watcher::{ProcessCpuTime, RingBuffer};

fn contents(r: &RingBuffer<u32>) -> Vec<u32> {
    r.buf.iter().copied().collect()
}

#[test]
fn ring_buffer_starts_empty() {
    let r: RingBuffer<u32> = RingBuffer::new(3);
    assert_eq!(r.capacity, 3);
    assert!(r.buf.is_empty());
}

#[test]
fn ring_buffer_puts_newest_first() {
    let mut r = RingBuffer::new(3);
    r.push(1);
    r.push(2);
    assert_eq!(contents(&r), vec![2, 1]);
}

#[test]
fn ring_buffer_drops_oldest_when_full() {
    let mut r = RingBuffer::new(3);
    for x in 1..=5 {
        r.push(x);
    }
    assert_eq!(contents(&r), vec![5, 4, 3]);
    assert_eq!(r.capacity, 3);
}

#[test]
fn ring_buffer_never_holds_more_than_capacity() {
    let mut r = RingBuffer::new(200);
    for x in 0..1000u32 {
        r.push(x);
        assert!(r.buf.len() <= 200);
    }
    assert_eq!(r.buf.len(), 200);
    assert_eq!(r.buf.front(), Some(&999));
    assert_eq!(r.buf.back(), Some(&800));
}

#[test]
fn ring_buffer_of_capacity_zero_drops_nothing() {
    let mut r = RingBuffer::new(0);
    r.push(1);
    r.push(2);
    assert_eq!(contents(&r), vec![2, 1]);
}

#[test]
fn process_cpu_time_compares_by_fields() {
    let a = ProcessCpuTime { user_time: 1, system_time: 2 };
    let b = ProcessCpuTime { user_time: 1, system_time: 2 };
    assert_eq!(a, b);
}
