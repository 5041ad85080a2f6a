use thelio_fan::buffer::SmoothingBuffer;

#[test]
fn fresh_buffer_reads_zero() {
    let b = SmoothingBuffer::new(3);
    assert_eq!(b.current(), 0);
}

#[test]
fn cold_start_mixes_samples_with_zeros() {
    // Fewer pushes than capacity: the zeros of the unfilled slots still count,
    // so a negative sample alone cannot pull the maximum below zero.
    let mut b = SmoothingBuffer::new(4);
    b.push(-500);
    assert_eq!(b.current(), 0);
    b.push(1000);
    assert_eq!(b.current(), 1000);
}

#[test]
fn spin_down_hold_and_release() {
    // Capacity 3, samples 10, 90, 10, 10: the spike holds the maximum at 90
    // for the following two cycles, then leaves the window.
    let mut b = SmoothingBuffer::new(3);
    b.push(10);
    assert_eq!(b.current(), 10);
    b.push(90);
    assert_eq!(b.current(), 90);
    b.push(10);
    assert_eq!(b.current(), 90);
    b.push(10);
    assert_eq!(b.current(), 90);
    // One more cycle pushes the 90 out of the window and the maximum drops.
    b.push(10);
    assert_eq!(b.current(), 10);
}

#[test]
fn sliding_window_sees_exactly_last_capacity_samples() {
    let mut b = SmoothingBuffer::new(2);
    for v in [7000, 100, 200, 300] {
        b.push(v);
    }
    // Only 200 and 300 remain in the window.
    assert_eq!(b.current(), 300);
}

#[test]
fn window_maximum_ignores_sample_order() {
    let mut a = SmoothingBuffer::new(3);
    let mut b = SmoothingBuffer::new(3);
    for v in [100, 500, 300] {
        a.push(v);
    }
    for v in [300, 100, 500] {
        b.push(v);
    }
    assert_eq!(a.current(), b.current());
    assert_eq!(a.current(), 500);
}
