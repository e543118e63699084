use ring_dsp::ring_buffer::RingBuffer;

#[test]
fn test_fifo_order() {
    let mut rb = RingBuffer::<i64>::new(5);
    for v in 1..=4 {
        rb.push(v * 11);
    }
    assert_eq!(rb.len(), 4);
    for v in 1..=4 {
        assert_eq!(rb.pop(), v * 11);
    }
    assert_eq!(rb.len(), 0);
}

#[test]
fn test_lockstep_push_pop() {
    // One push then one pop per round, over several laps of the capacity:
    // every value comes straight back and the buffer stays empty.
    let capacity = 7;
    let mut rb = RingBuffer::<i64>::new(capacity);
    for round in 0..(3 * capacity as i64) {
        rb.push(round * round + 1);
        assert_eq!(rb.pop(), round * round + 1);
        assert_eq!(rb.len(), 0);
    }
}

#[test]
fn test_default_fill() {
    let mut rb = RingBuffer::<i64>::new(3);
    assert_eq!(rb.capacity(), 3);
    assert_eq!(rb.len(), 0);
    for _ in 0..3 {
        assert_eq!(rb.pop(), 0);
    }
}

#[test]
fn test_head_laps_tail() {
    // Exactly `capacity` pushes bring the write cursor back onto the read
    // cursor, so the buffer reports a length of zero again.
    let mut rb = RingBuffer::<i64>::new(4);
    for v in 0..4 {
        rb.push(v);
    }
    assert_eq!(rb.len(), 0);
    // The slots still hold the pushed values in placement order.
    for v in 0..4 {
        assert_eq!(rb.pop(), v);
    }
}

#[test]
fn test_put_does_not_advance() {
    let mut rb = RingBuffer::<i64>::new(4);
    rb.put(5);
    assert_eq!(rb.len(), 0);
    assert_eq!(rb.peek(), 5);
    rb.put(6);
    assert_eq!(rb.peek(), 6);
    assert_eq!(rb.get_write_index(), 0);
}

#[test]
fn test_peek_does_not_advance() {
    let mut rb = RingBuffer::<i64>::new(4);
    rb.push(8);
    rb.push(9);
    assert_eq!(rb.peek(), 8);
    assert_eq!(rb.peek(), 8);
    assert_eq!(rb.len(), 2);
    assert_eq!(rb.pop(), 8);
    assert_eq!(rb.peek(), 9);
}

#[test]
fn test_get_relative_to_tail() {
    let mut rb = RingBuffer::<i64>::new(5);
    for v in 10..14 {
        rb.push(v);
    }
    rb.pop();
    // tail is now 1; get reads forward from it without moving it.
    assert_eq!(rb.get(0), 11);
    assert_eq!(rb.get(1), 12);
    assert_eq!(rb.get(2), 13);
    assert_eq!(rb.len(), 3);
}

#[test]
fn test_get_wraps_modulo_capacity() {
    let mut rb = RingBuffer::<i64>::new(3);
    rb.push(1);
    rb.push(2);
    rb.push(3);
    // Offsets spanning the capacity wrap around: 3 laps land on the start.
    assert_eq!(rb.get(3), rb.get(0));
    assert_eq!(rb.get(7), rb.get(1));
}

#[test]
fn test_cursor_getters_and_setters() {
    let mut rb = RingBuffer::<i64>::new(4);
    assert_eq!(rb.get_read_index(), 0);
    assert_eq!(rb.get_write_index(), 0);
    rb.set_write_index(6);
    assert_eq!(rb.get_write_index(), 2);
    rb.set_read_index(3);
    assert_eq!(rb.get_read_index(), 3);
    // head 2, tail 3: the wrap-aware distance is 2 + 4 - 3.
    assert_eq!(rb.len(), 3);
}

#[test]
fn test_len_across_wrap() {
    let mut rb = RingBuffer::<i64>::new(4);
    rb.push(1);
    rb.push(2);
    rb.push(3);
    rb.pop();
    rb.pop();
    rb.push(4);
    rb.push(5);
    // head wrapped to 1, tail is 2.
    assert_eq!(rb.get_write_index(), 1);
    assert_eq!(rb.get_read_index(), 2);
    assert_eq!(rb.len(), 3);
    assert_eq!(rb.pop(), 3);
    assert_eq!(rb.pop(), 4);
    assert_eq!(rb.pop(), 5);
    assert_eq!(rb.len(), 0);
}

#[test]
fn test_reset() {
    let mut rb = RingBuffer::<i64>::new(3);
    rb.push(41);
    rb.push(42);
    rb.reset();
    assert_eq!(rb.capacity(), 3);
    assert_eq!(rb.len(), 0);
    assert_eq!(rb.get_read_index(), 0);
    assert_eq!(rb.get_write_index(), 0);
    for _ in 0..3 {
        assert_eq!(rb.pop(), 0);
    }
}

#[test]
fn test_zero_capacity() {
    let mut rb = RingBuffer::<i64>::new(0);
    assert_eq!(rb.capacity(), 0);
    assert_eq!(rb.len(), 0);
    rb.reset();
    assert_eq!(rb.len(), 0);
}

#[test]
fn test_float_samples() {
    let mut rb = RingBuffer::<f32>::new(4);
    rb.push(0.25);
    rb.push(-0.5);
    assert_eq!(rb.pop(), 0.25);
    assert_eq!(rb.pop(), -0.5);
    // Fresh and reset slots hold the default sample, zero.
    assert_eq!(rb.pop(), 0.0);
}

#[test]
fn test_fixed_delay_line() {
    // A push and a pop per sample make the buffer a delay line of length
    // `capacity`: the first `capacity` pops return the initial zeros, then
    // the input comes back delayed by `capacity` samples.
    let capacity = 3;
    let input: Vec<i64> = (1..=10).collect();
    let mut rb = RingBuffer::<i64>::new(capacity);
    let mut output = Vec::new();
    for &x in &input {
        output.push(rb.pop());
        rb.push(x);
    }
    assert_eq!(output, vec![0, 0, 0, 1, 2, 3, 4, 5, 6, 7]);
}

#[test]
fn test_cyclic_table_consumption() {
    // A table of one period, consumed by successive pops, repeats seamlessly
    // across wraparound: the k-th pop reads slot k modulo the capacity.
    let period = 5;
    let mut rb = RingBuffer::<i64>::new(period);
    for v in 0..period as i64 {
        rb.push(v * 3);
    }
    for k in 0..(3 * period) {
        assert_eq!(rb.pop(), ((k % period) as i64) * 3);
    }
}

#[test]
fn test_clone_keeps_state() {
    let mut rb = RingBuffer::<i64>::new(3);
    rb.push(1);
    rb.push(2);
    let mut copy = rb.clone();
    assert_eq!(copy.len(), 2);
    assert_eq!(copy.pop(), 1);
    // The original is untouched by the copy's pop.
    assert_eq!(rb.len(), 2);
}
