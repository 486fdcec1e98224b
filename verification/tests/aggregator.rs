use firmware::utils::{Agg, Ring};

#[test]
fn sum_unavailable_until_n_puts() {
    let mut a: Agg<4> = Agg::new();
    assert_eq!(a.sum_of_first(1), None);
    assert_eq!(a.sum_of_first(4), None);

    a.put(10);
    assert_eq!(a.sum_of_first(1), Some(10));
    assert_eq!(a.sum_of_first(2), None);

    a.put(20);
    assert_eq!(a.sum_of_first(2), Some(30));
    assert_eq!(a.sum_of_first(3), None);

    a.put(30);
    a.put(40);
    assert_eq!(a.sum_of_first(4), Some(100));
    // beyond the capacity the sum is never available
    assert_eq!(a.sum_of_first(5), None);
}

#[test]
fn sum_is_by_buffer_index_not_recency() {
    let mut a: Agg<4> = Agg::new();
    for v in [1u16, 2, 3, 4] {
        a.put(v);
    }
    assert_eq!(a.sum_of_first(4), Some(10));

    // the fifth put overwrites the oldest slot, index 0
    a.put(100);
    assert_eq!(a.sum_of_first(4), Some(100 + 2 + 3 + 4));
    assert_eq!(a.sum_of_first(1), Some(100));
}

#[test]
fn avg_of_first_divides_sum() {
    let mut a: Agg<4> = Agg::new();
    a.put(3);
    a.put(4);
    assert_eq!(a.avg_of_first(2), Some(3));  // 7 / 2 rounds down
    assert_eq!(a.avg_full(), None);
    a.put(5);
    a.put(8);
    assert_eq!(a.avg_full(), Some(5));
}

#[test]
fn range_and_amplitude() {
    let mut a: Agg<4> = Agg::new();
    assert_eq!(a.range_of_first(0), None);
    a.put(7);
    a.put(3);
    a.put(9);
    assert_eq!(a.range_of_first(3), Some((3, 9)));
    assert_eq!(a.amplitude_of_first(3), Some(6));
    assert_eq!(a.amplitude_of_first(4), None);
    assert_eq!(a.amplitude_full(), None);
    a.put(9);
    assert_eq!(a.amplitude_full(), Some(6));
}

#[test]
fn amplitude_never_negative() {
    let mut a: Agg<3> = Agg::new();
    for v in [5u16, 5, 5] {
        a.put(v);
    }
    // equal samples give the smallest possible amplitude, zero
    assert_eq!(a.amplitude_full(), Some(0));
}

#[test]
fn ring_reads_in_write_order() {
    let mut r = Ring::new();
    assert_eq!(r.read(), None);
    r.write(1);
    r.write(2);
    r.write(3);
    assert_eq!(r.read(), Some(1));
    assert_eq!(r.read(), Some(2));
    r.write(4);
    assert_eq!(r.read(), Some(3));
    assert_eq!(r.read(), Some(4));
    assert_eq!(r.read(), None);
}

#[test]
fn ring_wraps_around_its_capacity() {
    let mut r = Ring::new();
    for round in 0..5u8 {
        for i in 0..10u8 {
            r.write(round * 10 + i);
        }
        for i in 0..10u8 {
            assert_eq!(r.read(), Some(round * 10 + i));
        }
    }
}

#[test]
fn ring_filled_completely_stops_reading() {
    let mut r = Ring::new();
    for i in 0..16u8 {
        r.write(i);
    }
    // once the cursors coincide the ring no longer hands bytes out
    assert_eq!(r.read(), None);
}
