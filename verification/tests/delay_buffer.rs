use jimtel::delay_buffer::DelayBuffer;
use jimtel::fixed::FIXED_ONE;

const F: i64 = FIXED_ONE;

#[test]
fn no_delay() {
    let mut buffer = DelayBuffer::new(0);

    assert_eq!(buffer.add(1 * F, 2 * F), (1 * F, 2 * F));
    assert_eq!(buffer.add(3 * F, 4 * F), (3 * F, 4 * F));
}

#[test]
fn some_delay() {
    let mut buffer = DelayBuffer::new(3);

    assert_eq!(buffer.add(1 * F, 2 * F), (0, 0));
    assert_eq!(buffer.add(3 * F, 4 * F), (0, 0));
    assert_eq!(buffer.add(5 * F, 6 * F), (0, 0));
    assert_eq!(buffer.add(7 * F, 8 * F), (1 * F, 2 * F));
    assert_eq!(buffer.add(8 * F, 9 * F), (3 * F, 4 * F));
    assert_eq!(buffer.add(10 * F, 11 * F), (5 * F, 6 * F));
    assert_eq!(buffer.add(12 * F, 13 * F), (7 * F, 8 * F));
}

#[test]
fn long_stream_is_shifted_by_exactly_the_delay() {
    let d: usize = 17;
    let mut buffer = DelayBuffer::new(d);
    let mut outputs: Vec<(i64, i64)> = Vec::new();
    let inputs: Vec<(i64, i64)> = (0..200).map(|n| (n * 3 + 1, -n * 7)).collect();
    for &(l, r) in &inputs {
        outputs.push(buffer.add(l, r));
    }
    for n in 0..200usize {
        if n < d {
            assert_eq!(outputs[n], (0, 0));
        } else {
            assert_eq!(outputs[n], inputs[n - d]);
        }
    }
}

#[test]
fn set_delay_resizes_and_clears() {
    let mut buffer = DelayBuffer::new(1);
    buffer.add(5, 5);
    buffer.add(6, 6);
    // same delay: nothing changes, the stored pair still comes out
    buffer.set_delay(1);
    assert_eq!(buffer.add(7, 7), (6, 6));
    // new delay: the line is cleared and refills with silence
    buffer.set_delay(2);
    assert_eq!(buffer.add(8, 8), (0, 0));
    assert_eq!(buffer.add(9, 9), (0, 0));
    assert_eq!(buffer.add(10, 10), (8, 8));
}
