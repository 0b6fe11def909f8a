use jimtel::fixed::FIXED_ONE;
use jimtel::sum_buffer::SumBuffer;

const F: i64 = FIXED_ONE;

#[test]
fn sum() {
    let mut buffer = SumBuffer::new(3);

    assert_eq!(buffer.add(1 * F), 1 * F);
    assert_eq!(buffer.add(2 * F), (1 + 2) * F);
    assert_eq!(buffer.add(3 * F), (1 + 2 + 3) * F);
    assert_eq!(buffer.add(4 * F), (2 + 3 + 4) * F);
    assert_eq!(buffer.add(5 * F), (3 + 4 + 5) * F);
    assert_eq!(buffer.add(6 * F), (4 + 5 + 6) * F);
}

#[test]
fn reset_forgets_history() {
    let mut buffer = SumBuffer::new(2);
    buffer.add(10);
    buffer.add(20);
    buffer.reset();
    assert_eq!(buffer.add(7), 7);
    assert_eq!(buffer.add(8), 15);
    assert_eq!(buffer.add(9), 17);
}

#[test]
fn long_run_sum_is_exact() {
    // the sliding sum stays exactly equal to the sum of the last W pushes
    // over a long run: integer accumulation has no drift at all
    let w: usize = 997;
    let mut buffer = SumBuffer::new(w);
    let mut ring: Vec<i64> = vec![0; w];
    let mut expected: i64 = 0;
    let mut cursor: usize = 0;
    let mut count: usize = 0;
    for n in 0..200_000u64 {
        let value = ((n * n % 9173) as i64) - 4586;
        if count >= w {
            expected -= ring[cursor];
        }
        expected += value;
        ring[cursor] = value;
        cursor = (cursor + 1) % w;
        count += 1;
        let sum = buffer.add(value);
        if n % 1931 == 0 || n + 10 > 200_000 {
            assert_eq!(sum, expected);
        }
    }
}
