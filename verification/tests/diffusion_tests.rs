use unipix::diffusion::ErrorDiffusionBuffer;

fn grid_total(buf: &ErrorDiffusionBuffer) -> i64 {
    buf.data.iter().sum()
}

#[test]
fn new_buffer_is_zero() {
    let buf = ErrorDiffusionBuffer::new(7, 5, 3);
    assert_eq!(buf.data.len(), 7 * 5 * 3);
    assert!(buf.data.iter().all(|&v| v == 0));
}

#[test]
fn take_does_not_clear() {
    let mut buf = ErrorDiffusionBuffer::new(8, 8, 1);
    buf.add(5, 2, 0, 42);
    assert_eq!(buf.take(5, 2, 0), 42);
    assert_eq!(buf.take(5, 2, 0), 42);
}

#[test]
fn add_out_of_bounds_is_no_op() {
    let mut buf = ErrorDiffusionBuffer::new(4, 4, 1);
    buf.add(-1, 0, 0, 100);
    buf.add(0, -2, 0, 100);
    buf.add(4, 0, 0, 100);
    buf.add(0, 4, 0, 100);
    assert_eq!(grid_total(&buf), 0);
}

#[test]
fn interior_push_conserves_error() {
    // A source pixel two columns and rows from every relevant edge diffuses
    // exactly its whole error into the buffer.
    let mut buf = ErrorDiffusionBuffer::new(10, 10, 1);
    buf.push_error(4, 4, 0, 123457);
    assert_eq!(grid_total(&buf), 123457);
    buf.push_error(5, 5, 0, -98765);
    assert_eq!(grid_total(&buf), 123457 - 98765);
}

#[test]
fn interior_push_matches_kernel_weights() {
    // The twelve taps carry 8,4 / 2,4,8,4,2 / 1,2,4,2,1 forty-seconds.
    let mut buf = ErrorDiffusionBuffer::new(10, 10, 1);
    buf.push_error(4, 4, 0, 42 << 16);
    let w = 1i64 << 16;
    assert_eq!(buf.take(5, 4, 0), 8 * w);
    assert_eq!(buf.take(6, 4, 0), 4 * w);
    assert_eq!(buf.take(2, 5, 0), 2 * w);
    assert_eq!(buf.take(3, 5, 0), 4 * w);
    assert_eq!(buf.take(4, 5, 0), 8 * w);
    assert_eq!(buf.take(5, 5, 0), 4 * w);
    assert_eq!(buf.take(6, 5, 0), 2 * w);
    assert_eq!(buf.take(2, 6, 0), 1 * w);
    assert_eq!(buf.take(3, 6, 0), 2 * w);
    assert_eq!(buf.take(4, 6, 0), 4 * w);
    assert_eq!(buf.take(5, 6, 0), 2 * w);
    assert_eq!(buf.take(6, 6, 0), 1 * w);
    // nothing behind or above the source
    assert_eq!(buf.take(3, 4, 0), 0);
    assert_eq!(buf.take(4, 4, 0), 0);
    assert_eq!(buf.take(4, 3, 0), 0);
}

#[test]
fn edge_push_drops_only_out_of_bounds_taps() {
    // A source pixel in the bottom-right corner keeps only the taps that
    // land inside: (+1,0) and (+2,0) and all rows below are clipped.
    let mut buf = ErrorDiffusionBuffer::new(6, 6, 1);
    let e = 42i64 << 16;
    buf.push_error(5, 5, 0, e);
    assert_eq!(grid_total(&buf), 0);

    let mut buf2 = ErrorDiffusionBuffer::new(6, 6, 1);
    buf2.push_error(5, 4, 0, e);
    // only taps with dy=+1 at x in {3,4,5} survive: weights 2,4,8
    assert_eq!(grid_total(&buf2), (2 + 4 + 8) << 16);
}

#[test]
fn zero_error_push_is_no_op() {
    let mut buf = ErrorDiffusionBuffer::new(8, 8, 3);
    buf.push_error(3, 3, 1, 0);
    assert!(buf.data.iter().all(|&v| v == 0));
}

#[test]
fn channels_are_independent() {
    let mut buf = ErrorDiffusionBuffer::new(8, 8, 3);
    buf.push_error(3, 3, 1, 4200);
    assert_eq!(buf.take(4, 3, 0), 0);
    assert!(buf.take(4, 3, 1) != 0);
    assert_eq!(buf.take(4, 3, 2), 0);
}
