use cue_shell::ring_buffer::{RingBuffer, DEFAULT_CAPACITY};

#[test]
fn basic_push_and_read() {
    let mut rb = RingBuffer::new(16);
    rb.push(b"hello");
    assert_eq!(rb.len(), 5);
    assert_eq!(rb.as_bytes(), b"hello");
}

#[test]
fn tail_returns_last_n() {
    let mut rb = RingBuffer::new(16);
    rb.push(b"hello world");
    assert_eq!(rb.tail(5), b"world");
    // Requesting more than stored returns everything.
    assert_eq!(rb.tail(100), b"hello world");
}

#[test]
fn overflow_wraps_around() {
    let mut rb = RingBuffer::new(8);
    rb.push(b"ABCDEFGH"); // fills exactly
    assert_eq!(rb.len(), 8);
    assert_eq!(rb.as_bytes(), b"ABCDEFGH");

    rb.push(b"XY"); // overwrites A, B
    assert_eq!(rb.len(), 8);
    assert_eq!(rb.as_bytes(), b"CDEFGHXY");
}

#[test]
fn push_larger_than_capacity() {
    let mut rb = RingBuffer::new(4);
    rb.push(b"ABCDEFGH"); // only last 4 kept
    assert_eq!(rb.as_bytes(), b"EFGH");
}

#[test]
fn tail_with_truncation_reports_limit_and_overflow() {
    let mut rb = RingBuffer::new(6);
    rb.push(b"abcd");
    assert_eq!(rb.tail_with_truncation(4), (b"abcd".to_vec(), false));
    assert_eq!(rb.tail_with_truncation(2), (b"cd".to_vec(), true));

    rb.push(b"efgh");
    assert_eq!(rb.as_bytes(), b"cdefgh");
    assert_eq!(rb.tail_with_truncation(6), (b"cdefgh".to_vec(), true));
}

#[test]
fn empty_buffer() {
    let rb = RingBuffer::new(8);
    assert_eq!(rb.len(), 0);
    assert_eq!(rb.as_bytes(), b"");
    assert_eq!(rb.tail(5), b"");
}

#[test]
fn multiple_small_pushes_with_wrap() {
    let mut rb = RingBuffer::new(6);
    rb.push(b"ABC");
    rb.push(b"DEF");
    assert_eq!(rb.as_bytes(), b"ABCDEF");
    rb.push(b"GH");
    assert_eq!(rb.as_bytes(), b"CDEFGH");
    assert_eq!(rb.tail(3), b"FGH");
}

#[test]
fn default_capacity() {
    let rb = RingBuffer::default();
    assert_eq!(rb.capacity(), DEFAULT_CAPACITY);
    assert_eq!(rb.len(), 0);
}

#[test]
fn an_empty_push_changes_nothing() {
    let mut rb = RingBuffer::new(3);
    rb.push(b"abc");
    rb.push(b"");
    assert_eq!(rb.tail_with_truncation(3), (b"abc".to_vec(), false));
}

#[test]
fn a_buffer_without_capacity_keeps_nothing() {
    let mut rb = RingBuffer::new(0);
    rb.push(b"abc");
    assert_eq!(rb.len(), 0);
    assert_eq!(rb.as_bytes(), b"");
    assert_eq!(rb.tail_with_truncation(1), (b"".to_vec(), true));
}

#[test]
fn truncation_is_told_when_any_byte_is_missing() {
    let pieces: [&[u8]; 4] = [b"ab", b"", b"cde", b"fghij"];
    for capacity in [0, 3, 5, 10, 20] {
        let mut rb = RingBuffer::new(capacity);
        let mut total = 0;
        for piece in pieces {
            rb.push(piece);
            total += piece.len();
            for n in [0, 1, 5, 30] {
                let (tail, truncated) = rb.tail_with_truncation(n);
                assert_eq!(tail, rb.tail(n));
                assert_eq!(truncated, tail.len() < total, "{capacity} {n}");
            }
        }
    }
}
