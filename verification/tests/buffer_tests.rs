use pixi_pty::buffer::RollingBuffer;
use pixi_pty::buffer::MAX_BUFFER_BYTES;

#[test]
fn retains_chunks_in_order() {
    let mut buffer = RollingBuffer::new();
    buffer.store_chunk("hello ".to_string());
    buffer.store_chunk("world".to_string());
    assert_eq!(buffer.buffered_output(), "hello world");
    assert_eq!(buffer.total_bytes(), 11);
}

#[test]
fn empty_buffer_yields_empty_output() {
    let buffer = RollingBuffer::new();
    assert_eq!(buffer.buffered_output(), "");
    assert_eq!(buffer.total_bytes(), 0);
}

#[test]
fn evicts_oldest_whole_chunk_on_overflow() {
    let mut buffer = RollingBuffer::new();
    let first = "a".repeat(600_000);
    let second = "b".repeat(600_000);
    buffer.store_chunk(first);
    buffer.store_chunk(second.clone());
    // 1_200_000 bytes exceed the cap, so the whole first chunk goes.
    assert_eq!(buffer.total_bytes(), 600_000);
    assert_eq!(buffer.buffered_output(), second);
}

#[test]
fn chunk_of_exactly_the_cap_is_retained() {
    let mut buffer = RollingBuffer::new();
    let exact = "a".repeat(MAX_BUFFER_BYTES);
    buffer.store_chunk(exact.clone());
    assert_eq!(buffer.total_bytes(), MAX_BUFFER_BYTES);
    assert_eq!(buffer.buffered_output(), exact);
    // One more byte pushes the total over the cap: the old chunk goes,
    // never a part of it.
    buffer.store_chunk("b".to_string());
    assert_eq!(buffer.total_bytes(), 1);
    assert_eq!(buffer.buffered_output(), "b");
}

#[test]
fn oversized_chunk_clears_the_buffer() {
    let mut buffer = RollingBuffer::new();
    buffer.store_chunk("keep me".to_string());
    let oversized = "x".repeat(MAX_BUFFER_BYTES + 1);
    buffer.store_chunk(oversized);
    assert_eq!(buffer.total_bytes(), 0);
    assert_eq!(buffer.buffered_output(), "");
}

#[test]
fn total_stays_within_cap_across_many_insertions() {
    let mut buffer = RollingBuffer::new();
    let chunk = "y".repeat(70_000);
    for _ in 0..40 {
        buffer.store_chunk(chunk.clone());
        assert!(buffer.total_bytes() <= MAX_BUFFER_BYTES);
    }
    // 14 chunks of 70_000 bytes fit under the cap, the 15th would not.
    assert_eq!(buffer.total_bytes(), 70_000 * 14);
}

#[test]
fn multibyte_text_is_counted_in_bytes() {
    let mut buffer = RollingBuffer::new();
    buffer.store_chunk("héllo".to_string());
    assert_eq!(buffer.total_bytes(), 6);
}
