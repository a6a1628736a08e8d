use caligula::util::hyperpipe::{
    next_readable_span, next_writeable_span, reader_available_capacity, slowest_reader_position,
    writer_available_capacity, Span,
};

#[test]
fn empty_pipe_offers_the_rest_of_the_buffer() {
    // writer and reader at the same place, 3 bytes into a 10 byte buffer
    assert_eq!(next_writeable_span(10, 13, 13), Span { start: 3, len: 7 });
    assert_eq!(next_readable_span(10, 13, 13), Span { start: 0, len: 0 });
    assert_eq!(writer_available_capacity(10, 13, 13), 10);
}

#[test]
fn writer_stops_before_the_slowest_reader() {
    // the writer has wrapped around behind the reader
    assert_eq!(next_writeable_span(10, 12, 5), Span { start: 2, len: 3 });
    assert_eq!(writer_available_capacity(10, 12, 5), 3);
}

#[test]
fn full_pipe_offers_nothing_to_write() {
    assert_eq!(next_writeable_span(4, 4, 0), Span { start: 0, len: 0 });
    assert_eq!(writer_available_capacity(4, 4, 0), 0);
}

#[test]
fn reader_reads_up_to_the_writer_or_the_buffer_end() {
    assert_eq!(next_readable_span(10, 2, 7), Span { start: 2, len: 5 });
    // the writer has wrapped around: read to the end of the buffer first
    assert_eq!(next_readable_span(10, 6, 13), Span { start: 6, len: 4 });
    assert_eq!(reader_available_capacity(10, 13, 6), 7);
}

#[test]
fn full_buffer_reads_nothing_at_equal_indices() {
    // a full buffer puts reader and writer at the same index
    assert_eq!(next_readable_span(4, 0, 4), Span { start: 0, len: 0 });
}

#[test]
fn slowest_reader_ignores_dropped_readers() {
    assert_eq!(slowest_reader_position(50, &[]), 50);
    assert_eq!(slowest_reader_position(50, &[Some(40), None, Some(20), Some(45)]), 20);
    assert_eq!(slowest_reader_position(50, &[None, None]), 50);
}
