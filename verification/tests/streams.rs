use token_input::input::SimpleSpan;
use token_input::stream::{Stream, BATCH};

#[test]
fn batch_is_five_hundred() {
    assert_eq!(BATCH, 500);
}

#[test]
fn stream_pulls_one_batch_when_it_runs_short() {
    let mut stream = Stream::from_iter(0u32..1200);
    assert_eq!(stream.start(), 0);
    assert_eq!(stream.buffered_len(), 0);
    assert_eq!(stream.next(0), (1, Some(0)));
    assert_eq!(stream.buffered_len(), 500);
    assert_eq!(stream.next(499), (500, Some(499)));
    assert_eq!(stream.buffered_len(), 500);
    assert_eq!(stream.next(500), (501, Some(500)));
    assert_eq!(stream.buffered_len(), 1000);
    assert_eq!(stream.next(3), (4, Some(3)));
    assert_eq!(stream.buffered_len(), 1000);
    assert_eq!(stream.next(1000), (1001, Some(1000)));
    assert_eq!(stream.buffered_len(), 1200);
    let (buffer, mut rest) = stream.into_parts();
    assert_eq!(buffer.len(), 1200);
    assert_eq!(rest.next(), None);
}

#[test]
fn stream_leaves_the_rest_in_the_source() {
    let mut stream = Stream::from_iter(0u32..700);
    assert_eq!(stream.next(0), (1, Some(0)));
    let (buffer, rest) = stream.into_parts();
    assert_eq!(buffer, (0u32..500).collect::<Vec<u32>>());
    assert_eq!(rest, 500u32..700);
}

#[test]
fn stream_far_offset_pulls_one_batch_only() {
    let mut stream = Stream::from_iter(0u32..2000);
    assert_eq!(stream.next(1500), (1500, None));
    assert_eq!(stream.buffered_len(), 500);
    assert_eq!(stream.next(1500), (1500, None));
    assert_eq!(stream.buffered_len(), 1000);
}

#[test]
fn stream_end_gives_no_token_and_keeps_the_offset() {
    let mut stream = Stream::from_iter(vec!['x', 'y'].into_iter());
    assert_eq!(stream.next(0), (1, Some('x')));
    assert_eq!(stream.next(1), (2, Some('y')));
    assert_eq!(stream.next(2), (2, None));
    assert_eq!(stream.next(2), (2, None));
    assert_eq!(stream.buffered_len(), 2);
}

#[test]
fn stream_tokens_can_be_read_again() {
    let mut stream = Stream::from_iter(vec![String::from("a"), String::from("b")].into_iter());
    assert_eq!(stream.next(1), (2, Some(String::from("b"))));
    assert_eq!(stream.next(0), (1, Some(String::from("a"))));
    assert_eq!(stream.next(1), (2, Some(String::from("b"))));
}

#[test]
fn stream_from_parts_keeps_what_was_pulled() {
    let mut stream = Stream::from_parts(vec![1u8, 2], vec![3u8].into_iter());
    assert_eq!(stream.buffered_len(), 2);
    assert_eq!(stream.next(1), (2, Some(2)));
    assert_eq!(stream.buffered_len(), 2);
    assert_eq!(stream.next(2), (3, Some(3)));
    assert_eq!(stream.span(0..3), SimpleSpan { start: 0, end: 3 });
}
