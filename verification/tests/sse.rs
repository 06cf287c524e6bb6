use rust_journey::sse::{extract_sse_data, find_event_boundary, SseDecoder};

#[test]
fn decodes_fragmented_sse_events_with_crlf() {
    let mut decoder = SseDecoder::default();
    assert!(
        decoder
            .push(b"event: image\r\ndata: {\"type\":\"image_")
            .is_empty()
    );
    let events = decoder.push(b"generation.partial_image\",\"partial_image_index\":0}\r\n\r\n");

    assert_eq!(events.len(), 1);
    assert_eq!(
        events[0],
        br#"{"type":"image_generation.partial_image","partial_image_index":0}"#
    );
}

#[test]
fn splits_several_events_in_one_chunk() {
    let mut decoder = SseDecoder::new();
    let events = decoder.push(b"data: one\n\ndata: two\n\nevent: ping\n\ndata: thr");
    assert_eq!(events, vec![b"one".to_vec(), b"two".to_vec()]);
    let events = decoder.push(b"ee\n\n");
    assert_eq!(events, vec![b"three".to_vec()]);
}

#[test]
fn every_chunking_gives_the_same_events() {
    let stream: &[u8] =
        b"event: a\r\ndata: first\r\n\r\ndata: x\ndata: y\n\n: comment\n\ndata:last\r\n\r\ndata: tail";
    let mut whole = SseDecoder::new();
    let mut expected = whole.push(stream);
    expected.extend(whole.finish());
    assert_eq!(
        expected,
        vec![b"first".to_vec(), b"x\ny".to_vec(), b"last".to_vec(), b"tail".to_vec()]
    );
    for size in 1..stream.len() {
        let mut decoder = SseDecoder::new();
        let mut events = Vec::new();
        for chunk in stream.chunks(size) {
            events.extend(decoder.push(chunk));
        }
        events.extend(decoder.finish());
        assert_eq!(events, expected, "chunks of {size}");
    }
}

#[test]
fn finish_keeps_a_trailing_event_unless_blank() {
    let mut decoder = SseDecoder::new();
    assert!(decoder.push(b"data: partial").is_empty());
    assert_eq!(decoder.finish(), vec![b"partial".to_vec()]);

    let mut decoder = SseDecoder::new();
    assert_eq!(decoder.push(b"data: a\n\n \r\n\t"), vec![b"a".to_vec()]);
    assert!(decoder.finish().is_empty());

    // a trailing remainder without data still yields its (empty) payload
    let mut decoder = SseDecoder::new();
    assert!(decoder.push(b"event: x").is_empty());
    assert_eq!(decoder.finish(), vec![Vec::<u8>::new()]);
}

#[test]
fn events_without_data_are_dropped() {
    let mut decoder = SseDecoder::new();
    assert!(decoder.push(b"event: ping\n\n: keep-alive\n\n").is_empty());
}

#[test]
fn boundaries_are_found_at_the_first_blank_line() {
    assert_eq!(find_event_boundary(b"ab\n\ncd"), Some((2, 2)));
    assert_eq!(find_event_boundary(b"ab\r\n\r\ncd"), Some((2, 4)));
    assert_eq!(find_event_boundary(b"a\r\n\n"), Some((2, 2)));
    assert_eq!(find_event_boundary(b"\n\n"), Some((0, 2)));
    assert_eq!(find_event_boundary(b"ab\r\n\r"), None);
    assert_eq!(find_event_boundary(b"\n"), None);
    assert_eq!(find_event_boundary(b""), None);
}

#[test]
fn data_lines_are_joined() {
    assert_eq!(extract_sse_data(b"data: a\r\ndata:b\nid: 3\ndata:  c"), b"a\nb\n c".to_vec());
    assert_eq!(extract_sse_data(b"data:\ndata: x"), b"x".to_vec());
    assert_eq!(extract_sse_data(b"event: e\nretry: 1"), Vec::<u8>::new());
    assert_eq!(extract_sse_data(b"data"), Vec::<u8>::new());
    assert_eq!(extract_sse_data(b"data: x\r\r"), b"x\r".to_vec());
}

#[test]
fn pushes_of_any_split_equal_one_push() {
    let stream: &[u8] = b"data: a\r\n\r\ndata: b\n\n\ndata: c\r\n\r\n\r\n\r\ndata: d";
    let mut once = SseDecoder::new();
    let expected = once.push(stream);
    let expected_rest = once.finish();
    let n = stream.len();
    for i in 0..=n {
        for j in i..=n {
            let mut pieces = SseDecoder::new();
            let mut events = Vec::new();
            for chunk in [&stream[..i], &b""[..], &stream[i..j], &stream[j..]] {
                events.extend(pieces.push(chunk));
            }
            assert_eq!(events, expected, "split at {i} and {j}");
            assert_eq!(pieces.finish(), expected_rest, "split at {i} and {j}");
        }
    }
}
