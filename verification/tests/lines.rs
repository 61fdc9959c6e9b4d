use plotstream::reassembly::LineBuffer;

fn feed_all(buf: &mut LineBuffer, chunks: &[&[u8]]) -> (Vec<Vec<u8>>, bool) {
    let mut lines = Vec::new();
    let mut overflow = false;
    for chunk in chunks {
        let (mut l, o) = buf.push_chunk(chunk);
        lines.append(&mut l);
        overflow = overflow || o;
    }
    (lines, overflow)
}

#[test]
fn one_chunk_three_delimiters() {
    let mut buf = LineBuffer::new();
    let (lines, overflow) = buf.push_chunk(b"a\n\nbb\ntail");
    assert_eq!(lines, vec![b"a".to_vec(), b"".to_vec(), b"bb".to_vec()]);
    assert!(!overflow);
    assert_eq!(buf.take_trailing(), Some(b"tail".to_vec()));
    assert_eq!(buf.take_trailing(), None);
}

#[test]
fn chunking_invariance_examples() {
    let stream: &[u8] = b"first line\nsecond\n\nthird one\npartial";
    let mut whole = LineBuffer::new();
    let (expected, _) = whole.push_chunk(stream);

    // Split at every position: the emitted lines never change.
    for cut in 0..stream.len() {
        let mut buf = LineBuffer::new();
        let (lines, _) = feed_all(&mut buf, &[&stream[..cut], &stream[cut..]]);
        assert_eq!(lines, expected);
        assert_eq!(buf.take_trailing(), Some(b"partial".to_vec()));
    }

    // Byte-at-a-time.
    let mut buf = LineBuffer::new();
    let mut lines = Vec::new();
    for b in stream {
        let (mut l, _) = buf.push_chunk(std::slice::from_ref(b));
        lines.append(&mut l);
    }
    assert_eq!(lines, expected);
}

#[test]
fn delimiter_split_across_chunks() {
    let mut buf = LineBuffer::new();
    let (lines, _) = buf.push_chunk(b"hel");
    assert!(lines.is_empty());
    let (lines, _) = buf.push_chunk(b"lo\nwo");
    assert_eq!(lines, vec![b"hello".to_vec()]);
    let (lines, _) = buf.push_chunk(b"rld\n");
    assert_eq!(lines, vec![b"world".to_vec()]);
    assert_eq!(buf.take_trailing(), None);
}

#[test]
fn empty_chunk_is_harmless() {
    let mut buf = LineBuffer::new();
    let (lines, overflow) = buf.push_chunk(b"");
    assert!(lines.is_empty());
    assert!(!overflow);
}

#[test]
fn overflow_reported_not_fatal() {
    let mut buf = LineBuffer::new();
    let long = vec![b'x'; 511];
    let (lines, overflow) = buf.push_chunk(&long);
    assert!(lines.is_empty());
    assert!(!overflow);

    // One more delimiter-free byte reaches the capacity.
    let (lines, overflow) = buf.push_chunk(b"y");
    assert!(lines.is_empty());
    assert!(overflow);

    // The data is still intact: a delimiter recovers the whole line.
    let (lines, overflow) = buf.push_chunk(b"\n");
    assert_eq!(lines.len(), 1);
    assert_eq!(lines[0].len(), 512);
    assert!(!overflow);
}

#[test]
fn carriage_returns_are_kept() {
    // Only `\n` delimits; a `\r` stays in the line, as the device sends it.
    let mut buf = LineBuffer::new();
    let (lines, _) = buf.push_chunk(b"ok\r\n");
    assert_eq!(lines, vec![b"ok\r".to_vec()]);
}
