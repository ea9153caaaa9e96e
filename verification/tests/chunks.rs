use multiqr::split_chunks;

#[test]
fn chunks_of_even_length() {
    let chunks = split_chunks(b"abcdef", 2);
    assert_eq!(chunks, vec![&b"ab"[..], &b"cd"[..], &b"ef"[..]]);
}

#[test]
fn last_chunk_is_shorter() {
    let chunks = split_chunks(b"abcdefg", 3);
    assert_eq!(chunks, vec![&b"abc"[..], &b"def"[..], &b"g"[..]]);
}

#[test]
fn chunk_longer_than_the_buffer() {
    assert_eq!(split_chunks(b"abc", 10), vec![&b"abc"[..]]);
    assert_eq!(split_chunks(b"abc", 3), vec![&b"abc"[..]]);
    assert_eq!(split_chunks(b"abc", usize::MAX), vec![&b"abc"[..]]);
}

#[test]
fn empty_buffer_has_no_chunks() {
    assert!(split_chunks(b"", 4).is_empty());
}

#[test]
fn chunks_rejoin_to_the_buffer() {
    let content: Vec<u8> = (0..1_000u32).map(|i| (i % 251) as u8).collect();
    for size in [1usize, 2, 3, 7, 64, 333, 999, 1_000, 1_001] {
        let chunks = split_chunks(&content, size);
        assert_eq!(chunks.concat(), content);
        assert_eq!(chunks.len(), (content.len() + size - 1) / size);
        for (index, chunk) in chunks.iter().enumerate() {
            let start = index * size;
            let end = (start + size).min(content.len());
            assert_eq!(*chunk, &content[start..end]);
        }
    }
}

#[test]
fn chunks_match_the_slice_method() {
    let content = b"The quick brown fox jumps over the lazy dog";
    for size in 1..50usize {
        let expected: Vec<&[u8]> = content.chunks(size).collect();
        assert_eq!(split_chunks(content, size), expected);
    }
}
