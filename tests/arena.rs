use epiphyte::arena::{encode_argument, finish_text, ForeignMemoryError, ReadProgress, RemoteRead, CHUNK};

/// Reads a zero-terminated string out of `region` as a foreign read would,
/// handing back at most `short` bytes per read where given.
fn read_region(region: &[u8], short: Option<usize>) -> Result<String, ForeignMemoryError> {
    let mut rd = RemoteRead::start(0x1000, region.len())?;
    while let Some(n) = rd.next_request() {
        let off = rd.offset();
        let n = short.map_or(n, |s| s.min(n));
        let chunk = region[off..off + n].to_vec();
        match rd.feed(&chunk) {
            ReadProgress::More => {}
            ReadProgress::Finished(bytes) => return finish_text(&bytes),
            ReadProgress::TerminatorNotFound => return Err(ForeignMemoryError::TerminatorNotFound),
        }
    }
    Err(ForeignMemoryError::TerminatorNotFound)
}

#[test]
fn written_string_reads_back() {
    let bytes = encode_argument("World").unwrap();
    assert_eq!(bytes, b"World\0".to_vec());
    let mut region = bytes.clone();
    region.extend_from_slice(&[7u8; 10]);
    assert_eq!(read_region(&region, None).unwrap(), "World");
}

#[test]
fn empty_string_reads_back() {
    let bytes = encode_argument("").unwrap();
    assert_eq!(bytes, vec![0u8]);
    assert_eq!(read_region(&bytes, None).unwrap(), "");
}

#[test]
fn long_string_reads_back_across_chunks() {
    let s: String = std::iter::repeat('x').take(CHUNK * 2 + 5).collect();
    let mut region = encode_argument(&s).unwrap();
    region.extend_from_slice(&[1u8; 3]);
    assert_eq!(read_region(&region, None).unwrap(), s);
    assert_eq!(read_region(&region, Some(100)).unwrap(), s);
}

#[test]
fn unicode_string_reads_back() {
    let s = "h\u{e9}llo \u{1f600}";
    let region = encode_argument(s).unwrap();
    assert_eq!(read_region(&region, None).unwrap(), s);
}

#[test]
fn region_without_zero_is_terminator_not_found() {
    let region = vec![0x41u8; 3000];
    assert_eq!(read_region(&region, None), Err(ForeignMemoryError::TerminatorNotFound));
    let small = vec![0x41u8; 5];
    assert_eq!(read_region(&small, None), Err(ForeignMemoryError::TerminatorNotFound));
}

#[test]
fn empty_read_ends_without_terminator() {
    let mut rd = RemoteRead::start(0x1000, 64).unwrap();
    assert_eq!(rd.next_request(), Some(64));
    assert!(matches!(rd.feed(&vec![]), ReadProgress::TerminatorNotFound));
    assert_eq!(rd.next_request(), None);
}

#[test]
fn reads_never_pass_region_end() {
    let mut rd = RemoteRead::start(0x1000, CHUNK + 10).unwrap();
    assert_eq!(rd.next_request(), Some(CHUNK));
    assert!(matches!(rd.feed(&vec![1u8; CHUNK]), ReadProgress::More));
    assert_eq!(rd.offset(), CHUNK);
    assert_eq!(rd.next_request(), Some(10));
}

#[test]
fn null_address_is_refused() {
    assert!(matches!(RemoteRead::start(0, 16), Err(ForeignMemoryError::NullAddress)));
}

#[test]
fn interior_zero_is_refused() {
    assert_eq!(encode_argument("a\0b"), Err(ForeignMemoryError::InteriorNul));
}

#[test]
fn invalid_text_is_reported() {
    assert_eq!(finish_text(&vec![0xffu8, 0x41]), Err(ForeignMemoryError::InvalidText));
    assert_eq!(finish_text(&b"ok".to_vec()).unwrap(), "ok");
}
