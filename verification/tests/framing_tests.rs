use ikv::config::StoreConfig;
use ikv::framing::unpack_size_prefixed_bytes;

fn frame(buf: &mut Vec<u8>, payload: &[u8]) {
    buf.extend_from_slice(&(payload.len() as i32).to_le_bytes());
    buf.extend_from_slice(payload);
}

#[test]
fn empty_input_has_no_frames() {
    let out = unpack_size_prefixed_bytes(&[]);
    assert!(out.is_empty());
}

#[test]
fn single_frame() {
    let mut buf = Vec::new();
    frame(&mut buf, b"hello");
    let out = unpack_size_prefixed_bytes(&buf);
    assert_eq!(out, vec![b"hello".as_slice()]);
}

#[test]
fn several_frames_in_order() {
    let mut buf = Vec::new();
    frame(&mut buf, b"one");
    frame(&mut buf, &[0u8, 255, 7]);
    frame(&mut buf, b"three");
    let out = unpack_size_prefixed_bytes(&buf);
    assert_eq!(out.len(), 3);
    assert_eq!(out[0], b"one");
    assert_eq!(out[1], &[0u8, 255, 7]);
    assert_eq!(out[2], b"three");
}

#[test]
fn zero_length_frames_are_skipped() {
    let mut buf = Vec::new();
    frame(&mut buf, b"");
    frame(&mut buf, b"kept");
    frame(&mut buf, b"");
    let out = unpack_size_prefixed_bytes(&buf);
    assert_eq!(out, vec![b"kept".as_slice()]);
}

#[test]
fn config_lookup_and_shadowing() {
    let mut config = StoreConfig::new();
    assert!(config.get_string("anything").is_none());
    assert!(config.get_int("anything").is_none());
    config.set_string("name", "first");
    config.set_string("name", "second");
    config.set_int("count", 7);
    assert_eq!(config.get_string("name").unwrap(), "second");
    assert_eq!(config.get_int("count"), Some(7));
    assert!(config.get_string("count").is_none());
    assert!(config.get_int("name").is_none());
}
