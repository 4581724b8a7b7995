use linedb::{
    build_index, cache_round_trip, decode_index, encode_index, load_or_build_index, DbError,
};

#[test]
fn persisted_index_equals_fresh_index() {
    let data = b"alpha\nbeta\ngamma\n";
    let fresh = build_index(data);
    let bytes = encode_index(&fresh).unwrap();
    let restored = decode_index(&bytes).unwrap();
    assert_eq!(restored, fresh);
}

#[test]
fn cache_round_trip_preserves_index() {
    let data = b"one\ntwo\nthree, no newline";
    let index = build_index(data);
    let restored = cache_round_trip(&index).unwrap();
    assert_eq!(restored, index);
}

#[test]
fn encoding_is_not_the_identity() {
    // the serialized sidecar bytes are a MessagePack image, not the map's
    // entries laid out verbatim
    let index = build_index(b"alpha\n");
    let bytes = encode_index(&index).unwrap();
    assert!(!bytes.is_empty());
    assert!(decode_index(&bytes).is_ok());
    let mut corrupted = bytes.clone();
    corrupted[0] = corrupted[0].wrapping_add(1);
    corrupted.truncate(1);
    assert_eq!(decode_index(&corrupted), Err(DbError::DecodeError));
}

#[test]
fn garbage_bytes_do_not_decode() {
    let garbage: Vec<u8> = vec![0xC1, 0xFF, 0x00];
    assert_eq!(decode_index(&garbage), Err(DbError::DecodeError));
}

#[test]
fn load_prefers_cached_bytes() {
    let data = b"alpha\nbeta\n";
    let other = b"x\ny\nz\n";
    let cached = encode_index(&build_index(other)).unwrap();
    // a cached index is trusted unconditionally, even against other data
    let loaded = load_or_build_index(data, Some(&cached)).unwrap();
    assert_eq!(loaded, build_index(other));
}

#[test]
fn load_builds_without_cache() {
    let data = b"alpha\nbeta\n";
    let loaded = load_or_build_index(data, None).unwrap();
    assert_eq!(loaded, build_index(data));
}

#[test]
fn load_fails_on_corrupt_cache() {
    let data = b"alpha\nbeta\n";
    let corrupt: Vec<u8> = vec![0xC1];
    assert_eq!(load_or_build_index(data, Some(&corrupt)), Err(DbError::DecodeError));
}
