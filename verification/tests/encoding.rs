use nats3::encoding::{content_key, Chunk, Codec, DecodingError, EncodingError};
use nats3::encoding::{DIGEST_LEN, HEADER_LEN, MAX_PAYLOAD_LEN, MAX_RUN};

const HELLO_DIGEST: &str = "2cf24dba5fb0a30e26e83b2ac5b9e29e1b161e5c1fa7425e73043362938b9824";
const EMPTY_DIGEST: &str = "e3b0c44298fc1c149afbf4c8996fb92427ae41e4649b934ca495991b7852b855";

fn round_trip(payload: Vec<u8>, codec: Codec) {
    let chunk = Chunk::new(payload.clone());
    let bytes = chunk.serialize(codec).unwrap();
    let back = Chunk::deserialize(&bytes, codec).unwrap();
    assert_eq!(back.payload(), &payload);
    assert_eq!(back, chunk);
}

#[test]
fn codec_labels_are_stable() {
    assert_eq!(Codec::Raw.label(), "raw");
    assert_eq!(Codec::RunLength.label(), "rle");
}

#[test]
fn codec_from_label_inverts_label() {
    assert_eq!(Codec::from_label("raw"), Some(Codec::Raw));
    assert_eq!(Codec::from_label("rle"), Some(Codec::RunLength));
    assert_eq!(Codec::from_label("RAW"), None);
    assert_eq!(Codec::from_label(""), None);
    assert_eq!(Codec::from_label("gzip"), None);
}

#[test]
fn codec_tags_differ() {
    assert_eq!(Codec::Raw.tag(), 0);
    assert_eq!(Codec::RunLength.tag(), 1);
}

#[test]
fn limits_have_their_values() {
    assert_eq!(MAX_PAYLOAD_LEN, 16 * 1024 * 1024 - 1);
    assert_eq!(HEADER_LEN, 4);
    assert_eq!(MAX_RUN, 255);
    assert_eq!(DIGEST_LEN, 32);
}

#[test]
fn raw_encoding_is_header_and_payload() {
    let chunk = Chunk::new(b"hello".to_vec());
    let bytes = chunk.serialize(Codec::Raw).unwrap();
    assert_eq!(bytes, vec![0, 0, 0, 5, b'h', b'e', b'l', b'l', b'o']);
}

#[test]
fn run_length_encoding_packs_runs() {
    let chunk = Chunk::new(b"aaab".to_vec());
    let bytes = chunk.serialize(Codec::RunLength).unwrap();
    assert_eq!(bytes, vec![1, 0, 0, 4, 3, b'a', 1, b'b']);
}

#[test]
fn run_length_encoding_splits_long_runs() {
    let chunk = Chunk::new(vec![0u8; 300]);
    let bytes = chunk.serialize(Codec::RunLength).unwrap();
    assert_eq!(bytes, vec![1, 0, 1, 44, 255, 0, 45, 0]);
}

#[test]
fn run_of_exactly_max_run_is_one_pair() {
    let chunk = Chunk::new(vec![7u8; 255]);
    let bytes = chunk.serialize(Codec::RunLength).unwrap();
    assert_eq!(bytes, vec![1, 0, 0, 255, 255, 7]);
}

#[test]
fn empty_payload_encodes_to_header_only() {
    let chunk = Chunk::new(Vec::new());
    assert_eq!(chunk.serialize(Codec::Raw).unwrap(), vec![0, 0, 0, 0]);
    assert_eq!(chunk.serialize(Codec::RunLength).unwrap(), vec![1, 0, 0, 0]);
}

#[test]
fn header_holds_length_big_endian() {
    let chunk = Chunk::new(vec![1u8; 0x01_02_03]);
    let bytes = chunk.serialize(Codec::Raw).unwrap();
    assert_eq!(&bytes[..4], &[0, 1, 2, 3]);
    assert_eq!(bytes.len(), 4 + 0x01_02_03);
}

#[test]
fn round_trip_under_every_codec() {
    let payloads: Vec<Vec<u8>> = vec![
        Vec::new(),
        b"hello".to_vec(),
        b"aaaaaaaaaabbbbbbbbbbbbbbbbbbbbbbc".to_vec(),
        vec![0u8; 1000],
        (0..=255u8).collect(),
        (0..5000u32).map(|i| (i % 7) as u8).collect(),
    ];
    for payload in payloads {
        round_trip(payload.clone(), Codec::Raw);
        round_trip(payload, Codec::RunLength);
    }
}

#[test]
fn serialize_is_deterministic() {
    let a = Chunk::new(b"same bytes".to_vec());
    let b = Chunk::new(b"same bytes".to_vec());
    assert_eq!(a.serialize(Codec::RunLength), b.serialize(Codec::RunLength));
    assert_eq!(a.serialize(Codec::Raw), b.serialize(Codec::Raw));
}

#[test]
fn largest_payload_is_encoded() {
    let chunk = Chunk::new(vec![9u8; MAX_PAYLOAD_LEN]);
    let bytes = chunk.serialize(Codec::Raw).unwrap();
    assert_eq!(&bytes[..4], &[0, 255, 255, 255]);
    let back = Chunk::deserialize(&bytes, Codec::Raw).unwrap();
    assert_eq!(back.payload().len(), MAX_PAYLOAD_LEN);
}

#[test]
fn too_large_payload_is_refused() {
    let chunk = Chunk::new(vec![0u8; MAX_PAYLOAD_LEN + 1]);
    assert_eq!(chunk.serialize(Codec::Raw), Err(EncodingError::PayloadTooLarge));
    assert_eq!(chunk.serialize(Codec::RunLength), Err(EncodingError::PayloadTooLarge));
}

#[test]
fn truncated_input_is_refused() {
    assert_eq!(Chunk::deserialize(&[], Codec::Raw), Err(DecodingError::Truncated));
    assert_eq!(Chunk::deserialize(&[0, 0, 0], Codec::Raw), Err(DecodingError::Truncated));
    assert_eq!(Chunk::deserialize(&[1, 0, 0], Codec::RunLength), Err(DecodingError::Truncated));
}

#[test]
fn other_codec_is_refused() {
    let raw = Chunk::new(b"hello".to_vec()).serialize(Codec::Raw).unwrap();
    assert_eq!(Chunk::deserialize(&raw, Codec::RunLength), Err(DecodingError::CodecMismatch));
    let packed = Chunk::new(b"hello".to_vec()).serialize(Codec::RunLength).unwrap();
    assert_eq!(Chunk::deserialize(&packed, Codec::Raw), Err(DecodingError::CodecMismatch));
    assert_eq!(Chunk::deserialize(&[9, 0, 0, 0], Codec::Raw), Err(DecodingError::CodecMismatch));
}

#[test]
fn wrong_length_is_refused() {
    assert_eq!(
        Chunk::deserialize(&[0, 0, 0, 3, b'h', b'i'], Codec::Raw),
        Err(DecodingError::LengthMismatch)
    );
    assert_eq!(
        Chunk::deserialize(&[0, 0, 0, 1, b'h', b'i'], Codec::Raw),
        Err(DecodingError::LengthMismatch)
    );
    assert_eq!(
        Chunk::deserialize(&[1, 0, 0, 4, 3, b'a'], Codec::RunLength),
        Err(DecodingError::LengthMismatch)
    );
    assert_eq!(
        Chunk::deserialize(&[1, 0, 0, 2, 3, b'a'], Codec::RunLength),
        Err(DecodingError::LengthMismatch)
    );
}

#[test]
fn malformed_body_is_refused() {
    assert_eq!(
        Chunk::deserialize(&[1, 0, 0, 3, 3], Codec::RunLength),
        Err(DecodingError::Malformed)
    );
    assert_eq!(
        Chunk::deserialize(&[1, 0, 0, 0, 0, b'a'], Codec::RunLength),
        Err(DecodingError::Malformed)
    );
    assert_eq!(
        Chunk::deserialize(&[1, 0, 0, 3, 3, b'a', 0, b'b'], Codec::RunLength),
        Err(DecodingError::Malformed)
    );
}

#[test]
fn unpacked_runs_need_not_be_maximal() {
    let chunk = Chunk::deserialize(&[1, 0, 0, 3, 1, b'a', 2, b'a'], Codec::RunLength).unwrap();
    assert_eq!(chunk.payload(), &b"aaa".to_vec());
}

#[test]
fn huge_expansion_is_refused_early() {
    let mut bytes = vec![1, 0, 0, 1];
    for _ in 0..100_000 {
        bytes.push(255);
        bytes.push(0);
    }
    assert_eq!(Chunk::deserialize(&bytes, Codec::RunLength), Err(DecodingError::LengthMismatch));
}

#[test]
fn key_is_label_and_digest() {
    let chunk = Chunk::new(b"hello".to_vec());
    assert_eq!(chunk.key(Codec::Raw), format!("raw-{}", HELLO_DIGEST));
    assert_eq!(chunk.key(Codec::RunLength), format!("rle-{}", HELLO_DIGEST));
    assert_eq!(Chunk::new(Vec::new()).key(Codec::Raw), format!("raw-{}", EMPTY_DIGEST));
}

#[test]
fn key_has_fixed_length() {
    assert_eq!(Chunk::new(Vec::new()).key(Codec::Raw).len(), 4 + 2 * DIGEST_LEN);
    assert_eq!(Chunk::new(vec![1u8; 10_000]).key(Codec::RunLength).len(), 68);
}

#[test]
fn key_is_deterministic() {
    let a = Chunk::new(b"payload".to_vec());
    let b = Chunk::new(b"payload".to_vec());
    assert_eq!(a.key(Codec::Raw), b.key(Codec::Raw));
    assert_eq!(a.key(Codec::RunLength), b.key(Codec::RunLength));
}

#[test]
fn key_differs_by_payload_and_codec() {
    let a = Chunk::new(b"payload".to_vec());
    let b = Chunk::new(b"payloae".to_vec());
    assert_ne!(a.key(Codec::Raw), b.key(Codec::Raw));
    assert_ne!(a.key(Codec::Raw), a.key(Codec::RunLength));
}

#[test]
fn key_is_not_the_payload() {
    let chunk = Chunk::new(b"raw-0000".to_vec());
    assert_ne!(chunk.key(Codec::Raw).as_bytes(), chunk.payload().as_slice());
}

#[test]
fn content_key_renders_digest_in_hex() {
    assert_eq!(content_key(Codec::Raw, &[]), "raw-");
    assert_eq!(content_key(Codec::Raw, &[0x00, 0x0f, 0xa5, 0xff]), "raw-000fa5ff");
    assert_eq!(content_key(Codec::RunLength, &[0x12, 0x9a, 0xbc]), "rle-129abc");
}
