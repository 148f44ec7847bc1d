use cas_client::bytetext::{decode_hex, push_decimal, push_hex, trim_bytes};
use cas_client::chunk::chunks_for;
use cas_client::digest::Digest;
use cas_client::proto::{digest_to_proto, proto_to_digest, ProtoDigest};

#[test]
fn decimal_rendering_matches_display() {
    for n in [0u64, 7, 10, 99, 100, 12345, u64::MAX] {
        let mut out: Vec<u8> = Vec::new();
        push_decimal(&mut out, n);
        assert_eq!(String::from_utf8(out).unwrap(), n.to_string());
    }
}

#[test]
fn hex_rendering_is_lowercase_two_digits_per_byte() {
    let mut out: Vec<u8> = Vec::new();
    push_hex(&mut out, &vec![0x00u8, 0x0f, 0xa5, 0xff]);
    assert_eq!(String::from_utf8(out).unwrap(), "000fa5ff");
}

#[test]
fn hex_decoding_round_trips_and_rejects_malformed_text() {
    let data = vec![0xdeu8, 0xad, 0xbe, 0xef];
    let mut encoded: Vec<u8> = Vec::new();
    push_hex(&mut encoded, &data);
    assert_eq!(decode_hex(&encoded), Some(data));
    assert_eq!(decode_hex(&b"DEADBEEF".to_vec()), Some(vec![0xdeu8, 0xad, 0xbe, 0xef]));
    assert_eq!(decode_hex(&b"abc".to_vec()), None, "odd length");
    assert_eq!(decode_hex(&b"zz".to_vec()), None, "not a hex digit");
    assert_eq!(decode_hex(&Vec::new()), Some(Vec::new()));
}

#[test]
fn trimming_removes_surrounding_whitespace_only() {
    assert_eq!(trim_bytes(&b"  a token \t\n".to_vec()), b"a token".to_vec());
    assert_eq!(trim_bytes(&b"\x0btoken\x0b".to_vec()), b"token".to_vec());
    assert_eq!(trim_bytes(&b"token".to_vec()), b"token".to_vec());
    assert_eq!(trim_bytes(&b" \n\t ".to_vec()), Vec::<u8>::new());
    assert_eq!(trim_bytes(&Vec::new()), Vec::<u8>::new());
}

#[test]
fn digest_of_bytes_is_the_sha256_of_the_bytes() {
    let d = Digest::of_bytes(&Vec::new());
    let hex: String = d.fingerprint.iter().map(|b| format!("{:02x}", b)).collect();
    assert_eq!(hex, "e3b0c44298fc1c149afbf4c8996fb92427ae41e4649b934ca495991b7852b855");
    assert_eq!(d.size_bytes, 0);
}

#[test]
fn wire_digest_round_trips() {
    let d = Digest::of_bytes(&b"round trip".to_vec());
    let p = digest_to_proto(&d);
    assert_eq!(p.hash.len(), 64);
    assert_eq!(p.size_bytes, 10);
    let back = proto_to_digest(&p).expect("well-formed wire digest");
    assert_eq!(back, d);
}

#[test]
fn malformed_wire_digests_are_rejected() {
    assert!(proto_to_digest(&ProtoDigest { hash: b"zz".to_vec(), size_bytes: 0 }).is_none());
    assert!(proto_to_digest(&ProtoDigest { hash: vec![b'a'; 63], size_bytes: 0 }).is_none());
    assert!(proto_to_digest(&ProtoDigest { hash: vec![b'a'; 64], size_bytes: -1 }).is_none());
    assert!(proto_to_digest(&ProtoDigest { hash: vec![b'a'; 64], size_bytes: 9 }).is_some());
}

#[test]
fn chunk_encoding_covers_the_payload_in_order() {
    let name = b"name".to_vec();
    let payload = b"abcdefg".to_vec();
    let chunks = chunks_for(&name, &payload, 3);
    let triples: Vec<(u64, Vec<u8>, bool)> = chunks
        .iter()
        .map(|c| (c.write_offset, c.data.to_vec(), c.finish_write))
        .collect();
    assert_eq!(
        triples,
        vec![
            (0u64, b"abc".to_vec(), false),
            (3u64, b"def".to_vec(), false),
            (6u64, b"g".to_vec(), true),
        ]
    );
    for c in &chunks {
        assert_eq!(c.resource_name, name);
    }
}

#[test]
fn chunk_encoding_of_empty_payload_is_one_final_chunk() {
    let chunks = chunks_for(&b"name".to_vec(), &Vec::new(), 5);
    assert_eq!(chunks.len(), 1);
    assert_eq!(chunks[0].write_offset, 0);
    assert!(chunks[0].data.is_empty());
    assert!(chunks[0].finish_write);
}

#[test]
fn chunk_encoding_at_exact_multiple_has_no_empty_tail() {
    let chunks = chunks_for(&b"n".to_vec(), &b"abcd".to_vec(), 2);
    let triples: Vec<(u64, Vec<u8>, bool)> = chunks
        .iter()
        .map(|c| (c.write_offset, c.data.to_vec(), c.finish_write))
        .collect();
    assert_eq!(triples, vec![(0u64, b"ab".to_vec(), false), (2u64, b"cd".to_vec(), true)]);
}

#[test]
fn cloned_chunks_keep_their_data() {
    let chunks = chunks_for(&b"n".to_vec(), &b"xyz".to_vec(), 2);
    let copies = chunks.clone();
    for (a, b) in chunks.iter().zip(copies.iter()) {
        assert_eq!(a.data.to_vec(), b.data.to_vec());
        assert_eq!(a.write_offset, b.write_offset);
        assert_eq!(a.finish_write, b.finish_write);
    }
}
