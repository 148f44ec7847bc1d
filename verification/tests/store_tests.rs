use std::collections::HashMap;

use cas_client::chunk::WriteRequest;
use cas_client::digest::Digest;
use cas_client::proto::{FindMissingBlobsRequest, ProtoDigest, ReadRequest, ReadResponse};
use cas_client::store::{
    ByteStore, ByteStreamProvider, CommitResponse, FindMissingOutcome, ReadOutcome, StoreError,
    StreamTermination, WriteAttemptOutcome,
};

fn hex_string(bytes: &[u8]) -> String {
    bytes.iter().map(|b| format!("{:02x}", b)).collect()
}

/// The part of a resource name after the last `/blobs/`:
/// `<hash hex>/<size>`, the key under which a blob is stored.
fn blob_key(name: &str) -> String {
    let idx = name.rfind("/blobs/").expect("resource name without /blobs/");
    name[idx + "/blobs/".len()..].to_string()
}

/// An in-memory stand-in for the remote store: it applies writes in
/// chunk order, streams blobs back, answers missing-blob queries, and
/// can be told to fail transport for the first attempts, to early-close
/// streams for blobs it already holds, or to lie about the committed
/// size.
struct MemServer {
    blobs: HashMap<String, Vec<u8>>,
    early_close_on_existing: bool,
    fail_write_attempts: usize,
    fail_read_attempts: usize,
    write_calls: usize,
    read_calls: usize,
    committed_override: Option<u64>,
    write_names: Vec<String>,
    last_write_name: String,
    last_chunks: Vec<(u64, Vec<u8>, bool)>,
    split_reads: bool,
}

impl MemServer {
    fn new() -> MemServer {
        MemServer {
            blobs: HashMap::new(),
            early_close_on_existing: false,
            fail_write_attempts: 0,
            fail_read_attempts: 0,
            write_calls: 0,
            read_calls: 0,
            committed_override: None,
            write_names: Vec::new(),
            last_write_name: String::new(),
            last_chunks: Vec::new(),
            split_reads: false,
        }
    }
}

impl ByteStreamProvider for MemServer {
    fn write_blob(
        &mut self,
        resource_name: &Vec<u8>,
        chunks: &Vec<WriteRequest>,
        _headers: &Vec<(Vec<u8>, Vec<u8>)>,
        _timeout_millis: u64,
    ) -> WriteAttemptOutcome {
        self.write_calls += 1;
        self.write_names
            .push(String::from_utf8(resource_name.clone()).expect("resource name not utf-8"));
        if self.write_calls <= self.fail_write_attempts {
            return WriteAttemptOutcome {
                send: StreamTermination::Failed(b"connection reset".to_vec()),
                close: StreamTermination::Failed(b"connection reset".to_vec()),
                response: CommitResponse::Failed(b"no response".to_vec()),
            };
        }
        let name = String::from_utf8(resource_name.clone()).expect("resource name not utf-8");
        let key = blob_key(&name);
        self.last_write_name = name;
        self.last_chunks = chunks
            .iter()
            .map(|c| (c.write_offset, c.data.to_vec(), c.finish_write))
            .collect();
        let mut buf: Vec<u8> = Vec::new();
        for c in chunks {
            assert_eq!(c.write_offset as usize, buf.len(), "chunk offsets must be contiguous");
            buf.extend_from_slice(&c.data);
            assert_eq!(c.resource_name, *resource_name);
        }
        assert!(chunks.last().expect("at least one chunk").finish_write);
        let existed = self.blobs.contains_key(&key);
        let committed = self.committed_override.unwrap_or(buf.len() as u64);
        let termination = if existed && self.early_close_on_existing {
            StreamTermination::EarlyClosed
        } else {
            StreamTermination::Completed
        };
        let close = if existed && self.early_close_on_existing {
            StreamTermination::EarlyClosed
        } else {
            StreamTermination::Completed
        };
        self.blobs.insert(key, buf);
        WriteAttemptOutcome {
            send: termination,
            close,
            response: CommitResponse::Committed(committed),
        }
    }

    fn read_blob(
        &mut self,
        request: &ReadRequest,
        _headers: &Vec<(Vec<u8>, Vec<u8>)>,
    ) -> ReadOutcome {
        self.read_calls += 1;
        if self.read_calls <= self.fail_read_attempts {
            return ReadOutcome::TransportFailed(b"connection reset".to_vec());
        }
        assert_eq!(request.read_offset, 0);
        assert_eq!(request.read_limit, 0);
        let name = String::from_utf8(request.resource_name.clone()).expect("name not utf-8");
        let key = blob_key(&name);
        match self.blobs.get(&key) {
            None => ReadOutcome::NotFound,
            Some(b) => {
                if self.split_reads && b.len() >= 2 {
                    let mid = b.len() / 2;
                    ReadOutcome::Streamed(vec![
                        ReadResponse { data: bytes::Bytes::copy_from_slice(&b[..mid]) },
                        ReadResponse { data: bytes::Bytes::copy_from_slice(&b[mid..]) },
                    ])
                } else {
                    ReadOutcome::Streamed(vec![ReadResponse {
                        data: bytes::Bytes::copy_from_slice(b),
                    }])
                }
            }
        }
    }

    fn find_missing_blobs(
        &mut self,
        request: &FindMissingBlobsRequest,
        _headers: &Vec<(Vec<u8>, Vec<u8>)>,
    ) -> FindMissingOutcome {
        let mut missing: Vec<ProtoDigest> = Vec::new();
        for pd in &request.blob_digests {
            let hash = String::from_utf8(pd.hash.clone()).expect("hash not utf-8");
            let key = format!("{}/{}", hash, pd.size_bytes);
            if !self.blobs.contains_key(&key) {
                missing.push(ProtoDigest { hash: pd.hash.clone(), size_bytes: pd.size_bytes });
            }
        }
        FindMissingOutcome::Responded(cas_client::proto::FindMissingBlobsResponse {
            missing_blob_digests: missing,
        })
    }
}

fn store_with_chunk_size(chunk_size: usize) -> ByteStore {
    ByteStore::new(None, None, chunk_size, 1000, 2)
}

#[test]
fn round_trip_small_payload() {
    let store = store_with_chunk_size(2);
    let mut server = MemServer::new();
    let payload = b"hello, cas".to_vec();
    let digest = store.store_bytes(&mut server, &payload).expect("store failed");
    let loaded = store
        .load_bytes_with(&mut server, &digest, |v: Vec<u8>| v)
        .expect("load failed");
    assert_eq!(loaded, Some(payload));
}

#[test]
fn round_trip_empty_payload() {
    let store = store_with_chunk_size(4);
    let mut server = MemServer::new();
    let payload: Vec<u8> = Vec::new();
    let digest = store.store_bytes(&mut server, &payload).expect("store failed");
    assert_eq!(digest.size_bytes, 0);
    let loaded = store
        .load_bytes_with(&mut server, &digest, |v: Vec<u8>| v)
        .expect("load failed");
    assert_eq!(loaded, Some(Vec::new()));
}

#[test]
fn round_trip_multi_chunk_read() {
    let store = store_with_chunk_size(3);
    let mut server = MemServer::new();
    server.split_reads = true;
    let payload = (0u8..50).collect::<Vec<u8>>();
    let digest = store.store_bytes(&mut server, &payload).expect("store failed");
    let loaded = store
        .load_bytes_with(&mut server, &digest, |v: Vec<u8>| v)
        .expect("load failed");
    assert_eq!(loaded, Some(payload));
}

#[test]
fn digest_determinism_across_chunk_sizes() {
    let payload = b"determinism".to_vec();
    let store_a = store_with_chunk_size(1);
    let store_b = store_with_chunk_size(1024);
    let mut server_a = MemServer::new();
    let mut server_b = MemServer::new();
    let d1 = store_a.store_bytes(&mut server_a, &payload).expect("store failed");
    let d2 = store_b.store_bytes(&mut server_b, &payload).expect("store failed");
    assert_eq!(d1, d2);
}

#[test]
fn digest_is_sha256_of_payload() {
    let store = store_with_chunk_size(8);
    let mut server = MemServer::new();
    let digest = store.store_bytes(&mut server, &b"abc".to_vec()).expect("store failed");
    assert_eq!(
        hex_string(&digest.fingerprint),
        "ba7816bf8f01cfea414140de5dae2223b00361a396177a9cb410ff61f20015ad"
    );
    assert_eq!(digest.size_bytes, 3);
}

#[test]
fn idempotent_reupload_takes_early_close_path() {
    let store = store_with_chunk_size(4);
    let mut server = MemServer::new();
    server.early_close_on_existing = true;
    let payload = b"upload me twice".to_vec();
    let d1 = store.store_bytes(&mut server, &payload).expect("first upload failed");
    let d2 = store.store_bytes(&mut server, &payload).expect("second upload failed");
    assert_eq!(d1, d2);
    // The second upload really went down the early-close path.
    assert_eq!(server.write_calls, 2);
}

#[test]
fn absent_lookup_returns_none() {
    let store = store_with_chunk_size(4);
    let mut server = MemServer::new();
    let digest = Digest::of_bytes(&b"never stored".to_vec());
    let loaded = store
        .load_bytes_with(&mut server, &digest, |v: Vec<u8>| v)
        .expect("load failed");
    assert_eq!(loaded, None);
}

#[test]
fn integrity_mismatch_is_reported() {
    let store = store_with_chunk_size(4);
    let mut server = MemServer::new();
    let payload = b"sized".to_vec();
    server.committed_override = Some(payload.len() as u64 + 1);
    match store.store_bytes(&mut server, &payload) {
        Err(StoreError::Integrity { digest, committed_size }) => {
            assert_eq!(committed_size, payload.len() as u64 + 1);
            assert_eq!(digest.size_bytes, payload.len());
        }
        other => panic!("expected an integrity error, got {:?}", other),
    }
}

#[test]
fn chunking_three_bytes_at_size_one() {
    let store = store_with_chunk_size(1);
    let mut server = MemServer::new();
    store.store_bytes(&mut server, &vec![10u8, 20u8, 30u8]).expect("store failed");
    assert_eq!(
        server.last_chunks,
        vec![
            (0u64, vec![10u8], false),
            (1u64, vec![20u8], false),
            (2u64, vec![30u8], true),
        ]
    );
}

#[test]
fn chunking_empty_payload_sends_one_final_chunk() {
    let store = store_with_chunk_size(1);
    let mut server = MemServer::new();
    store.store_bytes(&mut server, &Vec::new()).expect("store failed");
    assert_eq!(server.last_chunks, vec![(0u64, Vec::new(), true)]);
}

#[test]
fn write_resource_name_has_upload_id_and_digest() {
    let store = ByteStore::new(Some(b"main".to_vec()), None, 4, 1000, 0);
    let mut server = MemServer::new();
    let payload = b"abc".to_vec();
    let digest = store.store_bytes(&mut server, &payload).expect("store failed");
    let name = server.last_write_name.clone();
    let parts: Vec<&str> = name.split('/').collect();
    assert_eq!(parts.len(), 6);
    assert_eq!(parts[0], "main");
    assert_eq!(parts[1], "uploads");
    assert_eq!(parts[2].len(), 36, "upload id must render as 36 characters");
    assert_eq!(parts[3], "blobs");
    assert_eq!(parts[4], hex_string(&digest.fingerprint));
    assert_eq!(parts[5], "3");
}

#[test]
fn upload_id_is_reused_across_attempts_and_fresh_per_call() {
    let store = store_with_chunk_size(4);
    let mut server = MemServer::new();
    server.fail_write_attempts = 1;
    store.store_bytes(&mut server, &b"abc".to_vec()).expect("store failed");
    assert_eq!(server.write_names.len(), 2);
    // The failed first attempt and the successful second one used the
    // same resource name: the upload id is reused across retries.
    assert_eq!(server.write_names[0], server.write_names[1]);
    store.store_bytes(&mut server, &b"abc".to_vec()).expect("store failed");
    assert_eq!(server.write_names.len(), 3);
    // A new logical call draws a fresh upload id.
    assert_ne!(server.write_names[1], server.write_names[2]);
    assert_eq!(
        server.write_names[1].split('/').nth(3),
        server.write_names[2].split('/').nth(3)
    );
}

#[test]
fn retry_succeeds_on_third_attempt() {
    // Attempt budget 3 = 2 retries; transport fails twice, then works.
    let store = ByteStore::new(None, None, 4, 1000, 2);
    let mut server = MemServer::new();
    server.fail_write_attempts = 2;
    let digest = store.store_bytes(&mut server, &b"retry me".to_vec());
    assert!(digest.is_ok());
    assert_eq!(server.write_calls, 3);
}

#[test]
fn retry_exhaustion_surfaces_transport_error() {
    let store = ByteStore::new(None, None, 4, 1000, 2);
    let mut server = MemServer::new();
    server.fail_write_attempts = 3;
    match store.store_bytes(&mut server, &b"retry me".to_vec()) {
        Err(StoreError::Transport { digest, detail }) => {
            assert!(digest.is_some());
            assert_eq!(detail, b"connection reset".to_vec());
        }
        other => panic!("expected a transport error, got {:?}", other),
    }
    assert_eq!(server.write_calls, 3);
}

#[test]
fn read_retry_succeeds_after_transport_failure() {
    let store = ByteStore::new(None, None, 4, 1000, 2);
    let mut server = MemServer::new();
    let payload = b"readable".to_vec();
    let digest = store.store_bytes(&mut server, &payload).expect("store failed");
    server.fail_read_attempts = 2;
    let loaded = store
        .load_bytes_with(&mut server, &digest, |v: Vec<u8>| v)
        .expect("load failed");
    assert_eq!(loaded, Some(payload));
    assert_eq!(server.read_calls, 3);
}

#[test]
fn load_applies_the_transform() {
    let store = store_with_chunk_size(4);
    let mut server = MemServer::new();
    let digest = store.store_bytes(&mut server, &b"abcd".to_vec()).expect("store failed");
    let loaded = store
        .load_bytes_with(&mut server, &digest, |v: Vec<u8>| v.len())
        .expect("load failed");
    assert_eq!(loaded, Some(4));
}

fn digest_set(digests: &[Digest]) -> std::collections::HashSet<(String, usize)> {
    digests
        .iter()
        .map(|d| (hex_string(&d.fingerprint), d.size_bytes))
        .collect()
}

#[test]
fn missing_digests_are_exactly_the_absent_ones() {
    let store = store_with_chunk_size(4);
    let mut server = MemServer::new();
    let a = store.store_bytes(&mut server, &b"blob a".to_vec()).expect("store failed");
    let b = Digest::of_bytes(&b"blob b".to_vec());
    let c = Digest::of_bytes(&b"blob c".to_vec());
    let request = store.find_missing_blobs_request(&vec![a.clone(), b.clone(), c.clone()]);
    let missing = store.list_missing_digests(&mut server, &request).expect("query failed");
    assert_eq!(digest_set(&missing), digest_set(&[b, c]));
}

#[test]
fn missing_digests_empty_when_all_present() {
    let store = store_with_chunk_size(4);
    let mut server = MemServer::new();
    let a = store.store_bytes(&mut server, &b"blob a".to_vec()).expect("store failed");
    let b = store.store_bytes(&mut server, &b"blob b".to_vec()).expect("store failed");
    let request = store.find_missing_blobs_request(&vec![a, b]);
    let missing = store.list_missing_digests(&mut server, &request).expect("query failed");
    assert!(missing.is_empty());
}

#[test]
fn missing_digest_response_is_deduplicated() {
    let resp = cas_client::proto::FindMissingBlobsResponse {
        missing_blob_digests: vec![
            ProtoDigest { hash: vec![b'a'; 64], size_bytes: 5 },
            ProtoDigest { hash: vec![b'a'; 64], size_bytes: 5 },
            ProtoDigest { hash: vec![b'b'; 64], size_bytes: 7 },
        ],
    };
    let digests =
        cas_client::store::missing_digests_from_response(&resp).expect("decode failed");
    assert_eq!(digests.len(), 2);
}

#[test]
fn malformed_digest_in_response_is_an_error() {
    let resp = cas_client::proto::FindMissingBlobsResponse {
        missing_blob_digests: vec![ProtoDigest { hash: b"zz".to_vec(), size_bytes: 1 }],
    };
    match cas_client::store::missing_digests_from_response(&resp) {
        Err(StoreError::MalformedDigest { hash, size_bytes }) => {
            assert_eq!(hash, b"zz".to_vec());
            assert_eq!(size_bytes, 1);
        }
        other => panic!("expected a malformed-digest error, got {:?}", other),
    }
}

#[test]
fn find_missing_request_carries_instance_name() {
    let store = ByteStore::new(Some(b"main".to_vec()), None, 4, 1000, 0);
    let d = Digest::of_bytes(&b"x".to_vec());
    let request = store.find_missing_blobs_request(&vec![d.clone()]);
    assert_eq!(request.instance_name, b"main".to_vec());
    assert_eq!(request.blob_digests.len(), 1);
    assert_eq!(
        String::from_utf8(request.blob_digests[0].hash.clone()).unwrap(),
        hex_string(&d.fingerprint)
    );
    assert_eq!(request.blob_digests[0].size_bytes, 1);
}

#[test]
fn judge_write_attempts_returns_first_success() {
    let digest = Digest::of_bytes(&b"abc".to_vec());
    let fail = WriteAttemptOutcome {
        send: StreamTermination::Failed(b"boom".to_vec()),
        close: StreamTermination::Failed(b"boom".to_vec()),
        response: CommitResponse::Failed(b"boom".to_vec()),
    };
    let ok = WriteAttemptOutcome {
        send: StreamTermination::Completed,
        close: StreamTermination::Completed,
        response: CommitResponse::Committed(3),
    };
    let outcomes = vec![fail.clone(), ok, fail.clone()];
    assert!(cas_client::store::judge_write_attempts(&digest, &outcomes).is_ok());
    let all_fail = vec![fail.clone(), fail];
    match cas_client::store::judge_write_attempts(&digest, &all_fail) {
        Err(StoreError::Transport { detail, .. }) => assert_eq!(detail, b"boom".to_vec()),
        other => panic!("expected a transport error, got {:?}", other),
    }
}

#[test]
fn bearer_token_is_trimmed_into_the_auth_header() {
    let store = ByteStore::new(None, Some(b"  secret-token \n".to_vec()), 4, 1000, 0);
    assert_eq!(store.headers.len(), 1);
    assert_eq!(store.headers[0].0, b"authorization".to_vec());
    assert_eq!(store.headers[0].1, b"Bearer secret-token".to_vec());
    let bare = ByteStore::new(None, None, 4, 1000, 0);
    assert!(bare.headers.is_empty());
    assert_eq!(bare.rpc_attempts, 1);
}

#[test]
fn early_close_with_short_commit_is_still_an_integrity_error() {
    // The early-close quirk is trusted only as far as the committed
    // size confirms it: an early-closed stream with a short commit
    // still fails the attempt.
    let digest = Digest::of_bytes(&b"abcd".to_vec());
    let outcome = WriteAttemptOutcome {
        send: StreamTermination::EarlyClosed,
        close: StreamTermination::EarlyClosed,
        response: CommitResponse::Committed(2),
    };
    match cas_client::store::judge_write_attempt(&digest, &outcome) {
        Err(StoreError::Integrity { committed_size, .. }) => assert_eq!(committed_size, 2),
        other => panic!("expected an integrity error, got {:?}", other),
    }
    let full = WriteAttemptOutcome {
        send: StreamTermination::EarlyClosed,
        close: StreamTermination::EarlyClosed,
        response: CommitResponse::Committed(4),
    };
    assert!(cas_client::store::judge_write_attempt(&digest, &full).is_ok());
}


/// A server that answers every missing-blob query with a fixed
/// response, whatever was asked.
struct FixedResponseServer {
    missing: Vec<ProtoDigest>,
}

impl ByteStreamProvider for FixedResponseServer {
    fn write_blob(
        &mut self,
        _resource_name: &Vec<u8>,
        _chunks: &Vec<WriteRequest>,
        _headers: &Vec<(Vec<u8>, Vec<u8>)>,
        _timeout_millis: u64,
    ) -> WriteAttemptOutcome {
        WriteAttemptOutcome {
            send: StreamTermination::Failed(b"unused".to_vec()),
            close: StreamTermination::Failed(b"unused".to_vec()),
            response: CommitResponse::Failed(b"unused".to_vec()),
        }
    }

    fn read_blob(
        &mut self,
        _request: &ReadRequest,
        _headers: &Vec<(Vec<u8>, Vec<u8>)>,
    ) -> ReadOutcome {
        ReadOutcome::NotFound
    }

    fn find_missing_blobs(
        &mut self,
        _request: &FindMissingBlobsRequest,
        _headers: &Vec<(Vec<u8>, Vec<u8>)>,
    ) -> FindMissingOutcome {
        FindMissingOutcome::Responded(cas_client::proto::FindMissingBlobsResponse {
            missing_blob_digests: self.missing.clone(),
        })
    }
}

#[test]
fn unrequested_digests_from_the_server_are_dropped() {
    let store = store_with_chunk_size(4);
    let b = Digest::of_bytes(&b"blob b".to_vec());
    let unrequested = Digest::of_bytes(&b"never asked about".to_vec());
    let request = store.find_missing_blobs_request(&vec![b.clone()]);
    // The server names the requested digest and one the request never
    // carried; only the requested one may come back.
    let mut server = FixedResponseServer {
        missing: vec![
            ProtoDigest {
                hash: hex_string(&b.fingerprint).into_bytes(),
                size_bytes: b.size_bytes as i64,
            },
            ProtoDigest {
                hash: hex_string(&unrequested.fingerprint).into_bytes(),
                size_bytes: unrequested.size_bytes as i64,
            },
        ],
    };
    let missing = store.list_missing_digests(&mut server, &request).expect("query failed");
    assert_eq!(digest_set(&missing), digest_set(&[b]));
}

#[test]
fn read_request_pins_the_unbounded_sentinel() {
    let store = ByteStore::new(Some(b"main".to_vec()), None, 4, 1000, 0);
    let digest = Digest::of_bytes(&b"abc".to_vec());
    let request = store.read_request_for(&digest);
    assert_eq!(request.read_offset, 0);
    assert_eq!(request.read_limit, 0);
    assert_eq!(
        String::from_utf8(request.resource_name).unwrap(),
        format!("main/blobs/{}/3", hex_string(&digest.fingerprint))
    );
}
