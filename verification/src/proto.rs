//! The wire shapes consumed by the store: the read request, the read
//! response chunk, and the digest and request/response messages of the
//! missing-blob query, together with the conversions between wire
//! digests (hexadecimal hash text plus signed size) and this crate's
//! digests.

use vstd::prelude::*;
use crate::bytetext::{hex_of, hex_decoded, hex_text_ok, decode_hex, push_hex, copy_bytes};
use crate::digest::{Digest, DigestView};

verus! {

/// A digest as it travels on the wire: the fingerprint as hexadecimal
/// text and the size as a signed integer.
#[derive(Debug, Clone, PartialEq, Eq)]
pub struct ProtoDigest {
    pub hash: Vec<u8>,
    pub size_bytes: i64,
}

/// The mathematical value of a wire digest.
pub ghost struct ProtoDigestView {
    pub hash: Seq<u8>,
    pub size_bytes: int,
}

impl View for ProtoDigest {
    type V = ProtoDigestView;

    open spec fn view(&self) -> ProtoDigestView {
        ProtoDigestView { hash: self.hash@, size_bytes: self.size_bytes as int }
    }
}

/// The wire form of a digest: lowercase hexadecimal hash, same size.
pub open spec fn proto_of_digest(d: DigestView) -> ProtoDigestView {
    ProtoDigestView { hash: hex_of(d.fingerprint), size_bytes: d.size_bytes as int }
}

/// Whether a wire digest decodes to a digest of this crate: the hash
/// is 64 hexadecimal characters and the size is representable.
pub open spec fn proto_digest_ok(p: ProtoDigestView) -> bool {
    &&& p.hash.len() == 64
    &&& hex_text_ok(p.hash)
    &&& 0 <= p.size_bytes <= usize::MAX as int
}

/// The digest a well-formed wire digest denotes.
pub open spec fn digest_of_proto(p: ProtoDigestView) -> DigestView {
    DigestView { fingerprint: hex_decoded(p.hash), size_bytes: p.size_bytes as nat }
}

/// Renders a digest in its wire form.
pub fn digest_to_proto(d: &Digest) -> (r: ProtoDigest)
    requires
        d.wf(),
        d@.size_bytes <= i64::MAX as nat,
    ensures
        r@ == proto_of_digest(d@),
{
    let mut hash: Vec<u8> = Vec::new();
    push_hex(&mut hash, &d.fingerprint);
    ProtoDigest { hash, size_bytes: d.size_bytes as i64 }
}

/// Reads a digest back from its wire form; `None` exactly when the
/// hash text or the size is malformed.
pub fn proto_to_digest(p: &ProtoDigest) -> (r: Option<Digest>)
    ensures
        r is Some <==> proto_digest_ok(p@),
        r matches Some(d) ==> d@ == digest_of_proto(p@) && d.wf(),
{
    if p.hash.len() != 64 {
        return None;
    }
    if p.size_bytes < 0 {
        return None;
    }
    let size_u64 = p.size_bytes as u64;
    if size_u64 > usize::MAX as u64 {
        return None;
    }
    match decode_hex(&p.hash) {
        None => None,
        Some(fp) => Some(Digest { fingerprint: fp, size_bytes: size_u64 as usize }),
    }
}

/// A wire digest round trip is the identity: rendering a digest and
/// reading it back gives the digest itself.
pub proof fn lemma_proto_digest_round_trip(d: DigestView)
    requires
        d.fingerprint.len() == 32,
        d.size_bytes <= i64::MAX as nat,
        d.size_bytes <= usize::MAX as nat,
    ensures
        proto_digest_ok(proto_of_digest(d)),
        digest_of_proto(proto_of_digest(d)) == d,
{
    crate::bytetext::lemma_hex_round_trip(d.fingerprint);
}

/// The read request: offset zero and the unbounded read-limit
/// sentinel, where zero means "no limit", not "zero bytes".
#[derive(Debug, Clone)]
pub struct ReadRequest {
    pub resource_name: Vec<u8>,
    pub read_offset: u64,
    pub read_limit: u64,
}

/// One unit of a streamed read.
#[derive(Debug, Clone)]
pub struct ReadResponse {
    pub data: bytes::Bytes,
}

/// A batched query for the digests the remote does not hold; an empty
/// instance name stands for "not configured".
#[derive(Debug, Clone)]
pub struct FindMissingBlobsRequest {
    pub instance_name: Vec<u8>,
    pub blob_digests: Vec<ProtoDigest>,
}

/// The answer to a missing-blob query.
#[derive(Debug, Clone)]
pub struct FindMissingBlobsResponse {
    pub missing_blob_digests: Vec<ProtoDigest>,
}

} // verus!
