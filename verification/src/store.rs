//! The remote blob-store client. A `ByteStore` owns the immutable
//! configuration (instance name, chunk size, upload timeout, attempt
//! budget, auth headers) and drives each operation through a
//! caller-supplied transport: per attempt the transport does the wire
//! work and reports what it observed; the verified logic here builds
//! the exact requests, judges every outcome — including the early-close
//! protocol quirk — and enforces the committed-size integrity check,
//! retrying up to the attempt budget.

use vstd::prelude::*;
use crate::bytetext::{dec_digits, push_decimal, push_hex, push_all, copy_bytes, trimmed,
    trim_bytes};
use crate::digest::{Digest, DigestView, digest_of};
use crate::chunk::{WriteRequest, views_of, write_chunks, wf_chunk_seq, chunks_for,
    lemma_write_chunks_wf, bytes_content};
use crate::proto::{ProtoDigest, ProtoDigestView, ReadRequest, ReadResponse,
    FindMissingBlobsRequest, FindMissingBlobsResponse, proto_of_digest, proto_digest_ok,
    digest_of_proto, digest_to_proto, proto_to_digest};

verus! {

/// How one half of a write stream ended: cleanly; closed early by the
/// server without a status (the "already present" quirk); or with a
/// transport failure carrying the transport's message.
#[derive(Debug, Clone)]
pub enum StreamTermination {
    Completed,
    EarlyClosed,
    Failed(Vec<u8>),
}

/// The server's write acknowledgement: a committed size, or a failure
/// to read one.
#[derive(Debug, Clone)]
pub enum CommitResponse {
    Committed(u64),
    Failed(Vec<u8>),
}

/// Everything one write attempt observed: how the chunk send ended,
/// how the explicit half-close ended, and the acknowledgement read
/// afterwards.
#[derive(Debug, Clone)]
pub struct WriteAttemptOutcome {
    pub send: StreamTermination,
    pub close: StreamTermination,
    pub response: CommitResponse,
}

/// Everything one read attempt observed.
#[derive(Debug, Clone)]
pub enum ReadOutcome {
    Streamed(Vec<ReadResponse>),
    NotFound,
    TransportFailed(Vec<u8>),
}

/// Everything one missing-blob query attempt observed.
#[derive(Debug, Clone)]
pub enum FindMissingOutcome {
    Responded(FindMissingBlobsResponse),
    TransportFailed(Vec<u8>),
}

/// The errors a store operation can surface, each enriched with the
/// digest at hand where one exists.
#[derive(Debug, Clone)]
pub enum StoreError {
    /// Connection, stream or acknowledgement failure, after all
    /// attempts; carries the transport's message.
    Transport { digest: Option<Digest>, detail: Vec<u8> },
    /// The server committed a size other than the payload length.
    Integrity { digest: Digest, committed_size: u64 },
    /// A digest in a server response that does not decode.
    MalformedDigest { hash: Vec<u8>, size_bytes: i64 },
}

/// The transport consumed by the store: per attempt it performs the
/// wire work against one channel and reports what it observed. No
/// outcome is promised — the store's logic must cope with every value.
pub trait ByteStreamProvider {
    /// One write attempt: open a stream with the given headers and
    /// deadline, send the chunks in order, half-close explicitly, read
    /// the acknowledgement.
    fn write_blob(
        &mut self,
        resource_name: &Vec<u8>,
        chunks: &Vec<WriteRequest>,
        headers: &Vec<(Vec<u8>, Vec<u8>)>,
        timeout_millis: u64,
    ) -> WriteAttemptOutcome
        requires
            wf_chunk_seq(resource_name@, views_of(chunks@)),
    ;

    /// One read attempt: request the resource as `wf_read_request`
    /// prescribes and drain the whole response stream before releasing
    /// the channel.
    fn read_blob(
        &mut self,
        request: &ReadRequest,
        headers: &Vec<(Vec<u8>, Vec<u8>)>,
    ) -> ReadOutcome
        requires
            wf_read_request(*request),
    ;

    /// One missing-blob query attempt.
    fn find_missing_blobs(
        &mut self,
        request: &FindMissingBlobsRequest,
        headers: &Vec<(Vec<u8>, Vec<u8>)>,
    ) -> FindMissingOutcome;
}

/// A read request as the protocol prescribes: the whole blob, from
/// offset zero, with the read-limit sentinel zero, which means
/// "no limit", not "zero bytes".
pub open spec fn wf_read_request(r: ReadRequest) -> bool {
    r.read_offset == 0 && r.read_limit == 0
}

/// Whether one half of a write stream counts as success: a clean end,
/// or the early close that servers use for blobs they already hold.
pub open spec fn termination_ok(t: StreamTermination) -> bool {
    !(t is Failed)
}

/// Whether a write attempt succeeded: both stream halves ended
/// acceptably and the server committed exactly `size` bytes. This is
/// the sole success criterion of an upload.
pub open spec fn write_attempt_ok(size: nat, o: WriteAttemptOutcome) -> bool {
    &&& termination_ok(o.send)
    &&& termination_ok(o.close)
    &&& o.response matches CommitResponse::Committed(c) && c as nat == size
}

/// The exact error a failed write attempt for digest `d` surfaces:
/// the first failing phase decides, and a committed-size mismatch is
/// an integrity error carrying the committed size.
pub open spec fn write_attempt_error(d: DigestView, o: WriteAttemptOutcome, e: StoreError) -> bool {
    match o.send {
        StreamTermination::Failed(m) => e matches StoreError::Transport { digest, detail }
            && digest matches Some(dd) && dd@ == d && detail@ == m@,
        _ => match o.close {
            StreamTermination::Failed(m) => e matches StoreError::Transport { digest, detail }
                && digest matches Some(dd) && dd@ == d && detail@ == m@,
            _ => match o.response {
                CommitResponse::Failed(m) => e matches StoreError::Transport { digest, detail }
                    && digest matches Some(dd) && dd@ == d && detail@ == m@,
                CommitResponse::Committed(c) => c as nat != d.size_bytes && (e
                    matches StoreError::Integrity { digest, committed_size } && digest@ == d
                    && committed_size == c),
            },
        },
    }
}

/// Judges one write attempt for `digest`: success exactly when both
/// stream halves ended acceptably (an early close counts, per the
/// protocol quirk) and the committed size equals the payload length;
/// otherwise the exact error described by `write_attempt_error`.
pub fn judge_write_attempt(digest: &Digest, outcome: &WriteAttemptOutcome) -> (r: Result<
    (),
    StoreError,
>)
    ensures
        r is Ok <==> write_attempt_ok(digest@.size_bytes, *outcome),
        r matches Err(e) ==> write_attempt_error(digest@, *outcome, e),
{
    match &outcome.send {
        StreamTermination::Failed(m) => {
            return Err(
                StoreError::Transport { digest: Some(digest.duplicate()), detail: copy_bytes(m) },
            );
        },
        _ => {},
    }
    match &outcome.close {
        StreamTermination::Failed(m) => {
            return Err(
                StoreError::Transport { digest: Some(digest.duplicate()), detail: copy_bytes(m) },
            );
        },
        _ => {},
    }
    match &outcome.response {
        CommitResponse::Failed(m) => Err(
            StoreError::Transport { digest: Some(digest.duplicate()), detail: copy_bytes(m) },
        ),
        CommitResponse::Committed(c) => {
            if *c as u64 == digest.size_bytes as u64 {
                Ok(())
            } else {
                Err(StoreError::Integrity { digest: digest.duplicate(), committed_size: *c })
            }
        },
    }
}

/// The retry envelope's policy over a whole run of write attempts,
/// as pure logic on the attempts' outcomes: the call succeeds exactly
/// when some attempt succeeds, and when every attempt fails the error
/// surfaced is the last attempt's.
pub fn judge_write_attempts(digest: &Digest, outcomes: &Vec<WriteAttemptOutcome>) -> (r: Result<
    (),
    StoreError,
>)
    requires
        outcomes@.len() >= 1,
    ensures
        r is Ok <==> exists|i: int|
            0 <= i < outcomes@.len() && write_attempt_ok(digest@.size_bytes, #[trigger] outcomes@[i]),
        r matches Err(e) ==> write_attempt_error(digest@, outcomes@.last(), e),
{
    let mut i: usize = 0;
    while i < outcomes.len() - 1
        invariant
            outcomes@.len() >= 1,
            i < outcomes@.len(),
            forall|k: int| 0 <= k < i ==> !write_attempt_ok(digest@.size_bytes, #[trigger] outcomes@[k]),
        decreases outcomes.len() - i,
    {
        match judge_write_attempt(digest, &outcomes[i]) {
            Ok(()) => {
                return Ok(());
            },
            Err(_) => {},
        }
        i = i + 1;
    }
    judge_write_attempt(digest, &outcomes[outcomes.len() - 1])
}

/// The data fields of a streamed read, in order.
pub open spec fn resp_datas(rs: Seq<ReadResponse>) -> Seq<Seq<u8>> {
    rs.map_values(|r: ReadResponse| bytes_content(r.data))
}

/// Interprets one read attempt for `digest`: a drained stream yields
/// the chunks' bytes in order, a not-found status is the designed
/// absent outcome (not an error), and a transport failure is an error
/// enriched with the digest.
pub fn gather_read_outcome(digest: &Digest, outcome: &ReadOutcome) -> (r: Result<
    Option<Vec<u8>>,
    StoreError,
>)
    ensures
        outcome matches ReadOutcome::Streamed(rs) ==> (r matches Ok(Some(v)) && v@ == resp_datas(
            rs@,
        ).flatten()),
        outcome is NotFound ==> (r matches Ok(b) && b is None),
        outcome matches ReadOutcome::TransportFailed(m) ==> (r matches Err(e) && e
            matches StoreError::Transport { digest: dd, detail } && dd matches Some(d2) && d2@
            == digest@ && detail@ == m@),
{
    match outcome {
        ReadOutcome::Streamed(rs) => {
            // The digest's size is a capacity hint only: the received
            // length is what counts.
            let mut out: Vec<u8> = Vec::with_capacity(digest.size_bytes);
            let mut i: usize = 0;
            while i < rs.len()
                invariant
                    i <= rs.len(),
                    out@ == resp_datas(rs@.take(i as int)).flatten(),
                decreases rs.len() - i,
            {
                let piece = crate::chunk::bytes_to_vec(&rs[i].data);
                push_all(&mut out, &piece);
                proof {
                    let pre = resp_datas(rs@.take(i as int));
                    pre.lemma_flatten_push(bytes_content(rs@[i as int].data));
                    assert(resp_datas(rs@.take(i as int + 1)) =~= pre.push(
                        bytes_content(rs@[i as int].data),
                    ));
                }
                i = i + 1;
            }
            proof {
                assert(rs@.take(rs@.len() as int) =~= rs@);
            }
            Ok(Some(out))
        },
        ReadOutcome::NotFound => Ok(None),
        ReadOutcome::TransportFailed(m) => Err(
            StoreError::Transport { digest: Some(digest.duplicate()), detail: copy_bytes(m) },
        ),
    }
}

/// Whether every wire digest in a sequence decodes.
pub open spec fn protos_ok(ps: Seq<ProtoDigest>) -> bool {
    forall|k: int| 0 <= k < ps.len() ==> proto_digest_ok((#[trigger] ps[k])@)
}

/// Whether no two digests in `v` denote the same value.
pub open spec fn distinct_digests(v: Seq<Digest>) -> bool {
    forall|a: int, b: int| 0 <= a < b < v.len() ==> (#[trigger] v[a])@ != (#[trigger] v[b])@
}

/// Whether every digest in `v` is well formed.
pub open spec fn all_digests_wf(v: Seq<Digest>) -> bool {
    forall|m: int| 0 <= m < v.len() ==> (#[trigger] v[m]).wf()
}

/// Whether `dv` is the decoding of some wire digest in `ps`.
pub open spec fn digest_from_protos(dv: DigestView, ps: Seq<ProtoDigest>) -> bool {
    exists|k: int| 0 <= k < ps.len() && dv == digest_of_proto((#[trigger] ps[k])@)
}

/// Whether some digest in `v` denotes the decoding of `p`.
pub open spec fn proto_covered(v: Seq<Digest>, p: ProtoDigestView) -> bool {
    exists|m: int| 0 <= m < v.len() && (#[trigger] v[m])@ == digest_of_proto(p)
}

/// Whether `v` is a deduplication of the decodings of `ps`: the same
/// digests, each once.
pub open spec fn dedup_of(v: Seq<Digest>, ps: Seq<ProtoDigest>) -> bool {
    &&& distinct_digests(v)
    &&& all_digests_wf(v)
    &&& forall|m: int| 0 <= m < v.len() ==> digest_from_protos((#[trigger] v[m])@, ps)
    &&& forall|k: int| 0 <= k < ps.len() ==> proto_covered(v, (#[trigger] ps[k])@)
}

/// Decodes and deduplicates the missing list of a response: the result
/// holds each digest the server named, once, all well formed; the
/// first digest that does not decode is surfaced as a malformed-digest
/// error.
pub fn missing_digests_from_response(resp: &FindMissingBlobsResponse) -> (r: Result<
    Vec<Digest>,
    StoreError,
>)
    ensures
        r is Ok <==> protos_ok(resp.missing_blob_digests@),
        r matches Ok(v) ==> dedup_of(v@, resp.missing_blob_digests@),
        r matches Err(e) ==> exists|k: int|
            {
                &&& 0 <= k < resp.missing_blob_digests@.len()
                &&& !proto_digest_ok((#[trigger] resp.missing_blob_digests@[k])@)
                &&& forall|j: int|
                    0 <= j < k ==> proto_digest_ok((#[trigger] resp.missing_blob_digests@[j])@)
                &&& e matches StoreError::MalformedDigest { hash, size_bytes } && hash@
                    == resp.missing_blob_digests@[k]@.hash && size_bytes
                    == resp.missing_blob_digests@[k].size_bytes
            },
{
    let ps = &resp.missing_blob_digests;
    let mut out: Vec<Digest> = Vec::new();
    let mut k: usize = 0;
    while k < ps.len()
        invariant
            ps@ == resp.missing_blob_digests@,
            k <= ps.len(),
            forall|j: int| 0 <= j < k ==> proto_digest_ok((#[trigger] ps@[j])@),
            distinct_digests(out@),
            all_digests_wf(out@),
            forall|m: int|
                0 <= m < out@.len() ==> digest_from_protos((#[trigger] out@[m])@, ps@),
            forall|j: int| 0 <= j < k ==> proto_covered(out@, (#[trigger] ps@[j])@),
        decreases ps.len() - k,
    {
        match proto_to_digest(&ps[k]) {
            None => {
                let e = StoreError::MalformedDigest {
                    hash: copy_bytes(&ps[k].hash),
                    size_bytes: ps[k].size_bytes,
                };
                proof {
                    let kk = k as int;
                    assert(0 <= kk < resp.missing_blob_digests@.len() && !proto_digest_ok(
                        (resp.missing_blob_digests@[kk])@,
                    ));
                }
                return Err(e);
            },
            Some(d) => {
                let ghost dv = d@;
                let ghost pre = out@;
                if !contains_digest(&out, &d) {
                    out.push(d);
                    proof {
                        let kk = k as int;
                        assert forall|m: int| 0 <= m < out@.len() implies digest_from_protos(
                            (#[trigger] out@[m])@,
                            ps@,
                        ) by {
                            if m == pre.len() {
                                assert(out@[m]@ == digest_of_proto(ps@[kk]@));
                            } else {
                                assert(out@[m] == pre[m]);
                            }
                        }
                        assert forall|j: int| 0 <= j <= kk implies proto_covered(
                            out@,
                            (#[trigger] ps@[j])@,
                        ) by {
                            if j < kk {
                                let m = choose|m: int|
                                    0 <= m < pre.len() && (#[trigger] pre[m])@ == digest_of_proto(
                                        ps@[j]@,
                                    );
                                assert(out@[m]@ == digest_of_proto(ps@[j]@));
                            } else {
                                assert(out@[pre.len() as int]@ == digest_of_proto(ps@[j]@));
                            }
                        }
                    }
                } else {
                    proof {
                        let kk = k as int;
                        let m = choose|m: int|
                            0 <= m < out@.len() && (#[trigger] out@[m])@ == dv;
                        assert(out@[m]@ == digest_of_proto(ps@[kk]@));
                    }
                }
            },
        }
        k = k + 1;
    }
    Ok(out)
}

/// Whether some digest in `v` denotes the value `dv`.
pub open spec fn digest_among(dv: DigestView, v: Seq<Digest>) -> bool {
    exists|m: int| 0 <= m < v.len() && (#[trigger] v[m])@ == dv
}

/// Whether some digest in `v` denotes the same fingerprint and size
/// as `d`.
pub fn contains_digest(v: &Vec<Digest>, d: &Digest) -> (r: bool)
    ensures
        r <==> digest_among(d@, v@),
{
    let mut m: usize = 0;
    while m < v.len()
        invariant
            m <= v.len(),
            forall|j: int| 0 <= j < m ==> (#[trigger] v@[j])@ != d@,
        decreases v.len() - m,
    {
        if v[m].same_as(d) {
            return true;
        }
        m = m + 1;
    }
    false
}

/// Whether `dv` is the decoding of a well-formed digest that the
/// request asked about.
pub open spec fn requested_digest(dv: DigestView, request: FindMissingBlobsRequest) -> bool {
    exists|k: int|
        0 <= k < request.blob_digests@.len() && proto_digest_ok(
            (#[trigger] request.blob_digests@[k])@,
        ) && dv == digest_of_proto(request.blob_digests@[k]@)
}

fn request_names_digest(request: &FindMissingBlobsRequest, d: &Digest) -> (r: bool)
    ensures
        r <==> requested_digest(d@, *request),
{
    let ps = &request.blob_digests;
    let mut k: usize = 0;
    while k < ps.len()
        invariant
            ps@ == request.blob_digests@,
            k <= ps.len(),
            forall|j: int|
                0 <= j < k ==> !(proto_digest_ok((#[trigger] ps@[j])@) && d@ == digest_of_proto(
                    ps@[j]@,
                )),
        decreases ps.len() - k,
    {
        match proto_to_digest(&ps[k]) {
            Some(dd) => {
                if dd.same_as(d) {
                    proof {
                        let kk = k as int;
                        assert(proto_digest_ok((request.blob_digests@[kk])@) && d@
                            == digest_of_proto(request.blob_digests@[kk]@));
                    }
                    return true;
                }
            },
            None => {},
        }
        k = k + 1;
    }
    false
}

/// Keeps, of `v`, exactly the digests the request asked about: the
/// result is a distinct, well-formed selection of `v` holding every
/// requested digest of `v` and nothing else.
pub fn retain_requested(v: &Vec<Digest>, request: &FindMissingBlobsRequest) -> (r: Vec<Digest>)
    requires
        distinct_digests(v@),
        all_digests_wf(v@),
    ensures
        distinct_digests(r@),
        all_digests_wf(r@),
        forall|m: int| 0 <= m < r@.len() ==> requested_digest((#[trigger] r@[m])@, *request),
        forall|m: int| 0 <= m < r@.len() ==> digest_among((#[trigger] r@[m])@, v@),
        forall|j: int|
            0 <= j < v@.len() && requested_digest((#[trigger] v@[j])@, *request) ==> digest_among(
                v@[j]@,
                r@,
            ),
{
    let mut out: Vec<Digest> = Vec::new();
    let mut j: usize = 0;
    while j < v.len()
        invariant
            j <= v@.len(),
            distinct_digests(v@),
            all_digests_wf(v@),
            distinct_digests(out@),
            all_digests_wf(out@),
            forall|m: int| 0 <= m < out@.len() ==> requested_digest((#[trigger] out@[m])@, *request),
            forall|m: int|
                0 <= m < out@.len() ==> exists|i: int|
                    0 <= i < j && (#[trigger] out@[m])@ == v@[i]@,
            forall|i: int|
                0 <= i < j && requested_digest((#[trigger] v@[i])@, *request) ==> digest_among(
                    v@[i]@,
                    out@,
                ),
        decreases v.len() - j,
    {
        if request_names_digest(request, &v[j]) {
            let ghost pre = out@;
            let ghost jj = j as int;
            out.push(v[j].duplicate());
            proof {
                assert forall|a: int, b: int| 0 <= a < b < out@.len() implies (#[trigger] out@[a])@
                    != (#[trigger] out@[b])@ by {
                    if b == pre.len() {
                        let i = choose|i: int| 0 <= i < jj && (#[trigger] pre[a])@ == v@[i]@;
                        assert(v@[i]@ != v@[jj]@);
                    }
                }
                assert(out@[pre.len() as int]@ == v@[jj]@);
                assert forall|i: int|
                    0 <= i <= jj && requested_digest((#[trigger] v@[i])@, *request) implies
                    digest_among(v@[i]@, out@) by {
                    if i < jj {
                        let m = choose|m: int|
                            0 <= m < pre.len() && (#[trigger] pre[m])@ == v@[i]@;
                        assert(out@[m]@ == v@[i]@);
                    } else {
                        assert(out@[pre.len() as int]@ == v@[i]@);
                    }
                }
            }
        }
        j = j + 1;
    }
    out
}

/// `"/uploads/"`.
pub open spec fn uploads_lit() -> Seq<u8> {
    seq![47u8, 117u8, 112u8, 108u8, 111u8, 97u8, 100u8, 115u8, 47u8]
}

/// `"/blobs/"`.
pub open spec fn blobs_lit() -> Seq<u8> {
    seq![47u8, 98u8, 108u8, 111u8, 98u8, 115u8, 47u8]
}

/// `"authorization"`.
pub open spec fn auth_header_name() -> Seq<u8> {
    seq![97u8, 117u8, 116u8, 104u8, 111u8, 114u8, 105u8, 122u8, 97u8, 116u8, 105u8, 111u8, 110u8]
}

/// `"Bearer "`.
pub open spec fn bearer_prefix() -> Seq<u8> {
    seq![66u8, 101u8, 97u8, 114u8, 101u8, 114u8, 32u8]
}

fn push_uploads_lit(out: &mut Vec<u8>)
    ensures
        final(out)@ == old(out)@ + uploads_lit(),
{
    out.push(47);
    out.push(117);
    out.push(112);
    out.push(108);
    out.push(111);
    out.push(97);
    out.push(100);
    out.push(115);
    out.push(47);
    proof {
        assert(out@ =~= old(out)@ + uploads_lit());
    }
}

fn push_blobs_lit(out: &mut Vec<u8>)
    ensures
        final(out)@ == old(out)@ + blobs_lit(),
{
    out.push(47);
    out.push(98);
    out.push(108);
    out.push(111);
    out.push(98);
    out.push(115);
    out.push(47);
    proof {
        assert(out@ =~= old(out)@ + blobs_lit());
    }
}

/// The resource name of a read: `<instance>/blobs/<hash hex>/<size>`.
pub open spec fn read_resource_name_spec(inst: Seq<u8>, d: DigestView) -> Seq<u8> {
    inst + blobs_lit() + crate::bytetext::hex_of(d.fingerprint) + seq![47u8] + dec_digits(
        d.size_bytes,
    )
}

/// The resource name of a write:
/// `<instance>/uploads/<id>/blobs/<hash hex>/<size>`, with `id` fresh
/// per logical call and reused across its retry attempts.
pub open spec fn write_resource_name_spec(inst: Seq<u8>, id: Seq<u8>, d: DigestView) -> Seq<u8> {
    inst + uploads_lit() + id + blobs_lit() + crate::bytetext::hex_of(d.fingerprint) + seq![47u8]
        + dec_digits(d.size_bytes)
}

/// Relies on uuid's `Uuid::new_v4` and its hyphenated `Display` form:
/// a freshly generated random identifier, rendered as 36 ASCII
/// characters. Nothing more is promised of the value — it is random.
/// The call draws from the operating system's randomness source and,
/// like an allocation, can fail only environmentally.
#[verifier::external_body]
fn fresh_upload_id() -> (r: Vec<u8>)
    ensures
        r@.len() == 36,
{
    uuid::Uuid::new_v4().to_string().into_bytes()
}

/// The remote blob-store client: immutable configuration plus, per
/// call, a caller-supplied transport.
#[derive(Debug, Clone)]
pub struct ByteStore {
    pub instance_name: Option<Vec<u8>>,
    pub chunk_size_bytes: usize,
    pub upload_timeout_millis: u64,
    pub rpc_attempts: usize,
    pub headers: Vec<(Vec<u8>, Vec<u8>)>,
}

impl ByteStore {
    /// A usable configuration: chunks are non-empty and at least one
    /// attempt is made.
    pub open spec fn wf(&self) -> bool {
        &&& self.chunk_size_bytes >= 1
        &&& self.rpc_attempts >= 1
    }

    /// The instance-name bytes, empty when none is configured.
    pub open spec fn instance_view(&self) -> Seq<u8> {
        match self.instance_name {
            Some(n) => n@,
            None => Seq::empty(),
        }
    }

    /// Builds a store configuration. The attempt budget is the retry
    /// count plus one; a bearer token, trimmed of surrounding
    /// whitespace, becomes the single `authorization` header.
    pub fn new(
        instance_name: Option<Vec<u8>>,
        oauth_bearer_token: Option<Vec<u8>>,
        chunk_size_bytes: usize,
        upload_timeout_millis: u64,
        rpc_retries: usize,
    ) -> (r: ByteStore)
        requires
            chunk_size_bytes >= 1,
            rpc_retries < usize::MAX,
        ensures
            r.wf(),
            r.instance_name == instance_name,
            r.chunk_size_bytes == chunk_size_bytes,
            r.upload_timeout_millis == upload_timeout_millis,
            r.rpc_attempts == rpc_retries + 1,
            match oauth_bearer_token {
                None => r.headers@.len() == 0,
                Some(t) => r.headers@.len() == 1 && r.headers@[0].0@ == auth_header_name()
                    && r.headers@[0].1@ == bearer_prefix() + trimmed(t@),
            },
    {
        let mut headers: Vec<(Vec<u8>, Vec<u8>)> = Vec::new();
        match oauth_bearer_token {
            None => {},
            Some(t) => {
                let mut name: Vec<u8> = Vec::new();
                name.push(97);
                name.push(117);
                name.push(116);
                name.push(104);
                name.push(111);
                name.push(114);
                name.push(105);
                name.push(122);
                name.push(97);
                name.push(116);
                name.push(105);
                name.push(111);
                name.push(110);
                proof {
                    assert(name@ =~= auth_header_name());
                }
                let mut value: Vec<u8> = Vec::new();
                value.push(66);
                value.push(101);
                value.push(97);
                value.push(114);
                value.push(101);
                value.push(114);
                value.push(32);
                proof {
                    assert(value@ =~= bearer_prefix());
                }
                let trimmed_token = trim_bytes(&t);
                push_all(&mut value, &trimmed_token);
                headers.push((name, value));
            },
        }
        ByteStore {
            instance_name,
            chunk_size_bytes,
            upload_timeout_millis,
            rpc_attempts: rpc_retries + 1,
            headers,
        }
    }

    /// The read resource name for `digest`.
    pub fn read_resource_name(&self, digest: &Digest) -> (r: Vec<u8>)
        ensures
            r@ == read_resource_name_spec(self.instance_view(), digest@),
    {
        let mut out: Vec<u8> = Vec::new();
        match &self.instance_name {
            Some(n) => push_all(&mut out, n),
            None => {},
        }
        push_blobs_lit(&mut out);
        push_hex(&mut out, &digest.fingerprint);
        out.push(47);
        push_decimal(&mut out, digest.size_bytes as u64);
        proof {
            assert(out@ =~= read_resource_name_spec(self.instance_view(), digest@));
        }
        out
    }

    /// The read request for `digest`: its read resource name, offset
    /// zero, and the unbounded read-limit sentinel zero.
    pub fn read_request_for(&self, digest: &Digest) -> (r: ReadRequest)
        ensures
            r.resource_name@ == read_resource_name_spec(self.instance_view(), digest@),
            r.read_offset == 0,
            r.read_limit == 0,
    {
        ReadRequest {
            resource_name: self.read_resource_name(digest),
            read_offset: 0,
            read_limit: 0,
        }
    }

    /// The write resource name for `digest` under the upload id `id`.
    pub fn write_resource_name(&self, id: &Vec<u8>, digest: &Digest) -> (r: Vec<u8>)
        ensures
            r@ == write_resource_name_spec(self.instance_view(), id@, digest@),
    {
        let mut out: Vec<u8> = Vec::new();
        match &self.instance_name {
            Some(n) => push_all(&mut out, n),
            None => {},
        }
        push_uploads_lit(&mut out);
        push_all(&mut out, id);
        push_blobs_lit(&mut out);
        push_hex(&mut out, &digest.fingerprint);
        out.push(47);
        push_decimal(&mut out, digest.size_bytes as u64);
        proof {
            assert(out@ =~= write_resource_name_spec(self.instance_view(), id@, digest@));
        }
        out
    }

    /// Stores `data` in the remote store and returns its locally
    /// computed digest. The chunk sequence and the write resource name
    /// (with one fresh upload id, reused across every retry attempt of
    /// this call) are built exactly as specified; each attempt is
    /// judged by `judge_write_attempt`, so the call returns `Ok` only
    /// with the digest of `data`, and surfaces the last attempt's
    /// error when every attempt fails. All-or-nothing: no partial
    /// commit is ever reported.
    pub fn store_bytes<P: ByteStreamProvider>(&self, provider: &mut P, data: &Vec<u8>) -> (r:
        Result<Digest, StoreError>)
        requires
            self.wf(),
        ensures
            r matches Ok(d) ==> d@ == digest_of(data@) && d.wf(),
            r matches Err(e) ==> write_attempt_error_about(digest_of(data@), e),
    {
        let digest = Digest::of_bytes(data);
        let id = fresh_upload_id();
        let name = self.write_resource_name(&id, &digest);
        let chunks = chunks_for(&name, data, self.chunk_size_bytes);
        proof {
            lemma_write_chunks_wf(name@, data@, self.chunk_size_bytes as int);
        }
        let outcome = provider.write_blob(&name, &chunks, &self.headers, self.upload_timeout_millis);
        let mut last: StoreError = match judge_write_attempt(&digest, &outcome) {
            Ok(()) => {
                return Ok(digest);
            },
            Err(e) => e,
        };
        let mut attempt: usize = 1;
        while attempt < self.rpc_attempts
            invariant
                self.wf(),
                digest@ == digest_of(data@),
                digest.wf(),
                wf_chunk_seq(name@, views_of(chunks@)),
                write_attempt_error_about(digest_of(data@), last),
            decreases self.rpc_attempts - attempt,
        {
            let outcome = provider.write_blob(&name, &chunks, &self.headers, self.upload_timeout_millis);
            match judge_write_attempt(&digest, &outcome) {
                Ok(()) => {
                    return Ok(digest);
                },
                Err(e) => {
                    last = e;
                },
            }
            attempt = attempt + 1;
        }
        Err(last)
    }

    /// Loads the blob named by `digest`, applies `transform` to its
    /// bytes and returns the result; `None` when the server reports
    /// the blob absent — a designed outcome, not an error.
    pub fn load_bytes_with<T, F: Fn(Vec<u8>) -> T, P: ByteStreamProvider>(
        &self,
        provider: &mut P,
        digest: &Digest,
        transform: F,
    ) -> (r: Result<Option<T>, StoreError>)
        requires
            self.wf(),
            forall|b: Vec<u8>| call_requires(transform, (b,)),
        ensures
            (r matches Ok(s) && s is Some) ==> exists|b: Vec<u8>, t: T|
                call_ensures(transform, (b,), t) && r == Ok::<Option<T>, StoreError>(Some(t)),
            r matches Err(e) ==> read_error_about(digest@, e),
    {
        let request = self.read_request_for(digest);
        let outcome = provider.read_blob(&request, &self.headers);
        let mut last: StoreError = match gather_read_outcome(digest, &outcome) {
            Ok(Some(v)) => {
                let ghost varg = v;
                let t = transform(v);
                proof {
                    assert(call_ensures(transform, (varg,), t));
                }
                return Ok(Some(t));
            },
            Ok(None) => {
                return Ok(None);
            },
            Err(e) => e,
        };
        let mut attempt: usize = 1;
        while attempt < self.rpc_attempts
            invariant
                self.wf(),
                wf_read_request(request),
                forall|b: Vec<u8>| call_requires(transform, (b,)),
                read_error_about(digest@, last),
            decreases self.rpc_attempts - attempt,
        {
            let outcome = provider.read_blob(&request, &self.headers);
            match gather_read_outcome(digest, &outcome) {
                Ok(Some(v)) => {
                    let ghost varg = v;
                    let t = transform(v);
                    proof {
                        assert(call_ensures(transform, (varg,), t));
                    }
                    return Ok(Some(t));
                },
                Ok(None) => {
                    return Ok(None);
                },
                Err(e) => {
                    last = e;
                },
            }
            attempt = attempt + 1;
        }
        Err(last)
    }

    /// Builds the one batched missing-blob request: the whole input
    /// digest collection, plus the instance name when configured.
    pub fn find_missing_blobs_request(&self, digests: &Vec<Digest>) -> (r: FindMissingBlobsRequest)
        requires
            forall|i: int| 0 <= i < digests@.len() ==> (#[trigger] digests@[i]).wf(),
            forall|i: int|
                0 <= i < digests@.len() ==> (#[trigger] digests@[i])@.size_bytes <= i64::MAX as nat,
        ensures
            r.instance_name@ == self.instance_view(),
            r.blob_digests@.len() == digests@.len(),
            forall|i: int|
                0 <= i < digests@.len() ==> (#[trigger] r.blob_digests@[i])@ == proto_of_digest(
                    digests@[i]@,
                ),
    {
        let instance_name = match &self.instance_name {
            Some(n) => copy_bytes(n),
            None => Vec::new(),
        };
        let mut blob_digests: Vec<ProtoDigest> = Vec::new();
        let mut i: usize = 0;
        while i < digests.len()
            invariant
                i <= digests@.len(),
                blob_digests@.len() == i,
                forall|j: int| 0 <= j < digests@.len() ==> (#[trigger] digests@[j]).wf(),
                forall|j: int|
                    0 <= j < digests@.len() ==> (#[trigger] digests@[j])@.size_bytes <= i64::MAX
                        as nat,
                forall|j: int|
                    0 <= j < i ==> (#[trigger] blob_digests@[j])@ == proto_of_digest(digests@[j]@),
            decreases digests.len() - i,
        {
            blob_digests.push(digest_to_proto(&digests[i]));
            i = i + 1;
        }
        FindMissingBlobsRequest { instance_name, blob_digests }
    }

    /// Issues the missing-blob query through the retry envelope and
    /// returns the digests the server does not hold: deduplicated and
    /// always a subset of the digests the request asked about — a
    /// digest the request did not carry never appears, whatever the
    /// server answered. A digest of the response that does not decode
    /// fails the attempt (and is retried like any other failure).
    pub fn list_missing_digests<P: ByteStreamProvider>(
        &self,
        provider: &mut P,
        request: &FindMissingBlobsRequest,
    ) -> (r: Result<Vec<Digest>, StoreError>)
        requires
            self.wf(),
        ensures
            r matches Ok(v) ==> {
                &&& distinct_digests(v@)
                &&& all_digests_wf(v@)
                &&& forall|m: int|
                    0 <= m < v@.len() ==> requested_digest((#[trigger] v@[m])@, *request)
            },
            r matches Err(e) ==> list_error(e),
    {
        let outcome = provider.find_missing_blobs(request, &self.headers);
        let mut last: StoreError = match judge_find_missing(request, outcome) {
            Ok(v) => {
                return Ok(v);
            },
            Err(e) => e,
        };
        let mut attempt: usize = 1;
        while attempt < self.rpc_attempts
            invariant
                self.wf(),
                list_error(last),
            decreases self.rpc_attempts - attempt,
        {
            let outcome = provider.find_missing_blobs(request, &self.headers);
            match judge_find_missing(request, outcome) {
                Ok(v) => {
                    return Ok(v);
                },
                Err(e) => {
                    last = e;
                },
            }
            attempt = attempt + 1;
        }
        Err(last)
    }

}

/// Whether `e` is an error the missing-blob query may surface: a
/// transport failure (with no single digest at hand) or a malformed
/// digest in the response.
pub open spec fn list_error(e: StoreError) -> bool {
    ||| (e matches StoreError::Transport { digest, detail } && digest is None)
    ||| e is MalformedDigest
}

/// Judges one missing-blob query attempt for `request`: a decodable
/// response yields its missing list, deduplicated and restricted to
/// the digests the request asked about (a conforming server names only
/// those, so for it the restriction changes nothing); every requested
/// digest the response names is kept.
fn judge_find_missing(request: &FindMissingBlobsRequest, outcome: FindMissingOutcome) -> (r:
    Result<Vec<Digest>, StoreError>)
    ensures
        r matches Ok(v) ==> {
            &&& distinct_digests(v@)
            &&& all_digests_wf(v@)
            &&& forall|m: int| 0 <= m < v@.len() ==> requested_digest((#[trigger] v@[m])@, *request)
        },
        r matches Err(e) ==> list_error(e),
        outcome matches FindMissingOutcome::Responded(resp) ==> (r is Ok <==> protos_ok(
            resp.missing_blob_digests@,
        )),
        outcome matches FindMissingOutcome::Responded(resp) ==> (r matches Ok(v)
            ==> forall|k: int|
            0 <= k < resp.missing_blob_digests@.len() && requested_digest(
                digest_of_proto((#[trigger] resp.missing_blob_digests@[k])@),
                *request,
            ) ==> digest_among(digest_of_proto(resp.missing_blob_digests@[k]@), v@)),
{
    match outcome {
        FindMissingOutcome::Responded(resp) => {
            match missing_digests_from_response(&resp) {
                Ok(v) => {
                    let filtered = retain_requested(&v, request);
                    proof {
                        assert forall|k: int|
                            0 <= k < resp.missing_blob_digests@.len() && requested_digest(
                                digest_of_proto((#[trigger] resp.missing_blob_digests@[k])@),
                                *request,
                            ) implies digest_among(
                            digest_of_proto(resp.missing_blob_digests@[k]@),
                            filtered@,
                        ) by {
                            assert(proto_covered(v@, (resp.missing_blob_digests@[k])@));
                            let m = choose|m: int|
                                0 <= m < v@.len() && (#[trigger] v@[m])@ == digest_of_proto(
                                    resp.missing_blob_digests@[k]@,
                                );
                            assert(requested_digest(v@[m]@, *request));
                            assert(digest_among(v@[m]@, filtered@));
                        }
                    }
                    Ok(filtered)
                },
                Err(e) => Err(e),
            }
        },
        FindMissingOutcome::TransportFailed(m) => Err(
            StoreError::Transport { digest: None, detail: m },
        ),
    }
}

/// Round trip: a read whose drained stream hands back exactly the
/// chunk data that `store_bytes` sends for `data` — a server that
/// stores what it was sent — reassembles to `data` itself, so
/// `load_bytes_with` returns `Some(data)` through its transform.
pub proof fn lemma_store_load_round_trip(
    name: Seq<u8>,
    data: Seq<u8>,
    cs: int,
    rs: Seq<ReadResponse>,
)
    requires
        cs >= 1,
        resp_datas(rs) == crate::chunk::chunk_datas(write_chunks(name, data, cs)),
    ensures
        resp_datas(rs).flatten() == data,
{
    crate::chunk::lemma_write_chunks_round_trip(name, data, cs);
}

/// Digest determinism: the digest under which `store_bytes` reports
/// success is a function of the stored bytes alone — two stores
/// configured with different chunk sizes (or any other configuration)
/// return the same digest for the same bytes.
pub proof fn lemma_digest_chunk_size_independent(b: Seq<u8>, d1: DigestView, d2: DigestView)
    requires
        d1 == digest_of(b),
        d2 == digest_of(b),
    ensures
        d1 == d2,
{
}

/// Idempotent re-upload: a write attempt whose stream the server
/// closed early without a status — the "blob already present"
/// optimization — counts as a success, provided the committed size
/// equals the payload length.
pub proof fn lemma_early_close_is_success(size: nat, o: WriteAttemptOutcome)
    requires
        o.send is EarlyClosed || o.send is Completed,
        o.close is EarlyClosed || o.close is Completed,
        o.response matches CommitResponse::Committed(c) && c as nat == size,
    ensures
        write_attempt_ok(size, o),
{
}

/// Whether `e` is an error the write path may surface for digest `d`:
/// a transport error or an integrity error, enriched with `d`.
pub open spec fn write_attempt_error_about(d: DigestView, e: StoreError) -> bool {
    match e {
        StoreError::Transport { digest, detail } => digest matches Some(dd) && dd@ == d,
        StoreError::Integrity { digest, committed_size } => digest@ == d && committed_size as nat
            != d.size_bytes,
        StoreError::MalformedDigest { .. } => false,
    }
}

/// Whether `e` is an error the read path may surface for digest `d`:
/// a transport error enriched with `d`.
pub open spec fn read_error_about(d: DigestView, e: StoreError) -> bool {
    e matches StoreError::Transport { digest, detail } && digest matches Some(dd) && dd@ == d
}

} // verus!

