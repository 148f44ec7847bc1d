//! Content digests: a fingerprint (SHA-256 hash plus byte length)
//! computed locally from the exact bytes being stored. A digest is
//! never accepted from a peer; it is the identity under which a blob
//! is addressed.

use vstd::prelude::*;

verus! {

/// What the SHA-256 hash of a byte string is. The algorithm itself is
/// outside this crate; the name records only that the result depends
/// on the input bytes alone.
pub uninterp spec fn sha256_of(b: Seq<u8>) -> Seq<u8>;

/// Relies on sha2's `Sha256` (through the `Digest` trait): the hash is
/// a function of the input bytes alone and is exactly 32 bytes long.
#[verifier::external_body]
fn sha256(data: &Vec<u8>) -> (r: Vec<u8>)
    ensures
        r@ == sha256_of(data@),
        r@.len() == 32,
{
    let h = <sha2::Sha256 as sha2::Digest>::digest(data.as_slice());
    h.to_vec()
}

/// The mathematical value of a digest.
pub ghost struct DigestView {
    pub fingerprint: Seq<u8>,
    pub size_bytes: nat,
}

/// A content fingerprint: hash plus byte length.
#[derive(Debug, Clone, PartialEq, Eq)]
pub struct Digest {
    pub fingerprint: Vec<u8>,
    pub size_bytes: usize,
}

impl View for Digest {
    type V = DigestView;

    open spec fn view(&self) -> DigestView {
        DigestView { fingerprint: self.fingerprint@, size_bytes: self.size_bytes as nat }
    }
}

/// The digest of a byte string: its SHA-256 hash and its length.
pub open spec fn digest_of(b: Seq<u8>) -> DigestView {
    DigestView { fingerprint: sha256_of(b), size_bytes: b.len() }
}

impl Digest {
    /// A well-formed digest carries a full-length fingerprint.
    pub open spec fn wf(&self) -> bool {
        self.fingerprint@.len() == 32
    }

    /// Computes the digest of the given bytes.
    pub fn of_bytes(b: &Vec<u8>) -> (r: Digest)
        ensures
            r@ == digest_of(b@),
            r.wf(),
    {
        let fingerprint = sha256(b);
        Digest { fingerprint, size_bytes: b.len() }
    }

    /// Copies the digest.
    pub fn duplicate(&self) -> (r: Digest)
        ensures
            r@ == self@,
    {
        let mut fp: Vec<u8> = Vec::new();
        crate::bytetext::push_all(&mut fp, &self.fingerprint);
        Digest { fingerprint: fp, size_bytes: self.size_bytes }
    }

    /// Whether two digests denote the same fingerprint and size.
    pub fn same_as(&self, other: &Digest) -> (r: bool)
        ensures
            r <==> self@ == other@,
    {
        if self.size_bytes != other.size_bytes {
            return false;
        }
        if self.fingerprint.len() != other.fingerprint.len() {
            return false;
        }
        let mut i: usize = 0;
        while i < self.fingerprint.len()
            invariant
                i <= self.fingerprint.len(),
                self.fingerprint@.len() == other.fingerprint@.len(),
                self.size_bytes == other.size_bytes,
                forall|j: int| 0 <= j < i ==> self.fingerprint@[j] == other.fingerprint@[j],
            decreases self.fingerprint.len() - i,
        {
            if self.fingerprint[i] != other.fingerprint[i] {
                return false;
            }
            i = i + 1;
        }
        proof {
            assert(self.fingerprint@ =~= other.fingerprint@);
        }
        true
    }
}

} // verus!
