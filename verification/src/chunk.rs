//! The streaming protocol layer for writes: a byte buffer is encoded
//! into ordered, offset-tagged chunks that cover it exactly, with the
//! final chunk and only that chunk marked `finish_write`. A zero-length
//! buffer still yields one (empty, final) chunk.

use vstd::prelude::*;

verus! {

/// Declares `bytes::Bytes`, the reference-counted byte buffer that
/// chunk data travels in; `bytes_content` names what a buffer holds.
#[verifier::external_type_specification]
#[verifier::external_body]
pub struct ExBytes(bytes::Bytes);

/// What a `bytes::Bytes` buffer holds.
pub uninterp spec fn bytes_content(b: bytes::Bytes) -> Seq<u8>;

/// Relies on `bytes::Bytes::from(Vec<u8>)`: the buffer holds exactly
/// the bytes of the vector.
#[verifier::external_body]
pub fn bytes_of_vec(v: Vec<u8>) -> (b: bytes::Bytes)
    ensures
        bytes_content(b) == v@,
{
    bytes::Bytes::from(v)
}

/// Relies on `<[u8]>::to_vec` through `Bytes`'s slice view: the copy
/// holds exactly the buffer's bytes.
#[verifier::external_body]
pub fn bytes_to_vec(b: &bytes::Bytes) -> (v: Vec<u8>)
    ensures
        v@ == bytes_content(*b),
{
    b.to_vec()
}

/// Relies on `bytes::Bytes::clone`: a clone of the handle refers to
/// the same bytes.
pub assume_specification[ <bytes::Bytes as Clone>::clone ](b: &bytes::Bytes) -> (r: bytes::Bytes)
    ensures
        bytes_content(r) == bytes_content(*b),
;

/// One unit of a streamed write: an offset-tagged slice of the payload
/// plus the flag marking the final unit.
#[derive(Debug, Clone)]
pub struct WriteRequest {
    pub resource_name: Vec<u8>,
    pub write_offset: u64,
    pub data: bytes::Bytes,
    pub finish_write: bool,
}

/// The mathematical value of a write chunk.
pub ghost struct ChunkView {
    pub resource_name: Seq<u8>,
    pub write_offset: int,
    pub data: Seq<u8>,
    pub finish_write: bool,
}

impl View for WriteRequest {
    type V = ChunkView;

    open spec fn view(&self) -> ChunkView {
        ChunkView {
            resource_name: self.resource_name@,
            write_offset: self.write_offset as int,
            data: bytes_content(self.data),
            finish_write: self.finish_write,
        }
    }
}

/// The views of a chunk sequence.
pub open spec fn views_of(s: Seq<WriteRequest>) -> Seq<ChunkView> {
    s.map_values(|c: WriteRequest| c@)
}

/// The chunks that encode `data.subrange(offset, data.len())` for the
/// given resource, each at most `cs` bytes, offsets contiguous from
/// `offset`, the last chunk and only it marked final.
pub open spec fn chunk_views(name: Seq<u8>, data: Seq<u8>, cs: int, offset: int) -> Seq<
    ChunkView,
>
    decreases data.len() - offset,
    when 0 <= offset <= data.len() && cs >= 1
{
    let next = if offset + cs < data.len() {
        offset + cs
    } else {
        data.len() as int
    };
    let c = ChunkView {
        resource_name: name,
        write_offset: offset,
        data: data.subrange(offset, next),
        finish_write: next == data.len(),
    };
    if next == data.len() {
        seq![c]
    } else {
        seq![c] + chunk_views(name, data, cs, next)
    }
}

/// The full chunk encoding of `data` under chunk size `cs`.
pub open spec fn write_chunks(name: Seq<u8>, data: Seq<u8>, cs: int) -> Seq<ChunkView> {
    chunk_views(name, data, cs, 0)
}

/// The data fields of a chunk sequence.
pub open spec fn chunk_datas(cks: Seq<ChunkView>) -> Seq<Seq<u8>> {
    cks.map_values(|c: ChunkView| c.data)
}

/// A chunk sequence fit to hand to a write stream for `name`: at least
/// one chunk, all for `name`, offsets contiguous from zero, exactly
/// the last chunk marked final.
pub open spec fn wf_chunk_seq(name: Seq<u8>, cks: Seq<ChunkView>) -> bool {
    &&& cks.len() >= 1
    &&& cks[0].write_offset == 0
    &&& forall|i: int| 0 <= i < cks.len() ==> (#[trigger] cks[i]).resource_name == name
    &&& forall|i: int|
        0 <= i < cks.len() - 1 ==> (#[trigger] cks[i]).write_offset + cks[i].data.len()
            == cks[i + 1].write_offset
    &&& forall|i: int| 0 <= i < cks.len() ==> ((#[trigger] cks[i]).finish_write <==> i == cks.len() - 1)
}

fn copy_range(data: &Vec<u8>, from: usize, to: usize) -> (r: Vec<u8>)
    requires
        from <= to <= data.len(),
    ensures
        r@ == data@.subrange(from as int, to as int),
{
    let mut out: Vec<u8> = Vec::new();
    let mut i: usize = from;
    while i < to
        invariant
            from <= i <= to <= data.len(),
            out@ == data@.subrange(from as int, i as int),
        decreases to - i,
    {
        out.push(data[i]);
        i = i + 1;
        proof {
            assert(out@ =~= data@.subrange(from as int, i as int));
        }
    }
    out
}

fn push_chunks(out: &mut Vec<WriteRequest>, name: &Vec<u8>, data: &Vec<u8>, cs: usize, offset: usize)
    requires
        cs >= 1,
        offset <= data.len(),
    ensures
        views_of(final(out)@) == views_of(old(out)@) + chunk_views(
            name@,
            data@,
            cs as int,
            offset as int,
        ),
    decreases data.len() - offset,
{
    let next = if cs < data.len() - offset {
        offset + cs
    } else {
        data.len()
    };
    let piece = copy_range(data, offset, next);
    let mut name_copy: Vec<u8> = Vec::new();
    crate::bytetext::push_all(&mut name_copy, name);
    let req = WriteRequest {
        resource_name: name_copy,
        write_offset: offset as u64,
        data: bytes_of_vec(piece),
        finish_write: next == data.len(),
    };
    let ghost c = req@;
    out.push(req);
    proof {
        assert(views_of(out@) =~= views_of(old(out)@) + seq![c]);
    }
    if next < data.len() {
        push_chunks(out, name, data, cs, next);
    }
    proof {
        let full = chunk_views(name@, data@, cs as int, offset as int);
        if next < data.len() {
            assert(full =~= seq![c] + chunk_views(name@, data@, cs as int, next as int));
            assert(views_of(out@) =~= views_of(old(out)@) + full);
        } else {
            assert(full =~= seq![c]);
        }
    }
}

/// Encodes `data` into its chunk sequence for `name` under chunk size
/// `cs`: the encoding described by `write_chunks`.
pub fn chunks_for(name: &Vec<u8>, data: &Vec<u8>, cs: usize) -> (r: Vec<WriteRequest>)
    requires
        cs >= 1,
    ensures
        views_of(r@) == write_chunks(name@, data@, cs as int),
{
    let mut out: Vec<WriteRequest> = Vec::new();
    push_chunks(&mut out, name, data, cs, 0);
    proof {
        assert(views_of(out@) =~= write_chunks(name@, data@, cs as int));
    }
    out
}

/// The chunk encoding is well formed: it always holds at least one
/// chunk, names the resource on every chunk, tags contiguous offsets
/// starting at `offset`, each chunk holds at most `cs` bytes (and,
/// except for the last, exactly `cs`), and marks exactly the last
/// chunk final.
pub proof fn lemma_chunk_layout(name: Seq<u8>, data: Seq<u8>, cs: int, offset: int)
    requires
        cs >= 1,
        0 <= offset <= data.len(),
    ensures
        ({
            let cks = chunk_views(name, data, cs, offset);
            &&& cks.len() >= 1
            &&& cks[0].write_offset == offset
            &&& forall|i: int| 0 <= i < cks.len() ==> (#[trigger] cks[i]).resource_name == name
            &&& forall|i: int|
                0 <= i < cks.len() - 1 ==> (#[trigger] cks[i]).write_offset + cks[i].data.len()
                    == cks[i + 1].write_offset
            &&& forall|i: int|
                0 <= i < cks.len() ==> ((#[trigger] cks[i]).finish_write <==> i == cks.len() - 1)
            &&& forall|i: int| 0 <= i < cks.len() ==> (#[trigger] cks[i]).data.len() <= cs
            &&& forall|i: int| 0 <= i < cks.len() - 1 ==> (#[trigger] cks[i]).data.len() == cs
        }),
    decreases data.len() - offset,
{
    let cks = chunk_views(name, data, cs, offset);
    let next = if offset + cs < data.len() {
        offset + cs
    } else {
        data.len() as int
    };
    if next < data.len() {
        lemma_chunk_layout(name, data, cs, next);
        let rest = chunk_views(name, data, cs, next);
        assert forall|i: int| 0 <= i < cks.len() implies (#[trigger] cks[i]) == if i == 0 {
            cks[0]
        } else {
            rest[i - 1]
        } by {}
    }
}

/// The encoding is faithful: the chunk data fields, concatenated in
/// order, give back exactly the encoded bytes.
pub proof fn lemma_chunks_flatten(name: Seq<u8>, data: Seq<u8>, cs: int, offset: int)
    requires
        cs >= 1,
        0 <= offset <= data.len(),
    ensures
        chunk_datas(chunk_views(name, data, cs, offset)).flatten() == data.subrange(
            offset,
            data.len() as int,
        ),
    decreases data.len() - offset,
{
    let cks = chunk_views(name, data, cs, offset);
    let next = if offset + cs < data.len() {
        offset + cs
    } else {
        data.len() as int
    };
    let c = cks[0];
    if next == data.len() {
        assert(chunk_datas(cks) =~= seq![c.data]);
        chunk_datas(cks).lemma_flatten_one_element();
        assert(chunk_datas(cks).flatten() =~= data.subrange(offset, data.len() as int));
    } else {
        lemma_chunks_flatten(name, data, cs, next);
        let rest = chunk_views(name, data, cs, next);
        assert(chunk_datas(cks) =~= seq![c.data] + chunk_datas(rest));
        let whole = chunk_datas(cks);
        assert(whole.first() == c.data);
        assert(whole.drop_first() =~= chunk_datas(rest));
        assert(whole.flatten() == c.data + chunk_datas(rest).flatten());
        assert(whole.flatten() =~= data.subrange(offset, data.len() as int));
    }
}

/// Round trip for the streaming layer: decoding (concatenating the
/// data of) the chunk encoding of any byte buffer, under any positive
/// chunk size, yields the buffer unchanged.
pub proof fn lemma_write_chunks_round_trip(name: Seq<u8>, data: Seq<u8>, cs: int)
    requires
        cs >= 1,
    ensures
        chunk_datas(write_chunks(name, data, cs)).flatten() == data,
{
    lemma_chunks_flatten(name, data, cs, 0);
    assert(data.subrange(0, data.len() as int) =~= data);
}

/// The chunk encoding is fit to hand to a write stream.
pub proof fn lemma_write_chunks_wf(name: Seq<u8>, data: Seq<u8>, cs: int)
    requires
        cs >= 1,
    ensures
        wf_chunk_seq(name, write_chunks(name, data, cs)),
{
    lemma_chunk_layout(name, data, cs, 0);
}

} // verus!
