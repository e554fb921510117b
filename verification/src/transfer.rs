//! Streaming transfer core.
//!
//! A transfer moves a byte stream chunk by chunk: each chunk is appended to
//! the sink before the next one is requested, and a progress event is
//! produced after each chunk. The functions here are the accounting heart of
//! both directions — the surrounding binary performs the HTTP and file I/O
//! and hands each received chunk (or asks for each chunk to send) as a plain
//! byte vector.

use vstd::prelude::*;
use vstd::slice::slice_subrange;
use vstd::slice::slice_to_vec;
use crate::progress::ProgressMeter;
use crate::progress::ProgressPayload;

verus! {

/// Size of the chunks an upload body is split into.
pub const UPLOAD_CHUNK_SIZE: usize = 65536;

/// An HTTP status that counts as success.
pub open spec fn success_status(status: u16) -> bool {
    200 <= status < 300
}

/// Why a transfer failed.
#[derive(Clone, Copy, Debug, PartialEq, Eq, Structural)]
pub enum TransferError {
    /// The request never reached the point of a response.
    Connect,
    /// The server answered with a non-success status.
    Status(u16),
    /// A read from the source failed mid-stream.
    Read,
    /// A write to the sink failed mid-stream.
    Write,
}

/// A transfer fails immediately on a non-success response status; the status
/// is carried in the error.
pub fn check_status(status: u16) -> (r: Result<(), TransferError>)
    ensures
        r is Ok <==> success_status(status),
        !success_status(status) ==> (r matches Err(e) && e == TransferError::Status(status)),
{
    if 200 <= status && status < 300 {
        Ok(())
    } else {
        Err(TransferError::Status(status))
    }
}

/// The concatenation of a sequence of chunks, in order.
pub open spec fn concat_of(chunks: Seq<Seq<u8>>) -> Seq<u8>
    decreases chunks.len(),
{
    if chunks.len() == 0 {
        Seq::empty()
    } else {
        chunks.first() + concat_of(chunks.drop_first())
    }
}

/// `data` split into chunks of `size` bytes; every chunk but the last is
/// full, and the last holds the remainder.
pub open spec fn chunks_of(data: Seq<u8>, size: nat) -> Seq<Seq<u8>>
    decreases data.len(),
    when size > 0
{
    if data.len() == 0 {
        Seq::empty()
    } else if data.len() <= size {
        seq![data]
    } else {
        seq![data.take(size as int)] + chunks_of(data.skip(size as int), size)
    }
}

/// Splitting a byte sequence into chunks of any positive size and
/// concatenating them back yields the original sequence: the chunk boundary
/// choice never alters content.
pub proof fn lemma_chunk_round_trip(data: Seq<u8>, size: nat)
    requires
        size > 0,
    ensures
        concat_of(chunks_of(data, size)) == data,
    decreases data.len(),
{
    if data.len() == 0 {
        assert(concat_of(chunks_of(data, size)) =~= data);
    } else if data.len() <= size {
        assert(chunks_of(data, size) == seq![data]);
        assert(seq![data].drop_first() =~= Seq::<Seq<u8>>::empty());
        assert(concat_of(Seq::<Seq<u8>>::empty()) =~= Seq::<u8>::empty());
        assert(seq![data].first() == data);
        assert(concat_of(chunks_of(data, size)) =~= data);
    } else {
        let head = data.take(size as int);
        let tail = data.skip(size as int);
        lemma_chunk_round_trip(tail, size);
        let cs = chunks_of(data, size);
        assert(cs.first() == head);
        assert(cs.drop_first() =~= chunks_of(tail, size));
        assert(concat_of(cs) == head + tail);
        assert(head + tail =~= data);
    }
}

/// Round-trip fidelity of a download: a sink that received, in order, the
/// chunks some source was split into holds exactly the source bytes.
pub proof fn lemma_download_fidelity(source: Seq<u8>, size: nat, sink: Seq<u8>)
    requires
        size > 0,
        sink == concat_of(chunks_of(source, size)),
    ensures
        sink == source,
{
    lemma_chunk_round_trip(source, size);
}

/// The views of a sequence of byte vectors.
pub open spec fn views_of(chunks: Seq<Vec<u8>>) -> Seq<Seq<u8>> {
    chunks.map_values(|c: Vec<u8>| c@)
}

/// Concatenating one more chunk extends the concatenation of the prefix.
proof fn lemma_concat_take_succ(s: Seq<Seq<u8>>, i: int)
    requires
        0 <= i < s.len(),
    ensures
        concat_of(s.take(i + 1)) == concat_of(s.take(i)) + s[i],
    decreases i,
{
    if i == 0 {
        assert(s.take(1).drop_first() =~= Seq::<Seq<u8>>::empty());
        assert(s.take(1).first() == s[0]);
        assert(concat_of(Seq::<Seq<u8>>::empty()) =~= Seq::<u8>::empty());
        assert(s.take(0) =~= Seq::<Seq<u8>>::empty());
        assert(concat_of(s.take(0)) =~= Seq::<u8>::empty());
        assert(concat_of(s.take(1)) =~= concat_of(s.take(0)) + s[0]);
    } else {
        let t = s.drop_first();
        lemma_concat_take_succ(t, i - 1);
        assert(s.take(i + 1).drop_first() =~= t.take(i));
        assert(s.take(i).drop_first() =~= t.take(i - 1));
        assert(s.take(i + 1).first() == s[0]);
        assert(s.take(i).first() == s[0]);
        assert(concat_of(s.take(i + 1)) == s[0] + concat_of(t.take(i)));
        assert(concat_of(s.take(i)) == s[0] + concat_of(t.take(i - 1)));
        assert(t[i - 1] == s[i]);
        assert(s[0] + (concat_of(t.take(i - 1)) + s[i]) =~= (s[0] + concat_of(t.take(i - 1)))
            + s[i]);
    }
}

/// The concatenation of a longer prefix is at least as long.
proof fn lemma_concat_take_len_monotone(s: Seq<Seq<u8>>, i: int, j: int)
    requires
        0 <= i <= j <= s.len(),
    ensures
        concat_of(s.take(i)).len() <= concat_of(s.take(j)).len(),
    decreases j - i,
{
    if i < j {
        lemma_concat_take_succ(s, j - 1);
        lemma_concat_take_len_monotone(s, i, j - 1);
    }
}

/// Append one chunk to a sink. Chunks are written in the order received;
/// nothing already in the sink is disturbed.
pub fn write_chunk(sink: &mut Vec<u8>, chunk: &[u8])
    ensures
        final(sink)@ == old(sink)@ + chunk@,
{
    sink.extend_from_slice(chunk);
    proof {
        assert(sink@ =~= old(sink)@ + chunk@);
    }
}

/// Run a whole transfer over a sequence of chunks: append each chunk to a
/// fresh sink in order and meter progress after each one. The sink ends up
/// holding exactly the concatenation of the chunks; the events' running
/// totals never decrease and the last one equals the sink's final byte
/// count.
///
/// `content_length` is the total size if known (`0` = unknown) and
/// `elapsed_micros` gives, per chunk, the wall-clock time since the transfer
/// started, as the surrounding binary measured it.
pub fn run_transfer(chunks: &Vec<Vec<u8>>, content_length: u64, elapsed_micros: &Vec<u64>) -> (r: (
    Vec<u8>,
    Vec<ProgressPayload>,
))
    requires
        elapsed_micros@.len() == chunks@.len(),
        concat_of(views_of(chunks@)).len() <= u64::MAX,
        concat_of(views_of(chunks@)).len() <= usize::MAX,
    ensures
        r.0@ == concat_of(views_of(chunks@)),
        r.1@.len() == chunks@.len(),
        forall|k: int|
            0 <= k < r.1@.len() ==> #[trigger] r.1@[k].progress == chunks@[k]@.len()
                && r.1@[k].total == content_length && r.1@[k].progress_total == concat_of(
                views_of(chunks@).take(k + 1),
            ).len(),
        forall|k: int, j: int|
            0 <= k <= j < r.1@.len() ==> #[trigger] r.1@[k].progress_total
                <= #[trigger] r.1@[j].progress_total,
        chunks@.len() > 0 ==> r.1@.last().progress_total == r.0@.len(),
{
    let ghost views = views_of(chunks@);
    let mut sink: Vec<u8> = Vec::new();
    let mut events: Vec<ProgressPayload> = Vec::new();
    let mut meter = ProgressMeter::begin(content_length);
    let n = chunks.len();
    let mut i: usize = 0;
    while i < n
        invariant
            i <= n,
            n == chunks@.len(),
            elapsed_micros@.len() == n,
            views == views_of(chunks@),
            concat_of(views).len() <= u64::MAX,
            concat_of(views).len() <= usize::MAX,
            sink@ == concat_of(views.take(i as int)),
            meter.bytes_so_far == sink@.len(),
            meter.content_length == content_length,
            events@.len() == i,
            forall|k: int|
                0 <= k < i ==> #[trigger] events@[k].progress == chunks@[k]@.len()
                    && events@[k].total == content_length && events@[k].progress_total
                    == concat_of(views.take(k + 1)).len(),
        decreases n - i,
    {
        proof {
            lemma_concat_take_succ(views, i as int);
            lemma_concat_take_len_monotone(views, i as int + 1, views.len() as int);
            assert(views.take(views.len() as int) =~= views);
            assert(views[i as int] == chunks@[i as int]@);
            assert(concat_of(views.take(i as int + 1)).len() <= concat_of(views).len());
        }
        let chunk = &chunks[i];
        write_chunk(&mut sink, chunk.as_slice());
        let ev = meter.record_chunk(chunk.len() as u64, elapsed_micros[i]);
        events.push(ev);
        i += 1;
    }
    proof {
        assert(views.take(n as int) =~= views);
        assert forall|k: int, j: int|
            0 <= k <= j < events@.len() implies events@[k].progress_total
            <= events@[j].progress_total by {
            assert(events@[k].progress == chunks@[k]@.len());
            assert(events@[j].progress == chunks@[j]@.len());
            lemma_concat_take_len_monotone(views, k + 1, j + 1);
        }
        if n > 0 {
            assert(events@[n as int - 1].progress == chunks@[n as int - 1]@.len());
            assert(events@.last().progress_total == concat_of(views.take(n as int)).len());
        }
    }
    (sink, events)
}

/// Split upload data into chunks of `chunk_size` bytes, the sequence the
/// request body streams one element at a time. The chunks concatenate back
/// to exactly `data`.
pub fn make_chunks(data: &Vec<u8>, chunk_size: usize) -> (cs: Vec<Vec<u8>>)
    requires
        chunk_size > 0,
    ensures
        views_of(cs@) == chunks_of(data@, chunk_size as nat),
        concat_of(views_of(cs@)) == data@,
    {
    let n = data.len();
    let mut cs: Vec<Vec<u8>> = Vec::new();
    let mut offset: usize = 0;
    proof {
        assert(views_of(cs@) =~= Seq::<Seq<u8>>::empty());
        assert(data@.skip(0) =~= data@);
        assert(Seq::<Seq<u8>>::empty() + chunks_of(data@, chunk_size as nat) =~= chunks_of(
            data@,
            chunk_size as nat,
        ));
    }
    while offset < n
        invariant
            offset <= n,
            n == data@.len(),
            chunk_size > 0,
            views_of(cs@) + chunks_of(data@.skip(offset as int), chunk_size as nat) == chunks_of(
                data@,
                chunk_size as nat,
            ),
        decreases n - offset,
    {
        let remaining = n - offset;
        let len = if remaining < chunk_size {
            remaining
        } else {
            chunk_size
        };
        let piece = slice_subrange(data.as_slice(), offset, offset + len);
        let chunk: Vec<u8> = slice_to_vec(piece);
        proof {
            let rem = data@.skip(offset as int);
            let rem2 = data@.skip(offset as int + len as int);
            assert(rem.len() == n - offset);
            if rem.len() <= chunk_size {
                assert(chunks_of(rem, chunk_size as nat) == seq![rem]);
                assert(chunk@ =~= rem);
                assert(rem2 =~= Seq::<u8>::empty());
                assert(chunks_of(rem2, chunk_size as nat) =~= Seq::<Seq<u8>>::empty());
                assert(seq![rem] =~= seq![rem] + chunks_of(rem2, chunk_size as nat));
            } else {
                assert(chunk@ =~= rem.take(chunk_size as int));
                assert(rem.skip(chunk_size as int) =~= rem2);
            }
            assert(views_of(cs@.push(chunk)) =~= views_of(cs@) + seq![chunk@]);
            assert((views_of(cs@) + seq![chunk@]) + chunks_of(rem2, chunk_size as nat) =~= views_of(
                cs@,
            ) + (seq![chunk@] + chunks_of(rem2, chunk_size as nat)));
            assert(seq![chunk@] + chunks_of(rem2, chunk_size as nat) =~= chunks_of(
                rem,
                chunk_size as nat,
            ));
            assert(views_of(cs@.push(chunk)) + chunks_of(rem2, chunk_size as nat) =~= chunks_of(
                data@,
                chunk_size as nat,
            ));
        }
        cs.push(chunk);
        offset += len;
    }
    proof {
        assert(data@.skip(n as int) =~= Seq::<u8>::empty());
        assert(chunks_of(data@.skip(offset as int), chunk_size as nat)
            =~= Seq::<Seq<u8>>::empty());
        assert(views_of(cs@) + Seq::<Seq<u8>>::empty() =~= views_of(cs@));
        lemma_chunk_round_trip(data@, chunk_size as nat);
    }
    cs
}

} // verus!
