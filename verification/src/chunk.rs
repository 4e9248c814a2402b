//! Splitting a transfer into the steps the byte counter allows.
//!
//! The counter of the peripheral is eight bits wide, so one programming step
//! moves at most 255 bytes. Every step but the one that ends the transfer is
//! programmed with reload asserted: the bus stays held and the counter waits
//! for the next step.
use vstd::prelude::*;

verus! {

/// The most bytes one step can move.
pub const CHUNK_MAX: usize = 255;

/// One programming step: the byte count and the reload bit.
#[derive(Clone, Copy, Debug, PartialEq, Eq)]
pub struct Chunk {
    pub size: u8,
    pub reload: bool,
}

/// The byte count of the step that begins `at` bytes into `len`.
pub open spec fn chunk_size(len: nat, at: nat) -> nat {
    if len - at > CHUNK_MAX {
        CHUNK_MAX as nat
    } else if at <= len {
        (len - at) as nat
    } else {
        0
    }
}

/// Whether the step that begins `at` bytes into `len` keeps the bus for
/// another step: more bytes follow it, or the buffer is not the last one.
pub open spec fn chunk_reload(len: nat, at: nat, last: bool) -> bool {
    len - at > CHUNK_MAX || !last
}

/// The step that begins `at` bytes into `len`.
pub open spec fn chunk_spec(len: nat, at: nat, last: bool) -> Chunk {
    Chunk { size: chunk_size(len, at) as u8, reload: chunk_reload(len, at, last) }
}

/// How many steps `len` bytes take; an empty transfer takes one empty step.
pub open spec fn chunk_count(len: nat) -> nat {
    if len == 0 {
        1
    } else {
        ((len + CHUNK_MAX - 1) / CHUNK_MAX as int) as nat
    }
}

/// The steps of a transfer of `len` bytes, in order.
pub open spec fn chunks(len: nat, last: bool) -> Seq<Chunk> {
    Seq::new(chunk_count(len), |k: int| chunk_spec(len, (k * CHUNK_MAX) as nat, last))
}

/// The bytes of `data` that step `k` moves.
pub open spec fn chunk_bytes(data: Seq<u8>, k: nat) -> Seq<u8> {
    data.subrange(
        (k * CHUNK_MAX) as int,
        k * CHUNK_MAX + chunk_size(data.len(), (k * CHUNK_MAX) as nat),
    )
}

/// What the first `n` steps move, one after the other.
pub open spec fn chunks_joined(data: Seq<u8>, n: nat) -> Seq<u8>
    decreases n,
{
    if n == 0 {
        Seq::empty()
    } else {
        chunks_joined(data, (n - 1) as nat) + chunk_bytes(data, (n - 1) as nat)
    }
}

/// Computes the step that begins `at` bytes into a buffer of `len` bytes.
pub fn chunk_at(len: usize, at: usize, last: bool) -> (c: Chunk)
    requires
        at <= len,
    ensures
        c == chunk_spec(len as nat, at as nat, last),
{
    let left: usize = len - at;
    if left > CHUNK_MAX {
        Chunk { size: 255, reload: true }
    } else {
        Chunk { size: left as u8, reload: !last }
    }
}

/// A transfer of `len` bytes takes the least number of steps that 255-byte
/// steps allow, and one step when it is empty.
pub proof fn lemma_chunk_count(len: nat)
    ensures
        chunk_count(len) >= 1,
        len > 0 ==> (chunk_count(len) - 1) * CHUNK_MAX < len <= chunk_count(len) * CHUNK_MAX,
{
}

/// Every step but the last moves 255 bytes with reload asserted; the last
/// moves what is left, and asserts reload only where another buffer follows.
/// Step `k` moves the lesser of 255 and what is left after `k` full steps,
/// which is at least one byte unless the transfer is empty.
pub proof fn lemma_chunk_shape(len: nat, last: bool, k: int)
    requires
        0 <= k < chunk_count(len),
    ensures
        chunks(len, last).len() == chunk_count(len),
        k < chunk_count(len) - 1 ==> chunks(len, last)[k] == (Chunk { size: 255, reload: true }),
        k == chunk_count(len) - 1 ==> chunks(len, last)[k] == (Chunk {
            size: (len - k * CHUNK_MAX) as u8,
            reload: !last,
        }),
        k * CHUNK_MAX + chunks(len, last)[k].size <= len,
        chunks(len, last)[k].size == (if len - k * CHUNK_MAX > CHUNK_MAX {
            CHUNK_MAX as int
        } else {
            len - k * CHUNK_MAX
        }),
        len > 0 ==> 1 <= chunks(len, last)[k].size <= CHUNK_MAX,
{
    lemma_chunk_count(len);
}

/// The first `n` steps move the first `n` times 255 bytes of the data, or all
/// of it, in order.
pub proof fn lemma_chunks_joined(data: Seq<u8>, n: nat)
    requires
        n <= chunk_count(data.len()),
    ensures
        chunks_joined(data, n) == data.subrange(
            0,
            if n * CHUNK_MAX <= data.len() {
                n * CHUNK_MAX
            } else {
                data.len() as int
            },
        ),
    decreases n,
{
    lemma_chunk_count(data.len());
    if n > 0 {
        let m = (n - 1) as nat;
        lemma_chunks_joined(data, m);
        assert(m * CHUNK_MAX <= data.len());
        assert(chunks_joined(data, m) == data.subrange(0, m * CHUNK_MAX));
        if n * CHUNK_MAX <= data.len() {
            assert(chunks_joined(data, n) =~= data.subrange(0, n * CHUNK_MAX));
        } else {
            assert(chunks_joined(data, n) =~= data.subrange(0, data.len() as int));
        }
    } else {
        assert(chunks_joined(data, n) =~= data.subrange(0, 0));
    }
}

/// The steps of a transfer, joined in order, are the data: nothing is lost,
/// repeated or reordered, whatever the length.
pub proof fn lemma_chunks_cover(data: Seq<u8>)
    ensures
        chunks_joined(data, chunk_count(data.len())) == data,
{
    let n = chunk_count(data.len());
    lemma_chunk_count(data.len());
    lemma_chunks_joined(data, n);
    assert(data.subrange(0, data.len() as int) =~= data);
}

} // verus!
