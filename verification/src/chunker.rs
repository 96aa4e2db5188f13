//! Splitting a file's bytes into fixed-size chunks.

use vstd::prelude::*;
use vstd::string::StringExecFns;
use crate::text::decimal;
use crate::text::decimal_string;

verus! {

/// Extension of the file that holds one chunk.
pub const CHUNK_EXTENSION: &'static str = ".chunk";

/// Name of the file that holds chunk `index`: the index in decimal, then the
/// extension.
pub open spec fn chunk_file_name_of(index: nat) -> Seq<char> {
    decimal(index) + CHUNK_EXTENSION@
}

/// Name of the file that holds chunk `index` in the file's chunk directory.
pub fn chunk_file_name(index: usize) -> (name: String)
    ensures
        name@ == chunk_file_name_of(index as nat),
{
    decimal_string(index as u64).concat(CHUNK_EXTENSION)
}

/// Number of chunks that `len` bytes fall into: every chunk holds `chunk_size`
/// bytes but the last, which holds what is left. No bytes, no chunks.
pub open spec fn chunk_count(len: nat, chunk_size: nat) -> nat
    recommends
        chunk_size > 0,
{
    ((len + chunk_size - 1) / (chunk_size as int)) as nat
}

/// First byte offset of chunk `index`.
pub open spec fn chunk_start(chunk_size: nat, index: int) -> int {
    index * chunk_size
}

/// Offset one past the last byte of chunk `index` in a file of `len` bytes.
pub open spec fn chunk_end(len: nat, chunk_size: nat, index: int) -> int {
    if (index + 1) * chunk_size <= len {
        (index + 1) * chunk_size
    } else {
        len as int
    }
}

/// The bytes of chunk `index`.
pub open spec fn chunk_at(data: Seq<u8>, chunk_size: nat, index: int) -> Seq<u8> {
    data.subrange(chunk_start(chunk_size, index), chunk_end(data.len(), chunk_size, index))
}

/// The ordered chunks of `data`.
pub open spec fn chunks_of(data: Seq<u8>, chunk_size: nat) -> Seq<Seq<u8>> {
    Seq::new(chunk_count(data.len(), chunk_size), |i: int| chunk_at(data, chunk_size, i))
}

/// The views of a vector of byte buffers, in order.
pub open spec fn buffers_view(buffers: Seq<Vec<u8>>) -> Seq<Seq<u8>> {
    Seq::new(buffers.len(), |i: int| buffers[i]@)
}

/// Every chunk lies inside the file and is not empty. Every chunk but the
/// last holds `chunk_size` bytes; the last holds no more and ends where the
/// file ends.
pub proof fn lemma_chunk_bounds(len: nat, chunk_size: nat, index: int)
    requires
        chunk_size > 0,
        0 <= index < chunk_count(len, chunk_size),
    ensures
        0 <= chunk_start(chunk_size, index) < chunk_end(len, chunk_size, index) <= len,
        chunk_end(len, chunk_size, index) - chunk_start(chunk_size, index) <= chunk_size,
        index + 1 < chunk_count(len, chunk_size) ==> chunk_end(len, chunk_size, index)
            - chunk_start(chunk_size, index) == chunk_size,
        index + 1 == chunk_count(len, chunk_size) ==> chunk_end(len, chunk_size, index) == len,
{
    let n = chunk_count(len, chunk_size) as int;
    let c = chunk_size as int;
    lemma_count_brackets(len, chunk_size);
    assert(index * c <= (n - 1) * c) by (nonlinear_arith)
        requires
            index <= n - 1,
            c > 0,
    ;
    assert((index + 1) * c == index * c + c) by (nonlinear_arith);
    if index + 1 < n {
        assert((index + 1) * c <= (n - 1) * c) by (nonlinear_arith)
            requires
                index + 1 <= n - 1,
                c > 0,
        ;
    }
    assert(index * c >= 0) by (nonlinear_arith)
        requires
            index >= 0,
            c > 0,
    ;
}

/// `chunk_count` is the one `n` with `(n - 1) * chunk_size < len <= n * chunk_size`.
pub proof fn lemma_count_brackets(len: nat, chunk_size: nat)
    requires
        chunk_size > 0,
    ensures
        len == 0 <==> chunk_count(len, chunk_size) == 0,
        len > 0 ==> (chunk_count(len, chunk_size) - 1) * chunk_size < len,
        len <= chunk_count(len, chunk_size) * chunk_size,
{
    let c = chunk_size as int;
    let t = len + c - 1;
    let n = t / c;
    assert(t == c * n + t % c && 0 <= t % c < c) by {
        vstd::arithmetic::div_mod::lemma_fundamental_div_mod(t, c);
        vstd::arithmetic::div_mod::lemma_mod_bound(t, c);
    }
    assert(n >= 0) by {
        vstd::arithmetic::div_mod::lemma_div_pos_is_pos(t, c);
    }
    assert((n - 1) * c == c * n - c) by (nonlinear_arith);
    assert(n * c == c * n) by (nonlinear_arith);
    if len == 0 {
        assert(n == 0) by {
            vstd::arithmetic::div_mod::lemma_basic_div(t, c);
        }
    }
}

/// Chunk `index` starts inside the file exactly when `index` is below the count.
pub proof fn lemma_chunk_progress(len: nat, chunk_size: nat, index: int)
    requires
        chunk_size > 0,
        0 <= index <= chunk_count(len, chunk_size),
    ensures
        chunk_start(chunk_size, index) >= len <==> index == chunk_count(len, chunk_size),
{
    let n = chunk_count(len, chunk_size) as int;
    let c = chunk_size as int;
    lemma_count_brackets(len, chunk_size);
    if index < n {
        assert(index * c <= (n - 1) * c) by (nonlinear_arith)
            requires
                index <= n - 1,
                c > 0,
        ;
    }
}

/// The first `count` chunks of `data`, in order.
pub open spec fn leading_chunks(data: Seq<u8>, chunk_size: nat, count: nat) -> Seq<Seq<u8>> {
    Seq::new(count, |i: int| chunk_at(data, chunk_size, i))
}

/// The first chunks put together are the bytes of the file up to the end of
/// the last of them.
pub proof fn lemma_leading_chunks(data: Seq<u8>, chunk_size: nat, count: nat)
    requires
        chunk_size > 0,
        count <= chunk_count(data.len(), chunk_size),
    ensures
        leading_chunks(data, chunk_size, count).flatten() == data.subrange(
            0,
            if count == 0 {
                0
            } else {
                chunk_end(data.len(), chunk_size, count - 1)
            },
        ),
    decreases count,
{
    if count > 0 {
        let last = count - 1;
        let before = leading_chunks(data, chunk_size, last as nat);
        lemma_leading_chunks(data, chunk_size, last as nat);
        lemma_chunk_bounds(data.len(), chunk_size, last);
        if last > 0 {
            lemma_chunk_bounds(data.len(), chunk_size, last - 1);
        }
        assert(leading_chunks(data, chunk_size, count) =~= before.push(
            chunk_at(data, chunk_size, last),
        ));
        before.lemma_flatten_push(chunk_at(data, chunk_size, last));
    }
}

/// The chunks of a file, put together in order, are the file: no byte is
/// lost, doubled or moved.
pub proof fn lemma_chunks_cover(data: Seq<u8>, chunk_size: nat)
    requires
        chunk_size > 0,
    ensures
        chunks_of(data, chunk_size).flatten() == data,
{
    let count = chunk_count(data.len(), chunk_size);
    lemma_leading_chunks(data, chunk_size, count);
    lemma_count_brackets(data.len(), chunk_size);
    if count > 0 {
        lemma_chunk_bounds(data.len(), chunk_size, count - 1);
    }
}

/// Splits `data` into chunks of `chunk_size` bytes, the last one shorter where
/// the length is no multiple of it. An empty input gives no chunk.
pub fn split_chunks(data: &[u8], chunk_size: usize) -> (chunks: Vec<Vec<u8>>)
    requires
        chunk_size > 0,
    ensures
        buffers_view(chunks@) == chunks_of(data@, chunk_size as nat),
{
    let len: usize = data.len();
    let mut chunks: Vec<Vec<u8>> = Vec::new();
    let mut start: usize = 0;
    proof {
        lemma_chunk_progress(len as nat, chunk_size as nat, 0);
    }
    while start < len
        invariant
            chunk_size > 0,
            len == data@.len(),
            start <= len,
            chunks@.len() <= chunk_count(len as nat, chunk_size as nat),
            start < len ==> start == chunk_start(chunk_size as nat, chunks@.len() as int),
            start == len ==> chunks@.len() == chunk_count(len as nat, chunk_size as nat),
            forall|i: int|
                0 <= i < chunks@.len() ==> (#[trigger] chunks@[i])@ == chunk_at(
                    data@,
                    chunk_size as nat,
                    i,
                ),
        decreases len - start,
    {
        let ghost index = chunks@.len() as int;
        proof {
            lemma_chunk_progress(len as nat, chunk_size as nat, index);
            lemma_chunk_bounds(len as nat, chunk_size as nat, index);
            lemma_chunk_progress(len as nat, chunk_size as nat, index + 1);
            assert((index + 1) * chunk_size == index * chunk_size + chunk_size)
                by (nonlinear_arith);
        }
        let end: usize = if len - start >= chunk_size {
            start + chunk_size
        } else {
            len
        };
        let chunk = vstd::slice::slice_to_vec(vstd::slice::slice_subrange(data, start, end));
        chunks.push(chunk);
        start = end;
    }
    chunks
}

} // verus!
