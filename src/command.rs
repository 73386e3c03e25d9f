use vstd::prelude::*;

use crate::consts::{
    COM_STMT_CLOSE, COM_STMT_EXECUTE, COM_STMT_SEND_LONG_DATA,
};

verus! {

/// The two bytes of `x`, least significant first.
pub open spec fn le16(x: u16) -> Seq<u8> {
    seq![(x % 256) as u8, (x / 256) as u8]
}

/// The four bytes of `x`, least significant first.
pub open spec fn le32(x: u32) -> Seq<u8> {
    seq![
        (x % 256) as u8,
        ((x / 256) % 256) as u8,
        ((x / 65536) % 256) as u8,
        (x / 16777216) as u8,
    ]
}

/// A command packet: the command byte followed by its argument bytes.
pub open spec fn command_body(cmd: u8, data: Seq<u8>) -> Seq<u8> {
    seq![cmd] + data
}

/// The body of `COM_STMT_CLOSE` for statement `id`.
pub open spec fn stmt_close_body(id: u32) -> Seq<u8> {
    command_body(COM_STMT_CLOSE, le32(id))
}

/// The body of `COM_STMT_SEND_LONG_DATA` carrying `data` for parameter `idx` of statement `id`.
pub open spec fn long_data_body(id: u32, idx: u16, data: Seq<u8>) -> Seq<u8> {
    command_body(COM_STMT_SEND_LONG_DATA, le32(id) + le16(idx) + data)
}

/// Writes a command packet: the command byte followed by `data`.
pub fn command(cmd: u8, data: &[u8]) -> (r: Vec<u8>)
    ensures
        r@ == command_body(cmd, data@),
{
    let mut body: Vec<u8> = Vec::new();
    body.push(cmd);
    let mut i: usize = 0;
    while i < data.len()
        invariant
            i <= data@.len(),
            body@ == seq![cmd] + data@.subrange(0, i as int),
        decreases data@.len() - i,
    {
        body.push(data[i]);
        proof {
            assert(body@ =~= seq![cmd] + data@.subrange(0, i as int + 1));
        }
        i = i + 1;
    }
    proof {
        assert(data@.subrange(0, data@.len() as int) =~= data@);
    }
    body
}

/// Relies on `mysql_common::packets::ComStmtClose::new`: the command byte, then the
/// statement id in four little-endian bytes.
#[verifier::external_body]
pub(crate) fn stmt_close(id: u32) -> (r: Vec<u8>)
    ensures
        r@ == stmt_close_body(id),
{
    mysql_common::packets::ComStmtClose::new(id).into()
}

/// Relies on `mysql_common::packets::ComStmtSendLongData::new`: the command byte, the
/// statement id in four little-endian bytes, the parameter index in two, then the data.
#[verifier::external_body]
fn send_long_data(id: u32, idx: u16, data: &[u8]) -> (r: Vec<u8>)
    ensures
        r@ == long_data_body(id, idx, data@),
{
    mysql_common::packets::ComStmtSendLongData::new(id, idx as usize, data).into()
}

/// The most bytes of data one `COM_STMT_SEND_LONG_DATA` packet carries: `MAX_PAYLOAD_LEN - 6`.
pub const LONG_DATA_CHUNK: usize = 16777209;

/// How many `COM_STMT_SEND_LONG_DATA` packets carry `len` bytes: one per started chunk,
/// and one empty packet for empty data.
pub open spec fn long_data_count(len: nat) -> nat {
    if len == 0 {
        1
    } else {
        ((len + LONG_DATA_CHUNK - 1) / (LONG_DATA_CHUNK as int)) as nat
    }
}

/// The `k`-th chunk of `data`.
pub open spec fn long_data_chunk(data: Seq<u8>, k: int) -> Seq<u8> {
    let start = k * LONG_DATA_CHUNK;
    let end = if start + LONG_DATA_CHUNK < data.len() {
        start + LONG_DATA_CHUNK
    } else {
        data.len() as int
    };
    data.subrange(start, end)
}

/// Splits a parameter value into the `COM_STMT_SEND_LONG_DATA` packets that carry it
/// ahead of the execute request, each at most `MAX_PAYLOAD_LEN - 6` bytes of data.
pub fn long_data_packets(id: u32, idx: u16, data: &Vec<u8>) -> (r: Vec<Vec<u8>>)
    ensures
        r@.len() == long_data_count(data@.len()),
        forall|k: int|
            0 <= k < r@.len() ==> #[trigger] r@[k]@ == long_data_body(
                id,
                idx,
                long_data_chunk(data@, k),
            ),
{
    let mut r: Vec<Vec<u8>> = Vec::new();
    if data.len() == 0 {
        let empty: Vec<u8> = Vec::new();
        r.push(send_long_data(id, idx, empty.as_slice()));
        proof {
            assert(long_data_chunk(data@, 0) =~= empty@);
        }
        return r;
    }
    let n = data.len();
    let mut start: usize = 0;
    while start < n
        invariant
            n == data@.len(),
            n > 0,
            start <= n,
            start < n ==> start == r@.len() * LONG_DATA_CHUNK,
            start == n ==> r@.len() > 0 && (r@.len() - 1) * LONG_DATA_CHUNK < n && n <= r@.len()
                * LONG_DATA_CHUNK,
            forall|k: int|
                0 <= k < r@.len() ==> #[trigger] r@[k]@ == long_data_body(
                    id,
                    idx,
                    long_data_chunk(data@, k),
                ),
        decreases n - start,
    {
        let end: usize = if n - start > LONG_DATA_CHUNK {
            start + LONG_DATA_CHUNK
        } else {
            n
        };
        let chunk = slice_range(data, start, end);
        let ghost k = r@.len() as int;
        r.push(send_long_data(id, idx, chunk.as_slice()));
        proof {
            assert(chunk@ == long_data_chunk(data@, k));
        }
        start = end;
    }
    proof {
        let c = r@.len();
        assert(long_data_count(n as nat) == c) by (nonlinear_arith)
            requires
                c * LONG_DATA_CHUNK >= n,
                (c - 1) * LONG_DATA_CHUNK < n,
                n > 0,
                c > 0,
                long_data_count(n as nat) == ((n + LONG_DATA_CHUNK - 1) / (LONG_DATA_CHUNK as int)) as nat,
        ;
    }
    r
}

/// Copies `data[start..end]`.
pub fn slice_range(data: &Vec<u8>, start: usize, end: usize) -> (r: Vec<u8>)
    requires
        start <= end <= data@.len(),
    ensures
        r@ == data@.subrange(start as int, end as int),
{
    let mut r: Vec<u8> = Vec::with_capacity(end - start);
    let mut i: usize = start;
    while i < end
        invariant
            start <= i <= end,
            end <= data@.len(),
            r@ == data@.subrange(start as int, i as int),
        decreases end - i,
    {
        r.push(data[i]);
        proof {
            assert(r@ =~= data@.subrange(start as int, i as int + 1));
        }
        i = i + 1;
    }
    r
}

/// The fixed head of a `COM_STMT_EXECUTE` body for statement `id`: the command byte, the
/// statement id, no cursor flags, an iteration count of one.
pub open spec fn execute_head(id: u32) -> Seq<u8> {
    command_body(COM_STMT_EXECUTE, le32(id) + seq![0u8, 1u8, 0u8, 0u8, 0u8])
}

/// Bytes of the null bitmap of an execute request over `n` parameters.
pub open spec fn exec_bitmap_len(n: nat) -> nat {
    (n + 7) / 8
}

/// Relies on `mysql_common::packets::ComStmtExecuteRequestBuilder`: the body starts with
/// the fixed head; without parameters it is the head alone and nothing goes as long data;
/// with `n` parameters a null bitmap of `(n + 7) / 8` bytes, the new-params-bound flag and
/// two type bytes per parameter follow. It counts parameters in a `u16`.
#[verifier::external_body]
pub(crate) fn build_execute(id: u32, params: &Vec<mysql_common::value::Value>) -> (r: (Vec<u8>, bool))
    requires
        params@.len() <= 65535,
    ensures
        r.0@.len() >= 10,
        r.0@.subrange(0, 10) == execute_head(id),
        params@.len() == 0 ==> r.0@ == execute_head(id) && !r.1,
        params@.len() > 0 ==> r.0@.len() >= 10 + exec_bitmap_len(params@.len()) + 1 + 2
            * params@.len() && r.0@[10 + exec_bitmap_len(params@.len()) as int] == 1,
{
    mysql_common::packets::ComStmtExecuteRequestBuilder::new(id).build(params)
}

} // verus!
