use vstd::prelude::*;

use crate::consts::MAX_PAYLOAD_LEN;
use crate::framing::{next_seq, seq_after};

verus! {

/// Chunks shorter than this go out stored rather than compressed.
pub const MIN_COMPRESS_LENGTH: usize = 50;

/// What zlib at the default level makes of some bytes; `None` where it fails.
pub uninterp spec fn zlib_of(b: Seq<u8>) -> Option<Seq<u8>>;

/// What zlib inflation makes of some bytes; `None` where they are not a zlib stream.
pub uninterp spec fn unzlib_of(b: Seq<u8>) -> Option<Seq<u8>>;

/// Relies on `flate2::write::ZlibEncoder` at the default level: the output depends on the
/// input alone.
#[verifier::external_body]
fn zlib_compress(b: &[u8]) -> (r: Option<Vec<u8>>)
    ensures
        match r {
            Some(z) => zlib_of(b@) == Some(z@),
            None => zlib_of(b@).is_none(),
        },
{
    let mut encoder = flate2::write::ZlibEncoder::new(Vec::new(), flate2::Compression::default());
    std::io::Write::write_all(&mut encoder, b).ok()?;
    encoder.finish().ok()
}

/// Relies on `flate2::read::ZlibDecoder`: the output depends on the input alone.
#[verifier::external_body]
fn zlib_decompress(b: &[u8]) -> (r: Option<Vec<u8>>)
    ensures
        match r {
            Some(z) => unzlib_of(b@) == Some(z@),
            None => unzlib_of(b@).is_none(),
        },
{
    let mut out = Vec::new();
    std::io::Read::read_to_end(&mut flate2::read::ZlibDecoder::new(b), &mut out).ok()?;
    Some(out)
}

/// Three little-endian bytes of `n`.
pub open spec fn le24(n: nat) -> Seq<u8> {
    seq![(n % 256) as u8, ((n / 256) % 256) as u8, ((n / 65536) % 256) as u8]
}

/// The seven-byte header of a compressed frame: the length of what follows, the sequence
/// id, and the uncompressed length, zero when the data is stored as is.
pub open spec fn comp_header(len: nat, seq: u8, uncompressed: nat) -> Seq<u8> {
    le24(len) + seq![seq] + le24(uncompressed)
}

/// The compressed frame that carries `chunk`: zlib output where the chunk is long enough
/// and the output fits a frame, else the chunk stored.
pub open spec fn comp_frame(chunk: Seq<u8>, seq: u8) -> Seq<u8> {
    let z = zlib_of(chunk);
    if chunk.len() >= MIN_COMPRESS_LENGTH && z is Some && z.unwrap().len() <= MAX_PAYLOAD_LEN {
        comp_header(z.unwrap().len(), seq, chunk.len()) + z.unwrap()
    } else {
        comp_header(chunk.len(), seq, 0) + chunk
    }
}

/// The compressed frames that carry `data` in chunks of `size` bytes, the first with
/// sequence id `seq`.
pub open spec fn comp_frames(data: Seq<u8>, seq: u8, size: nat) -> Seq<u8>
    decreases data.len(),
{
    if data.len() <= size || size == 0 {
        comp_frame(data, seq)
    } else {
        comp_frame(data.subrange(0, size as int), seq) + comp_frames(
            data.subrange(size as int, data.len() as int),
            next_seq(seq),
            size,
        )
    }
}

/// How many compressed frames carry `len` bytes in chunks of `size`.
pub open spec fn comp_frame_count(len: nat, size: nat) -> nat
    decreases len,
{
    if len <= size || size == 0 {
        1
    } else {
        1 + comp_frame_count((len - size) as nat, size)
    }
}

fn le24_bytes(n: usize, out: &mut Vec<u8>)
    requires
        n <= MAX_PAYLOAD_LEN,
    ensures
        final(out)@ == old(out)@ + le24(n as nat),
{
    let ghost before = out@;
    out.push((n % 256) as u8);
    out.push(((n / 256) % 256) as u8);
    out.push(((n / 65536) % 256) as u8);
    proof {
        assert(out@ =~= before + le24(n as nat));
    }
}

fn append(out: &mut Vec<u8>, data: &[u8])
    ensures
        final(out)@ == old(out)@ + data@,
{
    let ghost before = out@;
    let mut i: usize = 0;
    while i < data.len()
        invariant
            i <= data@.len(),
            out@ == before + data@.subrange(0, i as int),
        decreases data@.len() - i,
    {
        out.push(data[i]);
        proof {
            assert(out@ =~= before + data@.subrange(0, i as int + 1));
        }
        i = i + 1;
    }
    proof {
        assert(data@.subrange(0, data@.len() as int) =~= data@);
    }
}

/// Writes the compressed frame that carries `chunk`.
pub fn compress_frame(chunk: &[u8], seq: u8, out: &mut Vec<u8>)
    requires
        chunk@.len() <= MAX_PAYLOAD_LEN,
    ensures
        final(out)@ == old(out)@ + comp_frame(chunk@, seq),
{
    let ghost before = out@;
    if chunk.len() >= MIN_COMPRESS_LENGTH {
        if let Some(z) = zlib_compress(chunk) {
            if z.len() <= MAX_PAYLOAD_LEN {
                le24_bytes(z.len(), out);
                out.push(seq);
                le24_bytes(chunk.len(), out);
                append(out, z.as_slice());
                proof {
                    assert(out@ =~= before + comp_frame(chunk@, seq));
                }
                return;
            }
        }
    }
    le24_bytes(chunk.len(), out);
    out.push(seq);
    le24_bytes(0, out);
    append(out, chunk);
    proof {
        assert(out@ =~= before + comp_frame(chunk@, seq));
    }
}

/// Wraps already framed bytes in compressed frames of at most `size` bytes of input each,
/// the first with sequence id `seq`. Returns the bytes and the next sequence id.
pub fn compress_packets(data: &Vec<u8>, seq: u8, size: usize) -> (r: (Vec<u8>, u8))
    requires
        0 < size <= MAX_PAYLOAD_LEN,
    ensures
        r.0@ == comp_frames(data@, seq, size as nat),
        r.1 == seq_after(seq, comp_frame_count(data@.len(), size as nat)),
{
    let mut out: Vec<u8> = Vec::new();
    let mut pos: usize = 0;
    let mut cur: u8 = seq;
    let ghost mut k: nat = 0;
    let n = data.len();
    proof {
        assert(data@.subrange(0, n as int) =~= data@);
        assert(out@ + comp_frames(data@, seq, size as nat) =~= comp_frames(data@, seq, size as nat));
    }
    while n - pos > size
        invariant
            n == data@.len(),
            pos <= n,
            0 < size <= MAX_PAYLOAD_LEN,
            out@ + comp_frames(data@.subrange(pos as int, n as int), cur, size as nat) == comp_frames(
                data@,
                seq,
                size as nat,
            ),
            comp_frame_count(n as nat, size as nat) == k + comp_frame_count((n - pos) as nat, size as nat),
            cur == seq_after(seq, k),
        decreases n - pos,
    {
        let ghost s = data@.subrange(pos as int, n as int);
        let chunk = crate::command::slice_range(data, pos, pos + size);
        let ghost before = out@;
        compress_frame(chunk.as_slice(), cur, &mut out);
        proof {
            assert(chunk@ =~= s.subrange(0, size as int));
            assert(data@.subrange(pos + size, n as int) =~= s.subrange(size as int, s.len() as int));
            let rest = comp_frames(s.subrange(size as int, s.len() as int), next_seq(cur), size as nat);
            assert(before + comp_frame(chunk@, cur) + rest =~= before + (comp_frame(chunk@, cur) + rest));
            crate::framing::lemma_seq_after_next(seq, k);
            k = k + 1;
        }
        cur = if cur == 255 {
            0
        } else {
            cur + 1
        };
        pos = pos + size;
    }
    let ghost s = data@.subrange(pos as int, n as int);
    let last = crate::command::slice_range(data, pos, n);
    compress_frame(last.as_slice(), cur, &mut out);
    proof {
        assert(last@ =~= s);
        crate::framing::lemma_seq_after_next(seq, k);
    }
    (out, if cur == 255 {
        0
    } else {
        cur + 1
    })
}

/// What reading one compressed frame gives.
#[derive(Debug, Clone, PartialEq, Eq)]
pub enum CompDecoded {
    /// More bytes are needed.
    Incomplete,
    /// The frame carries a sequence id other than the expected one.
    OutOfSync,
    /// The data does not inflate, or inflates to another length than the header gives.
    Corrupt,
    /// The carried bytes, how many bytes the frame took, and the next sequence id.
    Frame(Vec<u8>, usize, u8),
}

/// The length that three little-endian bytes at `o` give.
pub open spec fn le24_at(b: Seq<u8>, o: int) -> nat {
    b[o] as nat + 256 * (b[o + 1] as nat) + 65536 * (b[o + 2] as nat)
}

/// Reading one compressed frame from the start of `b`: `None` for `Incomplete`, and
/// otherwise the carried bytes (or `None` for a corrupt frame) and the frame's length.
pub open spec fn comp_decode(b: Seq<u8>) -> Option<(Option<Seq<u8>>, nat)> {
    if b.len() < 7 || b.len() < 7 + le24_at(b, 0) {
        None
    } else {
        let len = le24_at(b, 0);
        let ulen = le24_at(b, 4);
        let raw = b.subrange(7, 7 + len as int);
        if ulen == 0 {
            Some((Some(raw), 7 + len))
        } else {
            match unzlib_of(raw) {
                Some(d) => if d.len() == ulen {
                    Some((Some(d), 7 + len))
                } else {
                    Some((None, 7 + len))
                },
                None => Some((None, 7 + len)),
            }
        }
    }
}

/// Reads one compressed frame from the start of `b`, which must carry sequence id `seq`.
pub fn decode_compressed(b: &Vec<u8>, seq: u8) -> (r: CompDecoded)
    ensures
        b@.len() >= 4 && b@[3] != seq ==> r == CompDecoded::OutOfSync,
        !(b@.len() >= 4 && b@[3] != seq) ==> match comp_decode(b@) {
            None => r == CompDecoded::Incomplete,
            Some((None, _)) => r == CompDecoded::Corrupt,
            Some((Some(d), n)) => match r {
                CompDecoded::Frame(data, m, s) => data@ == d && m == n && s == next_seq(seq),
                _ => false,
            },
        },
{
    if b.len() >= 4 && b[3] != seq {
        return CompDecoded::OutOfSync;
    }
    if b.len() < 7 {
        return CompDecoded::Incomplete;
    }
    let len: usize = b[0] as usize + 256 * (b[1] as usize) + 65536 * (b[2] as usize);
    let ulen: usize = b[4] as usize + 256 * (b[5] as usize) + 65536 * (b[6] as usize);
    if b.len() - 7 < len {
        return CompDecoded::Incomplete;
    }
    let raw = crate::command::slice_range(b, 7, 7 + len);
    let next: u8 = if seq == 255 {
        0
    } else {
        seq + 1
    };
    if ulen == 0 {
        return CompDecoded::Frame(raw, 7 + len, next);
    }
    match zlib_decompress(raw.as_slice()) {
        Some(d) => {
            if d.len() == ulen {
                CompDecoded::Frame(d, 7 + len, next)
            } else {
                CompDecoded::Corrupt
            }
        },
        None => CompDecoded::Corrupt,
    }
}

} // verus!
