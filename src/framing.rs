use vstd::prelude::*;

use crate::consts::MAX_PAYLOAD_LEN;

verus! {

/// The sequence id that follows `s`; it wraps from 255 to 0.
pub open spec fn next_seq(s: u8) -> u8 {
    if s == 255 {
        0
    } else {
        (s + 1) as u8
    }
}

/// The sequence id `n` frames after `s`.
pub open spec fn seq_after(s: u8, n: nat) -> u8 {
    ((s as nat + n) % 256) as u8
}

/// The four-byte frame header: payload length in three little-endian bytes, then the
/// sequence id.
pub open spec fn frame_header(len: nat, seq: u8) -> Seq<u8> {
    seq![(len % 256) as u8, ((len / 256) % 256) as u8, ((len / 65536) % 256) as u8, seq]
}

/// The length that the first three bytes of a header give.
pub open spec fn header_len(b: Seq<u8>) -> nat {
    b[0] as nat + 256 * (b[1] as nat) + 65536 * (b[2] as nat)
}

/// How many frames carry a payload of `len` bytes: a frame of the largest size always
/// has a successor, so a multiple of that size ends with an empty frame.
pub open spec fn frame_count(len: nat) -> nat {
    len / (MAX_PAYLOAD_LEN as nat) + 1
}

/// The frames that carry `payload`, the first with sequence id `seq`.
pub open spec fn frames(payload: Seq<u8>, seq: u8) -> Seq<u8>
    decreases payload.len(),
{
    if payload.len() < MAX_PAYLOAD_LEN {
        frame_header(payload.len(), seq) + payload
    } else {
        frame_header(MAX_PAYLOAD_LEN as nat, seq) + payload.subrange(0, MAX_PAYLOAD_LEN as int)
            + frames(payload.subrange(MAX_PAYLOAD_LEN as int, payload.len() as int), next_seq(seq))
    }
}

/// What reading one packet from buffered bytes gives.
#[derive(Debug, Clone, PartialEq, Eq)]
pub enum Decoded {
    /// More bytes are needed.
    Incomplete,
    /// A frame carries a sequence id other than the expected one.
    OutOfSync,
    /// The payload, how many bytes its frames took, and the sequence id expected next.
    Packet(Vec<u8>, usize, u8),
}

/// Reading one packet, as plain values.
pub enum DecodedSpec {
    Incomplete,
    OutOfSync,
    Packet(Seq<u8>, nat, u8),
}

pub open spec fn decoded_view(d: Decoded) -> DecodedSpec {
    match d {
        Decoded::Incomplete => DecodedSpec::Incomplete,
        Decoded::OutOfSync => DecodedSpec::OutOfSync,
        Decoded::Packet(p, n, s) => DecodedSpec::Packet(p@, n as nat, s),
    }
}

/// Reads one packet from the start of `b`, whose first frame must carry sequence id `seq`.
pub open spec fn decode(b: Seq<u8>, seq: u8) -> DecodedSpec
    decreases b.len(),
{
    if b.len() < 4 {
        DecodedSpec::Incomplete
    } else if b[3] != seq {
        DecodedSpec::OutOfSync
    } else if b.len() < 4 + header_len(b) {
        DecodedSpec::Incomplete
    } else {
        let len = header_len(b);
        let body = b.subrange(4, 4 + len as int);
        if len < MAX_PAYLOAD_LEN {
            DecodedSpec::Packet(body, 4 + len, next_seq(seq))
        } else {
            prepend(body, 4 + len, decode(b.subrange(4 + len as int, b.len() as int), next_seq(seq)))
        }
    }
}

/// A packet read after `n` bytes that carried `front`.
pub open spec fn prepend(front: Seq<u8>, n: nat, d: DecodedSpec) -> DecodedSpec {
    match d {
        DecodedSpec::Packet(p, m, s) => DecodedSpec::Packet(front + p, n + m, s),
        other => other,
    }
}

proof fn lemma_header(len: nat, seq: u8)
    requires
        len <= MAX_PAYLOAD_LEN,
    ensures
        frame_header(len, seq).len() == 4,
        header_len(frame_header(len, seq)) == len,
        frame_header(len, seq)[3] == seq,
{
    let h = frame_header(len, seq);
    assert(h[0] as nat == len % 256);
    assert(h[1] as nat == (len / 256) % 256);
    assert(h[2] as nat == (len / 65536) % 256);
}

proof fn lemma_frames_len(payload: Seq<u8>, seq: u8)
    ensures
        frames(payload, seq).len() == payload.len() + 4 * frame_count(payload.len()),
    decreases payload.len(),
{
    if payload.len() >= MAX_PAYLOAD_LEN {
        let rest = payload.subrange(MAX_PAYLOAD_LEN as int, payload.len() as int);
        lemma_frames_len(rest, next_seq(seq));
        assert(frame_count(payload.len()) == frame_count(rest.len()) + 1);
    }
}

proof fn lemma_decode_frame(body: Seq<u8>, seq: u8, after: Seq<u8>)
    requires
        body.len() <= MAX_PAYLOAD_LEN,
    ensures
        decode(frame_header(body.len(), seq) + body + after, seq) == if body.len()
            < MAX_PAYLOAD_LEN {
            DecodedSpec::Packet(body, 4 + body.len(), next_seq(seq))
        } else {
            prepend(body, 4 + body.len(), decode(after, next_seq(seq)))
        },
{
    let h = frame_header(body.len(), seq);
    let b = h + body + after;
    lemma_header(body.len(), seq);
    assert(b[0] == h[0] && b[1] == h[1] && b[2] == h[2] && b[3] == h[3]);
    assert(header_len(b) == header_len(h));
    assert(b.subrange(4, 4 + body.len() as int) =~= body);
    assert(b.subrange(4 + body.len() as int, b.len() as int) =~= after);
}

/// One more frame advances the sequence id once more.
pub proof fn lemma_seq_after_next(seq: u8, n: nat)
    ensures
        next_seq(seq_after(seq, n)) == seq_after(seq, n + 1),
{
}

proof fn lemma_seq_after_step(seq: u8, n: nat)
    ensures
        seq_after(next_seq(seq), n) == seq_after(seq, n + 1),
{
}

/// Reading back the frames of any payload, followed by any bytes, gives the payload, the
/// length of its frames, and the sequence id one past each frame.
#[verifier::rlimit(60)]
#[verifier::spinoff_prover]
pub proof fn lemma_frames_round_trip(payload: Seq<u8>, seq: u8, rest: Seq<u8>)
    ensures
        decode(frames(payload, seq) + rest, seq) == DecodedSpec::Packet(
            payload,
            frames(payload, seq).len(),
            seq_after(seq, frame_count(payload.len())),
        ),
    decreases payload.len(),
{
    if payload.len() < MAX_PAYLOAD_LEN {
        lemma_decode_frame(payload, seq, rest);
        lemma_header(payload.len(), seq);
        assert(frame_count(payload.len()) == 1);
    } else {
        let m = MAX_PAYLOAD_LEN as int;
        let head = payload.subrange(0, m);
        let tail = payload.subrange(m, payload.len() as int);
        let h = frame_header(MAX_PAYLOAD_LEN as nat, seq);
        let f = frames(tail, next_seq(seq));
        assert(frames(payload, seq) == h + head + f);
        assert(h + head + f + rest =~= h + head + (f + rest));
        lemma_decode_frame(head, seq, f + rest);
        lemma_frames_round_trip(tail, next_seq(seq), rest);
        assert(head + tail =~= payload);
        lemma_header(MAX_PAYLOAD_LEN as nat, seq);
        assert(frame_count(payload.len()) == frame_count(tail.len()) + 1);
        lemma_seq_after_step(seq, frame_count(tail.len()));
    }
}

/// A payload of exactly the largest frame size goes out as one full frame followed by an
/// empty one, and reads back unchanged.
pub proof fn lemma_max_payload_frames(payload: Seq<u8>, seq: u8)
    requires
        payload.len() == MAX_PAYLOAD_LEN,
    ensures
        frames(payload, seq) == frame_header(MAX_PAYLOAD_LEN as nat, seq) + payload
            + frame_header(0, next_seq(seq)),
        decode(frames(payload, seq), seq) == DecodedSpec::Packet(
            payload,
            payload.len() + 8,
            seq_after(seq, 2),
        ),
{
    let m = MAX_PAYLOAD_LEN as int;
    let tail = payload.subrange(m, m);
    assert(tail =~= Seq::<u8>::empty());
    assert(payload.subrange(0, m) =~= payload);
    assert(frames(tail, next_seq(seq)) =~= frame_header(0, next_seq(seq)));
    lemma_frames_round_trip(payload, seq, Seq::empty());
    assert(frames(payload, seq) + Seq::<u8>::empty() =~= frames(payload, seq));
    lemma_frames_len(payload, seq);
    assert(frame_count(payload.len()) == 2);
}

/// Writes the header of a frame that carries `len` bytes with sequence id `seq`.
pub fn frame_header_bytes(len: usize, seq: u8) -> (r: Vec<u8>)
    requires
        len <= MAX_PAYLOAD_LEN,
    ensures
        r@ == frame_header(len as nat, seq),
{
    let r = vec![(len % 256) as u8, ((len / 256) % 256) as u8, ((len / 65536) % 256) as u8, seq];
    proof {
        assert(r@ =~= frame_header(len as nat, seq));
    }
    r
}

fn next_seq_id(s: u8) -> (r: u8)
    ensures
        r == next_seq(s),
{
    if s == 255 {
        0
    } else {
        s + 1
    }
}

proof fn lemma_encode_step(payload: Seq<u8>, pos: nat, len: nat, cur: u8, before: Seq<u8>)
    requires
        pos <= payload.len(),
        len == if payload.len() - pos < MAX_PAYLOAD_LEN {
            (payload.len() - pos) as nat
        } else {
            MAX_PAYLOAD_LEN as nat
        },
    ensures
        ({
            let s = payload.subrange(pos as int, payload.len() as int);
            let out = before + frame_header(len, cur) + payload.subrange(pos as int, (pos + len) as int);
            &&& len < MAX_PAYLOAD_LEN ==> out == before + frames(s, cur) && frame_count(s.len())
                == 1
            &&& len >= MAX_PAYLOAD_LEN ==> out + frames(
                payload.subrange((pos + len) as int, payload.len() as int),
                next_seq(cur),
            ) == before + frames(s, cur) && frame_count(s.len()) == frame_count(
                (payload.len() - pos - len) as nat,
            ) + 1
        }),
{
    let s = payload.subrange(pos as int, payload.len() as int);
    let h = frame_header(len, cur);
    assert(payload.subrange(pos as int, (pos + len) as int) =~= s.subrange(0, len as int));
    if len < MAX_PAYLOAD_LEN {
        assert(s.subrange(0, len as int) =~= s);
    } else {
        let m = MAX_PAYLOAD_LEN as int;
        assert(payload.subrange((pos + len) as int, payload.len() as int) =~= s.subrange(m, s.len() as int));
        let f = frames(s.subrange(m, s.len() as int), next_seq(cur));
        assert(before + h + s.subrange(0, m) + f =~= before + (h + s.subrange(0, m) + f));
    }
}

/// Frames a logical payload for the wire, the first frame carrying sequence id `seq`.
///
/// Returns the bytes to send and the sequence id that the next frame carries.
pub fn encode_packet(payload: &Vec<u8>, seq: u8) -> (r: (Vec<u8>, u8))
    ensures
        r.0@ == frames(payload@, seq),
        r.1 == seq_after(seq, frame_count(payload@.len())),
{
    let n = payload.len();
    let mut out: Vec<u8> = Vec::new();
    let mut pos: usize = 0;
    let mut cur: u8 = seq;
    let mut done = false;
    let ghost mut k: nat = 0;
    proof {
        assert(payload@.subrange(0, n as int) =~= payload@);
        assert(out@ + frames(payload@, seq) =~= frames(payload@, seq));
    }
    while !done
        invariant
            n == payload@.len(),
            pos <= n,
            !done ==> out@ + frames(payload@.subrange(pos as int, n as int), cur) == frames(
                payload@,
                seq,
            ),
            !done ==> frame_count(n as nat) == k + frame_count((n - pos) as nat),
            done ==> out@ == frames(payload@, seq) && frame_count(n as nat) == k,
            cur == seq_after(seq, k),
        decreases n - pos + (if done { 0int } else { 1int }),
    {
        let ghost s = payload@.subrange(pos as int, n as int);
        let len: usize = if n - pos < MAX_PAYLOAD_LEN {
            n - pos
        } else {
            MAX_PAYLOAD_LEN
        };
        let header = frame_header_bytes(len, cur);
        let ghost before = out@;
        let mut i: usize = 0;
        while i < 4
            invariant
                header@.len() == 4,
                i <= 4,
                out@ == before + header@.subrange(0, i as int),
            decreases 4 - i,
        {
            out.push(header[i]);
            proof {
                assert(out@ =~= before + header@.subrange(0, i as int + 1));
            }
            i = i + 1;
        }
        let mut j: usize = pos;
        while j < pos + len
            invariant
                pos + len <= n,
                n == payload@.len(),
                pos <= j <= pos + len,
                header@.len() == 4,
                out@ == before + header@ + payload@.subrange(pos as int, j as int),
            decreases pos + len - j,
        {
            out.push(payload[j]);
            proof {
                assert(out@ =~= before + header@ + payload@.subrange(pos as int, j as int + 1));
            }
            j = j + 1;
        }
        proof {
            assert(header@.subrange(0, 4) =~= header@);
            lemma_encode_step(payload@, pos as nat, len as nat, cur, before);
            lemma_seq_after_step(seq, k);
            k = k + 1;
        }
        cur = next_seq_id(cur);
        pos = pos + len;
        if len < MAX_PAYLOAD_LEN {
            done = true;
        }
    }
    (out, cur)
}

/// Reads one packet from the start of `b`, whose first frame must carry sequence id `seq`.
pub fn decode_packet(b: &Vec<u8>, seq: u8) -> (r: Decoded)
    ensures
        decoded_view(r) == decode(b@, seq),
{
    let n = b.len();
    let mut acc: Vec<u8> = Vec::new();
    let mut pos: usize = 0;
    let mut cur: u8 = seq;
    proof {
        assert(b@.subrange(0, n as int) =~= b@);
        match decode(b@, seq) {
            DecodedSpec::Packet(p, m, s2) => {
                assert(acc@ + p =~= p);
            },
            _ => {},
        }
    }
    loop
        invariant
            n == b@.len(),
            pos <= n,
            decode(b@, seq) == prepend(acc@, pos as nat, decode(b@.subrange(pos as int, n as int), cur)),
        decreases n - pos,
    {
        let ghost rest = b@.subrange(pos as int, n as int);
        if n - pos < 4 {
            return Decoded::Incomplete;
        }
        if b[pos + 3] != cur {
            proof {
                assert(rest[3] == b@[pos + 3]);
            }
            return Decoded::OutOfSync;
        }
        let len: usize = b[pos] as usize + 256 * (b[pos + 1] as usize) + 65536 * (b[pos + 2] as usize);
        proof {
            assert(rest[0] == b@[pos as int] && rest[1] == b@[pos + 1] && rest[2] == b@[pos + 2]);
            assert(header_len(rest) == len);
        }
        if n - pos - 4 < len {
            return Decoded::Incomplete;
        }
        let ghost before = acc@;
        let mut j: usize = pos + 4;
        while j < pos + 4 + len
            invariant
                pos + 4 + len <= n,
                n == b@.len(),
                pos + 4 <= j <= pos + 4 + len,
                acc@ == before + b@.subrange(pos + 4, j as int),
            decreases pos + 4 + len - j,
        {
            acc.push(b[j]);
            proof {
                assert(acc@ =~= before + b@.subrange(pos + 4, j as int + 1));
            }
            j = j + 1;
        }
        proof {
            assert(b@.subrange(pos + 4, pos + 4 + len) =~= rest.subrange(4, 4 + len as int));
            assert(b@.subrange(pos + 4 + len, n as int) =~= rest.subrange(4 + len as int, rest.len() as int));
            let d = decode(b@.subrange(pos + 4 + len, n as int), next_seq(cur));
            match d {
                DecodedSpec::Packet(p, m, s2) => {
                    assert(before + (rest.subrange(4, 4 + len as int) + p) =~= acc@ + p);
                },
                _ => {},
            }
        }
        if len < MAX_PAYLOAD_LEN {
            return Decoded::Packet(acc, pos + 4 + len, next_seq_id(cur));
        }
        pos = pos + 4 + len;
        cur = next_seq_id(cur);
    }
}

} // verus!
