use vstd::prelude::*;

verus! {

/// The unsigned little-endian integer that the bytes of `s` spell.
pub open spec fn le_value(s: Seq<u8>) -> nat
    decreases s.len(),
{
    if s.len() == 0 {
        0
    } else {
        s[0] as nat + 256 * le_value(s.subrange(1, s.len() as int))
    }
}

/// 256 to the power `n`.
pub open spec fn byte_bound(n: nat) -> nat
    decreases n,
{
    if n == 0 {
        1
    } else {
        256 * byte_bound((n - 1) as nat)
    }
}

proof fn lemma_le_value_bound(s: Seq<u8>)
    ensures
        le_value(s) < byte_bound(s.len()),
    decreases s.len(),
{
    if s.len() > 0 {
        lemma_le_value_bound(s.subrange(1, s.len() as int));
    }
}

proof fn lemma_byte_bound_mono(a: nat, b: nat)
    requires
        a <= b,
    ensures
        byte_bound(a) <= byte_bound(b),
    decreases b,
{
    if a < b {
        lemma_byte_bound_mono(a, (b - 1) as nat);
    }
}

/// How many bytes follow the first byte of a length-encoded integer, or `None` if the
/// first byte starts none.
pub open spec fn lenenc_width(first: u8) -> Option<nat> {
    if first < 0xfc {
        Some(0)
    } else if first == 0xfc {
        Some(2)
    } else if first == 0xfd {
        Some(3)
    } else if first == 0xfe {
        Some(8)
    } else {
        None
    }
}

/// The length-encoded integer at the start of `b` and how many bytes it takes.
pub open spec fn lenenc_spec(b: Seq<u8>) -> Option<(nat, nat)> {
    if b.len() == 0 {
        None
    } else {
        match lenenc_width(b[0]) {
            None => None,
            Some(w) => if w == 0 {
                Some((b[0] as nat, 1))
            } else if b.len() < 1 + w {
                None
            } else {
                Some((le_value(b.subrange(1, 1 + w as int)), 1 + w))
            },
        }
    }
}

/// Reads the length-encoded integer at the start of `b`: the value and the number of
/// bytes it takes, or `None` if `b` does not start with a complete one.
pub fn read_lenenc_int(b: &Vec<u8>) -> (r: Option<(u64, usize)>)
    ensures
        match lenenc_spec(b@) {
            None => r.is_none(),
            Some((v, n)) => r == Some((v as u64, n as usize)) && v < 0x1_0000_0000_0000_0000,
        },
{
    if b.len() == 0 {
        return None;
    }
    let first = b[0];
    if first < 0xfc {
        return Some((first as u64, 1));
    }
    let w: usize = if first == 0xfc {
        2
    } else if first == 0xfd {
        3
    } else if first == 0xfe {
        8
    } else {
        return None;
    };
    if b.len() < 1 + w {
        return None;
    }
    let mut v: u64 = 0;
    let mut i: usize = w;
    proof {
        reveal_with_fuel(byte_bound, 9);
        assert(b@.subrange(w as int + 1, w as int + 1) =~= Seq::<u8>::empty());
    }
    while i > 0
        invariant
            w <= 8,
            1 + w <= b@.len(),
            i <= w,
            v == le_value(b@.subrange(i as int + 1, w as int + 1)),
            v < byte_bound((w - i) as nat),
            byte_bound(8) == 0x1_0000_0000_0000_0000,
        decreases i,
    {
        let ghost tail = b@.subrange(i as int + 1, w as int + 1);
        let ghost next = b@.subrange(i as int, w as int + 1);
        proof {
            assert(next.subrange(1, next.len() as int) =~= tail);
            lemma_byte_bound_mono((w - i + 1) as nat, 8);
        }
        v = v * 256 + b[i] as u64;
        i = i - 1;
    }
    proof {
        lemma_le_value_bound(b@.subrange(1, 1 + w as int));
        lemma_byte_bound_mono(w as nat, 8);
    }
    Some((v, 1 + w))
}

/// Reads the length-encoded integer that starts at offset `o` of `b`.
pub fn read_lenenc_int_at(b: &Vec<u8>, o: usize) -> (r: Option<(u64, usize)>)
    requires
        o <= b@.len(),
    ensures
        match lenenc_spec(b@.subrange(o as int, b@.len() as int)) {
            None => r.is_none(),
            Some((v, n)) => r == Some((v as u64, n as usize)) && v < 0x1_0000_0000_0000_0000,
        },
{
    let rest = slice_from(b, o);
    read_lenenc_int(&rest)
}

fn slice_from(b: &Vec<u8>, o: usize) -> (r: Vec<u8>)
    requires
        o <= b@.len(),
    ensures
        r@ == b@.subrange(o as int, b@.len() as int),
{
    let mut r: Vec<u8> = Vec::new();
    let mut i: usize = o;
    while i < b.len()
        invariant
            o <= i <= b@.len(),
            r@ == b@.subrange(o as int, i as int),
        decreases b@.len() - i,
    {
        r.push(b[i]);
        proof {
            assert(r@ =~= b@.subrange(o as int, i as int + 1));
        }
        i = i + 1;
    }
    r
}

} // verus!
