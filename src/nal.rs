use vstd::prelude::*;

verus! {

/// A four-byte Annex-B start code `00 00 00 01` begins at position `i`.
pub open spec fn is_start(s: Seq<u8>, i: int) -> bool {
    0 <= i && i + 4 <= s.len() && s[i] == 0 && s[i + 1] == 0 && s[i + 2] == 0 && s[i + 3] == 1
}

/// Position of the first start code at or after `i`, or the length when none follows.
pub open spec fn next_start(s: Seq<u8>, i: int) -> int
    decreases s.len() - i,
{
    if i + 4 > s.len() {
        s.len() as int
    } else if is_start(s, i) {
        i
    } else {
        next_start(s, i + 1)
    }
}

/// Big-endian four-byte encoding of `n`.
pub open spec fn be32(n: int) -> Seq<u8> {
    seq![
        ((n / 0x1000000) % 0x100) as u8,
        ((n / 0x10000) % 0x100) as u8,
        ((n / 0x100) % 0x100) as u8,
        (n % 0x100) as u8,
    ]
}

pub proof fn lemma_next_start(s: Seq<u8>, i: int)
    requires
        0 <= i,
    ensures
        i <= next_start(s, i) || next_start(s, i) == s.len(),
        next_start(s, i) <= s.len() || i > s.len(),
        next_start(s, i) < s.len() ==> is_start(s, next_start(s, i)),
        forall|j: int| i <= j < next_start(s, i) ==> !is_start(s, j),
    decreases s.len() - i,
{
    if i + 4 <= s.len() && !is_start(s, i) {
        lemma_next_start(s, i + 1);
    }
}

#[via_fn]
proof fn avcc_from_decreases(s: Seq<u8>, i: int) {
    if 0 <= i <= s.len() {
        lemma_next_start(s, i);
    }
}

/// AVCC form of the NAL units that follow position `i`, which lies just after a start code:
/// each unit, up to the next start code or the end, becomes its length in four big-endian
/// bytes followed by its bytes.
pub open spec fn avcc_from(s: Seq<u8>, i: int) -> Seq<u8>
    decreases s.len() - i,
    via avcc_from_decreases
{
    if 0 <= i <= s.len() {
        let e = next_start(s, i);
        be32(e - i) + s.subrange(i, e) + if e < s.len() {
            avcc_from(s, e + 4)
        } else {
            Seq::<u8>::empty()
        }
    } else {
        Seq::<u8>::empty()
    }
}

/// AVCC form of a whole Annex-B stream; bytes before the first start code are dropped.
pub open spec fn annexb_as_avcc(s: Seq<u8>) -> Seq<u8> {
    let f = next_start(s, 0);
    if f < s.len() {
        avcc_from(s, f + 4)
    } else {
        Seq::<u8>::empty()
    }
}

fn find_start(data: &[u8], from: usize) -> (r: usize)
    requires
        from <= data@.len(),
    ensures
        r as int == next_start(data@, from as int),
        from <= r <= data@.len(),
{
    proof {
        lemma_next_start(data@, from as int);
    }
    let n = data.len();
    let mut i = from;
    while 4 <= n - i
        invariant
            n == data@.len(),
            from <= i <= n,
            next_start(data@, i as int) == next_start(data@, from as int),
        decreases n - i,
    {
        if data[i] == 0 && data[i + 1] == 0 && data[i + 2] == 0 && data[i + 3] == 1 {
            return i;
        }
        i = i + 1;
    }
    n
}

fn push_be32(out: &mut Vec<u8>, n: u32)
    ensures
        final(out)@ == old(out)@ + be32(n as int),
{
    out.push((n / 0x1000000) as u8);
    out.push(((n / 0x10000) % 0x100) as u8);
    out.push(((n / 0x100) % 0x100) as u8);
    out.push((n % 0x100) as u8);
    proof {
        assert((n / 0x1000000) % 0x100 == n / 0x1000000);
        assert(final(out)@ =~= old(out)@ + be32(n as int));
    }
}

/// Converts an Annex-B byte stream (units separated by `00 00 00 01`) to AVCC form (each unit
/// prefixed with its length in four big-endian bytes).
pub fn annexb_to_avcc(data: &[u8]) -> (out: Vec<u8>)
    requires
        data@.len() <= u32::MAX,
    ensures
        out@ == annexb_as_avcc(data@),
{
    let ghost s = data@;
    let n = data.len();
    let mut out: Vec<u8> = Vec::new();
    proof {
        lemma_next_start(s, 0);
    }
    let mut i = find_start(data, 0);
    while i < n
        invariant
            n == s.len(),
            s == data@,
            n <= u32::MAX,
            i <= n,
            i < n ==> is_start(s, i as int),
            out@ + (if i < n {
                avcc_from(s, i + 4)
            } else {
                Seq::<u8>::empty()
            }) == annexb_as_avcc(s),
        decreases n - i,
    {
        proof {
            lemma_next_start(s, 0);
        }
        let start = i + 4;
        let e = find_start(data, start);
        proof {
            lemma_next_start(s, start as int);
        }
        let ghost out0 = out@;
        push_be32(&mut out, (e - start) as u32);
        let mut j = start;
        while j < e
            invariant
                start <= j <= e,
                e <= n,
                n == data@.len(),
                out@ == out0 + be32(e - start) + data@.subrange(start as int, j as int),
            decreases e - j,
        {
            out.push(data[j]);
            proof {
                assert(out@ =~= out0 + be32(e - start) + data@.subrange(start as int, j + 1));
            }
            j = j + 1;
        }
        proof {
            let rest = if e < n {
                avcc_from(s, e + 4)
            } else {
                Seq::<u8>::empty()
            };
            assert(avcc_from(s, start as int) == be32(e - start) + s.subrange(start as int, e as int)
                + rest);
            assert(out@ + rest =~= out0 + avcc_from(s, start as int));
        }
        i = e;
    }
    proof {
        assert(out@ + Seq::<u8>::empty() =~= out@);
    }
    out
}

} // verus!
