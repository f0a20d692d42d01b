//! Variable-length integer encoding: unsigned VLQ (base-128, little-endian
//! groups, continuation bit) and zig-zag mapping for signed integers.

use vstd::prelude::*;

verus! {

/// Zig-zag mapping of a signed 64-bit integer onto an unsigned one:
/// `0, -1, 1, -2, 2, ...` become `0, 1, 2, 3, 4, ...`.
pub open spec fn zigzag(v: i64) -> u64 {
    if v >= 0 {
        (2 * v) as u64
    } else {
        (-2 * (v as int) - 1) as u64
    }
}

/// Inverse of [`zigzag`].
pub open spec fn unzigzag(u: u64) -> i64 {
    if u % 2 == 0 {
        (u / 2) as i64
    } else {
        (-((u as int + 1) / 2)) as i64
    }
}

/// The zig-zag mapping round-trips.
pub proof fn lemma_zigzag_roundtrip(v: i64)
    ensures
        unzigzag(zigzag(v)) == v,
{
}

/// Zig-zag encodes a signed 64-bit integer.
pub fn zigzag_encode(v: i64) -> (r: u64)
    ensures
        r == zigzag(v),
{
    if v >= 0 {
        2 * (v as u64)
    } else {
        2 * ((-(v + 1)) as u64) + 1
    }
}

/// Zig-zag decodes back to a signed 64-bit integer.
pub fn zigzag_decode(u: u64) -> (r: i64)
    ensures
        r == unzigzag(u),
{
    if u % 2 == 0 {
        (u / 2) as i64
    } else {
        -((u / 2) as i64) - 1
    }
}

/// The VLQ encoding of an unsigned 64-bit integer: low seven bits first,
/// continuation bit `0x80` on every byte but the last.
pub open spec fn vlq_bytes(v: u64) -> Seq<u8>
    decreases v,
{
    if v < 128 {
        seq![v as u8]
    } else {
        seq![(v % 128 + 128) as u8] + vlq_bytes(v / 128)
    }
}

/// A VLQ encoding is never empty.
pub proof fn lemma_vlq_bytes_len(v: u64)
    ensures
        1 <= vlq_bytes(v).len(),
{
}

/// Parsing a VLQ integer from `b` at `pos`: the value and the position one
/// past its last byte, or nothing when the input is exhausted or the value
/// would not fit in 64 bits.
pub open spec fn parse_vlq(b: Seq<u8>, pos: int) -> Option<(u64, int)>
    decreases b.len() - pos,
{
    if pos < 0 || pos >= b.len() {
        Option::None
    } else {
        let byte = b[pos];
        if byte < 128 {
            Option::Some((byte as u64, pos + 1))
        } else {
            match parse_vlq(b, pos + 1) {
                Option::None => Option::None,
                Option::Some((hi, p2)) => if 128 * hi + (byte - 128) <= u64::MAX {
                    Option::Some(((128 * hi + (byte - 128)) as u64, p2))
                } else {
                    Option::None
                },
            }
        }
    }
}

/// A successful VLQ parse consumes at least one byte and stays in bounds.
pub proof fn lemma_parse_vlq_progress(b: Seq<u8>, pos: int)
    ensures
        parse_vlq(b, pos) matches Option::Some(r) ==> pos < r.1 <= b.len(),
    decreases b.len() - pos,
{
    if 0 <= pos < b.len() && b[pos] >= 128 {
        lemma_parse_vlq_progress(b, pos + 1);
    }
}

/// Parsing right after writing gives the value back: wherever the bytes of
/// `vlq_bytes(v)` stand in `b`, parsing at their start yields `v` and stops
/// right after them.
pub proof fn lemma_vlq_roundtrip(b: Seq<u8>, pos: int, v: u64)
    requires
        0 <= pos,
        pos + vlq_bytes(v).len() <= b.len(),
        b.subrange(pos, pos + vlq_bytes(v).len() as int) == vlq_bytes(v),
    ensures
        parse_vlq(b, pos) == Option::Some((v, pos + vlq_bytes(v).len() as int)),
    decreases v,
{
    let w = vlq_bytes(v);
    assert(b[pos] == w[0]);
    if v < 128 {
        assert(w[0] == v as u8);
    } else {
        let rest = vlq_bytes(v / 128);
        assert(w[0] == (v % 128 + 128) as u8);
        assert(b[pos] >= 128);
        assert(b.subrange(pos + 1, pos + 1 + rest.len() as int) =~= rest) by {
            assert(forall|i: int|
                0 <= i < rest.len() ==> #[trigger] b.subrange(
                    pos + 1,
                    pos + 1 + rest.len() as int,
                )[i] == w[i + 1]);
        }
        lemma_vlq_roundtrip(b, pos + 1, v / 128);
        assert(128 * (v / 128) + (b[pos] - 128) == v);
    }
}

/// Appends the VLQ encoding of `v` to `out`.
pub fn write_vlq(out: &mut Vec<u8>, v: u64)
    ensures
        final(out)@ == old(out)@ + vlq_bytes(v),
    decreases v,
{
    if v < 128 {
        out.push(v as u8);
        proof {
            assert(final(out)@ =~= old(out)@ + vlq_bytes(v));
        }
    } else {
        out.push((v % 128 + 128) as u8);
        write_vlq(out, v / 128);
        proof {
            assert(final(out)@ =~= old(out)@ + vlq_bytes(v));
        }
    }
}

/// Reads a VLQ integer from `b` at `*pos`, advancing `*pos` past it.
/// Returns nothing exactly when the spec parse does.
pub fn read_vlq(b: &Vec<u8>, pos: &mut usize) -> (r: Option<u64>)
    requires
        *old(pos) <= b@.len(),
    ensures
        match parse_vlq(b@, *old(pos) as int) {
            Option::Some(sv) => r == Option::Some(sv.0) && *final(pos) == sv.1 && *final(pos) <= b@.len(),
            Option::None => r is None && *final(pos) == *old(pos),
        },
    decreases b@.len() - *old(pos),
{
    if *pos >= b.len() {
        return None;
    }
    let byte = b[*pos];
    if byte < 128 {
        *pos = *pos + 1;
        Some(byte as u64)
    } else {
        let saved = *pos;
        *pos = *pos + 1;
        match read_vlq(b, pos) {
            None => {
                *pos = saved;
                None
            },
            Some(hi) => {
                let low = (byte - 128) as u64;
                if hi <= (u64::MAX - low) / 128 {
                    proof {
                        assert(128 * hi + low <= u64::MAX) by (nonlinear_arith)
                            requires
                                hi <= (u64::MAX - low) / 128,
                                low < 128,
                        ;
                    }
                    Some(128 * hi + low)
                } else {
                    proof {
                        assert(128 * hi + low > u64::MAX) by (nonlinear_arith)
                            requires
                                hi > (u64::MAX - low) / 128,
                                low < 128,
                        ;
                    }
                    *pos = saved;
                    None
                }
            },
        }
    }
}

} // verus!
