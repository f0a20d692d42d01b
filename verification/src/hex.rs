//! Hexadecimal rendering of byte strings, used for identifiers on the JSON
//! surface.
//!
//! Encoding writes two lower-case digits per byte; decoding accepts both
//! cases, rejects odd-length input and any non-digit, and inverts the
//! encoding exactly ([`lemma_hex_roundtrip`]).

use vstd::prelude::*;

verus! {

/// The lower-case ASCII hex digit of a nibble.
pub open spec fn hex_digit(n: u8) -> u8 {
    if n < 10 {
        (48 + n) as u8
    } else {
        (87 + n) as u8
    }
}

/// The lower-case hex rendering of a byte string: two digits per byte, high
/// nibble first.
pub open spec fn hex_of(bytes: Seq<u8>) -> Seq<u8>
    decreases bytes.len(),
{
    if bytes.len() == 0 {
        Seq::empty()
    } else {
        seq![hex_digit(bytes[0] / 16), hex_digit(bytes[0] % 16)] + hex_of(bytes.drop_first())
    }
}

/// The nibble an ASCII character denotes, if any: both cases are accepted.
pub open spec fn nibble_of(c: u8) -> Option<u8> {
    if 48 <= c <= 57 {
        Option::Some((c - 48) as u8)
    } else if 97 <= c <= 102 {
        Option::Some((c - 87) as u8)
    } else if 65 <= c <= 70 {
        Option::Some((c - 55) as u8)
    } else {
        Option::None
    }
}

/// Decoding a hex text: the byte string it denotes, or nothing when the
/// length is odd or a character is no hex digit.
pub open spec fn parse_hex(s: Seq<u8>) -> Option<Seq<u8>>
    decreases s.len(),
{
    if s.len() == 0 {
        Option::Some(Seq::empty())
    } else if s.len() == 1 {
        Option::None
    } else {
        match (nibble_of(s[0]), nibble_of(s[1])) {
            (Option::Some(hi), Option::Some(lo)) => match parse_hex(s.skip(2)) {
                Option::Some(rest) => Option::Some(seq![(16 * hi + lo) as u8] + rest),
                Option::None => Option::None,
            },
            _ => Option::None,
        }
    }
}

/// Decoding right after encoding gives the bytes back.
pub proof fn lemma_hex_roundtrip(bytes: Seq<u8>)
    ensures
        parse_hex(hex_of(bytes)) == Option::Some(bytes),
    decreases bytes.len(),
{
    if bytes.len() == 0 {
        assert(parse_hex(hex_of(bytes)).unwrap() =~= bytes);
    } else {
        lemma_hex_roundtrip(bytes.drop_first());
        let w = hex_of(bytes);
        assert(w.skip(2) =~= hex_of(bytes.drop_first()));
        assert(nibble_of(hex_digit(bytes[0] / 16)) == Option::Some(bytes[0] / 16));
        assert(nibble_of(hex_digit(bytes[0] % 16)) == Option::Some(bytes[0] % 16));
        assert(16 * (bytes[0] / 16) + bytes[0] % 16 == bytes[0]);
        assert(parse_hex(hex_of(bytes)).unwrap() =~= bytes);
    }
}

/// Renders `bytes[i..]` as lower-case hex digits, appended to `out`.
fn write_hex_from(out: &mut Vec<u8>, bytes: &Vec<u8>, i: usize)
    requires
        i <= bytes@.len(),
    ensures
        final(out)@ == old(out)@ + hex_of(bytes@.skip(i as int)),
    decreases bytes@.len() - i,
{
    if i < bytes.len() {
        let b = bytes[i];
        out.push(if b / 16 < 10 {
            48 + b / 16
        } else {
            87 + b / 16
        });
        out.push(if b % 16 < 10 {
            48 + b % 16
        } else {
            87 + b % 16
        });
        write_hex_from(out, bytes, i + 1);
        proof {
            assert(bytes@.skip(i as int)[0] == bytes@[i as int]);
            assert(bytes@.skip(i as int).drop_first() =~= bytes@.skip(i as int + 1));
            assert(final(out)@ =~= old(out)@ + hex_of(bytes@.skip(i as int)));
        }
    } else {
        proof {
            assert(bytes@.skip(i as int).len() == 0);
            assert(final(out)@ =~= old(out)@ + hex_of(bytes@.skip(i as int)));
        }
    }
}

/// The lower-case hex rendering of a byte string, as ASCII bytes.
pub fn to_hex_bytes(bytes: &Vec<u8>) -> (r: Vec<u8>)
    ensures
        r@ == hex_of(bytes@),
{
    let mut out: Vec<u8> = Vec::new();
    write_hex_from(&mut out, bytes, 0);
    proof {
        assert(bytes@.skip(0) =~= bytes@);
    }
    out
}

/// Decides the nibble an ASCII character denotes.
fn nibble_of_char(c: u8) -> (r: Option<u8>)
    ensures
        r == nibble_of(c),
{
    if 48 <= c && c <= 57 {
        Some(c - 48)
    } else if 97 <= c && c <= 102 {
        Some(c - 87)
    } else if 65 <= c && c <= 70 {
        Some(c - 55)
    } else {
        None
    }
}

/// Decodes the hex digits of `s[i..]`; mirrors [`parse_hex`] exactly.
fn read_hex_from(s: &Vec<u8>, i: usize) -> (r: Option<Vec<u8>>)
    requires
        i <= s@.len(),
    ensures
        match parse_hex(s@.skip(i as int)) {
            Option::Some(sp) => (r matches Option::Some(bs) && bs@ == sp),
            Option::None => r is None,
        },
    decreases s@.len() - i,
{
    proof {
        assert(s@.skip(i as int).len() == s@.len() - i);
    }
    if i == s.len() {
        let out: Vec<u8> = Vec::new();
        proof {
            assert(out@ =~= Seq::<u8>::empty());
        }
        return Some(out);
    }
    if i + 1 == s.len() {
        return None;
    }
    proof {
        assert(s@.skip(i as int)[0] == s@[i as int]);
        assert(s@.skip(i as int)[1] == s@[i as int + 1]);
        assert(s@.skip(i as int).skip(2) =~= s@.skip(i as int + 2));
    }
    let hi = match nibble_of_char(s[i]) {
        Some(h) => h,
        None => {
            return None;
        },
    };
    let lo = match nibble_of_char(s[i + 1]) {
        Some(l) => l,
        None => {
            return None;
        },
    };
    match read_hex_from(s, i + 2) {
        None => None,
        Some(rest) => {
            let ghost rest_seq = rest@;
            let mut out = rest;
            out.insert(0, 16 * hi + lo);
            proof {
                assert(out@ =~= seq![(16 * hi + lo) as u8] + rest_seq);
            }
            Some(out)
        },
    }
}

/// Decodes a hex text into the byte string it denotes; rejects odd-length
/// input and any non-digit.
pub fn from_hex_bytes(s: &Vec<u8>) -> (r: Option<Vec<u8>>)
    ensures
        match parse_hex(s@) {
            Option::Some(sp) => (r matches Option::Some(bs) && bs@ == sp),
            Option::None => r is None,
        },
{
    proof {
        assert(s@.skip(0) =~= s@);
    }
    read_hex_from(s, 0)
}

} // verus!
