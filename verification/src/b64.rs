//! Base64 of font bytes: the standard alphabet with `=` padding, stated as
//! a specification, with encoding done by an outside engine held to that
//! statement, and a proof that decoding recovers the encoded bytes.

use vstd::prelude::*;

verus! {

/// The standard-alphabet character at index `v` (meaningful for `v < 64`):
/// `A`-`Z`, then `a`-`z`, then `0`-`9`, then `+` and `/`.
pub open spec fn b64_char(v: u8) -> char {
    if v < 26 {
        ((65 + v) as u8) as char
    } else if v < 52 {
        ((71 + v) as u8) as char
    } else if v < 62 {
        ((v - 4) as u8) as char
    } else if v == 62 {
        '+'
    } else {
        '/'
    }
}

/// The index of `c` in the standard alphabet, `-1` if it has none.
pub open spec fn b64_val(c: char) -> int {
    let x = c as int;
    if 65 <= x <= 90 {
        x - 65
    } else if 97 <= x <= 122 {
        x - 71
    } else if 48 <= x <= 57 {
        x + 4
    } else if c == '+' {
        62
    } else if c == '/' {
        63
    } else {
        -1
    }
}

/// The four alphabet characters of one full three-byte group.
pub open spec fn b64_group(b0: u8, b1: u8, b2: u8) -> Seq<char> {
    seq![
        b64_char(b0 >> 2),
        b64_char(((b0 & 3) << 4) | (b1 >> 4)),
        b64_char(((b1 & 15) << 2) | (b2 >> 6)),
        b64_char(b2 & 63),
    ]
}

/// Standard base64 with padding: each three-byte group becomes four
/// alphabet characters; a trailing group of one or two bytes is padded
/// with `=` to four characters.
pub open spec fn b64_encode(s: Seq<u8>) -> Seq<char>
    decreases s.len(),
{
    if s.len() == 0 {
        Seq::empty()
    } else if s.len() == 1 {
        seq![b64_char(s[0] >> 2), b64_char((s[0] & 3) << 4), '=', '=']
    } else if s.len() == 2 {
        seq![
            b64_char(s[0] >> 2),
            b64_char(((s[0] & 3) << 4) | (s[1] >> 4)),
            b64_char((s[1] & 15) << 2),
            '=',
        ]
    } else {
        b64_group(s[0], s[1], s[2]) + b64_encode(s.skip(3))
    }
}

/// Decode standard base64 with padding: `None` on anything that is not a
/// well-formed encoding.
pub open spec fn b64_decode(s: Seq<char>) -> Option<Seq<u8>>
    decreases s.len(),
{
    if s.len() == 0 {
        Some(Seq::empty())
    } else if s.len() < 4 {
        None
    } else {
        let v0 = b64_val(s[0]);
        let v1 = b64_val(s[1]);
        if v0 < 0 || v1 < 0 {
            None
        } else {
            let x0 = v0 as u8;
            let x1 = v1 as u8;
            if s[3] == '=' {
                if s.len() != 4 {
                    None
                } else if s[2] == '=' {
                    Some(seq![(x0 << 2) | (x1 >> 4)])
                } else {
                    let v2 = b64_val(s[2]);
                    if v2 < 0 {
                        None
                    } else {
                        let x2 = v2 as u8;
                        Some(seq![(x0 << 2) | (x1 >> 4), (x1 << 4) | (x2 >> 2)])
                    }
                }
            } else {
                let v2 = b64_val(s[2]);
                let v3 = b64_val(s[3]);
                if v2 < 0 || v3 < 0 {
                    None
                } else {
                    let x2 = v2 as u8;
                    let x3 = v3 as u8;
                    match b64_decode(s.skip(4)) {
                        None => None,
                        Some(rest) => Some(
                            seq![(x0 << 2) | (x1 >> 4), (x1 << 4) | (x2 >> 2), (x2 << 6) | x3]
                                + rest,
                        ),
                    }
                }
            }
        }
    }
}

/// The alphabet character of `v` decodes back to `v`.
pub proof fn lemma_b64_val_char(v: u8)
    requires
        v < 64,
    ensures
        b64_val(b64_char(v)) == v as int,
{
}

/// Decoding a standard base64 encoding recovers exactly the encoded bytes.
pub proof fn lemma_b64_round_trip(s: Seq<u8>)
    ensures
        b64_decode(b64_encode(s)) == Some(s),
    decreases s.len(),
{
    if s.len() == 0 {
        assert(b64_encode(s) == Seq::<char>::empty());
    } else if s.len() == 1 {
        let b0 = s[0];
        assert(b0 >> 2 < 64 && (b0 & 3) << 4 < 64) by (bit_vector);
        lemma_b64_val_char(b0 >> 2);
        lemma_b64_val_char((b0 & 3) << 4);
        let e = b64_encode(s);
        assert(((b0 >> 2) << 2) | (((b0 & 3) << 4) >> 4) == b0) by (bit_vector);
        assert(b64_decode(e) == Some(seq![b0]));
        assert(seq![b0] =~= s);
    } else if s.len() == 2 {
        let b0 = s[0];
        let b1 = s[1];
        assert(b0 >> 2 < 64 && ((b0 & 3) << 4) | (b1 >> 4) < 64 && (b1 & 15) << 2 < 64)
            by (bit_vector);
        lemma_b64_val_char(b0 >> 2);
        lemma_b64_val_char(((b0 & 3) << 4) | (b1 >> 4));
        lemma_b64_val_char((b1 & 15) << 2);
        let e = b64_encode(s);
        assert(((b0 >> 2) << 2) | ((((b0 & 3) << 4) | (b1 >> 4)) >> 4) == b0 && (((((b0 & 3) << 4)
            | (b1 >> 4)) << 4) | (((b1 & 15) << 2) >> 2)) == b1) by (bit_vector);
        assert(b64_decode(e) == Some(seq![b0, b1]));
        assert(seq![b0, b1] =~= s);
    } else {
        let b0 = s[0];
        let b1 = s[1];
        let b2 = s[2];
        assert(b0 >> 2 < 64 && ((b0 & 3) << 4) | (b1 >> 4) < 64 && ((b1 & 15) << 2) | (b2 >> 6)
            < 64 && b2 & 63 < 64) by (bit_vector);
        lemma_b64_val_char(b0 >> 2);
        lemma_b64_val_char(((b0 & 3) << 4) | (b1 >> 4));
        lemma_b64_val_char(((b1 & 15) << 2) | (b2 >> 6));
        lemma_b64_val_char(b2 & 63);
        lemma_b64_round_trip(s.skip(3));
        let e = b64_encode(s);
        assert(e == b64_group(b0, b1, b2) + b64_encode(s.skip(3)));
        assert(b64_encode(s.skip(3)).len() >= 4 || b64_encode(s.skip(3)).len() == 0);
        assert(e.skip(4) =~= b64_encode(s.skip(3)));
        assert(((b0 >> 2) << 2) | ((((b0 & 3) << 4) | (b1 >> 4)) >> 4) == b0 && (((((b0 & 3) << 4)
            | (b1 >> 4)) << 4) | (((((b1 & 15) << 2) | (b2 >> 6))) >> 2)) == b1 && (((((b1 & 15)
            << 2) | (b2 >> 6)) << 6) | (b2 & 63)) == b2) by (bit_vector);
        assert(b64_decode(e) == Some(seq![b0, b1, b2] + s.skip(3)));
        assert(seq![b0, b1, b2] + s.skip(3) =~= s);
    }
}

/// Relies on base64's `Engine::encode` with the standard general-purpose
/// engine: RFC 4648 standard alphabet, `=` padding, no line wrapping.
#[verifier::external_body]
fn engine_encode(bytes: &[u8]) -> (r: String)
    requires
        bytes@.len() <= usize::MAX / 8,
    ensures
        r@ == b64_encode(bytes@),
{
    base64::Engine::encode(&base64::engine::general_purpose::STANDARD, bytes)
}

/// Base64-encode font bytes, refusing a slice too large to encode in
/// memory.
pub fn base64_of(bytes: &[u8]) -> (r: Option<String>)
    ensures
        match r {
            Some(t) => bytes@.len() <= usize::MAX / 8 && t@ == b64_encode(bytes@),
            None => bytes@.len() > usize::MAX / 8,
        },
{
    if bytes.len() <= usize::MAX / 8 {
        Some(engine_encode(bytes))
    } else {
        None
    }
}

} // verus!
