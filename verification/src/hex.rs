//! Lowercase hex encoding and decoding of byte strings.
//!
//! Signatures travel as hex text with a `0x` prefix; the decoder accepts the
//! prefix as optional, as the original wire format does.

use vstd::prelude::*;
use vstd::utf8::*;

verus! {

/// ASCII byte of the lowercase hex digit for a nibble.
pub open spec fn hex_digit(n: u8) -> u8
    recommends
        n < 16,
{
    if n < 10 {
        (0x30 + n) as u8
    } else {
        (0x57 + n) as u8
    }
}

/// Lowercase hex encoding of a byte string, two digits per byte, as ASCII bytes.
pub open spec fn hex_bytes_of(b: Seq<u8>) -> Seq<u8> {
    Seq::new(
        b.len() * 2,
        |i: int|
            if i % 2 == 0 {
                hex_digit((b[i / 2] / 16) as u8)
            } else {
                hex_digit((b[i / 2] % 16) as u8)
            },
    )
}

/// True of the ASCII bytes that are hex digits, either case.
pub open spec fn nibble_ok(c: u8) -> bool {
    (0x30 <= c && c <= 0x39) || (0x61 <= c && c <= 0x66) || (0x41 <= c && c <= 0x46)
}

/// Value of a hex digit byte; 0 on anything else.
pub open spec fn nibble_of(c: u8) -> u8 {
    if 0x30 <= c && c <= 0x39 {
        (c - 0x30) as u8
    } else if 0x61 <= c && c <= 0x66 {
        (c - 0x61 + 10) as u8
    } else if 0x41 <= c && c <= 0x46 {
        (c - 0x41 + 10) as u8
    } else {
        0
    }
}

/// A well-formed hex body: even length, hex digits throughout.
pub open spec fn valid_hex_body(s: Seq<u8>) -> bool {
    s.len() % 2 == 0 && forall|i: int| 0 <= i < s.len() ==> nibble_ok(#[trigger] s[i])
}

/// The bytes denoted by a hex body, when it is well formed.
pub open spec fn hex_pairs_of(s: Seq<u8>) -> Option<Seq<u8>> {
    if valid_hex_body(s) {
        Some(
            Seq::new(
                s.len() / 2,
                |i: int| (nibble_of(s[2 * i]) * 16 + nibble_of(s[2 * i + 1])) as u8,
            ),
        )
    } else {
        None
    }
}

/// Drops one leading `0x`, if present.
pub open spec fn strip_hex_prefix(s: Seq<u8>) -> Seq<u8> {
    if s.len() >= 2 && s[0] == 0x30 && s[1] == 0x78 {
        s.skip(2)
    } else {
        s
    }
}

/// Full decoding: optional `0x` prefix, then hex digit pairs.
pub open spec fn hex_decode_of(s: Seq<u8>) -> Option<Seq<u8>> {
    hex_pairs_of(strip_hex_prefix(s))
}

/// Hex-encodes a byte string as lowercase ASCII digit bytes.
pub fn hex_encode_bytes(b: &[u8]) -> (r: Vec<u8>)
    ensures
        r@ == hex_bytes_of(b@),
{
    let mut r: Vec<u8> = Vec::new();
    let mut i: usize = 0;
    while i < b.len()
        invariant
            i <= b@.len(),
            r@ == hex_bytes_of(b@.take(i as int)),
        decreases b@.len() - i,
    {
        let hi: u8 = b[i] / 16;
        let lo: u8 = b[i] % 16;
        r.push(if hi < 10 { 0x30 + hi } else { 0x57 + hi });
        r.push(if lo < 10 { 0x30 + lo } else { 0x57 + lo });
        i = i + 1;
        assert(r@ =~= hex_bytes_of(b@.take(i as int)));
    }
    proof {
        assert(b@.take(b@.len() as int) =~= b@);
    }
    r
}

/// Decodes hex text (ASCII bytes, optional `0x` prefix) into bytes.
pub fn hex_decode_bytes(s: &[u8]) -> (r: Option<Vec<u8>>)
    ensures
        match r {
            Some(v) => hex_decode_of(s@) == Some(v@),
            None => hex_decode_of(s@) is None,
        },
{
    let start: usize = if s.len() >= 2 && s[0] == 0x30 && s[1] == 0x78 {
        2
    } else {
        0
    };
    let ghost body = strip_hex_prefix(s@);
    proof {
        assert(body =~= s@.skip(start as int));
    }
    if (s.len() - start) % 2 != 0 {
        return None;
    }
    let mut r: Vec<u8> = Vec::new();
    let mut i: usize = start;
    while i < s.len()
        invariant
            start <= i <= s@.len(),
            body == s@.skip(start as int),
            body == strip_hex_prefix(s@),
            (s@.len() - start) % 2 == 0,
            (i - start) % 2 == 0,
            forall|j: int| start <= j < i ==> nibble_ok(#[trigger] s@[j]),
            r@.len() == (i - start) / 2,
            forall|k: int|
                0 <= k < r@.len() ==> #[trigger] r@[k] == (nibble_of(body[2 * k]) * 16
                    + nibble_of(body[2 * k + 1])) as u8,
        decreases s@.len() - i,
    {
        let c0: u8 = s[i];
        let c1: u8 = s[i + 1];
        let h = match nibble_value(c0) {
            Some(h) => h,
            None => {
                proof {
                    assert(body[i - start] == s@[i as int]);
                    assert(!valid_hex_body(body));
                }
                return None;
            },
        };
        let l = match nibble_value(c1) {
            Some(l) => l,
            None => {
                proof {
                    assert(body[i + 1 - start] == s@[i + 1]);
                    assert(!valid_hex_body(body));
                }
                return None;
            },
        };
        r.push(h * 16 + l);
        i = i + 2;
    }
    proof {
        assert(valid_hex_body(body)) by {
            assert(forall|j: int| 0 <= j < body.len() ==> nibble_ok(#[trigger] body[j]));
        }
        assert(r@ =~= hex_pairs_of(body).unwrap());
    }
    Some(r)
}

/// Value of one hex digit byte, either case.
fn nibble_value(c: u8) -> (r: Option<u8>)
    ensures
        r is Some <==> nibble_ok(c),
        r is Some ==> r == Some(nibble_of(c)),
{
    if 0x30 <= c && c <= 0x39 {
        Some(c - 0x30)
    } else if 0x61 <= c && c <= 0x66 {
        Some(c - 0x61 + 10)
    } else if 0x41 <= c && c <= 0x46 {
        Some(c - 0x41 + 10)
    } else {
        None
    }
}

/// Decoding undoes encoding, with or without the `0x` prefix in front.
pub proof fn lemma_hex_round_trip(b: Seq<u8>)
    ensures
        hex_decode_of(hex_bytes_of(b)) == Some(b),
        hex_decode_of(seq![0x30u8, 0x78u8] + hex_bytes_of(b)) == Some(b),
{
    let h = hex_bytes_of(b);
    assert forall|i: int| 0 <= i < h.len() implies nibble_ok(#[trigger] h[i]) by {
        let x = if i % 2 == 0 {
            (b[i / 2] / 16) as u8
        } else {
            (b[i / 2] % 16) as u8
        };
        assert(x < 16);
        assert(h[i] == hex_digit(x));
    }
    assert(valid_hex_body(h));
    assert forall|k: int| 0 <= k < b.len() implies (nibble_of(h[2 * k]) * 16 + nibble_of(
        h[2 * k + 1],
    )) as u8 == b[k] by {
        let x = b[k];
        assert(h[2 * k] == hex_digit((x / 16) as u8));
        assert(h[2 * k + 1] == hex_digit((x % 16) as u8));
        assert(nibble_of(hex_digit((x / 16) as u8)) == x / 16);
        assert(nibble_of(hex_digit((x % 16) as u8)) == x % 16);
    }
    // without prefix
    assert(h.len() == 0 || h[0] != 0x30 || h[1] != 0x78) by {
        if h.len() >= 2 {
            assert(h[1] == hex_digit((b[0] % 16) as u8));
            assert(nibble_ok(h[1]));
        }
    }
    assert(strip_hex_prefix(h) == h);
    assert(hex_pairs_of(h).unwrap() =~= b);
    // with prefix
    let p = seq![0x30u8, 0x78u8] + h;
    assert(p[0] == 0x30 && p[1] == 0x78);
    assert(strip_hex_prefix(p) =~= h);
}

/// Builds a `String` from ASCII bytes.
///
/// Relies on `String::from_utf8`: the returned string holds exactly the given
/// bytes, which are valid UTF-8 whenever they are ASCII.
#[verifier::external_body]
pub fn ascii_to_string(bytes: Vec<u8>) -> (r: String)
    requires
        valid_utf8(bytes@),
    ensures
        encode_utf8(r@) == bytes@,
{
    String::from_utf8(bytes).unwrap()
}

/// ASCII bytes (hex digits and `0x`) are one-byte UTF-8 scalars.
pub proof fn lemma_ascii_bytes_valid_utf8(bytes: Seq<u8>)
    requires
        forall|i: int| 0 <= i < bytes.len() ==> #[trigger] bytes[i] < 0x80,
    ensures
        valid_utf8(bytes),
{
    assert(partial_valid_utf8(bytes, 0));
    assert forall|i: int| 0 <= 0 <= i < bytes.len() <= bytes.len() implies #[trigger]
        is_leading_byte_width_1(bytes[i]) by {
        assert(bytes[i] < 0x80);
    }
    partial_valid_utf8_extend_ascii_block(bytes, 0, bytes.len() as int);
    assert(bytes.subrange(0, bytes.len() as int) =~= bytes);
}

} // verus!
