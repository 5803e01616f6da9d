//! Base64 with the URL-safe alphabet and no padding (RFC 4648, section 5), through the
//! `base64` crate.
use base64::Engine as _;
use vstd::prelude::*;

verus! {

/// The URL-safe symbol for a 6-bit value: `A`-`Z`, `a`-`z`, `0`-`9`, `-`, `_`.
pub open spec fn b64_symbol(v: u8) -> char {
    if v < 26 {
        (v + 65) as char
    } else if v < 52 {
        (v + 71) as char
    } else if v < 62 {
        (v - 4) as char
    } else if v == 62 {
        '-'
    } else {
        '_'
    }
}

/// The unpadded URL-safe base64 text of `b`: each group of three bytes becomes four
/// symbols, a final group of one or two bytes becomes two or three symbols.
pub open spec fn b64url_encode(b: Seq<u8>) -> Seq<char>
    decreases b.len(),
{
    if b.len() == 0 {
        seq![]
    } else if b.len() == 1 {
        seq![b64_symbol(b[0] >> 2), b64_symbol((b[0] & 3) << 4)]
    } else if b.len() == 2 {
        seq![
            b64_symbol(b[0] >> 2),
            b64_symbol(((b[0] & 3) << 4) | (b[1] >> 4)),
            b64_symbol((b[1] & 15) << 2),
        ]
    } else {
        seq![
            b64_symbol(b[0] >> 2),
            b64_symbol(((b[0] & 3) << 4) | (b[1] >> 4)),
            b64_symbol(((b[1] & 15) << 2) | (b[2] >> 6)),
            b64_symbol(b[2] & 63),
        ] + b64url_encode(b.skip(3))
    }
}

/// A symbol of the URL-safe base64 alphabet.
pub open spec fn is_url_safe_symbol(c: char) -> bool {
    ||| ('A' <= c && c <= 'Z')
    ||| ('a' <= c && c <= 'z')
    ||| ('0' <= c && c <= '9')
    ||| c == '-'
    ||| c == '_'
}

/// Every symbol of an encoding is in the URL-safe alphabet, and only empty input encodes
/// to empty text.
pub proof fn lemma_encoding_alphabet(b: Seq<u8>)
    ensures
        forall|i: int| 0 <= i < b64url_encode(b).len() ==> is_url_safe_symbol(#[trigger] b64url_encode(b)[i]),
        b64url_encode(b).len() == 0 <==> b.len() == 0,
    decreases b.len(),
{
    if b.len() >= 3 {
        lemma_encoding_alphabet(b.skip(3));
        let head = seq![
            b64_symbol(b[0] >> 2),
            b64_symbol(((b[0] & 3) << 4) | (b[1] >> 4)),
            b64_symbol(((b[1] & 15) << 2) | (b[2] >> 6)),
            b64_symbol(b[2] & 63),
        ];
        let tail = b64url_encode(b.skip(3));
        assert forall|i: int| 0 <= i < b64url_encode(b).len() implies is_url_safe_symbol(#[trigger] b64url_encode(b)[i]) by {
            if i >= 4 {
                assert(b64url_encode(b)[i] == tail[i - 4]);
            }
        }
    }
}

proof fn lemma_symbol_injective(x: u8, y: u8)
    requires
        x < 64,
        y < 64,
        b64_symbol(x) == b64_symbol(y),
    ensures
        x == y,
{
}

proof fn lemma_encoding_len(b: Seq<u8>)
    ensures
        b.len() == 0 ==> b64url_encode(b).len() == 0,
        b.len() == 1 ==> b64url_encode(b).len() == 2,
        b.len() == 2 ==> b64url_encode(b).len() == 3,
        b.len() >= 3 ==> b64url_encode(b).len() >= 4,
    decreases b.len(),
{
    if b.len() >= 3 {
        lemma_encoding_len(b.skip(3));
    }
}

/// Different bytes never share an encoding, so a decoding, when there is one, is unique.
pub proof fn lemma_encoding_injective(a: Seq<u8>, b: Seq<u8>)
    requires
        b64url_encode(a) == b64url_encode(b),
    ensures
        a == b,
    decreases a.len(),
{
    lemma_encoding_len(a);
    lemma_encoding_len(b);
    let ea = b64url_encode(a);
    if a.len() == 0 {
        assert(a =~= b);
    } else if a.len() == 1 {
        let (x0, y0) = (a[0], b[0]);
        assert(x0 >> 2 < 64 && (x0 & 3) << 4 < 64 && y0 >> 2 < 64 && (y0 & 3) << 4 < 64)
            by (bit_vector);
        assert(ea[0] == b64_symbol(x0 >> 2) && ea[0] == b64_symbol(y0 >> 2));
        assert(ea[1] == b64_symbol((x0 & 3) << 4) && ea[1] == b64_symbol((y0 & 3) << 4));
        lemma_symbol_injective(x0 >> 2, y0 >> 2);
        lemma_symbol_injective((x0 & 3) << 4, (y0 & 3) << 4);
        assert(x0 == y0) by (bit_vector)
            requires
                x0 >> 2 == y0 >> 2,
                (x0 & 3) << 4 == (y0 & 3) << 4,
        ;
        assert(a =~= b);
    } else if a.len() == 2 {
        let (x0, x1, y0, y1) = (a[0], a[1], b[0], b[1]);
        assert(x0 >> 2 < 64 && ((x0 & 3) << 4) | (x1 >> 4) < 64 && (x1 & 15) << 2 < 64) by (bit_vector);
        assert(y0 >> 2 < 64 && ((y0 & 3) << 4) | (y1 >> 4) < 64 && (y1 & 15) << 2 < 64) by (bit_vector);
        assert(ea[0] == b64_symbol(x0 >> 2) && ea[0] == b64_symbol(y0 >> 2));
        assert(ea[1] == b64_symbol(((x0 & 3) << 4) | (x1 >> 4)) && ea[1] == b64_symbol(((y0 & 3) << 4) | (y1 >> 4)));
        assert(ea[2] == b64_symbol((x1 & 15) << 2) && ea[2] == b64_symbol((y1 & 15) << 2));
        lemma_symbol_injective(x0 >> 2, y0 >> 2);
        lemma_symbol_injective(((x0 & 3) << 4) | (x1 >> 4), ((y0 & 3) << 4) | (y1 >> 4));
        lemma_symbol_injective((x1 & 15) << 2, (y1 & 15) << 2);
        assert(x0 == y0 && x1 == y1) by (bit_vector)
            requires
                x0 >> 2 == y0 >> 2,
                ((x0 & 3) << 4) | (x1 >> 4) == ((y0 & 3) << 4) | (y1 >> 4),
                (x1 & 15) << 2 == (y1 & 15) << 2,
        ;
        assert(a =~= b);
    } else {
        let (x0, x1, x2, y0, y1, y2) = (a[0], a[1], a[2], b[0], b[1], b[2]);
        assert(x0 >> 2 < 64 && ((x0 & 3) << 4) | (x1 >> 4) < 64 && ((x1 & 15) << 2) | (x2 >> 6) < 64 && x2 & 63 < 64) by (bit_vector);
        assert(y0 >> 2 < 64 && ((y0 & 3) << 4) | (y1 >> 4) < 64 && ((y1 & 15) << 2) | (y2 >> 6) < 64 && y2 & 63 < 64) by (bit_vector);
        let ta = b64url_encode(a.skip(3));
        let tb = b64url_encode(b.skip(3));
        assert(ea[0] == b64_symbol(x0 >> 2) && ea[0] == b64_symbol(y0 >> 2));
        assert(ea[1] == b64_symbol(((x0 & 3) << 4) | (x1 >> 4)) && ea[1] == b64_symbol(((y0 & 3) << 4) | (y1 >> 4)));
        assert(ea[2] == b64_symbol(((x1 & 15) << 2) | (x2 >> 6)) && ea[2] == b64_symbol(((y1 & 15) << 2) | (y2 >> 6)));
        assert(ea[3] == b64_symbol(x2 & 63) && ea[3] == b64_symbol(y2 & 63));
        lemma_symbol_injective(x0 >> 2, y0 >> 2);
        lemma_symbol_injective(((x0 & 3) << 4) | (x1 >> 4), ((y0 & 3) << 4) | (y1 >> 4));
        lemma_symbol_injective(((x1 & 15) << 2) | (x2 >> 6), ((y1 & 15) << 2) | (y2 >> 6));
        lemma_symbol_injective(x2 & 63, y2 & 63);
        assert(x0 == y0 && x1 == y1 && x2 == y2) by (bit_vector)
            requires
                x0 >> 2 == y0 >> 2,
                ((x0 & 3) << 4) | (x1 >> 4) == ((y0 & 3) << 4) | (y1 >> 4),
                ((x1 & 15) << 2) | (x2 >> 6) == ((y1 & 15) << 2) | (y2 >> 6),
                x2 & 63 == y2 & 63,
        ;
        assert(ta =~= ea.skip(4));
        assert(tb =~= ea.skip(4));
        lemma_encoding_injective(a.skip(3), b.skip(3));
        assert(a =~= seq![x0, x1, x2] + a.skip(3));
        assert(b =~= seq![y0, y1, y2] + b.skip(3));
    }
}

/// The bytes whose encoding is `t`, if there are any (there is at most one such sequence).
pub open spec fn b64url_decode(t: Seq<char>) -> Option<Seq<u8>> {
    if exists|b: Seq<u8>| b64url_encode(b) == t {
        Some(choose|b: Seq<u8>| b64url_encode(b) == t)
    } else {
        None
    }
}

/// Decoding an encoding gives back the bytes encoded.
pub proof fn lemma_decode_encode(b: Seq<u8>)
    ensures
        b64url_decode(b64url_encode(b)) == Some(b),
{
    let t = b64url_encode(b);
    assert(exists|x: Seq<u8>| b64url_encode(x) == t);
    let c = choose|x: Seq<u8>| b64url_encode(x) == t;
    lemma_encoding_injective(c, b);
}

#[verifier::external_type_specification]
#[verifier::external_body]
pub struct ExDecodeError(base64::DecodeError);

/// `base64::engine::general_purpose::URL_SAFE_NO_PAD.encode`: claimed to give the unpadded
/// URL-safe base64 text of the bytes, as the crate's alphabet and encoder define it.
#[verifier::external_body]
pub(crate) fn encode_url_safe(bytes: &[u8]) -> (r: String)
    ensures
        r@ == b64url_encode(bytes@),
{
    base64::engine::general_purpose::URL_SAFE_NO_PAD.encode(bytes)
}

/// `base64::engine::general_purpose::URL_SAFE_NO_PAD.decode`: claimed to succeed exactly on
/// the texts that are the encoding of some bytes (that engine refuses padding, trailing
/// bits and symbols outside the alphabet) and then to give those bytes. Which error it
/// gives otherwise is left unsaid.
#[verifier::external_body]
pub(crate) fn decode_url_safe(text: &str) -> (r: Result<Vec<u8>, base64::DecodeError>)
    ensures
        r is Ok <==> exists|b: Seq<u8>| b64url_encode(b) == text@,
        r matches Ok(v) ==> b64url_encode(v@) == text@,
{
    base64::engine::general_purpose::URL_SAFE_NO_PAD.decode(text)
}

} // verus!
