use vstd::prelude::*;

use sha2::{Digest, Sha256};

use crate::error::ContractError;
use vstd::string::StrSliceExecFns;
use vstd::string::StringSliceAdditionalSpecFns;
use vstd::utf8::encode_utf8;
use vstd::utf8::is_ascii_chars;
use vstd::utf8::is_ascii_chars_encode_utf8;

verus! {

/// The SHA-256 digest of a byte string. The digest is a pure function of its
/// input alone; its value is only ever learnt by running the hash.
pub uninterp spec fn sha256_of(bytes: Seq<u8>) -> Seq<u8>;

/// Relies on sha2's `Sha256::digest`: a pure 32-byte digest of the input.
#[verifier::external_body]
fn sha256(data: &Vec<u8>) -> (r: Vec<u8>)
    ensures
        r@ == sha256_of(data@),
        r@.len() == 32,
{
    Sha256::digest(data.as_slice()).to_vec()
}

/// Whether a byte is the ASCII code of a hexadecimal digit, in either case.
pub open spec fn is_hex_digit(b: u8) -> bool {
    (48 <= b <= 57) || (97 <= b <= 102) || (65 <= b <= 70)
}

/// The numeric value of an ASCII hexadecimal digit.
pub open spec fn hex_digit_val(b: u8) -> u8 {
    if 48 <= b <= 57 {
        (b - 48) as u8
    } else if 97 <= b <= 102 {
        (b - 87) as u8
    } else {
        (b - 55) as u8
    }
}

/// The lowercase hexadecimal digit for a nibble value below 16.
pub open spec fn hex_char(v: u8) -> char {
    if v < 10 {
        ((48 + v) as u8) as char
    } else {
        ((87 + v) as u8) as char
    }
}

/// The lowercase hexadecimal rendering of a byte string: two digits per byte,
/// high nibble first.
pub open spec fn hex_of(bytes: Seq<u8>) -> Seq<char>
    decreases bytes.len(),
{
    if bytes.len() == 0 {
        Seq::empty()
    } else {
        seq![
            hex_char((bytes.first() / 16) as u8),
            hex_char((bytes.first() % 16) as u8),
        ] + hex_of(bytes.drop_first())
    }
}

/// Whether every byte of a string is a hexadecimal digit.
pub open spec fn valid_hex(s: Seq<u8>) -> bool {
    forall|i: int| 0 <= i < s.len() ==> is_hex_digit(#[trigger] s[i])
}

/// The bytes an even-length hexadecimal string stands for.
pub open spec fn hex_decoded(s: Seq<u8>) -> Seq<u8> {
    Seq::new(
        (s.len() / 2) as nat,
        |i: int| (16 * hex_digit_val(s[2 * i]) + hex_digit_val(s[2 * i + 1])) as u8,
    )
}

/// Relies on hex::encode: lowercase hexadecimal, two digits for each byte.
#[verifier::external_body]
pub(crate) fn hex_encode(bytes: &Vec<u8>) -> (r: String)
    ensures
        r@ == hex_of(bytes@),
{
    hex::encode(bytes)
}

/// Relies on hex::decode_to_slice with a 32-byte output: it succeeds exactly
/// on the 64-byte strings of hexadecimal digits (either case), writing the
/// decoded bytes.
#[verifier::external_body]
fn hex_decode_32(s: &str) -> (r: Option<Vec<u8>>)
    ensures
        match r {
            Some(v) => match_id_text_ok(s.spec_bytes()) && v@ == hex_decoded(s.spec_bytes()),
            None => !match_id_text_ok(s.spec_bytes()),
        },
{
    let mut bytes = [0u8; 32];
    match hex::decode_to_slice(s, &mut bytes) {
        Ok(()) => Some(bytes.to_vec()),
        Err(_) => None,
    }
}

/// Whether a piece of identifier text is well formed: 64 hexadecimal digits.
pub open spec fn match_id_text_ok(s: Seq<u8>) -> bool {
    s.len() == 64 && valid_hex(s)
}

/// Checks a textual match identifier and returns the 32 bytes it denotes.
pub fn validate_match_id(match_id: &str) -> (r: Result<Vec<u8>, ContractError>)
    ensures
        match r {
            Ok(v) => match_id_text_ok(match_id.spec_bytes()) && v@ == hex_decoded(
                match_id.spec_bytes(),
            ) && v@.len() == 32,
            Err(e) => e == ContractError::InvalidMatchId && !match_id_text_ok(
                match_id.spec_bytes(),
            ),
        },
{
    match hex_decode_32(match_id) {
        Some(v) => Ok(v),
        None => Err(ContractError::InvalidMatchId),
    }
}

/// The big-endian byte rendering of a 64-bit number, most significant first.
pub open spec fn u64_be_bytes(n: u64) -> Seq<u8> {
    seq![
        ((n / 0x100000000000000) % 256) as u8,
        ((n / 0x1000000000000) % 256) as u8,
        ((n / 0x10000000000) % 256) as u8,
        ((n / 0x100000000) % 256) as u8,
        ((n / 0x1000000) % 256) as u8,
        ((n / 0x10000) % 256) as u8,
        ((n / 0x100) % 256) as u8,
        (n % 256) as u8,
    ]
}

fn u64_to_be_bytes(n: u64) -> (r: Vec<u8>)
    ensures
        r@ == u64_be_bytes(n),
{
    let mut v: Vec<u8> = Vec::new();
    v.push(((n / 0x100000000000000) % 256) as u8);
    v.push(((n / 0x1000000000000) % 256) as u8);
    v.push(((n / 0x10000000000) % 256) as u8);
    v.push(((n / 0x100000000) % 256) as u8);
    v.push(((n / 0x1000000) % 256) as u8);
    v.push(((n / 0x10000) % 256) as u8);
    v.push(((n / 0x100) % 256) as u8);
    v.push((n % 256) as u8);
    proof {
        assert(v@ =~= u64_be_bytes(n));
    }
    v
}

/// The deterministic identifier of a match: the SHA-256 digest of the
/// challenger's bytes, the opponent's bytes, and the nonce as eight
/// big-endian bytes, concatenated in that order.
pub open spec fn match_id_of(challenger: Seq<char>, opponent: Seq<char>, nonce: u64) -> Seq<u8> {
    sha256_of(encode_utf8(challenger) + encode_utf8(opponent) + u64_be_bytes(nonce))
}

/// Derives the identifier of a match from its participants and its creation
/// nonce. A pure function with no failure mode; callers treat the result as
/// opaque and render it as lowercase hexadecimal at the boundary.
pub fn match_id(challenger: &String, opponent: &String, nonce: u64) -> (r: Vec<u8>)
    ensures
        r@ == match_id_of(challenger@, opponent@, nonce),
        r@.len() == 32,
{
    let mut data: Vec<u8> = challenger.as_str().as_bytes_vec();
    let mut tail: Vec<u8> = opponent.as_str().as_bytes_vec();
    data.append(&mut tail);
    let mut nonce_bytes = u64_to_be_bytes(nonce);
    data.append(&mut nonce_bytes);
    sha256(&data)
}

/// Identifier derivation is deterministic: the same challenger, opponent and
/// nonce always derive the identical identifier, so an identifier names its
/// match stably across calls and processes.
pub proof fn lemma_match_id_deterministic(
    challenger1: Seq<char>,
    opponent1: Seq<char>,
    nonce1: u64,
    challenger2: Seq<char>,
    opponent2: Seq<char>,
    nonce2: u64,
)
    requires
        challenger1 == challenger2,
        opponent1 == opponent2,
        nonce1 == nonce2,
    ensures
        match_id_of(challenger1, opponent1, nonce1) == match_id_of(challenger2, opponent2, nonce2),
{
}

proof fn lemma_hex_of_structure(bytes: Seq<u8>)
    ensures
        hex_of(bytes).len() == 2 * bytes.len(),
        forall|i: int|
            0 <= i < bytes.len() ==> hex_of(bytes)[2 * i] == hex_char(
                (#[trigger] bytes[i] / 16) as u8,
            ) && hex_of(bytes)[2 * i + 1] == hex_char((bytes[i] % 16) as u8),
    decreases bytes.len(),
{
    if bytes.len() == 0 {
    } else {
        lemma_hex_of_structure(bytes.drop_first());
        assert forall|i: int| 0 <= i < bytes.len() implies hex_of(bytes)[2 * i] == hex_char(
            (#[trigger] bytes[i] / 16) as u8,
        ) && hex_of(bytes)[2 * i + 1] == hex_char((bytes[i] % 16) as u8) by {
            if i > 0 {
                assert(bytes.drop_first()[i - 1] == bytes[i]);
                assert(hex_of(bytes)[2 * i] == hex_of(bytes.drop_first())[2 * (i - 1)]);
                assert(hex_of(bytes)[2 * i + 1] == hex_of(bytes.drop_first())[2 * (i - 1) + 1]);
            }
        }
    }
}

proof fn lemma_hex_char_value(v: u8)
    requires
        v < 16,
    ensures
        '\0' <= hex_char(v) <= '\u{7f}',
        is_hex_digit(hex_char(v) as u8),
        hex_digit_val(hex_char(v) as u8) == v,
{
}

/// The lowercase hexadecimal rendering of a byte string is well-formed
/// identifier text, and decodes back to the original bytes.
pub proof fn lemma_hex_round_trip(bytes: Seq<u8>)
    ensures
        hex_of(bytes).len() == 2 * bytes.len(),
        is_ascii_chars(hex_of(bytes)),
        valid_hex(encode_utf8(hex_of(bytes))),
        encode_utf8(hex_of(bytes)).len() == 2 * bytes.len(),
        hex_decoded(encode_utf8(hex_of(bytes))) =~= bytes,
{
    let text = hex_of(bytes);
    lemma_hex_of_structure(bytes);
    assert forall|j: int| 0 <= j < text.len() implies '\0' <= #[trigger] text[j] <= '\u{7f}' by {
        let i = j / 2;
        lemma_hex_char_value((bytes[i] / 16) as u8);
        lemma_hex_char_value((bytes[i] % 16) as u8);
        if j % 2 == 0 {
            assert(j == 2 * i);
        } else {
            assert(j == 2 * i + 1);
        }
    }
    assert(is_ascii_chars(text));
    is_ascii_chars_encode_utf8(text);
    let raw = encode_utf8(text);
    assert forall|j: int| 0 <= j < raw.len() implies is_hex_digit(#[trigger] raw[j]) by {
        let i = j / 2;
        lemma_hex_char_value((bytes[i] / 16) as u8);
        lemma_hex_char_value((bytes[i] % 16) as u8);
        if j % 2 == 0 {
            assert(j == 2 * i);
        } else {
            assert(j == 2 * i + 1);
        }
        assert(raw[j] == text[j] as u8);
    }
    assert forall|i: int| 0 <= i < bytes.len() implies hex_decoded(raw)[i] == bytes[i] by {
        lemma_hex_char_value((bytes[i] / 16) as u8);
        lemma_hex_char_value((bytes[i] % 16) as u8);
        assert(raw[2 * i] == text[2 * i] as u8);
        assert(raw[2 * i + 1] == text[2 * i + 1] as u8);
        assert(hex_digit_val(raw[2 * i]) == (bytes[i] / 16) as u8);
        assert(hex_digit_val(raw[2 * i + 1]) == (bytes[i] % 16) as u8);
        assert(16 * (bytes[i] / 16) + (bytes[i] % 16) == bytes[i]) by (nonlinear_arith);
    }
}

} // verus!
