//! Chat frames: one line of lowercase hex digits per encrypted message.
use vstd::prelude::*;
use vstd::string::StringSliceAdditionalSpecFns;
use crate::keystream::{KeystreamGenerator, keystream_bytes, state_after};
use crate::cipher::{xor_cipher, xor_bytes, lemma_apply_twice_is_identity};

verus! {

#[verifier::external_type_specification]
#[verifier::external_body]
pub struct ExFromHexError(hex::FromHexError);

/// The sixteen lowercase hex digits, in order of value.
pub open spec fn hex_digits() -> Seq<char> {
    seq!['0', '1', '2', '3', '4', '5', '6', '7', '8', '9', 'a', 'b', 'c', 'd', 'e', 'f']
}

/// Lowercase hex text of `bytes`: two digits per byte, high half first.
pub open spec fn hex_text(bytes: Seq<u8>) -> Seq<char> {
    Seq::new(
        2 * bytes.len(),
        |i: int|
            if i % 2 == 0 {
                hex_digits()[bytes[i / 2] as int / 16]
            } else {
                hex_digits()[bytes[i / 2] as int % 16]
            },
    )
}

/// A character that the hex decoder accepts, in either case.
pub open spec fn is_hex_char(c: char) -> bool {
    ('0' <= c && c <= '9') || ('a' <= c && c <= 'f') || ('A' <= c && c <= 'F')
}

/// The value of a hex digit.
pub open spec fn hex_value(c: char) -> int {
    if '0' <= c && c <= '9' {
        c as int - '0' as int
    } else if 'a' <= c && c <= 'f' {
        c as int - 'a' as int + 10
    } else {
        c as int - 'A' as int + 10
    }
}

/// Text that decodes: an even number of hex digits.
pub open spec fn is_hex_text(text: Seq<char>) -> bool {
    text.len() % 2 == 0 && forall|i: int| 0 <= i < text.len() ==> is_hex_char(#[trigger] text[i])
}

/// The bytes that hex text stands for, one per pair of digits.
pub open spec fn hex_decoded(text: Seq<char>) -> Seq<u8> {
    Seq::new(
        text.len() / 2,
        |i: int| (hex_value(text[2 * i]) * 16 + hex_value(text[2 * i + 1])) as u8,
    )
}

/// What `str::trim` returns: the text without leading and trailing whitespace.
pub uninterp spec fn trimmed(s: Seq<char>) -> Seq<char>;

/// Relies on `hex::encode`: two lowercase digits per byte, high half first.
#[verifier::external_body]
fn encode_hex(bytes: &[u8]) -> (r: String)
    ensures
        r@ == hex_text(bytes@),
{
    hex::encode(bytes)
}

/// Relies on `hex::decode`: it succeeds exactly on an even number of hex
/// digits of either case, and then yields one byte per pair.
#[verifier::external_body]
fn decode_hex(text: &str) -> (r: Result<Vec<u8>, hex::FromHexError>)
    ensures
        r is Ok <==> is_hex_text(text@),
        r matches Ok(v) ==> v@ == hex_decoded(text@),
{
    hex::decode(text)
}

/// Relies on `str::trim`: leading and trailing whitespace removed.
#[verifier::external_body]
fn trim_text(s: &str) -> (r: &str)
    ensures
        r@ == trimmed(s@),
{
    s.trim()
}

/// The plaintext that the text of a frame carries, and the keystream after
/// it: `None` and the stream untouched where the text is not hex or holds no
/// byte.
pub open spec fn frame_outcome(text: Seq<char>, seed: u64) -> (Option<Seq<u8>>, int) {
    if is_hex_text(text) && hex_decoded(text).len() > 0 {
        let cipher = hex_decoded(text);
        (
            Some(xor_bytes(cipher, keystream_bytes(seed, cipher.len()))),
            state_after(seed, cipher.len()),
        )
    } else {
        (None, seed as int)
    }
}

/// A frame whose text holds a character that is not a hex digit is skipped
/// and leaves the keystream where it was.
pub proof fn lemma_malformed_frame_skipped(text: Seq<char>, seed: u64, i: int)
    requires
        0 <= i < text.len(),
        !is_hex_char(text[i]),
    ensures
        frame_outcome(text, seed) == (None::<Seq<u8>>, seed as int),
{
}

/// Decrypts the text of one frame, already stripped of surrounding
/// whitespace. Malformed or empty text is skipped: `None`, and no keystream
/// byte is consumed.
pub fn decrypt_frame_text(text: &str, keystream: &mut KeystreamGenerator) -> (r: Option<Vec<u8>>)
    ensures
        r matches Some(v) ==> frame_outcome(text@, old(keystream).state).0 == Some(v@),
        r is None ==> frame_outcome(text@, old(keystream).state).0 is None,
        final(keystream).state as int == frame_outcome(text@, old(keystream).state).1,
{
    match decode_hex(text) {
        Ok(cipher) => {
            if cipher.len() == 0 {
                None
            } else {
                Some(xor_cipher(cipher.as_slice(), keystream))
            }
        },
        Err(_) => None,
    }
}

/// Handles one line read from the connection by the listening side: blank
/// lines and lines that are not hex are skipped without touching the
/// keystream; any other line is decrypted.
pub fn receive_line(line: &str, keystream: &mut KeystreamGenerator) -> (r: Option<Vec<u8>>)
    ensures
        r matches Some(v) ==> frame_outcome(trimmed(line@), old(keystream).state).0 == Some(v@),
        r is None ==> frame_outcome(trimmed(line@), old(keystream).state).0 is None,
        final(keystream).state as int == frame_outcome(trimmed(line@), old(keystream).state).1,
{
    let text = trim_text(line);
    if text.unicode_len() == 0 {
        return None;
    }
    decrypt_frame_text(text, keystream)
}

/// Handles one line of operator input on the connecting side: blank input is
/// skipped without touching the keystream; any other input is encrypted,
/// byte for byte, and returned as one newline-terminated frame of lowercase
/// hex.
pub fn encrypt_line(input: &str, keystream: &mut KeystreamGenerator) -> (r: Option<String>)
    ensures
        trimmed(input@).len() == 0 ==> r is None && final(keystream).state == old(keystream).state,
        trimmed(input@).len() != 0 ==> {
            let plain = input.spec_bytes();
            &&& r matches Some(frame) && frame@ == hex_text(
                xor_bytes(plain, keystream_bytes(old(keystream).state, plain.len())),
            ) + seq!['\n']
            &&& final(keystream).state as int == state_after(old(keystream).state, plain.len())
        },
{
    let text = trim_text(input);
    if text.unicode_len() == 0 {
        return None;
    }
    let cipher = xor_cipher(input.as_bytes(), keystream);
    let mut frame = encode_hex(cipher.as_slice());
    frame.append("\n");
    proof {
        reveal_strlit("\n");
    }
    Some(frame)
}

/// Each lowercase digit is accepted and has the value of its position.
proof fn lemma_hex_digit(d: int)
    requires
        0 <= d < 16,
    ensures
        is_hex_char(hex_digits()[d]),
        hex_value(hex_digits()[d]) == d,
{
    let s = hex_digits();
    assert(s[0] == '0' && s[1] == '1' && s[2] == '2' && s[3] == '3');
    assert(s[4] == '4' && s[5] == '5' && s[6] == '6' && s[7] == '7');
    assert(s[8] == '8' && s[9] == '9' && s[10] == 'a' && s[11] == 'b');
    assert(s[12] == 'c' && s[13] == 'd' && s[14] == 'e' && s[15] == 'f');
}

/// Hex text decodes back to the bytes it was made from.
pub proof fn lemma_hex_round_trip(bytes: Seq<u8>)
    ensures
        is_hex_text(hex_text(bytes)),
        hex_decoded(hex_text(bytes)) == bytes,
{
    let t = hex_text(bytes);
    assert forall|d: int| 0 <= d < 16 implies is_hex_char(#[trigger] hex_digits()[d]) && hex_value(
        hex_digits()[d],
    ) == d by {
        lemma_hex_digit(d);
    }
    assert forall|i: int| 0 <= i < t.len() implies is_hex_char(#[trigger] t[i]) by {
        let b = bytes[i / 2] as int;
        assert(0 <= b / 16 < 16 && 0 <= b % 16 < 16);
    }
    assert forall|i: int| 0 <= i < bytes.len() implies #[trigger] hex_decoded(t)[i] == bytes[i] by {
        let b = bytes[i] as int;
        assert((2 * i) / 2 == i && (2 * i) % 2 == 0);
        assert((2 * i + 1) / 2 == i && (2 * i + 1) % 2 == 1);
        assert(hex_value(t[2 * i]) == b / 16);
        assert(hex_value(t[2 * i + 1]) == b % 16);
        assert((b / 16) * 16 + b % 16 == b);
    }
    assert(hex_decoded(t) =~= bytes);
}

/// A frame made from a non-empty message decodes, at the same keystream
/// position, back to that message, and consumes as many keystream bytes on
/// the receiving side as on the sending side. The frame text holds two hex
/// digits per message byte.
pub proof fn lemma_frame_round_trip(seed: u64, message: Seq<u8>)
    requires
        message.len() > 0,
    ensures
        ({
            let text = hex_text(xor_bytes(message, keystream_bytes(seed, message.len())));
            &&& text.len() == 2 * message.len()
            &&& frame_outcome(text, seed) == (Some(message), state_after(seed, message.len()))
        }),
{
    let cipher = xor_bytes(message, keystream_bytes(seed, message.len()));
    lemma_hex_round_trip(cipher);
    lemma_apply_twice_is_identity(seed, message);
}

} // verus!
