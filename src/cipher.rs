//! The XOR stream cipher over a keystream generator.
use vstd::prelude::*;
use crate::keystream::{KeystreamGenerator, keystream_bytes, state_after, output_byte, lcg_next, lemma_state_after_bound};

verus! {

/// Byte-wise XOR of `data` with the first `data.len()` bytes of `key`.
pub open spec fn xor_bytes(data: Seq<u8>, key: Seq<u8>) -> Seq<u8> {
    Seq::new(data.len(), |i: int| data[i] ^ key[i])
}

/// XORs each byte of `data` with the next keystream byte, in order, and
/// consumes exactly `data.len()` keystream bytes. The same call encrypts and
/// decrypts.
pub fn xor_cipher(data: &[u8], keystream: &mut KeystreamGenerator) -> (r: Vec<u8>)
    ensures
        r@ == xor_bytes(data@, keystream_bytes(old(keystream).state, data@.len())),
        final(keystream).state as int == state_after(old(keystream).state, data@.len()),
{
    let ghost seed = keystream.state;
    let mut out: Vec<u8> = Vec::new();
    let mut i: usize = 0;
    while i < data.len()
        invariant
            i <= data@.len(),
            keystream.state as int == state_after(seed, i as nat),
            out@.len() == i,
            forall|j: int|
                0 <= j < i ==> #[trigger] out@[j] == data@[j] ^ output_byte(
                    state_after(seed, (j + 1) as nat),
                ),
        decreases data@.len() - i,
    {
        let k = keystream.next_byte();
        out.push(data[i] ^ k);
        i = i + 1;
    }
    assert(out@ =~= xor_bytes(data@, keystream_bytes(seed, data@.len())));
    out
}

/// Encrypting and then decrypting with generators at the same position gives
/// back the message, whatever that position and whatever the message.
pub proof fn lemma_apply_twice_is_identity(state: u64, message: Seq<u8>)
    ensures
        xor_bytes(
            xor_bytes(message, keystream_bytes(state, message.len())),
            keystream_bytes(state, message.len()),
        ) == message,
{
    let key = keystream_bytes(state, message.len());
    let once = xor_bytes(message, key);
    assert forall|i: int| 0 <= i < message.len() implies #[trigger] xor_bytes(once, key)[i]
        == message[i] by {
        let a = message[i];
        let k = key[i];
        assert((a ^ k) ^ k == a) by (bit_vector);
    }
    assert(xor_bytes(once, key) =~= message);
}

/// Steps taken from a later state continue the stream from the earlier one.
pub proof fn lemma_state_after_split(seed: u64, n1: nat, n2: nat)
    ensures
        0 <= state_after(seed, n1) <= u64::MAX,
        state_after(seed, n1 + n2) == state_after(state_after(seed, n1) as u64, n2),
    decreases n2,
{
    lemma_state_after_bound(seed, n1);
    if n2 > 0 {
        lemma_state_after_split(seed, n1, (n2 - 1) as nat);
        assert(state_after(seed, n1 + n2) == lcg_next(state_after(seed, (n1 + n2 - 1) as nat)));
    }
}

/// Consecutive messages use consecutive stretches of one stream: drawing
/// `n1` bytes and then `n2` more gives the first `n1 + n2` bytes. Two peers
/// therefore stay in step as long as each message consumes as many bytes on
/// both sides.
pub proof fn lemma_keystream_concat(seed: u64, n1: nat, n2: nat)
    ensures
        0 <= state_after(seed, n1) <= u64::MAX,
        keystream_bytes(seed, n1 + n2) == keystream_bytes(seed, n1) + keystream_bytes(
            state_after(seed, n1) as u64,
            n2,
        ),
{
    lemma_state_after_bound(seed, n1);
    let mid = state_after(seed, n1) as u64;
    assert forall|j: int| 0 <= j < n2 implies #[trigger] keystream_bytes(mid, n2)[j]
        == keystream_bytes(seed, n1 + n2)[n1 + j] by {
        lemma_state_after_split(seed, n1, (j + 1) as nat);
        assert((n1 + j + 1) as nat == n1 + (j + 1) as nat);
    }
    assert(keystream_bytes(seed, n1 + n2) =~= keystream_bytes(seed, n1) + keystream_bytes(mid, n2));
}

} // verus!
