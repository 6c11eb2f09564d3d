//! The mask cipher: a stateless XOR transform over payload bytes, used
//! both to obscure outbound payloads and to recover inbound ones.

use vstd::prelude::*;

verus! {

/// Each byte of `data` XORed with the key byte at its index modulo four.
pub open spec fn mask_seq(data: Seq<u8>, key: Seq<u8>) -> Seq<u8>
    recommends
        key.len() == 4,
{
    Seq::new(data.len(), |i: int| data[i] ^ key[i % 4])
}

/// Transform `data` in place: `data[i] ^= key[i mod 4]` for every index.
/// The transform is its own inverse (`lemma_mask_involutive`).
pub fn apply_mask(data: &mut Vec<u8>, key: &Vec<u8>)
    requires
        key@.len() == 4,
    ensures
        final(data)@ == mask_seq(old(data)@, key@),
{
    let n = data.len();
    let mut i: usize = 0;
    while i < n
        invariant
            n == data@.len(),
            key@.len() == 4,
            data@.len() == old(data)@.len(),
            i <= n,
            forall|j: int| 0 <= j < i ==> data@[j] == mask_seq(old(data)@, key@)[j],
            forall|j: int| i <= j < n ==> data@[j] == old(data)@[j],
        decreases n - i,
    {
        let b = data[i];
        let k = key[i % 4];
        data.set(i, b ^ k);
        i += 1;
    }
    assert(data@ =~= mask_seq(old(data)@, key@));
}

/// Relies on `rand::random`: four bytes drawn from the thread-local
/// generator. Nothing is promised of their values, only that there are
/// four of them.
#[verifier::external_body]
pub(crate) fn gen_mask_key() -> (r: Vec<u8>)
    ensures
        r@.len() == 4,
{
    let key: [u8; 4] = rand::random();
    key.to_vec()
}

/// The mask transform is involutive: applying it twice with the same key
/// restores the original bytes.
pub proof fn lemma_mask_involutive(data: Seq<u8>, key: Seq<u8>)
    requires
        key.len() == 4,
    ensures
        mask_seq(mask_seq(data, key), key) == data,
{
    assert forall|i: int| 0 <= i < data.len() implies mask_seq(mask_seq(data, key), key)[i]
        == data[i] by {
        let d = data[i];
        let k = key[i % 4];
        assert(d ^ k ^ k == d) by (bit_vector);
    }
    assert(mask_seq(mask_seq(data, key), key) =~= data);
}

} // verus!
