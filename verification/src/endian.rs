//! Bounds-checked big-endian integer reading and writing, used for the
//! extended payload-length field and the close-code bytes.

use vstd::prelude::*;

verus! {

/// The unsigned value that a byte sequence denotes in big-endian order.
pub open spec fn be_val(s: Seq<u8>) -> nat
    decreases s.len(),
{
    if s.len() == 0 {
        0
    } else {
        (be_val(s.drop_last()) * 256 + s.last()) as nat
    }
}

/// The `width`-byte big-endian encoding of `v` (modulo `256^width`).
pub open spec fn be_bytes(v: nat, width: nat) -> Seq<u8>
    decreases width,
{
    if width == 0 {
        Seq::empty()
    } else {
        be_bytes(v / 256, (width - 1) as nat).push((v % 256) as u8)
    }
}

/// `256^n`, the number of values a big-endian field of `n` bytes can hold.
pub open spec fn pow256(n: nat) -> nat
    decreases n,
{
    if n == 0 {
        1
    } else {
        256 * pow256((n - 1) as nat)
    }
}

/// A big-endian field of `n` bytes denotes a value below `256^n`.
pub proof fn lemma_be_val_bound(s: Seq<u8>)
    ensures
        be_val(s) < pow256(s.len()),
    decreases s.len(),
{
    if s.len() > 0 {
        lemma_be_val_bound(s.drop_last());
    }
}

/// `pow256` grows with its exponent.
pub proof fn lemma_pow256_increases(m: nat, n: nat)
    requires
        m <= n,
    ensures
        pow256(m) <= pow256(n),
    decreases n,
{
    if m < n {
        lemma_pow256_increases(m, (n - 1) as nat);
        assert(pow256((n - 1) as nat) <= 256 * pow256((n - 1) as nat));
    }
}

/// Decoding the encoding of a value gives the value back, as long as the
/// value fits in the field width.
pub proof fn lemma_be_roundtrip(v: nat, width: nat)
    requires
        v < pow256(width),
    ensures
        be_bytes(v, width).len() == width,
        be_val(be_bytes(v, width)) == v,
    decreases width,
{
    if width > 0 {
        lemma_be_roundtrip(v / 256, (width - 1) as nat);
        assert(be_bytes(v, width).drop_last() =~= be_bytes(v / 256, (width - 1) as nat));
    }
}

/// Read a big-endian value of at most eight bytes.
pub fn be_val_exec(bytes: &Vec<u8>) -> (r: u64)
    requires
        bytes@.len() <= 8,
    ensures
        r == be_val(bytes@),
{
    let n = bytes.len();
    let mut acc: u64 = 0;
    let mut i: usize = 0;
    proof {
        assert(bytes@.take(0) =~= Seq::<u8>::empty());
    }
    while i < n
        invariant
            n == bytes@.len() <= 8,
            i <= n,
            acc == be_val(bytes@.take(i as int)),
        decreases n - i,
    {
        proof {
            lemma_be_val_bound(bytes@.take(i as int));
            lemma_pow256_increases(i as nat, 7);
            assert(pow256(7) == 0x100_0000_0000_0000) by {
                reveal_with_fuel(pow256, 8);
            }
            assert(bytes@.take(i + 1).drop_last() =~= bytes@.take(i as int));
            assert(bytes@.take(i + 1).last() == bytes@[i as int]);
        }
        acc = acc * 256 + bytes[i] as u64;
        i += 1;
    }
    proof {
        assert(bytes@.take(n as int) =~= bytes@);
    }
    acc
}

/// Write the `width`-byte big-endian encoding of `v`.
pub fn be_bytes_exec(v: u64, width: usize) -> (r: Vec<u8>)
    requires
        width <= 8,
    ensures
        r@ == be_bytes(v as nat, width as nat),
        r@.len() == width,
    decreases width,
{
    if width == 0 {
        Vec::new()
    } else {
        let mut r = be_bytes_exec(v / 256, width - 1);
        r.push((v % 256) as u8);
        r
    }
}

} // verus!
