//! Fixed-width little-endian encoding of record components.

use vstd::prelude::*;

verus! {

/// The little-endian byte image of `v`, `n` bytes wide.
pub open spec fn le_bytes(v: nat, n: nat) -> Seq<u8>
    decreases n,
{
    if n == 0 {
        Seq::empty()
    } else {
        seq![(v % 256) as u8] + le_bytes(v / 256, (n - 1) as nat)
    }
}

pub proof fn lemma_le_bytes_len(v: nat, n: nat)
    ensures
        le_bytes(v, n).len() == n,
    decreases n,
{
    if n > 0 {
        lemma_le_bytes_len(v / 256, (n - 1) as nat);
    }
}

/// Appends the `n`-byte little-endian image of `v` to `out`.
pub fn push_le_bytes(out: &mut Vec<u8>, v: u32, n: u32)
    ensures
        final(out)@ == old(out)@ + le_bytes(v as nat, n as nat),
    decreases n,
{
    if n == 0 {
        assert(old(out)@ + le_bytes(v as nat, 0) =~= old(out)@);
    } else {
        out.push((v % 256) as u8);
        assert(out@ == old(out)@ + seq![(v % 256) as u8]);
        push_le_bytes(out, v / 256, n - 1);
        assert((v % 256) as u8 == ((v as nat) % 256) as u8);
        assert(v / 256 == (v as nat) / 256);
        assert(old(out)@ + seq![((v as nat) % 256) as u8] + le_bytes((v as nat) / 256, (n - 1) as nat)
            =~= old(out)@ + le_bytes(v as nat, n as nat));
    }
}

} // verus!
