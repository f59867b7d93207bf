//! Big-endian unsigned numbers as byte strings.

use vstd::prelude::*;

verus! {

/// 256 to the power `n`.
pub open spec fn pow256(n: nat) -> nat
    decreases n,
{
    if n == 0 {
        1
    } else {
        256 * pow256((n - 1) as nat)
    }
}

/// The number that the bytes spell, the first byte being the most significant.
pub open spec fn be_value(b: Seq<u8>) -> nat
    decreases b.len(),
{
    if b.len() == 0 {
        0
    } else {
        be_value(b.drop_last()) * 256 + b.last() as nat
    }
}

/// The `n` lowest base-256 digits of `v`, the most significant first.
pub open spec fn be_bytes(v: nat, n: nat) -> Seq<u8>
    decreases n,
{
    if n == 0 {
        Seq::empty()
    } else {
        be_bytes(v / 256, (n - 1) as nat).push((v % 256) as u8)
    }
}

/// The `k`-th group of eight bytes of `b`, read as a number.
pub open spec fn word(b: Seq<u8>, k: int) -> nat {
    be_value(b.subrange(8 * k, 8 * k + 8))
}

/// Eight bytes spell a number below two to the power 64.
pub proof fn lemma_be_value_bound(b: Seq<u8>)
    ensures
        be_value(b) < pow256(b.len()),
        b.len() == 8 ==> be_value(b) <= u64::MAX,
        b.len() == 4 ==> be_value(b) <= u32::MAX,
    decreases b.len(),
{
    reveal_with_fuel(pow256, 9);
    if b.len() > 0 {
        lemma_be_value_bound(b.drop_last());
    }
}

/// Writing a number and reading it back gives the number.
pub proof fn lemma_be_value_of_bytes(v: nat, n: nat)
    requires
        v < pow256(n),
    ensures
        be_bytes(v, n).len() == n,
        be_value(be_bytes(v, n)) == v,
    decreases n,
{
    if n > 0 {
        lemma_be_value_of_bytes(v / 256, (n - 1) as nat);
        assert(be_bytes(v, n).drop_last() == be_bytes(v / 256, (n - 1) as nat));
    }
}

/// Reading bytes and writing the number back gives the bytes.
pub proof fn law_bytes_of_their_value(b: Seq<u8>)
    ensures
        be_bytes(be_value(b), b.len()) == b,
    decreases b.len(),
{
    if b.len() > 0 {
        law_bytes_of_their_value(b.drop_last());
        assert(be_value(b) / 256 == be_value(b.drop_last()));
        assert(be_value(b) % 256 == b.last() as nat);
        assert(be_bytes(be_value(b), b.len()) =~= b);
    }
}

/// Every 64-bit number fits in eight bytes, every 32-bit number in four.
pub proof fn lemma_fits(v: u64, u: u32)
    ensures
        (v as nat) < pow256(8),
        (u as nat) < pow256(4),
{
    reveal_with_fuel(pow256, 9);
}

/// The `n` lowest base-256 digits of `v`, the most significant first.
pub fn to_be(v: u64, n: usize) -> (out: Vec<u8>)
    ensures
        out@ == be_bytes(v as nat, n as nat),
    decreases n,
{
    if n == 0 {
        Vec::new()
    } else {
        let mut out = to_be(v / 256, n - 1);
        out.push((v % 256) as u8);
        out
    }
}

/// The number that the eight bytes from `8 * k` on spell.
pub fn read_word(b: &Vec<u8>, k: usize) -> (v: u64)
    requires
        8 * k + 8 <= b@.len(),
    ensures
        v == word(b@, k as int),
{
    let ghost group = b@.subrange(8 * k, 8 * k + 8);
    assert(b@.len() == b.len());
    let mut v: u64 = 0;
    let base = 8 * k;
    for i in 0..8usize
        invariant
            base == 8 * k,
            base + 8 <= b@.len() == b.len(),
            group == b@.subrange(8 * k, 8 * k + 8),
            v == be_value(group.take(i as int)),
            v < pow256(i as nat),
    {
        proof {
            reveal_with_fuel(pow256, 9);
            assert(group.take(i + 1).drop_last() == group.take(i as int));
        }
        v = v * 256 + b[base + i] as u64;
    }
    assert(group.take(8) == group);
    v
}

} // verus!
