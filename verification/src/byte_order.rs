//! Unsigned integers as sequences of bytes, least or most significant byte first.

use vstd::prelude::*;

verus! {

/// 256 to the power `n`: the number of values that `n` bytes can hold.
pub open spec fn pow256(n: nat) -> nat
    decreases n,
{
    if n == 0 {
        1
    } else {
        256 * pow256((n - 1) as nat)
    }
}

/// The `n` bytes of `v`, least significant first (the higher digits of `v` are dropped).
pub open spec fn le_bytes(v: nat, n: nat) -> Seq<u8>
    decreases n,
{
    if n == 0 {
        Seq::empty()
    } else {
        seq![(v % 256) as u8] + le_bytes(v / 256, (n - 1) as nat)
    }
}

/// The `n` bytes of `v`, most significant first (the higher digits of `v` are dropped).
pub open spec fn be_bytes(v: nat, n: nat) -> Seq<u8>
    decreases n,
{
    if n == 0 {
        Seq::empty()
    } else {
        be_bytes(v / 256, (n - 1) as nat) + seq![(v % 256) as u8]
    }
}

/// The number that `bytes` hold, least significant byte first.
pub open spec fn le_value(bytes: Seq<u8>) -> nat
    decreases bytes.len(),
{
    if bytes.len() == 0 {
        0
    } else {
        bytes[0] as nat + 256 * le_value(bytes.drop_first())
    }
}

/// The number that `bytes` hold, most significant byte first.
pub open spec fn be_value(bytes: Seq<u8>) -> nat
    decreases bytes.len(),
{
    if bytes.len() == 0 {
        0
    } else {
        256 * be_value(bytes.drop_last()) + bytes.last() as nat
    }
}

/// `256^n` is positive.
pub proof fn lemma_pow256_positive(n: nat)
    ensures
        pow256(n) >= 1,
    decreases n,
{
    if n > 0 {
        lemma_pow256_positive((n - 1) as nat);
    }
}

/// The values of `256^n` for the sample sizes.
pub proof fn lemma_pow256_values()
    ensures
        pow256(1) == 0x100,
        pow256(2) == 0x1_0000,
        pow256(3) == 0x100_0000,
        pow256(4) == 0x1_0000_0000,
        pow256(8) == 0x1_0000_0000_0000_0000,
{
    reveal_with_fuel(pow256, 9);
}

/// `le_bytes(v, n)` has `n` bytes.
pub proof fn lemma_le_bytes_len(v: nat, n: nat)
    ensures
        le_bytes(v, n).len() == n,
    decreases n,
{
    if n > 0 {
        lemma_le_bytes_len(v / 256, (n - 1) as nat);
    }
}

/// `be_bytes(v, n)` has `n` bytes.
pub proof fn lemma_be_bytes_len(v: nat, n: nat)
    ensures
        be_bytes(v, n).len() == n,
    decreases n,
{
    if n > 0 {
        lemma_be_bytes_len(v / 256, (n - 1) as nat);
    }
}

/// Reading back the bytes of `v` gives `v`, when `v` fits in them.
pub proof fn lemma_le_value_of_bytes(v: nat, n: nat)
    requires
        v < pow256(n),
    ensures
        le_value(le_bytes(v, n)) == v,
    decreases n,
{
    if n > 0 {
        let rest = (n - 1) as nat;
        assert(v / 256 < pow256(rest)) by (nonlinear_arith)
            requires
                v < 256 * pow256(rest),
        ;
        lemma_le_value_of_bytes(v / 256, rest);
        let b = le_bytes(v, n);
        assert(b.drop_first() == le_bytes(v / 256, rest));
    }
}

/// Reading back the bytes of `v` gives `v`, when `v` fits in them.
pub proof fn lemma_be_value_of_bytes(v: nat, n: nat)
    requires
        v < pow256(n),
    ensures
        be_value(be_bytes(v, n)) == v,
    decreases n,
{
    if n > 0 {
        let rest = (n - 1) as nat;
        assert(v / 256 < pow256(rest)) by (nonlinear_arith)
            requires
                v < 256 * pow256(rest),
        ;
        lemma_be_value_of_bytes(v / 256, rest);
        let b = be_bytes(v, n);
        assert(b.drop_last() == be_bytes(v / 256, rest));
    }
}

/// The value of `n` bytes is below `256^n`.
pub proof fn lemma_le_value_bound(bytes: Seq<u8>)
    ensures
        le_value(bytes) < pow256(bytes.len()),
    decreases bytes.len(),
{
    if bytes.len() > 0 {
        let rest = bytes.drop_first();
        lemma_le_value_bound(rest);
        let v = le_value(rest);
        let p = pow256(rest.len());
        let b0 = bytes[0];
        assert(b0 + 256 * v < 256 * p) by (nonlinear_arith)
            requires
                v < p,
                0 <= b0 < 256,
        ;
    }
}

/// The value of `n` bytes is below `256^n`.
pub proof fn lemma_be_value_bound(bytes: Seq<u8>)
    ensures
        be_value(bytes) < pow256(bytes.len()),
    decreases bytes.len(),
{
    if bytes.len() > 0 {
        let rest = bytes.drop_last();
        lemma_be_value_bound(rest);
        let v = be_value(rest);
        let p = pow256(rest.len());
        let b0 = bytes.last();
        assert(256 * v + b0 < 256 * p) by (nonlinear_arith)
            requires
                v < p,
                0 <= b0 < 256,
        ;
    }
}

/// Writing out the value of some bytes gives back the same bytes.
pub proof fn lemma_le_bytes_of_value(bytes: Seq<u8>)
    ensures
        le_bytes(le_value(bytes), bytes.len()) == bytes,
    decreases bytes.len(),
{
    if bytes.len() > 0 {
        let rest = bytes.drop_first();
        lemma_le_bytes_of_value(rest);
        let v = le_value(rest);
        let b0 = bytes[0];
        assert((b0 + 256 * v) % 256 == b0 && (b0 + 256 * v) / 256 == v) by (nonlinear_arith)
            requires
                0 <= b0 < 256,
                v >= 0,
        ;
        assert(le_bytes(le_value(bytes), bytes.len()) =~= seq![b0] + rest);
        assert(bytes =~= seq![b0] + rest);
    }
}

/// Writing out the value of some bytes gives back the same bytes.
pub proof fn lemma_be_bytes_of_value(bytes: Seq<u8>)
    ensures
        be_bytes(be_value(bytes), bytes.len()) == bytes,
    decreases bytes.len(),
{
    if bytes.len() > 0 {
        let rest = bytes.drop_last();
        lemma_be_bytes_of_value(rest);
        let v = be_value(rest);
        let b0 = bytes.last();
        assert((256 * v + b0) % 256 == b0 && (256 * v + b0) / 256 == v) by (nonlinear_arith)
            requires
                0 <= b0 < 256,
                v >= 0,
        ;
        assert(be_bytes(be_value(bytes), bytes.len()) =~= rest + seq![b0]);
        assert(bytes =~= rest + seq![b0]);
    }
}

/// Writes the `n` bytes of `value`, least significant first, to the front of `out`.
pub fn write_le(value: u64, n: usize, out: &mut [u8])
    requires
        n <= old(out)@.len(),
    ensures
        final(out)@.len() == old(out)@.len(),
        final(out)@.subrange(0, n as int) == le_bytes(value as nat, n as nat),
        final(out)@.subrange(n as int, old(out)@.len() as int)
            == old(out)@.subrange(n as int, old(out)@.len() as int),
{
    let mut rest = value;
    let mut k: usize = 0;
    while k < n
        invariant
            k <= n <= out@.len(),
            out@.len() == old(out)@.len(),
            out@.subrange(0, k as int) + le_bytes(rest as nat, (n - k) as nat) == le_bytes(value as nat, n as nat),
            out@.subrange(n as int, out@.len() as int) == old(out)@.subrange(n as int, old(out)@.len() as int),
        decreases n - k,
    {
        let ghost before = out@;
        out[k] = (rest % 256) as u8;
        proof {
            let m = (n - k) as nat;
            assert(le_bytes(rest as nat, m) == seq![(rest as nat % 256) as u8] + le_bytes(rest as nat / 256, (m - 1) as nat));
            assert(out@.subrange(0, k + 1) == out@.subrange(0, k as int) + seq![(rest as nat % 256) as u8]);
            assert(out@.subrange(0, k as int) == before.subrange(0, k as int));
            assert(out@.subrange(n as int, out@.len() as int) == before.subrange(n as int, before.len() as int));
        }
        rest = rest / 256;
        k = k + 1;
    }
    assert(out@.subrange(0, n as int) + le_bytes(rest as nat, 0) == out@.subrange(0, n as int));
}

/// Writes the `n` bytes of `value`, most significant first, to the front of `out`.
pub fn write_be(value: u64, n: usize, out: &mut [u8])
    requires
        n <= old(out)@.len(),
    ensures
        final(out)@.len() == old(out)@.len(),
        final(out)@.subrange(0, n as int) == be_bytes(value as nat, n as nat),
        final(out)@.subrange(n as int, old(out)@.len() as int)
            == old(out)@.subrange(n as int, old(out)@.len() as int),
{
    let mut rest = value;
    let mut k: usize = n;
    while k > 0
        invariant
            k <= n <= out@.len(),
            out@.len() == old(out)@.len(),
            be_bytes(rest as nat, k as nat) + out@.subrange(k as int, n as int) == be_bytes(value as nat, n as nat),
            out@.subrange(n as int, out@.len() as int) == old(out)@.subrange(n as int, old(out)@.len() as int),
        decreases k,
    {
        let ghost before = out@;
        out[k - 1] = (rest % 256) as u8;
        proof {
            let m = k as nat;
            assert(be_bytes(rest as nat, m) == be_bytes(rest as nat / 256, (m - 1) as nat) + seq![(rest as nat % 256) as u8]);
            assert(out@.subrange(k - 1, n as int) == seq![(rest as nat % 256) as u8] + out@.subrange(k as int, n as int));
            assert(out@.subrange(k as int, n as int) == before.subrange(k as int, n as int));
            assert(out@.subrange(n as int, out@.len() as int) == before.subrange(n as int, before.len() as int));
        }
        rest = rest / 256;
        k = k - 1;
    }
    assert(be_bytes(rest as nat, 0) + out@.subrange(0, n as int) == out@.subrange(0, n as int));
}

/// The number that the first `n` bytes of `input` hold, least significant first.
pub fn read_le(input: &[u8], n: usize) -> (value: u64)
    requires
        n <= input@.len(),
        n <= 8,
    ensures
        value as nat == le_value(input@.subrange(0, n as int)),
{
    let mut acc: u64 = 0;
    let mut k: usize = n;
    while k > 0
        invariant
            k <= n <= input@.len(),
            n <= 8,
            acc as nat == le_value(input@.subrange(k as int, n as int)),
        decreases k,
    {
        let b = input[k - 1];
        proof {
            let s = input@.subrange(k - 1, n as int);
            assert(s.drop_first() == input@.subrange(k as int, n as int));
            lemma_le_value_bound(input@.subrange(k as int, n as int));
            lemma_pow256_mono((n - k) as nat, 7);
            lemma_pow256_values();
            reveal_with_fuel(pow256, 8);
        }
        acc = acc * 256 + b as u64;
        k = k - 1;
    }
    acc
}

/// The number that the first `n` bytes of `input` hold, most significant first.
pub fn read_be(input: &[u8], n: usize) -> (value: u64)
    requires
        n <= input@.len(),
        n <= 8,
    ensures
        value as nat == be_value(input@.subrange(0, n as int)),
{
    let mut acc: u64 = 0;
    let mut k: usize = 0;
    while k < n
        invariant
            k <= n <= input@.len(),
            n <= 8,
            acc as nat == be_value(input@.subrange(0, k as int)),
        decreases n - k,
    {
        let b = input[k];
        proof {
            let s = input@.subrange(0, k + 1);
            assert(s.drop_last() == input@.subrange(0, k as int));
            lemma_be_value_bound(input@.subrange(0, k as int));
            lemma_pow256_mono(k as nat, 7);
            reveal_with_fuel(pow256, 8);
        }
        acc = acc * 256 + b as u64;
        k = k + 1;
    }
    acc
}

/// `256^n` grows with `n`.
pub proof fn lemma_pow256_mono(a: nat, b: nat)
    requires
        a <= b,
    ensures
        pow256(a) <= pow256(b),
    decreases b,
{
    if a < b {
        lemma_pow256_mono(a, (b - 1) as nat);
        lemma_pow256_positive((b - 1) as nat);
    }
}

} // verus!
