use vstd::prelude::*;

verus! {

/// The four bytes of `v`, most significant first.
pub open spec fn be_bytes_u32(v: u32) -> Seq<u8> {
    seq![
        ((v as int / 0x100_0000) % 0x100) as u8,
        ((v as int / 0x1_0000) % 0x100) as u8,
        ((v as int / 0x100) % 0x100) as u8,
        (v as int % 0x100) as u8,
    ]
}

/// Converts an unsigned 32-bit integer to its big-endian byte representation.
pub fn be_u8_from_u32(value: u32) -> (r: [u8; 4])
    ensures
        r@ == be_bytes_u32(value),
{
    let r = [
        ((value >> 24) & 0xff) as u8,
        ((value >> 16) & 0xff) as u8,
        ((value >> 8) & 0xff) as u8,
        (value & 0xff) as u8,
    ];
    assert(((value >> 24) & 0xff) == (value / 0x100_0000) % 0x100) by (bit_vector);
    assert(((value >> 16) & 0xff) == (value / 0x1_0000) % 0x100) by (bit_vector);
    assert(((value >> 8) & 0xff) == (value / 0x100) % 0x100) by (bit_vector);
    assert((value & 0xff) == value % 0x100) by (bit_vector);
    assert(r@ =~= be_bytes_u32(value));
    r
}

} // verus!

verus! {

/// The eight bytes of `n`, least significant first.
pub open spec fn le_bytes(n: u64) -> Seq<u8> {
    seq![
        (n as int % 0x100) as u8,
        ((n as int / 0x100) % 0x100) as u8,
        ((n as int / 0x1_0000) % 0x100) as u8,
        ((n as int / 0x100_0000) % 0x100) as u8,
        ((n as int / 0x1_0000_0000) % 0x100) as u8,
        ((n as int / 0x100_0000_0000) % 0x100) as u8,
        ((n as int / 0x1_0000_0000_0000) % 0x100) as u8,
        ((n as int / 0x100_0000_0000_0000) % 0x100) as u8,
    ]
}

/// The unsigned integer whose little-endian encoding is `s`.
pub open spec fn le_value(s: Seq<u8>) -> nat
    decreases s.len(),
{
    if s.len() == 0 {
        0
    } else {
        s[0] as nat + 0x100 * le_value(s.drop_first())
    }
}

/// Appends the little-endian encoding of `n` to `out`.
pub fn push_le_u64(out: &mut Vec<u8>, n: u64)
    ensures
        final(out)@ == old(out)@ + le_bytes(n),
{
    assert((n & 0xff) == n % 0x100) by (bit_vector);
    assert(((n >> 8) & 0xff) == (n / 0x100) % 0x100) by (bit_vector);
    assert(((n >> 16) & 0xff) == (n / 0x1_0000) % 0x100) by (bit_vector);
    assert(((n >> 24) & 0xff) == (n / 0x100_0000) % 0x100) by (bit_vector);
    assert(((n >> 32) & 0xff) == (n / 0x1_0000_0000) % 0x100) by (bit_vector);
    assert(((n >> 40) & 0xff) == (n / 0x100_0000_0000) % 0x100) by (bit_vector);
    assert(((n >> 48) & 0xff) == (n / 0x1_0000_0000_0000) % 0x100) by (bit_vector);
    assert(((n >> 56) & 0xff) == (n / 0x100_0000_0000_0000) % 0x100) by (bit_vector);
    out.push((n & 0xff) as u8);
    out.push(((n >> 8) & 0xff) as u8);
    out.push(((n >> 16) & 0xff) as u8);
    out.push(((n >> 24) & 0xff) as u8);
    out.push(((n >> 32) & 0xff) as u8);
    out.push(((n >> 40) & 0xff) as u8);
    out.push(((n >> 48) & 0xff) as u8);
    out.push(((n >> 56) & 0xff) as u8);
    assert(final(out)@ =~= old(out)@ + le_bytes(n));
}

/// Appends every byte of `bytes` to `out`.
pub fn push_bytes(out: &mut Vec<u8>, bytes: &[u8])
    ensures
        final(out)@ == old(out)@ + bytes@,
{
    let ghost start = out@;
    let mut i: usize = 0;
    while i < bytes.len()
        invariant
            i <= bytes@.len(),
            out@ == start + bytes@.subrange(0, i as int),
        decreases bytes@.len() - i,
    {
        out.push(bytes[i]);
        i = i + 1;
        assert(out@ =~= start + bytes@.subrange(0, i as int));
    }
    assert(bytes@.subrange(0, i as int) =~= bytes@);
}

/// Reads the first eight bytes of `bytes` as a little-endian unsigned integer.
pub fn u64_from_le_prefix(bytes: &[u8]) -> (r: u64)
    requires
        bytes@.len() >= 8,
    ensures
        r == le_value(bytes@.subrange(0, 8)),
{
    let mut x: u64 = 0;
    let mut i: usize = 8;
    while i > 0
        invariant
            i <= 8,
            bytes@.len() >= 8,
            x == le_value(bytes@.subrange(i as int, 8)),
            x < pow256((8 - i) as nat),
        decreases i,
    {
        i = i - 1;
        let b = bytes[i];
        let ghost tail = bytes@.subrange(i as int + 1, 8);
        assert(bytes@.subrange(i as int, 8).drop_first() =~= tail);
        assert(pow256((8 - i) as nat) == 0x100 * pow256((8 - i - 1) as nat));
        assert(pow256((8 - i) as nat) <= 0x1_0000_0000_0000_0000) by {
            lemma_pow256_bound((8 - i) as nat);
        }
        assert(x * 0x100 + b < 0x100 * pow256((8 - i - 1) as nat)) by (nonlinear_arith)
            requires
                x < pow256((8 - i - 1) as nat),
                b < 0x100,
        ;
        x = x * 0x100 + b as u64;
    }
    x
}

/// 256 to the power `k`.
pub open spec fn pow256(k: nat) -> nat
    decreases k,
{
    if k == 0 {
        1
    } else {
        0x100 * pow256((k - 1) as nat)
    }
}

proof fn lemma_pow256_bound(k: nat)
    requires
        k <= 8,
    ensures
        pow256(k) <= 0x1_0000_0000_0000_0000,
    decreases k,
{
    reveal_with_fuel(pow256, 9);
}

} // verus!
