//! Numbers as big-endian bytes.
use vstd::prelude::*;

verus! {

/// 256 to the power of `n`.
pub open spec fn pow256(n: nat) -> nat
    decreases n,
{
    if n == 0 {
        1
    } else {
        256 * pow256((n - 1) as nat)
    }
}

/// The last `width` bytes of `n`, most significant first.
pub open spec fn be_bytes(n: nat, width: nat) -> Seq<u8>
    decreases width,
{
    if width == 0 {
        seq![]
    } else {
        be_bytes(n / 256, (width - 1) as nat).push((n % 256) as u8)
    }
}

/// The number that the bytes stand for.
pub open spec fn be_value(bytes: Seq<u8>) -> nat
    decreases bytes.len(),
{
    if bytes.len() == 0 {
        0
    } else {
        be_value(bytes.drop_last()) * 256 + bytes.last() as nat
    }
}

/// A number that fits is read back as it was written.
pub proof fn lemma_be_round_trip(n: nat, width: nat)
    ensures
        be_bytes(n, width).len() == width,
        n < pow256(width) ==> be_value(be_bytes(n, width)) == n,
    decreases width,
{
    if width > 0 {
        lemma_be_round_trip(n / 256, (width - 1) as nat);
        assert(be_bytes(n, width).drop_last() =~= be_bytes(n / 256, (width - 1) as nat));
    }
}

/// The value of `width` bytes is below 256 to the power of `width`.
pub proof fn lemma_be_bound(bytes: Seq<u8>)
    ensures
        be_value(bytes) < pow256(bytes.len()),
    decreases bytes.len(),
{
    if bytes.len() > 0 {
        lemma_be_bound(bytes.drop_last());
    }
}

pub proof fn lemma_pow256()
    ensures
        pow256(4) == 0x1_0000_0000,
        pow256(8) == 0x1_0000_0000_0000_0000,
{
    reveal_with_fuel(pow256, 9);
}

proof fn lemma_pow256_monotonic(a: nat, b: nat)
    requires
        a <= b,
    ensures
        pow256(a) <= pow256(b),
    decreases b,
{
    if a < b {
        lemma_pow256_monotonic(a, (b - 1) as nat);
    }
}

/// Appends the last `width` bytes of `n`, most significant first.
pub fn push_be(buffer: &mut Vec<u8>, n: u64, width: usize)
    ensures
        final(buffer)@ == old(buffer)@ + be_bytes(n as nat, width as nat),
    decreases width,
{
    if width > 0 {
        push_be(buffer, n / 256, width - 1);
        buffer.push((n % 256) as u8);
    }
    assert(buffer@ =~= old(buffer)@ + be_bytes(n as nat, width as nat));
}

/// The number that `width` bytes from `from` on stand for.
pub fn read_be(bytes: &Vec<u8>, from: usize, width: usize) -> (r: u64)
    requires
        width <= 8,
        from + width <= bytes@.len(),
    ensures
        r == be_value(bytes@.subrange(from as int, from + width)),
        r < pow256(width as nat),
{
    let total: usize = bytes.len();
    let mut value: u64 = 0;
    let mut i: usize = 0;
    assert(bytes@.subrange(from as int, from as int) =~= seq![]);
    while i < width
        invariant
            total == bytes@.len(),
            i <= width <= 8,
            from + width <= total,
            value == be_value(bytes@.subrange(from as int, from + i)),
        decreases width - i,
    {
        proof {
            let next = bytes@.subrange(from as int, from + i + 1);
            assert(next.drop_last() =~= bytes@.subrange(from as int, from + i));
            assert(next.last() == bytes@[from + i]);
            lemma_be_bound(next);
            lemma_pow256_monotonic((i + 1) as nat, 8);
            lemma_pow256();
        }
        value = value * 256 + bytes[from + i] as u64;
        i += 1;
    }
    proof {
        lemma_be_bound(bytes@.subrange(from as int, from + width));
    }
    value
}

} // verus!
