//! Big-endian integers on the wire.
//!
//! A number is written as a fixed count of base-256 digits, most significant
//! first. The model is arithmetic (`be_value`, `be_bytes`); the executable
//! functions read and write such numerals inside byte vectors.

use vstd::prelude::*;

verus! {

/// 256 to the power `n`.
pub open spec fn pow256(n: nat) -> nat
    decreases n,
{
    if n == 0 {
        1
    } else {
        256 * pow256((n - 1) as nat)
    }
}

/// The number that `s` denotes when read as a base-256 numeral, most
/// significant digit first.
pub open spec fn be_value(s: Seq<u8>) -> nat
    decreases s.len(),
{
    if s.len() == 0 {
        0
    } else {
        be_value(s.drop_last()) * 256 + s.last() as nat
    }
}

/// The `width` least significant base-256 digits of `v`, most significant
/// first.
pub open spec fn be_bytes(v: nat, width: nat) -> Seq<u8>
    decreases width,
{
    if width == 0 {
        Seq::empty()
    } else {
        be_bytes(v / 256, (width - 1) as nat).push((v % 256) as u8)
    }
}

/// A power of 256 is at least 1.
pub proof fn lemma_pow256_positive(n: nat)
    ensures
        pow256(n) >= 1,
    decreases n,
{
    if n > 0 {
        lemma_pow256_positive((n - 1) as nat);
    }
}

/// A larger exponent gives no smaller power.
pub proof fn lemma_pow256_monotonic(a: nat, b: nat)
    requires
        a <= b,
    ensures
        pow256(a) <= pow256(b),
    decreases b,
{
    if a < b {
        lemma_pow256_monotonic(a, (b - 1) as nat);
        lemma_pow256_positive((b - 1) as nat);
    }
}

/// The values of `pow256` at the two widths that the formats use.
pub proof fn lemma_pow256_values()
    ensures
        pow256(4) == 0x1_0000_0000,
        pow256(7) == 0x100_0000_0000_0000,
        pow256(8) == 0x1_0000_0000_0000_0000,
{
    reveal_with_fuel(pow256, 9);
}

/// A number written at a width has that many digits.
pub proof fn lemma_be_bytes_len(v: nat, width: nat)
    ensures
        be_bytes(v, width).len() == width,
    decreases width,
{
    if width > 0 {
        lemma_be_bytes_len(v / 256, (width - 1) as nat);
    }
}

/// A numeral of `n` digits denotes a number below `256^n`.
pub proof fn lemma_be_value_bound(s: Seq<u8>)
    ensures
        be_value(s) < pow256(s.len()),
    decreases s.len(),
{
    if s.len() > 0 {
        lemma_be_value_bound(s.drop_last());
    }
}

/// Reading back the digits of a number that fits in `width` digits gives
/// the number.
pub proof fn lemma_be_value_of_bytes(v: nat, width: nat)
    requires
        v < pow256(width),
    ensures
        be_value(be_bytes(v, width)) == v,
    decreases width,
{
    if width > 0 {
        let high = be_bytes(v / 256, (width - 1) as nat);
        lemma_be_value_of_bytes(v / 256, (width - 1) as nat);
        assert(be_bytes(v, width).drop_last() =~= high);
    }
}

/// Appends the `width` low digits of `v` to `out`, most significant first.
pub fn push_be(out: &mut Vec<u8>, v: u64, width: usize)
    requires
        width <= 8,
    ensures
        final(out)@ == old(out)@ + be_bytes(v as nat, width as nat),
{
    let mut digits: Vec<u8> = Vec::new();
    let mut k: usize = 0;
    while k < width
        invariant
            k <= width,
            digits@.len() == k,
        decreases width - k,
    {
        digits.push(0u8);
        k += 1;
    }
    let mut rest: u64 = v;
    let mut i: usize = width;
    while i > 0
        invariant
            i <= width,
            digits@.len() == width,
            be_bytes(v as nat, width as nat) =~= be_bytes(rest as nat, i as nat) + digits@.subrange(
                i as int,
                width as int,
            ),
        decreases i,
    {
        let low: u8 = (rest % 256) as u8;
        let ghost before = digits@;
        i -= 1;
        digits.set(i, low);
        proof {
            let tail_before = before.subrange(i + 1, width as int);
            let tail_after = digits@.subrange(i as int, width as int);
            assert(tail_after =~= seq![low] + tail_before);
            assert(be_bytes(rest as nat, (i + 1) as nat) =~= be_bytes(
                (rest / 256) as nat,
                i as nat,
            ).push(low));
        }
        rest = rest / 256;
    }
    proof {
        assert(digits@.subrange(0, width as int) =~= digits@);
    }
    out.append(&mut digits);
}

/// Reads the numeral of `width` digits that starts at `pos`.
pub fn read_be(data: &Vec<u8>, pos: usize, width: usize) -> (v: u64)
    requires
        width <= 8,
        pos + width <= data.len(),
    ensures
        v as nat == be_value(data@.subrange(pos as int, pos + width)),
{
    let mut acc: u64 = 0;
    let mut i: usize = 0;
    while i < width
        invariant
            i <= width,
            width <= 8,
            pos + width <= data.len(),
            acc as nat == be_value(data@.subrange(pos as int, pos + i)),
        decreases width - i,
    {
        let digit: u8 = data[pos + i];
        proof {
            let seen = data@.subrange(pos as int, pos + i);
            let next = data@.subrange(pos as int, pos + i + 1);
            assert(next.drop_last() =~= seen);
            assert(next.last() == digit);
            lemma_be_value_bound(seen);
            lemma_pow256_monotonic(i as nat, 7);
            lemma_pow256_values();
        }
        acc = acc * 256 + digit as u64;
        i += 1;
    }
    acc
}

/// Appends a copy of `src` to `out`.
pub fn append_bytes(out: &mut Vec<u8>, src: &Vec<u8>)
    ensures
        final(out)@ == old(out)@ + src@,
{
    let mut i: usize = 0;
    while i < src.len()
        invariant
            i <= src.len(),
            out@ == old(out)@ + src@.subrange(0, i as int),
        decreases src.len() - i,
    {
        out.push(src[i]);
        i += 1;
        assert(out@ =~= old(out)@ + src@.subrange(0, i as int));
    }
    assert(src@.subrange(0, src.len() as int) =~= src@);
}

/// A copy of the bytes of `data` from `from` up to, not including, `to`.
pub fn copy_range(data: &Vec<u8>, from: usize, to: usize) -> (out: Vec<u8>)
    requires
        from <= to <= data.len(),
    ensures
        out@ == data@.subrange(from as int, to as int),
{
    let mut out: Vec<u8> = Vec::new();
    let mut i: usize = from;
    while i < to
        invariant
            from <= i <= to,
            to <= data.len(),
            out@ == data@.subrange(from as int, i as int),
        decreases to - i,
    {
        out.push(data[i]);
        i += 1;
        assert(out@ =~= data@.subrange(from as int, i as int));
    }
    out
}

/// Appends `v` as eight big-endian bytes.
pub fn push_u64(out: &mut Vec<u8>, v: u64)
    ensures
        final(out)@ == old(out)@ + be_bytes(v as nat, 8),
{
    push_be(out, v, 8);
}

/// Reads eight big-endian bytes at `pos`.
pub fn read_u64(data: &Vec<u8>, pos: usize) -> (v: u64)
    requires
        pos + 8 <= data.len(),
    ensures
        v as nat == be_value(data@.subrange(pos as int, pos + 8)),
{
    read_be(data, pos, 8)
}

} // verus!
