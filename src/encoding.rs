//! Canonical byte encodings of integers, used in digest preimages.
use vstd::prelude::*;
use vstd::arithmetic::div_mod::lemma_fundamental_div_mod;

verus! {

/// The `n` least significant bytes of `x`, least significant first.
///
/// For a negative `x` this is its two's-complement form, since `%` and `/`
/// round toward negative infinity.
pub open spec fn le_bytes(x: int, n: nat) -> Seq<u8>
    decreases n,
{
    if n == 0 {
        Seq::empty()
    } else {
        seq![(x % 256) as u8] + le_bytes(x / 256, (n - 1) as nat)
    }
}

/// Appends the `n` least significant bytes of `x` to `out`, least significant first.
pub fn push_le_bytes(out: &mut Vec<u8>, x: u128, n: usize)
    requires
        n <= 16,
    ensures
        final(out)@ == old(out)@ + le_bytes(x as int, n as nat),
{
    let mut v: u128 = x;
    let mut k: usize = n;
    while k > 0
        invariant
            k <= n,
            out@ + le_bytes(v as int, k as nat) == old(out)@ + le_bytes(x as int, n as nat),
        decreases k,
    {
        let ghost before = out@;
        out.push((v % 256) as u8);
        proof {
            assert(le_bytes(v as int, k as nat) == seq![(v as int % 256) as u8] + le_bytes(
                v as int / 256,
                (k - 1) as nat,
            ));
            assert(before + le_bytes(v as int, k as nat) =~= out@ + le_bytes(
                v as int / 256,
                (k - 1) as nat,
            ));
        }
        v = v / 256;
        k = k - 1;
    }
}

/// Little-endian bytes of a `u64`, as `u64::to_le_bytes` lays them out.
pub fn push_u64_le(out: &mut Vec<u8>, x: u64)
    ensures
        final(out)@ == old(out)@ + le_bytes(x as int, 8),
{
    push_le_bytes(out, x as u128, 8);
}

/// Little-endian bytes of a `u128`.
pub fn push_u128_le(out: &mut Vec<u8>, x: u128)
    ensures
        final(out)@ == old(out)@ + le_bytes(x as int, 16),
{
    push_le_bytes(out, x, 16);
}

/// Little-endian two's-complement bytes of an `i128`.
pub fn push_i128_le(out: &mut Vec<u8>, x: i128)
    ensures
        final(out)@ == old(out)@ + le_bytes(x as u128 as int, 16),
{
    push_le_bytes(out, x as u128, 16);
}

/// Appends every byte of `b` to `out`.
pub fn push_bytes(out: &mut Vec<u8>, b: &[u8])
    ensures
        final(out)@ == old(out)@ + b@,
{
    let mut i: usize = 0;
    while i < b.len()
        invariant
            i <= b@.len(),
            out@ == old(out)@ + b@.subrange(0, i as int),
        decreases b@.len() - i,
    {
        out.push(b[i]);
        assert(b@.subrange(0, i + 1) =~= b@.subrange(0, i as int).push(b@[i as int]));
        i = i + 1;
    }
    assert(b@.subrange(0, b@.len() as int) =~= b@);
}

/// `256` to the power `n`: the values that `n` bytes can hold.
pub open spec fn byte_range(n: nat) -> int
    decreases n,
{
    if n == 0 {
        1
    } else {
        256 * byte_range((n - 1) as nat)
    }
}

/// Splitting two equal concatenations at prefixes of equal length.
pub proof fn lemma_split_concat(a1: Seq<u8>, b1: Seq<u8>, a2: Seq<u8>, b2: Seq<u8>)
    requires
        a1.len() == a2.len(),
        a1 + b1 == a2 + b2,
    ensures
        a1 == a2,
        b1 == b2,
{
    assert(a1 =~= (a1 + b1).subrange(0, a1.len() as int));
    assert(a2 =~= (a2 + b2).subrange(0, a2.len() as int));
    assert(b1 =~= (a1 + b1).subrange(a1.len() as int, (a1 + b1).len() as int));
    assert(b2 =~= (a2 + b2).subrange(a2.len() as int, (a2 + b2).len() as int));
}

/// `le_bytes` has `n` bytes.
pub proof fn lemma_le_bytes_len(x: int, n: nat)
    ensures
        le_bytes(x, n).len() == n,
    decreases n,
{
    if n > 0 {
        lemma_le_bytes_len(x / 256, (n - 1) as nat);
    }
}

/// Values that fit in `n` bytes have distinct encodings.
pub proof fn lemma_le_bytes_injective(x: int, y: int, n: nat)
    requires
        0 <= x < byte_range(n),
        0 <= y < byte_range(n),
        le_bytes(x, n) == le_bytes(y, n),
    ensures
        x == y,
    decreases n,
{
    if n > 0 {
        let b = byte_range((n - 1) as nat);
        let rx = le_bytes(x / 256, (n - 1) as nat);
        let ry = le_bytes(y / 256, (n - 1) as nat);
        lemma_split_concat(seq![(x % 256) as u8], rx, seq![(y % 256) as u8], ry);
        assert(seq![(x % 256) as u8][0] == seq![(y % 256) as u8][0]);
        lemma_fundamental_div_mod(x, 256);
        lemma_fundamental_div_mod(y, 256);
        assert(0 <= x / 256 < b) by (nonlinear_arith)
            requires x == 256 * (x / 256) + x % 256, 0 <= x % 256 < 256, 0 <= x < 256 * b;
        assert(0 <= y / 256 < b) by (nonlinear_arith)
            requires y == 256 * (y / 256) + y % 256, 0 <= y % 256 < 256, 0 <= y < 256 * b;
        lemma_le_bytes_injective(x / 256, y / 256, (n - 1) as nat);
    }
}

/// A name framed by its UTF-8 length: eight little-endian length bytes, then
/// the UTF-8 bytes.
pub open spec fn framed_name(name: Seq<char>) -> Seq<u8> {
    le_bytes(vstd::utf8::encode_utf8(name).len() as int, 8) + vstd::utf8::encode_utf8(name)
}

/// An optional name: a zero tag for none; a one tag, then the framed name.
pub open spec fn framed_opt_name(name: Option<Seq<char>>) -> Seq<u8> {
    match name {
        Some(x) => seq![1u8] + framed_name(x),
        None => seq![0u8],
    }
}

/// A name whose UTF-8 form is short enough for its length to be framed.
pub open spec fn frameable(name: Seq<char>) -> bool {
    vstd::utf8::encode_utf8(name).len() <= u64::MAX
}

/// A framed name is read back unambiguously from the front of a byte string.
pub proof fn lemma_framed_name_prefix(a1: Seq<char>, r1: Seq<u8>, a2: Seq<char>, r2: Seq<u8>)
    requires
        frameable(a1),
        frameable(a2),
        framed_name(a1) + r1 == framed_name(a2) + r2,
    ensures
        a1 == a2,
        r1 == r2,
{
    let e1 = vstd::utf8::encode_utf8(a1);
    let e2 = vstd::utf8::encode_utf8(a2);
    let l1 = le_bytes(e1.len() as int, 8);
    let l2 = le_bytes(e2.len() as int, 8);
    lemma_le_bytes_len(e1.len() as int, 8);
    lemma_le_bytes_len(e2.len() as int, 8);
    assert(framed_name(a1) + r1 =~= l1 + (e1 + r1));
    assert(framed_name(a2) + r2 =~= l2 + (e2 + r2));
    lemma_split_concat(l1, e1 + r1, l2, e2 + r2);
    assert(byte_range(8) == 18446744073709551616) by {
        reveal_with_fuel(byte_range, 9);
    }
    lemma_le_bytes_injective(e1.len() as int, e2.len() as int, 8);
    lemma_split_concat(e1, r1, e2, r2);
    vstd::utf8::encode_utf8_decode_utf8(a1);
    vstd::utf8::encode_utf8_decode_utf8(a2);
}

/// A framed optional name is read back unambiguously from the front of a byte string.
pub proof fn lemma_framed_opt_name_prefix(a1: Option<Seq<char>>, r1: Seq<u8>, a2: Option<Seq<char>>, r2: Seq<u8>)
    requires
        a1 is Some ==> frameable(a1->Some_0),
        a2 is Some ==> frameable(a2->Some_0),
        framed_opt_name(a1) + r1 == framed_opt_name(a2) + r2,
    ensures
        a1 == a2,
        r1 == r2,
{
    let f1 = framed_opt_name(a1);
    let f2 = framed_opt_name(a2);
    assert((f1 + r1)[0] == f1[0]);
    assert((f2 + r2)[0] == f2[0]);
    match a1 {
        Some(x1) => match a2 {
            Some(x2) => {
                assert(f1 + r1 =~= seq![1u8] + (framed_name(x1) + r1));
                assert(f2 + r2 =~= seq![1u8] + (framed_name(x2) + r2));
                lemma_split_concat(seq![1u8], framed_name(x1) + r1, seq![1u8], framed_name(x2) + r2);
                lemma_framed_name_prefix(x1, r1, x2, r2);
            },
            None => {},
        },
        None => match a2 {
            Some(x2) => {},
            None => {
                lemma_split_concat(seq![0u8], r1, seq![0u8], r2);
            },
        },
    }
}

/// Appends `name` framed by its UTF-8 length.
pub fn push_framed_name(out: &mut Vec<u8>, name: &String)
    ensures
        final(out)@ == old(out)@ + framed_name(name@),
{
    let bytes = name.as_str().as_bytes();
    push_u64_le(out, bytes.len() as u64);
    push_bytes(out, bytes);
    assert(final(out)@ =~= old(out)@ + framed_name(name@));
}

/// Appends an optional name, tagged.
pub fn push_framed_opt_name(out: &mut Vec<u8>, name: &Option<String>)
    ensures
        final(out)@ == old(out)@ + framed_opt_name(match *name { Some(x) => Some(x@), None => None }),
{
    match name {
        Some(x) => {
            out.push(1u8);
            push_framed_name(out, x);
        },
        None => {
            out.push(0u8);
        },
    }
    assert(final(out)@ =~= old(out)@ + framed_opt_name(match *name { Some(x) => Some(x@), None => None }));
}

} // verus!
