//! The bytes of the index lists that the viewer uploads to the GPU: each index
//! in the byte order of the machine, one after another.
use vstd::endian::Endian;
use vstd::prelude::*;

verus! {

/// The little-endian bytes of `v`, least significant first, `n` of them.
pub open spec fn le_bytes(v: nat, n: nat) -> Seq<u8>
    decreases n,
{
    if n == 0 {
        seq![]
    } else {
        seq![(v % 256) as u8] + le_bytes(v / 256, (n - 1) as nat)
    }
}

/// The `n` bytes of `v` in the order in which this machine stores them.
pub open spec fn native_bytes(v: nat, n: nat) -> Seq<u8> {
    match vstd::endian::endianness() {
        Endian::Little => le_bytes(v, n),
        Endian::Big => le_bytes(v, n).reverse(),
    }
}

/// The bytes of a list of `u32` values as the machine stores them.
pub open spec fn u32s_native_bytes(s: Seq<u32>) -> Seq<u8> {
    s.map_values(|v: u32| native_bytes(v as nat, 4)).flatten()
}

/// The bytes of a list of `u16` values as the machine stores them.
pub open spec fn u16s_native_bytes(s: Seq<u16>) -> Seq<u8> {
    s.map_values(|v: u16| native_bytes(v as nat, 2)).flatten()
}

/// `bytemuck::cast_slice` from `u32` to `u8`: the same memory seen as bytes,
/// so each value's four bytes in the machine's byte order. A `u8` target has
/// alignment and size 1, so the cast cannot fail.
#[verifier::external_body]
fn cast_u32_slice(s: &[u32]) -> (b: &[u8])
    ensures
        b@ == u32s_native_bytes(s@),
{
    bytemuck::cast_slice::<u32, u8>(s)
}

/// `bytemuck::cast_slice` from `u16` to `u8`: the same memory seen as bytes,
/// so each value's two bytes in the machine's byte order. A `u8` target has
/// alignment and size 1, so the cast cannot fail.
#[verifier::external_body]
fn cast_u16_slice(s: &[u16]) -> (b: &[u8])
    ensures
        b@ == u16s_native_bytes(s@),
{
    bytemuck::cast_slice::<u16, u8>(s)
}

/// The contents of a buffer of 32-bit indices (the face lists drawn, and the
/// cell list the computation reads).
pub fn index_bytes_u32(indices: &[u32]) -> (b: &[u8])
    ensures
        b@ == u32s_native_bytes(indices@),
{
    cast_u32_slice(indices)
}

/// The contents of a buffer of 16-bit indices (the wireframe edge lists).
pub fn index_bytes_u16(indices: &[u16]) -> (b: &[u8])
    ensures
        b@ == u16s_native_bytes(indices@),
{
    cast_u16_slice(indices)
}

proof fn lemma_le_bytes_len(v: nat, n: nat)
    ensures
        le_bytes(v, n).len() == n,
    decreases n,
{
    if n > 0 {
        lemma_le_bytes_len(v / 256, (n - 1) as nat);
    }
}

proof fn lemma_flatten_fixed_len(s: Seq<Seq<u8>>, k: nat)
    requires
        forall|i: int| 0 <= i < s.len() ==> #[trigger] s[i].len() == k,
    ensures
        s.flatten().len() == s.len() * k,
    decreases s.len(),
{
    if s.len() > 0 {
        lemma_flatten_fixed_len(s.drop_first(), k);
        assert(s.drop_first().len() * k + k == s.len() * k) by (nonlinear_arith)
            requires s.drop_first().len() + 1 == s.len();
    }
}

/// A buffer of 32-bit indices holds four bytes per index, and one of 16-bit
/// indices two.
pub proof fn law_index_buffer_sizes(s32: Seq<u32>, s16: Seq<u16>)
    ensures
        u32s_native_bytes(s32).len() == 4 * s32.len(),
        u16s_native_bytes(s16).len() == 2 * s16.len(),
{
    let m32 = s32.map_values(|v: u32| native_bytes(v as nat, 4));
    assert forall|i: int| 0 <= i < m32.len() implies #[trigger] m32[i].len() == 4 by {
        lemma_le_bytes_len(s32[i] as nat, 4);
    }
    lemma_flatten_fixed_len(m32, 4);
    let m16 = s16.map_values(|v: u16| native_bytes(v as nat, 2));
    assert forall|i: int| 0 <= i < m16.len() implies #[trigger] m16[i].len() == 2 by {
        lemma_le_bytes_len(s16[i] as nat, 2);
    }
    lemma_flatten_fixed_len(m16, 2);
}

/// The number that little-endian bytes denote, least significant first.
pub open spec fn le_value(b: Seq<u8>) -> nat
    decreases b.len(),
{
    if b.len() == 0 {
        0
    } else {
        (b[0] + 256 * le_value(b.drop_first())) as nat
    }
}

/// The bytes of a value give the value back: read least significant first
/// (reversed first on a big-endian machine), the four bytes of a `u32` and the
/// two of a `u16` denote that number.
pub proof fn law_bytes_denote_the_value(v32: u32, v16: u16)
    ensures
        le_value(le_bytes(v32 as nat, 4)) == v32,
        le_value(le_bytes(v16 as nat, 2)) == v16,
        vstd::endian::endianness() == Endian::Little ==> native_bytes(v32 as nat, 4) == le_bytes(
            v32 as nat,
            4,
        ),
        vstd::endian::endianness() == Endian::Big ==> native_bytes(v32 as nat, 4).reverse()
            == le_bytes(v32 as nat, 4),
{
    let v = v32 as nat;
    let b1 = v / 256;
    let b2 = b1 / 256;
    let b3 = b2 / 256;
    assert(b3 / 256 == 0 && b3 % 256 == b3) by (nonlinear_arith)
        requires b3 == ((v / 256) / 256) / 256, v < 4294967296;
    assert(v == v % 256 + 256 * (b1 % 256 + 256 * (b2 % 256 + 256 * b3))) by (nonlinear_arith)
        requires b1 == v / 256, b2 == b1 / 256, b3 == b2 / 256, v < 4294967296;
    let l4 = le_bytes(v, 4);
    assert(l4.drop_first() == le_bytes(b1, 3));
    assert(le_bytes(b1, 3).drop_first() == le_bytes(b2, 2));
    assert(le_bytes(b2, 2).drop_first() == le_bytes(b3, 1));
    assert(le_bytes(b3, 1).drop_first() == le_bytes(b3 / 256, 0));
    assert(le_value(le_bytes(b3 / 256, 0)) == 0);
    assert(le_value(le_bytes(b3, 1)) == b3);
    assert(le_value(le_bytes(b2, 2)) == b2 % 256 + 256 * b3);
    assert(le_value(le_bytes(b1, 3)) == b1 % 256 + 256 * (b2 % 256 + 256 * b3));
    assert(le_value(l4) == v);
    let w = v16 as nat;
    let c1 = w / 256;
    assert(c1 / 256 == 0 && c1 % 256 == c1 && w == w % 256 + 256 * c1) by (nonlinear_arith)
        requires c1 == w / 256, w < 65536;
    let l2 = le_bytes(w, 2);
    assert(l2.drop_first() == le_bytes(c1, 1));
    assert(le_bytes(c1, 1).drop_first() == le_bytes(c1 / 256, 0));
    assert(le_value(le_bytes(c1 / 256, 0)) == 0);
    assert(le_value(le_bytes(c1, 1)) == c1);
    assert(le_value(l2) == w);
    assert(l4.reverse().reverse() =~= l4);
}

/// The bytes of a list with one more value are the bytes of the list followed
/// by the bytes of that value.
pub proof fn law_bytes_follow_the_list(s32: Seq<u32>, v32: u32, s16: Seq<u16>, v16: u16)
    ensures
        u32s_native_bytes(s32.push(v32)) == u32s_native_bytes(s32) + native_bytes(v32 as nat, 4),
        u16s_native_bytes(s16.push(v16)) == u16s_native_bytes(s16) + native_bytes(v16 as nat, 2),
{
    let four_bytes = |v: u32| native_bytes(v as nat, 4);
    assert(s32.push(v32).map_values(four_bytes) =~= s32.map_values(four_bytes).push(four_bytes(v32)));
    s32.map_values(four_bytes).lemma_flatten_push(four_bytes(v32));
    let two_bytes = |v: u16| native_bytes(v as nat, 2);
    assert(s16.push(v16).map_values(two_bytes) =~= s16.map_values(two_bytes).push(two_bytes(v16)));
    s16.map_values(two_bytes).lemma_flatten_push(two_bytes(v16));
}

} // verus!
