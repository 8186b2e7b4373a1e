//! Quantised weights, unpacked to the integers that they are made of.
use vstd::prelude::*;
use crate::gguf::metadata::{signed8, to_signed8};
use crate::gguf::types::GgmlType;

verus! {

/// A weight by its parts. Half-precision numbers are held by their bits.
#[derive(Debug, Clone, Copy, PartialEq, Eq, Structural)]
#[allow(inconsistent_fields)]
pub enum Weight {
    /// Zero.
    Zero,
    /// The single-precision number with these bits.
    Single(u32),
    /// The half-precision number with these bits.
    Half(u16),
    /// The upper half of a single-precision number.
    Brain(u16),
    /// `scale * quant`.
    Scaled { scale: u16, quant: i32 },
    /// `scale * sub * quant`.
    Product { scale: u16, sub: i8, quant: i32 },
    /// `quant * (scale * sub_scale) - min * sub_min`.
    Shifted { scale: u16, min: u16, sub_scale: u8, sub_min: u8, quant: u8 },
    /// `scale * sub_scale * quant - min * sub_min`.
    Lowered { scale: u16, min: u16, sub_scale: u8, sub_min: u8, quant: u8 },
}

/// Two bytes as a number, the least significant first.
pub open spec fn pair(b: Seq<u8>, i: int) -> u16 {
    (b[i] + 256 * b[i + 1]) as u16
}

/// Four bytes as a number, the least significant first.
pub open spec fn quad(b: Seq<u8>, i: int) -> u32 {
    (b[i] + 0x100 * b[i + 1] + 0x1_0000 * b[i + 2] + 0x100_0000 * b[i + 3]) as u32
}

/// Half of a byte: the lower for an even index, the upper for an odd one.
pub open spec fn nibble(byte: u8, i: int) -> int {
    if i % 2 == 0 {
        byte as int % 16
    } else {
        byte as int / 16
    }
}

/// A power of four.
pub open spec fn fourth(i: int) -> int {
    if i == 0 {
        1
    } else if i == 1 {
        4
    } else if i == 2 {
        16
    } else {
        64
    }
}

/// The two bits of a byte at index `i` of four.
pub open spec fn crumb(byte: u8, i: int) -> int {
    byte as int / fourth(i % 4) % 4
}

/// Scale and minimum of sub-block `sub` out of twelve packed bytes, six bits
/// each. Those of the first four sub-blocks lie in the first eight bytes. Those
/// of the others have their lower two bits in what these leave free, and their
/// upper four in the last four bytes: the scale in the lower half of a byte,
/// the minimum in the upper half.
pub open spec fn packed_scale(scales: Seq<u8>, sub: int) -> (int, int) {
    if sub < 4 {
        (scales[sub] as int % 64, scales[sub + 4] as int % 64)
    } else {
        (
            scales[sub - 4] as int / 64 + 4 * (scales[sub + 4] as int % 16),
            scales[sub] as int / 64 + 4 * (scales[sub + 4] as int / 16),
        )
    }
}

/// Scale and minimum of sub-block `sub`.
pub fn decode_q4k_scale(scales: &[u8], sub: usize) -> (pair: (u8, u8))
    requires
        sub < 8,
        sub + 4 < scales@.len(),
    ensures
        pair.0 == packed_scale(scales@, sub as int).0,
        pair.1 == packed_scale(scales@, sub as int).1,
{
    let last: u8 = scales[sub + 4];
    if sub < 4 {
        (scales[sub] % 64, last % 64)
    } else {
        (scales[sub - 4] / 64 + 4 * (last % 16), scales[sub] / 64 + 4 * (last / 16))
    }
}

/// The byte of weight `k` of a block of 256 with 4 bits each. The quarters of a
/// block lie interleaved: the first and the third behind one another, then the
/// second and the fourth.
pub open spec fn interleaved(k: int) -> int {
    k / 2 % 32 + 32 * (k / 64 / 2 + 2 * (k / 64 % 2))
}

/// The byte of weight `k` of a block of 256 with 4 bits each.
fn interleave(k: usize) -> (byte: usize)
    requires
        k < 256,
    ensures
        byte == interleaved(k as int),
        byte < 128,
{
    k / 2 % 32 + 32 * (k / 64 / 2 + 2 * (k / 64 % 2))
}

/// Every weight of an interleaved block has bits of its own.
pub proof fn law_interleaved_weights_have_their_own_bits(j: int, k: int)
    requires
        0 <= j < k < 256,
    ensures
        0 <= interleaved(j) < 128,
        0 <= interleaved(k) < 128,
        interleaved(j) != interleaved(k) || j % 2 != k % 2,
{
}

/// Where block `i / per` begins, if all of it is there.
pub open spec fn block_start(data: Seq<u8>, i: int, per: int, bytes: int) -> Option<int> {
    if (i / per + 1) * bytes <= data.len() {
        Some(i / per * bytes)
    } else {
        None
    }
}

/// Weight `i` of data of a type. Weights without data are zero, and so are
/// those of types that are not unpacked.
pub open spec fn stored_weight(data: Seq<u8>, t: GgmlType, i: int) -> Weight {
    match t {
        GgmlType::F32 => match block_start(data, i, 1, 4) {
            Some(b) => Weight::Single(quad(data, b)),
            None => Weight::Zero,
        },
        GgmlType::F16 => match block_start(data, i, 1, 2) {
            Some(b) => Weight::Half(pair(data, b)),
            None => Weight::Zero,
        },
        GgmlType::BF16 => match block_start(data, i, 1, 2) {
            Some(b) => Weight::Brain(pair(data, b)),
            None => Weight::Zero,
        },
        GgmlType::Q8_0 => match block_start(data, i, 32, 34) {
            Some(b) => Weight::Scaled {
                scale: pair(data, b),
                quant: signed8(data[b + 2 + i % 32] as int) as i32,
            },
            None => Weight::Zero,
        },
        GgmlType::Q4_0 => match block_start(data, i, 32, 18) {
            Some(b) => Weight::Scaled {
                scale: pair(data, b),
                quant: (nibble(data[b + 2 + i % 32 / 2], i) - 8) as i32,
            },
            None => Weight::Zero,
        },
        GgmlType::Q4_K => match block_start(data, i, 256, 144) {
            Some(b) => {
                let k = i % 256;
                let packed = packed_scale(data.subrange(b + 4, b + 16), k / 32);
                Weight::Shifted {
                    scale: pair(data, b),
                    min: pair(data, b + 2),
                    sub_scale: packed.0 as u8,
                    sub_min: packed.1 as u8,
                    quant: nibble(data[b + 16 + interleaved(k)], k) as u8,
                }
            },
            None => Weight::Zero,
        },
        GgmlType::Q6_K => match block_start(data, i, 256, 210) {
            Some(b) => {
                let k = i % 256;
                Weight::Product {
                    scale: pair(data, b),
                    sub: signed8(data[b + 194 + k / 16] as int),
                    quant: (nibble(data[b + 2 + k / 2], k) + 16 * crumb(data[b + 130 + k / 4], k)
                        - 32) as i32,
                }
            },
            None => Weight::Zero,
        },
        GgmlType::Q2_K => match block_start(data, i, 256, 84) {
            Some(b) => {
                let k = i % 256;
                let packed = data[b + 4 + k / 16];
                Weight::Lowered {
                    scale: pair(data, b),
                    min: pair(data, b + 2),
                    sub_scale: (packed % 16) as u8,
                    sub_min: (packed / 16) as u8,
                    quant: crumb(data[b + 20 + k / 4], k) as u8,
                }
            },
            None => Weight::Zero,
        },
        _ => Weight::Zero,
    }
}

/// Two bytes as a number.
fn to_pair(data: &[u8], i: usize) -> (n: u16)
    requires
        i + 1 < data@.len(),
    ensures
        n == pair(data@, i as int),
{
    data[i] as u16 + 256 * data[i + 1] as u16
}

/// Four bytes as a number.
fn to_quad(data: &[u8], i: usize) -> (n: u32)
    requires
        i + 3 < data@.len(),
    ensures
        n == quad(data@, i as int),
{
    data[i] as u32 + 0x100 * data[i + 1] as u32 + 0x1_0000 * data[i + 2] as u32 + 0x100_0000
        * data[i + 3] as u32
}

/// Half of a byte.
fn to_nibble(byte: u8, i: usize) -> (n: u8)
    ensures
        n == nibble(byte, i as int),
        n < 16,
{
    if i % 2 == 0 {
        byte % 16
    } else {
        byte / 16
    }
}

/// Two bits of a byte.
fn to_crumb(byte: u8, i: usize) -> (n: u8)
    ensures
        n == crumb(byte, i as int),
        n < 4,
{
    match i % 4 {
        0 => byte % 4,
        1 => byte / 4 % 4,
        2 => byte / 16 % 4,
        _ => byte / 64 % 4,
    }
}

/// Where block `i / per` begins, if all of it is there.
fn find_block(data: &[u8], i: usize, per: usize, bytes: usize) -> (start: Option<usize>)
    requires
        per > 0,
        bytes > 0,
    ensures
        match start {
            Some(b) => block_start(data@, i as int, per as int, bytes as int) == Some(b as int) && b
                + bytes <= data@.len(),
            None => block_start(data@, i as int, per as int, bytes as int) is None,
        },
{
    let index: usize = i / per;
    let whole: usize = data.len() / bytes;
    proof {
        vstd::arithmetic::div_mod::lemma_fundamental_div_mod(data@.len() as int, bytes as int);
        vstd::arithmetic::div_mod::lemma_mod_bound(data@.len() as int, bytes as int);
        let d = data@.len() as int;
        let r = d % (bytes as int);
        assert((index + 1) * bytes == index * bytes + bytes) by (nonlinear_arith);
        if index < whole {
            assert((index + 1) * bytes <= whole * bytes) by (nonlinear_arith)
                requires
                    index + 1 <= whole,
                    bytes > 0,
            ;
            assert(whole * bytes <= d) by (nonlinear_arith)
                requires
                    d == bytes * whole + r,
                    r >= 0,
            ;
            assert(0 <= index * bytes) by (nonlinear_arith)
                requires
                    index >= 0,
                    bytes > 0,
            ;
        } else {
            assert((index + 1) * bytes > d) by (nonlinear_arith)
                requires
                    index >= whole,
                    d == bytes * whole + r,
                    r < bytes,
                    bytes > 0,
            ;
        }
    }
    if index < whole {
        Some(index * bytes)
    } else {
        None
    }
}

/// Weight `i` of quantised data.
fn unpack(data: &[u8], t: GgmlType, i: usize) -> (weight: Weight)
    ensures
        weight == stored_weight(data@, t, i as int),
{
    match t {
        GgmlType::F32 => match find_block(data, i, 1, 4) {
            Some(b) => Weight::Single(to_quad(data, b)),
            None => Weight::Zero,
        },
        GgmlType::F16 => match find_block(data, i, 1, 2) {
            Some(b) => Weight::Half(to_pair(data, b)),
            None => Weight::Zero,
        },
        GgmlType::BF16 => match find_block(data, i, 1, 2) {
            Some(b) => Weight::Brain(to_pair(data, b)),
            None => Weight::Zero,
        },
        GgmlType::Q8_0 => match find_block(data, i, 32, 34) {
            Some(b) => Weight::Scaled {
                scale: to_pair(data, b),
                quant: to_signed8(data[b + 2 + i % 32]) as i32,
            },
            None => Weight::Zero,
        },
        GgmlType::Q4_0 => match find_block(data, i, 32, 18) {
            Some(b) => Weight::Scaled {
                scale: to_pair(data, b),
                quant: to_nibble(data[b + 2 + i % 32 / 2], i) as i32 - 8,
            },
            None => Weight::Zero,
        },
        GgmlType::Q4_K => unpack_q4_k(data, i),
        GgmlType::Q6_K => unpack_q6_k(data, i),
        GgmlType::Q2_K => unpack_q2_k(data, i),
        _ => Weight::Zero,
    }
}

/// Weight `i` of data with 4 bits per weight and packed sub-block scales.
fn unpack_q4_k(data: &[u8], i: usize) -> (weight: Weight)
    ensures
        weight == stored_weight(data@, GgmlType::Q4_K, i as int),
{
    match find_block(data, i, 256, 144) {
        Some(b) => {
            let k: usize = i % 256;
            let scales = vstd::slice::slice_subrange(data, b + 4, b + 16);
            let (sub_scale, sub_min) = decode_q4k_scale(scales, k / 32);
            Weight::Shifted {
                scale: to_pair(data, b),
                min: to_pair(data, b + 2),
                sub_scale,
                sub_min,
                quant: to_nibble(data[b + 16 + interleave(k)], k),
            }
        },
        None => Weight::Zero,
    }
}

/// Weight `i` of data with 6 bits per weight.
fn unpack_q6_k(data: &[u8], i: usize) -> (weight: Weight)
    ensures
        weight == stored_weight(data@, GgmlType::Q6_K, i as int),
{
    match find_block(data, i, 256, 210) {
        Some(b) => {
            let k: usize = i % 256;
            let low: u8 = to_nibble(data[b + 2 + k / 2], k);
            let high: u8 = to_crumb(data[b + 130 + k / 4], k);
            Weight::Product {
                scale: to_pair(data, b),
                sub: to_signed8(data[b + 194 + k / 16]),
                quant: low as i32 + 16 * high as i32 - 32,
            }
        },
        None => Weight::Zero,
    }
}

/// Weight `i` of data with 2 bits per weight.
fn unpack_q2_k(data: &[u8], i: usize) -> (weight: Weight)
    ensures
        weight == stored_weight(data@, GgmlType::Q2_K, i as int),
{
    match find_block(data, i, 256, 84) {
        Some(b) => {
            let k: usize = i % 256;
            let packed: u8 = data[b + 4 + k / 16];
            Weight::Lowered {
                scale: to_pair(data, b),
                min: to_pair(data, b + 2),
                sub_scale: packed % 16,
                sub_min: packed / 16,
                quant: to_crumb(data[b + 20 + k / 4], k),
            }
        },
        None => Weight::Zero,
    }
}

/// Unpacks `n_elements` weights.
pub fn dequantize(data: &[u8], ggml_type: GgmlType, n_elements: usize) -> (weights: Vec<Weight>)
    ensures
        weights@.len() == n_elements,
        forall|i: int|
            0 <= i < n_elements ==> #[trigger] weights@[i] == stored_weight(data@, ggml_type, i),
{
    let mut weights: Vec<Weight> = Vec::new();
    for i in 0..n_elements
        invariant
            weights@.len() == i,
            forall|j: int|
                0 <= j < i ==> #[trigger] weights@[j] == stored_weight(data@, ggml_type, j),
    {
        weights.push(unpack(data, ggml_type, i));
    }
    weights
}

proof fn lemma_same_bytes(a0: u8, a1: u8, a2: u8, b0: u8, b1: u8, b2: u8)
    requires
        a0 as int % 64 == b0 as int % 64,
        a1 as int % 64 == b1 as int % 64,
        a0 as int / 64 + 4 * (a2 as int % 16) == b0 as int / 64 + 4 * (b2 as int % 16),
        a1 as int / 64 + 4 * (a2 as int / 16) == b1 as int / 64 + 4 * (b2 as int / 16),
    ensures
        a0 == b0,
        a1 == b1,
        a2 == b2,
{
    assert(0 <= a0 as int / 64 < 4 && 0 <= b0 as int / 64 < 4);
    assert(0 <= a1 as int / 64 < 4 && 0 <= b1 as int / 64 < 4);
    assert(a2 as int % 16 == b2 as int % 16);
    assert(a2 as int / 16 == b2 as int / 16);
}

/// Scales and minima have six bits, and no two packings give the same ones:
/// all twelve bytes are read.
pub proof fn law_packed_scales_use_every_bit(a: Seq<u8>, b: Seq<u8>)
    requires
        a.len() == 12,
        b.len() == 12,
        forall|sub: int| 0 <= sub < 8 ==> #[trigger] packed_scale(a, sub) == packed_scale(b, sub),
    ensures
        forall|sub: int|
            0 <= sub < 8 ==> 0 <= (#[trigger] packed_scale(a, sub)).0 < 64 && 0 <= packed_scale(
                a,
                sub,
            ).1 < 64,
        a == b,
{
    assert forall|sub: int| 0 <= sub < 8 implies 0 <= (#[trigger] packed_scale(a, sub)).0 < 64 && 0
        <= packed_scale(a, sub).1 < 64 by {}
    assert forall|i: int| 0 <= i < 12 implies a[i] == b[i] by {
        let low = i % 4;
        assert(packed_scale(a, low) == packed_scale(b, low));
        assert(packed_scale(a, low + 4) == packed_scale(b, low + 4));
        lemma_same_bytes(a[low], a[low + 4], a[low + 8], b[low], b[low + 4], b[low + 8]);
        assert(i == low || i == low + 4 || i == low + 8);
    }
    assert(a =~= b);
}

} // verus!
