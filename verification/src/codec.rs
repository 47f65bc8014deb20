//! The SCALE encodings this library stores and reads back, through
//! `parity_scale_codec`.
use parity_scale_codec::{Decode, Encode};
use vstd::prelude::*;

verus! {

/// The two little-endian bytes of `n`.
pub open spec fn le_bytes_u16(n: u16) -> Seq<u8> {
    seq![(n % 256) as u8, (n / 256) as u8]
}

/// The four little-endian bytes of `n`.
pub open spec fn le_bytes_u32(n: u32) -> Seq<u8> {
    seq![
        (n % 0x100) as u8,
        ((n / 0x100) % 0x100) as u8,
        ((n / 0x1_0000) % 0x100) as u8,
        (n / 0x100_0000) as u8,
    ]
}

/// The eight little-endian bytes of `n`.
pub open spec fn le_bytes_u64(n: u64) -> Seq<u8> {
    le_bytes_u32((n % 0x1_0000_0000) as u32) + le_bytes_u32((n / 0x1_0000_0000) as u32)
}

/// The SCALE compact encoding of a `u32`: one, two or four bytes holding
/// `n` shifted left by two with the mode in the low bits, or a mode byte
/// followed by the four bytes of `n`.
pub open spec fn compact_u32(n: u32) -> Seq<u8> {
    if n < 0x40 {
        seq![(n * 4) as u8]
    } else if n < 0x4000 {
        le_bytes_u16((n * 4 + 1) as u16)
    } else if n < 0x4000_0000 {
        le_bytes_u32((n * 4 + 2) as u32)
    } else {
        seq![3u8] + le_bytes_u32(n)
    }
}

/// The SCALE encoding of a pair of a byte vector and a `u64`.
pub open spec fn bytes_u64_encoding(bytes: Seq<u8>, n: u64) -> Seq<u8>
    recommends
        bytes.len() <= u32::MAX,
{
    compact_u32(bytes.len() as u32) + bytes + le_bytes_u64(n)
}

/// Whether `input` starts with the encoding of the pair `(b, n)`.
pub open spec fn starts_with_encoding(input: Seq<u8>, b: Seq<u8>, n: u64) -> bool {
    let e = bytes_u64_encoding(b, n);
    &&& b.len() <= u32::MAX
    &&& e.len() <= input.len()
    &&& input.subrange(0, e.len() as int) == e
}

/// The pair decoded from the front of `input`: the one whose encoding
/// `input` starts with (there is at most one, see
/// `lemma_encoding_prefix_unique`), or `None` when there is none.
pub open spec fn scale_decoded_bytes_u64(input: Seq<u8>) -> Option<(Seq<u8>, u64)> {
    if exists|b: Seq<u8>, n: u64| #[trigger] starts_with_encoding(input, b, n) {
        Some(choose|b: Seq<u8>, n: u64| #[trigger] starts_with_encoding(input, b, n))
    } else {
        None
    }
}

/// The number whose little-endian bytes are `b0, b1`.
pub open spec fn le_value_2(b0: u8, b1: u8) -> int {
    b0 + 256 * b1
}

/// The number whose little-endian bytes are `b0 .. b3`.
pub open spec fn le_value_4(b0: u8, b1: u8, b2: u8, b3: u8) -> int {
    b0 + 256 * b1 + 0x1_0000 * b2 + 0x100_0000 * b3
}

/// The little-endian bytes of `n` give `n` back.
pub proof fn lemma_le_bytes_u16_value(n: u16)
    ensures
        le_bytes_u16(n).len() == 2,
        le_value_2(le_bytes_u16(n)[0], le_bytes_u16(n)[1]) == n,
{
    assert(n == 256 * (n / 256) + n % 256) by (nonlinear_arith);
}

/// The little-endian bytes of `n` give `n` back.
pub proof fn lemma_le_bytes_u32_value(n: u32)
    ensures
        le_bytes_u32(n).len() == 4,
        le_value_4(le_bytes_u32(n)[0], le_bytes_u32(n)[1], le_bytes_u32(n)[2], le_bytes_u32(n)[3]) == n,
{
    let q1 = n / 0x100;
    let q2 = n / 0x1_0000;
    let q3 = n / 0x100_0000;
    assert(n == 256 * q1 + n % 256) by (nonlinear_arith)
        requires q1 == n / 0x100;
    assert(q1 == 256 * (q1 / 256) + q1 % 256) by (nonlinear_arith);
    assert(q1 / 256 == q2) by (nonlinear_arith)
        requires q1 == n / 0x100, q2 == n / 0x1_0000;
    assert(q2 == 256 * (q2 / 256) + q2 % 256) by (nonlinear_arith);
    assert(q2 / 256 == q3) by (nonlinear_arith)
        requires q2 == n / 0x1_0000, q3 == n / 0x100_0000;
    assert(q3 < 256) by (nonlinear_arith)
        requires q3 == n / 0x100_0000, n <= u32::MAX;
}

/// The little-endian bytes of a `u32` determine it.
proof fn lemma_le_bytes_u32_injective(m: u32, n: u32)
    requires
        le_bytes_u32(m) == le_bytes_u32(n),
    ensures
        m == n,
{
    lemma_le_bytes_u32_value(m);
    lemma_le_bytes_u32_value(n);
}

/// The little-endian bytes of a `u64` determine it.
proof fn lemma_le_bytes_u64_injective(m: u64, n: u64)
    requires
        le_bytes_u64(m) == le_bytes_u64(n),
    ensures
        m == n,
{
    let (ml, mh) = ((m % 0x1_0000_0000) as u32, (m / 0x1_0000_0000) as u32);
    let (nl, nh) = ((n % 0x1_0000_0000) as u32, (n / 0x1_0000_0000) as u32);
    assert(le_bytes_u64(m).subrange(0, 4) =~= le_bytes_u32(ml));
    assert(le_bytes_u64(n).subrange(0, 4) =~= le_bytes_u32(nl));
    assert(le_bytes_u64(m).subrange(4, 8) =~= le_bytes_u32(mh));
    assert(le_bytes_u64(n).subrange(4, 8) =~= le_bytes_u32(nh));
    lemma_le_bytes_u32_injective(ml, nl);
    lemma_le_bytes_u32_injective(mh, nh);
    assert(m == 0x1_0000_0000 * (m / 0x1_0000_0000) + m % 0x1_0000_0000) by (nonlinear_arith);
    assert(n == 0x1_0000_0000 * (n / 0x1_0000_0000) + n % 0x1_0000_0000) by (nonlinear_arith);
}

/// The first byte of a compact encoding tells its form (the low two bits),
/// and its bytes determine the encoded number: two compact encodings that
/// both start some byte sequence are the same.
proof fn lemma_compact_prefix_unique(l1: u32, l2: u32, x: Seq<u8>)
    requires
        compact_u32(l1).len() <= x.len(),
        compact_u32(l2).len() <= x.len(),
        x.subrange(0, compact_u32(l1).len() as int) == compact_u32(l1),
        x.subrange(0, compact_u32(l2).len() as int) == compact_u32(l2),
    ensures
        l1 == l2,
{
    lemma_compact_form(l1);
    lemma_compact_form(l2);
    assert(x[0] == compact_u32(l1)[0]);
    assert(x[0] == compact_u32(l2)[0]);
    if l1 < 0x40 {
        assert(l2 < 0x40);
    } else if l1 < 0x4000 {
        assert(0x40 <= l2 < 0x4000);
        assert(x[1] == compact_u32(l1)[1] && x[1] == compact_u32(l2)[1]);
        lemma_le_bytes_u16_value((l1 * 4 + 1) as u16);
        lemma_le_bytes_u16_value((l2 * 4 + 1) as u16);
    } else if l1 < 0x4000_0000 {
        assert(0x4000 <= l2 < 0x4000_0000);
        assert(x[1] == compact_u32(l1)[1] && x[1] == compact_u32(l2)[1]);
        assert(x[2] == compact_u32(l1)[2] && x[2] == compact_u32(l2)[2]);
        assert(x[3] == compact_u32(l1)[3] && x[3] == compact_u32(l2)[3]);
        lemma_le_bytes_u32_value((l1 * 4 + 2) as u32);
        lemma_le_bytes_u32_value((l2 * 4 + 2) as u32);
    } else {
        assert(0x4000_0000 <= l2);
        assert(compact_u32(l1).subrange(1, 5) =~= le_bytes_u32(l1));
        assert(compact_u32(l2).subrange(1, 5) =~= le_bytes_u32(l2));
        assert(x.subrange(1, 5) =~= compact_u32(l1).subrange(1, 5));
        assert(x.subrange(1, 5) =~= compact_u32(l2).subrange(1, 5));
        lemma_le_bytes_u32_injective(l1, l2);
    }
}

/// The length of a compact encoding and the low two bits of its first byte,
/// by the size of the number.
proof fn lemma_compact_form(l: u32)
    ensures
        l < 0x40 ==> compact_u32(l).len() == 1 && compact_u32(l)[0] == l * 4,
        0x40 <= l < 0x4000 ==> compact_u32(l).len() == 2 && compact_u32(l)[0] % 4 == 1,
        0x4000 <= l < 0x4000_0000 ==> compact_u32(l).len() == 4 && compact_u32(l)[0] % 4 == 2,
        0x4000_0000 <= l ==> compact_u32(l).len() == 5 && compact_u32(l)[0] == 3,
{
    if l < 0x40 {
        assert(l * 4 < 256) by (nonlinear_arith)
            requires l < 0x40;
    } else if l < 0x4000 {
        let v = (l * 4 + 1) as u16;
        assert((v % 256) % 4 == 1) by (nonlinear_arith)
            requires v == l * 4 + 1, l < 0x4000;
    } else if l < 0x4000_0000 {
        let v = (l * 4 + 2) as u32;
        assert((v % 256) % 4 == 2) by (nonlinear_arith)
            requires v == l * 4 + 2, l < 0x4000_0000;
    }
}

/// A byte sequence starts with the encoding of at most one pair.
pub proof fn lemma_encoding_prefix_unique(input: Seq<u8>, b1: Seq<u8>, n1: u64, b2: Seq<u8>, n2: u64)
    requires
        starts_with_encoding(input, b1, n1),
        starts_with_encoding(input, b2, n2),
    ensures
        b1 == b2,
        n1 == n2,
{
    let c1 = compact_u32(b1.len() as u32);
    let c2 = compact_u32(b2.len() as u32);
    let e1 = bytes_u64_encoding(b1, n1);
    let e2 = bytes_u64_encoding(b2, n2);
    assert(input.subrange(0, c1.len() as int) =~= e1.subrange(0, c1.len() as int));
    assert(e1.subrange(0, c1.len() as int) =~= c1);
    assert(input.subrange(0, c2.len() as int) =~= e2.subrange(0, c2.len() as int));
    assert(e2.subrange(0, c2.len() as int) =~= c2);
    lemma_compact_prefix_unique(b1.len() as u32, b2.len() as u32, input);
    assert(c1 == c2);
    let k = c1.len() as int;
    let m = b1.len() as int;
    assert(b1 =~= e1.subrange(k, k + m));
    assert(b2 =~= e2.subrange(k, k + m));
    assert(e1.subrange(k, k + m) =~= input.subrange(k, k + m));
    assert(e2.subrange(k, k + m) =~= input.subrange(k, k + m));
    assert(le_bytes_u64(n1) =~= e1.subrange(k + m, k + m + 8));
    assert(le_bytes_u64(n2) =~= e2.subrange(k + m, k + m + 8));
    assert(e1.subrange(k + m, k + m + 8) =~= input.subrange(k + m, k + m + 8));
    assert(e2.subrange(k + m, k + m + 8) =~= input.subrange(k + m, k + m + 8));
    lemma_le_bytes_u64_injective(n1, n2);
}

/// Decoding the encoding of a pair gives the pair back.
pub proof fn lemma_decode_encoding(b: Seq<u8>, n: u64)
    requires
        b.len() <= u32::MAX,
    ensures
        scale_decoded_bytes_u64(bytes_u64_encoding(b, n)) == Some((b, n)),
{
    let e = bytes_u64_encoding(b, n);
    assert(e.subrange(0, e.len() as int) =~= e);
    assert(starts_with_encoding(e, b, n));
    let (b2, n2) = choose|b2: Seq<u8>, n2: u64| #[trigger] starts_with_encoding(e, b2, n2);
    lemma_encoding_prefix_unique(e, b, n, b2, n2);
}

/// Encodes `n` with `Encode::encode` of `parity_scale_codec`, whose encoding
/// of a fixed-width integer is its little-endian bytes.
#[verifier::external_body]
pub(crate) fn scale_encode_u32(n: u32) -> (bytes: Vec<u8>)
    ensures
        bytes@ == le_bytes_u32(n),
{
    n.encode()
}

/// Encodes the pair `(bytes, n)` with `Encode::encode` of
/// `parity_scale_codec`: the compact length of `bytes`, the bytes, then the
/// little-endian bytes of `n`.  The codec panics on a vector longer than `u32::MAX`, which
/// `requires` leaves out.
#[verifier::external_body]
pub(crate) fn scale_encode_bytes_u64(bytes: &Vec<u8>, n: u64) -> (encoded: Vec<u8>)
    requires
        bytes.len() <= u32::MAX,
    ensures
        encoded@ == bytes_u64_encoding(bytes@, n),
{
    (bytes, n).encode()
}

/// Decodes a pair of a byte vector and a `u64` from the front of `input`
/// with `Decode::decode` of `parity_scale_codec`; `None` when the codec
/// reports an error.  The codec reads a compact length, which it accepts
/// only in its shortest form, that many bytes, then eight bytes of the
/// number: it succeeds exactly when `input` starts with the encoding of a
/// pair, and gives that pair.
#[verifier::external_body]
pub(crate) fn scale_decode_bytes_u64(input: &Vec<u8>) -> (decoded: Option<(Vec<u8>, u64)>)
    ensures
        match decoded {
            Some((v, n)) => scale_decoded_bytes_u64(input@) == Some((v@, n)),
            None => scale_decoded_bytes_u64(input@) is None,
        },
{
    let mut rest: &[u8] = input.as_slice();
    <(Vec<u8>, u64)>::decode(&mut rest).ok()
}

} // verus!
