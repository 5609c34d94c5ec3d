//! Packing of raw bytes into field elements, eight bytes to an element in
//! little-endian order, and the way back.

use crate::field::{values, Fr};
use vstd::arithmetic::div_mod::lemma_div_denominator;
use vstd::prelude::*;

verus! {

/// Number of bytes packed into one field element.
pub const CHUNK: usize = 8;

/// 256 to the power `n`.
pub open spec fn pow256(n: nat) -> nat
    decreases n,
{
    if n == 0 {
        1
    } else {
        256 * pow256((n - 1) as nat)
    }
}

/// The integer that the bytes spell in little-endian order.
pub open spec fn le_value(bytes: Seq<u8>) -> nat
    decreases bytes.len(),
{
    if bytes.len() == 0 {
        0
    } else {
        bytes[0] as nat + 256 * le_value(bytes.drop_first())
    }
}

/// Byte `j` of the little-endian spelling of `v`.
pub open spec fn byte_of(v: nat, j: nat) -> u8 {
    ((v / pow256(j)) % 256) as u8
}

/// Number of chunks that `n` bytes are packed into.
pub open spec fn packed_len(n: nat) -> nat {
    (n + 7) / 8
}

/// Chunk `i` of the bytes: eight of them, or what is left at the end.
pub open spec fn chunk(bytes: Seq<u8>, i: int) -> Seq<u8> {
    bytes.subrange(
        8 * i,
        if 8 * i + 8 <= bytes.len() {
            8 * i + 8
        } else {
            bytes.len() as int
        },
    )
}

/// The bytes as field elements: one for each chunk, the last chunk padded
/// with zero bytes on the right.
pub open spec fn pack_bytes(bytes: Seq<u8>) -> Seq<nat> {
    Seq::new(packed_len(bytes.len()), |i: int| le_value(chunk(bytes, i)))
}

/// The eight little-endian bytes of every element, one element after the
/// other.
pub open spec fn unpack_bytes(elements: Seq<nat>) -> Seq<u8> {
    Seq::new(8 * elements.len(), |k: int| byte_of(elements[k / 8], (k % 8) as nat))
}

/// Whether every element is a packed chunk, that is, fits in eight bytes.
pub open spec fn all_fit_chunk(elements: Seq<nat>) -> bool {
    forall|i: int| 0 <= i < elements.len() ==> #[trigger] elements[i] < pow256(8)
}

/// The powers of 256 up to the eighth.
pub proof fn lemma_pow256_values()
    ensures
        pow256(0) == 1,
        pow256(1) == 0x100,
        pow256(2) == 0x1_0000,
        pow256(3) == 0x100_0000,
        pow256(4) == 0x1_0000_0000,
        pow256(5) == 0x100_0000_0000,
        pow256(6) == 0x1_0000_0000_0000,
        pow256(7) == 0x100_0000_0000_0000,
        pow256(8) == 0x1_0000_0000_0000_0000,
{
    reveal_with_fuel(pow256, 9);
}

/// `n` bytes spell an integer below 256 to the `n`.
pub proof fn lemma_le_value_bound(bytes: Seq<u8>)
    ensures
        le_value(bytes) < pow256(bytes.len()),
    decreases bytes.len(),
{
    if bytes.len() > 0 {
        lemma_le_value_bound(bytes.drop_first());
    }
}

/// Byte `j` of what the bytes spell is byte `j` of them, and zero past their
/// end.
pub proof fn lemma_byte_of_le_value(bytes: Seq<u8>, j: nat)
    ensures
        byte_of(le_value(bytes), j) == if j < bytes.len() {
            bytes[j as int]
        } else {
            0u8
        },
    decreases j,
{
    let v = le_value(bytes);
    if bytes.len() == 0 {
        lemma_pow256_positive(j);
        assert(0int / (pow256(j) as int) == 0) by (nonlinear_arith)
            requires
                pow256(j) > 0,
        ;
    } else if j == 0 {
        assert(pow256(0) == 1);
    } else {
        let rest = bytes.drop_first();
        let k = (j - 1) as nat;
        lemma_byte_of_le_value(rest, k);
        lemma_pow256_positive(k);
        lemma_div_denominator(v as int, 256, pow256(k) as int);
    }
}

/// Powers of 256 are positive.
pub proof fn lemma_pow256_positive(n: nat)
    ensures
        pow256(n) > 0,
    decreases n,
{
    if n > 0 {
        lemma_pow256_positive((n - 1) as nat);
    }
}

/// Packing bytes and unpacking the elements gives the bytes back, followed by
/// the zero bytes that pad the last chunk to eight.
pub proof fn lemma_pack_round_trip(bytes: Seq<u8>)
    ensures
        all_fit_chunk(pack_bytes(bytes)),
        unpack_bytes(pack_bytes(bytes)).len() == 8 * packed_len(bytes.len()),
        unpack_bytes(pack_bytes(bytes)).subrange(0, bytes.len() as int) == bytes,
        forall|k: int|
            bytes.len() <= k < 8 * packed_len(bytes.len()) ==> unpack_bytes(pack_bytes(bytes))[k]
                == 0,
{
    let packed = pack_bytes(bytes);
    let back = unpack_bytes(packed);
    lemma_pow256_values();
    assert forall|i: int| 0 <= i < packed.len() implies #[trigger] packed[i] < pow256(8) by {
        lemma_le_value_bound(chunk(bytes, i));
        lemma_pow256_monotonic(chunk(bytes, i).len(), 8);
    }
    assert forall|k: int| 0 <= k < back.len() implies back[k] == if k < bytes.len() {
        bytes[k]
    } else {
        0u8
    } by {
        let c = chunk(bytes, k / 8);
        lemma_byte_of_le_value(c, (k % 8) as nat);
    }
}

/// The first `n` little-endian bytes of `v`.
pub open spec fn bytes_of(v: nat, n: nat) -> Seq<u8> {
    Seq::new(n, |j: int| byte_of(v, j as nat))
}

/// The first `n` little-endian bytes of an integer below 256 to the `n`
/// spell that integer.
pub proof fn lemma_le_value_of_bytes(v: nat, n: nat)
    requires
        v < pow256(n),
    ensures
        le_value(bytes_of(v, n)) == v,
    decreases n,
{
    if n > 0 {
        let m = (n - 1) as nat;
        let rest = bytes_of(v, n).drop_first();
        assert(pow256(0) == 1);
        assert forall|j: int| 0 <= j < m implies rest[j] == byte_of(v / 256, j as nat) by {
            lemma_pow256_positive(j as nat);
            lemma_div_denominator(v as int, 256, pow256(j as nat) as int);
        }
        assert(rest =~= bytes_of(v / 256, m));
        lemma_le_value_of_bytes(v / 256, m);
    }
}

/// Unpacking elements that fit in eight bytes and packing the bytes gives the
/// elements back.
pub proof fn lemma_unpack_round_trip(elements: Seq<nat>)
    requires
        all_fit_chunk(elements),
    ensures
        pack_bytes(unpack_bytes(elements)) == elements,
{
    let bytes = unpack_bytes(elements);
    let packed = pack_bytes(bytes);
    assert forall|i: int| 0 <= i < elements.len() implies packed[i] == elements[i] by {
        assert(chunk(bytes, i) =~= bytes_of(elements[i], 8));
        lemma_le_value_of_bytes(elements[i], 8);
    }
    assert(packed =~= elements);
}

/// Powers of 256 do not decrease with the exponent.
pub proof fn lemma_pow256_monotonic(a: nat, b: nat)
    requires
        a <= b,
    ensures
        pow256(a) <= pow256(b),
    decreases b,
{
    if a < b {
        lemma_pow256_monotonic(a, (b - 1) as nat);
    }
}

/// Reads `n` bytes from `start` as a little-endian integer.
fn read_le(bytes: &[u8], start: usize, n: usize) -> (r: u64)
    requires
        n <= CHUNK,
        start + n <= bytes@.len(),
    ensures
        r == le_value(bytes@.subrange(start as int, start + n)),
{
    let len: usize = bytes.len();
    let mut acc: u64 = 0;
    let mut k: usize = n;
    while k > 0
        invariant
            len == bytes@.len(),
            k <= n <= CHUNK,
            start + n <= bytes@.len(),
            acc == le_value(bytes@.subrange(start + k, start + n)),
        decreases k,
    {
        proof {
            lemma_le_value_bound(bytes@.subrange(start + k, start + n));
            lemma_pow256_values();
            let s = bytes@.subrange(start + k - 1, start + n);
            assert(s.drop_first() =~= bytes@.subrange(start + k, start + n));
        }
        k -= 1;
        acc = acc * 256 + bytes[start + k] as u64;
    }
    acc
}

/// Packs bytes into field elements, eight bytes to an element in
/// little-endian order; a shorter last chunk counts as padded with zeros.
pub fn bytes_to_fr(bytes: &[u8]) -> (r: Vec<Fr>)
    ensures
        r@.len() == packed_len(bytes@.len()),
        values(r@) == pack_bytes(bytes@),
{
    let len: usize = bytes.len();
    let mut fr_elements: Vec<Fr> = Vec::with_capacity(len / CHUNK + 1);
    let mut idx: usize = 0;
    while idx < len
        invariant
            len == bytes@.len(),
            idx <= len,
            idx < len ==> idx % 8 == 0,
            idx < len ==> fr_elements@.len() == idx / 8,
            idx == len ==> fr_elements@.len() == packed_len(len as nat),
            forall|k: int|
                0 <= k < fr_elements@.len() ==> (#[trigger] fr_elements@[k])@ == le_value(
                    chunk(bytes@, k),
                ),
        decreases len - idx,
    {
        let remain: usize = len - idx;
        let n: usize = if remain >= CHUNK {
            CHUNK
        } else {
            remain
        };
        let next: u64 = read_le(bytes, idx, n);
        fr_elements.push(Fr::from(next));
        idx = if remain > CHUNK {
            idx + CHUNK
        } else {
            len
        };
    }
    fr_elements
}

/// Unpacks field elements into bytes, eight to an element in little-endian
/// order, or gives `None` where an element does not fit in eight bytes.
pub fn fr_to_bytes(elements: &[Fr]) -> (r: Option<Vec<u8>>)
    ensures
        r is Some <==> all_fit_chunk(values(elements@)),
        r matches Some(bytes) ==> bytes@ == unpack_bytes(values(elements@)),
{
    let len: usize = elements.len();
    let mut bytes: Vec<u8> = Vec::new();
    let mut i: usize = 0;
    proof {
        lemma_pow256_values();
    }
    while i < len
        invariant
            len == elements@.len(),
            i <= len,
            pow256(8) == 0x1_0000_0000_0000_0000,
            bytes@.len() == 8 * i,
            forall|e: int| 0 <= e < i ==> #[trigger] values(elements@)[e] < pow256(8),
            forall|k: int|
                0 <= k < bytes@.len() ==> #[trigger] bytes@[k] == byte_of(
                    values(elements@)[k / 8],
                    (k % 8) as nat,
                ),
        decreases len - i,
    {
        let limbs: [u64; 4] = elements[i].to_limbs();
        if limbs[1] != 0 || limbs[2] != 0 || limbs[3] != 0 {
            assert(values(elements@)[i as int] >= pow256(8));
            return None;
        }
        let word: u64 = limbs[0];
        let mut rest: u64 = word;
        let mut j: usize = 0;
        while j < CHUNK
            invariant
                j <= CHUNK,
                i < len,
                len == elements@.len(),
                values(elements@)[i as int] == word,
                rest == word as nat / pow256(j as nat),
                bytes@.len() == 8 * i + j,
                forall|k: int|
                    0 <= k < bytes@.len() ==> #[trigger] bytes@[k] == byte_of(
                        values(elements@)[k / 8],
                        (k % 8) as nat,
                    ),
            decreases CHUNK - j,
        {
            proof {
                lemma_pow256_positive(j as nat);
                lemma_div_denominator(word as int, pow256(j as nat) as int, 256);
            }
            bytes.push((rest % 256) as u8);
            rest = rest / 256;
            j += 1;
        }
        i += 1;
    }
    Some(bytes)
}

} // verus!
