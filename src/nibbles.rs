use vstd::prelude::*;

verus! {

/// The byte whose high nibble is `h` and whose low nibble is `l`
/// (bits of `h` above the low four are shifted out).
pub open spec fn pack(h: u8, l: u8) -> u8 {
    (h << 4u8) | l
}

/// The nibbles of `bytes`, high nibble first, two for each byte.
pub open spec fn nibbles_of(bytes: Seq<u8>) -> Seq<u8> {
    Seq::new(
        2 * bytes.len(),
        |k: int|
            if k % 2 == 0 {
                bytes[k / 2] >> 4u8
            } else {
                bytes[k / 2] & 0x0fu8
            },
    )
}

/// Nibbles packed pairwise into bytes; an odd last nibble stands alone in
/// the last byte.
pub open spec fn bytes_of(nibbles: Seq<u8>) -> Seq<u8> {
    Seq::new(
        ((nibbles.len() + 1) / 2) as nat,
        |k: int|
            if 2 * k + 1 < nibbles.len() {
                pack(nibbles[2 * k], nibbles[2 * k + 1])
            } else {
                nibbles[2 * k]
            },
    )
}

/// Splits each byte into its high and its low nibble.
pub fn bytes_to_nibbles(bytes: &[u8]) -> (r: Vec<u8>)
    requires
        bytes@.len() <= usize::MAX / 2,
    ensures
        r@ == nibbles_of(bytes@),
{
    let mut v: Vec<u8> = Vec::new();
    let mut i: usize = 0;
    while i < bytes.len()
        invariant
            i <= bytes@.len(),
            bytes@.len() <= usize::MAX / 2,
            v@ =~= nibbles_of(bytes@.subrange(0, i as int)),
        decreases bytes@.len() - i,
    {
        let b = bytes[i];
        v.push((b & 0xf0) >> 4);
        v.push(b & 0x0f);
        proof {
            assert((b & 0xf0u8) >> 4u8 == b >> 4u8) by (bit_vector);
        }
        i = i + 1;
        assert(v@ =~= nibbles_of(bytes@.subrange(0, i as int)));
    }
    assert(bytes@.subrange(0, i as int) =~= bytes@);
    v
}

/// Packs nibbles pairwise into bytes, the first of each pair becoming the
/// high nibble.
pub fn nibbles_to_bytes(nibbles: &[u8]) -> (r: Vec<u8>)
    ensures
        r@ == bytes_of(nibbles@),
{
    let mut v: Vec<u8> = Vec::new();
    let mut first_half = true;
    let mut i: usize = 0;
    while i < nibbles.len()
        invariant
            i <= nibbles@.len(),
            first_half == (i % 2 == 0),
            v@ =~= bytes_of(nibbles@.subrange(0, i as int)),
        decreases nibbles@.len() - i,
    {
        let b = nibbles[i];
        if first_half {
            v.push(b);
        } else {
            let idx = v.len() - 1;
            v[idx] = v[idx] << 4 | b;
        }
        first_half = !first_half;
        i = i + 1;
        assert(v@ =~= bytes_of(nibbles@.subrange(0, i as int)));
    }
    assert(nibbles@.subrange(0, i as int) =~= nibbles@);
    v
}

/// The 12-bit value held by the last three of four nibbles.
pub fn nibbles3_to_u16(insn_nibbles: &[u8]) -> (r: u16)
    requires
        insn_nibbles@.len() == 4,
        forall|k: int| 0 <= k < 4 ==> insn_nibbles@[k] < 16,
    ensures
        r == insn_nibbles@[1] as int * 256 + insn_nibbles@[2] as int * 16 + insn_nibbles@[3] as int,
{
    let packed = nibbles_to_bytes(&[0u8, insn_nibbles[1], insn_nibbles[2], insn_nibbles[3]]);
    let n1 = insn_nibbles[1];
    let n2 = insn_nibbles[2];
    let n3 = insn_nibbles[3];
    proof {
        assert(pack(0, n1) == n1) by (bit_vector)
            requires n1 < 16u8;
        assert(pack(n2, n3) as int == n2 as int * 16 + n3 as int) by (bit_vector)
            requires n2 < 16u8, n3 < 16u8;
    }
    (packed[0] as u16) * 256 + packed[1] as u16
}

} // verus!
