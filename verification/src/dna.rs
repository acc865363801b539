//! DNA of kitties: the bytes that are hashed into a random DNA, the hash
//! itself, and the mixing of two parents' DNA when breeding.

use vstd::prelude::*;

verus! {

/// Byte `i` of a little-endian fixed-width integer: its `i`-th least
/// significant octet.
pub open spec fn le_bytes_u64(x: u64) -> Seq<u8> {
    Seq::new(8, |i: int| (x >> ((8 * i) as u64)) as u8)
}

/// Little-endian bytes of a `u32`.
pub open spec fn le_bytes_u32(x: u32) -> Seq<u8> {
    Seq::new(4, |i: int| (x >> ((8 * i) as u32)) as u8)
}

/// SCALE encoding of an `Option<u32>`: a tag byte, then the value.
pub open spec fn encode_option_u32(x: Option<u32>) -> Seq<u8> {
    match x {
        None => seq![0u8],
        Some(v) => seq![1u8] + le_bytes_u32(v),
    }
}

/// The bytes hashed into a random DNA: the SCALE encoding of the tuple
/// `(seed, sender, extrinsic_index)`, where `seed` is already encoded.
pub open spec fn random_payload(seed: Seq<u8>, sender: u64, extrinsic_index: Option<u32>) -> Seq<u8> {
    seed + le_bytes_u64(sender) + encode_option_u32(extrinsic_index)
}

/// Appends the little-endian bytes of `x` to `out`.
pub fn push_le_u64(out: &mut Vec<u8>, x: u64)
    ensures
        final(out)@ == old(out)@ + le_bytes_u64(x),
{
    let ghost start = out@;
    for i in 0..8u64
        invariant
            out@ == start + le_bytes_u64(x).take(i as int),
    {
        out.push((x >> (8 * i)) as u8);
        assert(le_bytes_u64(x).take(i + 1) =~= le_bytes_u64(x).take(i as int).push(
            (x >> (8 * i)) as u8,
        ));
    }
    assert(le_bytes_u64(x).take(8) =~= le_bytes_u64(x));
}

/// Appends the little-endian bytes of `x` to `out`.
pub fn push_le_u32(out: &mut Vec<u8>, x: u32)
    ensures
        final(out)@ == old(out)@ + le_bytes_u32(x),
{
    let ghost start = out@;
    for i in 0..4u32
        invariant
            out@ == start + le_bytes_u32(x).take(i as int),
    {
        out.push((x >> (8 * i)) as u8);
        assert(le_bytes_u32(x).take(i + 1) =~= le_bytes_u32(x).take(i as int).push(
            (x >> (8 * i)) as u8,
        ));
    }
    assert(le_bytes_u32(x).take(4) =~= le_bytes_u32(x));
}

/// Builds the bytes that are hashed into a random DNA.
pub fn encode_random_payload(seed: &[u8], sender: u64, extrinsic_index: Option<u32>) -> (payload:
    Vec<u8>)
    ensures
        payload@ == random_payload(seed@, sender, extrinsic_index),
{
    let mut payload: Vec<u8> = Vec::new();
    for i in 0..seed.len()
        invariant
            payload@ == seed@.take(i as int),
    {
        payload.push(seed[i]);
        assert(seed@.take(i + 1) =~= seed@.take(i as int).push(seed@[i as int]));
    }
    assert(seed@.take(seed@.len() as int) =~= seed@);
    push_le_u64(&mut payload, sender);
    match extrinsic_index {
        None => {
            payload.push(0u8);
        },
        Some(v) => {
            payload.push(1u8);
            push_le_u32(&mut payload, v);
        },
    }
    assert(payload@ =~= random_payload(seed@, sender, extrinsic_index));
    payload
}

/// What `sp_io::hashing::blake2_128` returns for `data`: its 128-bit
/// Blake2b digest.
pub uninterp spec fn blake2_128_digest(data: Seq<u8>) -> Seq<u8>;

/// Calls `sp_io::hashing::blake2_128`. Claimed of it: the digest depends on
/// the bytes hashed and on nothing else, and has 16 bytes (which its type
/// already says).
#[verifier::external_body]
fn blake2_128(data: &[u8]) -> (digest: [u8; 16])
    ensures
        digest@ == blake2_128_digest(data@),
{
    sp_io::hashing::blake2_128(data)
}

/// The DNA drawn for `sender` from the runtime's encoded random seed and the
/// index of the current extrinsic: the Blake2-128 digest of the SCALE
/// encoding of `(seed, sender, extrinsic_index)`.
pub fn random_dna(seed: &[u8], sender: u64, extrinsic_index: Option<u32>) -> (dna: [u8; 16])
    ensures
        dna@ == blake2_128_digest(random_payload(seed@, sender, extrinsic_index)),
{
    let payload = encode_random_payload(seed, sender, extrinsic_index);
    blake2_128(payload.as_slice())
}

/// One byte of a bred kitty's DNA: the bits of `gene_1` where the selector
/// has a 1, and the bits of `gene_2` where it has a 0.
pub open spec fn mix_gene(gene_1: u8, gene_2: u8, selector: u8) -> u8 {
    (gene_1 & selector) | (gene_2 & !selector)
}

/// The DNA of a kitty bred from parents with DNA `dna_1` and `dna_2`,
/// byte by byte under the random `selector`.
pub open spec fn mix_dna(dna_1: Seq<u8>, dna_2: Seq<u8>, selector: Seq<u8>) -> Seq<u8> {
    Seq::new(dna_1.len(), |i: int| mix_gene(dna_1[i], dna_2[i], selector[i]))
}

/// Mixes the DNA of two parents under a selector.
pub fn breed_dna(dna_1: &[u8; 16], dna_2: &[u8; 16], selector: &[u8; 16]) -> (child: [u8; 16])
    ensures
        child@ == mix_dna(dna_1@, dna_2@, selector@),
{
    let mut child = [0u8; 16];
    for i in 0..16usize
        invariant
            child@.len() == 16,
            forall|j: int|
                0 <= j < i ==> #[trigger] child@[j] == mix_gene(dna_1@[j], dna_2@[j], selector@[j]),
    {
        child[i] = (dna_1[i] & selector[i]) | (dna_2[i] & !selector[i]);
    }
    assert(child@ =~= mix_dna(dna_1@, dna_2@, selector@));
    child
}

/// Each bit of a bred gene is the first parent's bit where the selector
/// has a 1, and the second parent's bit where it has a 0.
pub proof fn lemma_mix_gene_bits(gene_1: u8, gene_2: u8, selector: u8)
    ensures
        mix_gene(gene_1, gene_2, selector) & selector == gene_1 & selector,
        mix_gene(gene_1, gene_2, selector) & !selector == gene_2 & !selector,
{
    assert((((gene_1 & selector) | (gene_2 & !selector)) & selector == gene_1 & selector) && (((
    gene_1 & selector) | (gene_2 & !selector)) & !selector == gene_2 & !selector)) by (bit_vector);
}

/// Breeding a kitty with two parents of the same DNA gives that DNA back,
/// whatever the selector.
pub proof fn lemma_mix_same_parents(dna: Seq<u8>, selector: Seq<u8>)
    requires
        selector.len() == dna.len(),
    ensures
        mix_dna(dna, dna, selector) == dna,
{
    assert forall|i: int| 0 <= i < dna.len() implies #[trigger] mix_dna(dna, dna, selector)[i]
        == dna[i] by {
        let (g, s) = (dna[i], selector[i]);
        assert((g & s) | (g & !s) == g) by (bit_vector);
    }
    assert(mix_dna(dna, dna, selector) =~= dna);
}

/// Breeding takes the whole of the first parent's DNA under an all-ones
/// selector.
pub proof fn lemma_mix_all_ones(dna_1: Seq<u8>, dna_2: Seq<u8>, selector: Seq<u8>)
    requires
        forall|i: int| 0 <= i < dna_1.len() ==> selector[i] == 0xffu8,
    ensures
        mix_dna(dna_1, dna_2, selector) == dna_1,
{
    assert forall|i: int| 0 <= i < dna_1.len() implies #[trigger] mix_dna(dna_1, dna_2, selector)[i]
        == dna_1[i] by {
        let (a, b, s) = (dna_1[i], dna_2[i], selector[i]);
        assert(s == 0xffu8 ==> (a & s) | (b & !s) == a) by (bit_vector);
    }
    assert(mix_dna(dna_1, dna_2, selector) =~= dna_1);
}

/// Breeding takes the whole of the second parent's DNA under an all-zeros
/// selector.
pub proof fn lemma_mix_all_zeros(dna_1: Seq<u8>, dna_2: Seq<u8>, selector: Seq<u8>)
    requires
        dna_2.len() == dna_1.len(),
        forall|i: int| 0 <= i < dna_1.len() ==> selector[i] == 0u8,
    ensures
        mix_dna(dna_1, dna_2, selector) == dna_2,
{
    assert forall|i: int| 0 <= i < dna_1.len() implies #[trigger] mix_dna(dna_1, dna_2, selector)[i]
        == dna_2[i] by {
        let (a, b, s) = (dna_1[i], dna_2[i], selector[i]);
        assert(s == 0u8 ==> (a & s) | (b & !s) == b) by (bit_vector);
    }
    assert(mix_dna(dna_1, dna_2, selector) =~= dna_2);
}

} // verus!
