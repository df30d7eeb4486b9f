//! Identities and the deterministic derivation of an escrow record's address.
use vstd::prelude::*;

verus! {

/// A 32-byte account identity (a public key).
#[derive(Clone, Copy, Debug)]
pub struct Identity {
    pub bytes: [u8; 32],
}

impl View for Identity {
    type V = Seq<u8>;

    open spec fn view(&self) -> Seq<u8> {
        self.bytes@
    }
}

impl Identity {
    pub fn new(bytes: [u8; 32]) -> (r: Identity)
        ensures
            r.bytes == bytes,
    {
        Identity { bytes }
    }

    /// Byte-wise equality of two identities.
    pub fn same_as(&self, other: &Identity) -> (r: bool)
        ensures
            r == (self@ == other@),
    {
        let mut i: usize = 0;
        while i < 32
            invariant
                i <= 32,
                self@.len() == 32,
                other@.len() == 32,
                forall|j: int| 0 <= j < i ==> self@[j] == other@[j],
            decreases 32 - i,
        {
            if self.bytes[i] != other.bytes[i] {
                return false;
            }
            i = i + 1;
        }
        assert(self@ =~= other@);
        true
    }
}

/// The identity of the escrow program, under which record addresses are derived.
pub const PROGRAM_ID: [u8; 32] = [
    121, 138, 204, 135, 232, 98, 224, 28, 145, 32, 241, 104, 98, 81, 107, 96,
    130, 126, 91, 85, 34, 58, 7, 152, 37, 11, 218, 32, 186, 229, 97, 21,
];

/// The namespace seed that prefixes every escrow derivation: `b"escrow"`.
pub open spec fn seed_prefix() -> Seq<u8> {
    seq![101u8, 115u8, 99u8, 114u8, 111u8, 119u8]
}

/// Little-endian bytes of a `u64`.
pub open spec fn le_bytes(x: u64) -> Seq<u8> {
    Seq::new(8, |i: int| (x >> ((8 * i) as u64)) as u8)
}

/// The seeds of the record of `(depositor, escrow_id)`.
pub open spec fn escrow_seeds(depositor: Seq<u8>, escrow_id: u64) -> Seq<Seq<u8>> {
    seq![seed_prefix(), depositor, le_bytes(escrow_id)]
}

/// The program address found for `seeds` under `program_id`, with its bump,
/// or `None` when no bump gives an address off the curve.
pub uninterp spec fn program_address(seeds: Seq<Seq<u8>>, program_id: Seq<u8>) -> Option<(Seq<u8>, u8)>;

/// The address and bump of the record of `(depositor, escrow_id)`.
pub open spec fn escrow_address(depositor: Seq<u8>, escrow_id: u64) -> Option<(Seq<u8>, u8)> {
    program_address(escrow_seeds(depositor, escrow_id), PROGRAM_ID@)
}

pub open spec fn derived_view(d: Option<(Identity, u8)>) -> Option<(Seq<u8>, u8)> {
    match d {
        Some(p) => Some((p.0@, p.1)),
        None => None,
    }
}

/// Relies on `Pubkey::try_find_program_address` of anchor_lang (solana-program):
/// its result depends on the seeds and the program id alone; it returns `None`
/// instead of panicking when no bump seed gives a valid address.
#[verifier::external_body]
fn try_find_program_address(seeds: &Vec<Vec<u8>>, program_id: &[u8; 32]) -> (r: Option<(Identity, u8)>)
    ensures
        derived_view(r) == program_address(seeds@.map_values(|s: Vec<u8>| s@), program_id@),
{
    let parts: Vec<&[u8]> = seeds.iter().map(|s| s.as_slice()).collect();
    let program = anchor_lang::prelude::Pubkey::new_from_array(*program_id);
    anchor_lang::prelude::Pubkey::try_find_program_address(&parts, &program)
        .map(|(a, b)| (Identity { bytes: a.to_bytes() }, b))
}

/// The little-endian bytes of `x`.
pub fn le_bytes_of(x: u64) -> (r: Vec<u8>)
    ensures
        r@ == le_bytes(x),
{
    let mut r: Vec<u8> = Vec::new();
    let mut i: u64 = 0;
    while i < 8
        invariant
            i <= 8,
            r@.len() == i,
            forall|j: int| 0 <= j < i ==> r@[j] == (x >> ((8 * j) as u64)) as u8,
        decreases 8 - i,
    {
        r.push((x >> (8 * i)) as u8);
        i = i + 1;
    }
    assert(r@ =~= le_bytes(x));
    r
}

/// The seeds of the record of `(depositor, escrow_id)`, as byte vectors.
pub fn escrow_seeds_of(depositor: &Identity, escrow_id: u64) -> (r: Vec<Vec<u8>>)
    ensures
        r@.map_values(|s: Vec<u8>| s@) == escrow_seeds(depositor@, escrow_id),
{
    let prefix: Vec<u8> = vec![101u8, 115u8, 99u8, 114u8, 111u8, 119u8];
    assert(prefix@ =~= seed_prefix());
    let mut key: Vec<u8> = Vec::new();
    let mut i: usize = 0;
    while i < 32
        invariant
            i <= 32,
            depositor@.len() == 32,
            key@ =~= depositor@.subrange(0, i as int),
        decreases 32 - i,
    {
        key.push(depositor.bytes[i]);
        i = i + 1;
    }
    assert(key@ =~= depositor@);
    let id_bytes = le_bytes_of(escrow_id);
    let ghost views = seq![prefix@, key@, id_bytes@];
    let mut r: Vec<Vec<u8>> = Vec::new();
    r.push(prefix);
    r.push(key);
    r.push(id_bytes);
    assert(r@.map_values(|s: Vec<u8>| s@) =~= views);
    assert(r@.map_values(|s: Vec<u8>| s@) =~= escrow_seeds(depositor@, escrow_id));
    r
}

/// Derives the address of the record of `(depositor, escrow_id)` and the bump
/// that makes it a valid program address.
pub fn find_escrow_address(depositor: &Identity, escrow_id: u64) -> (r: Option<(Identity, u8)>)
    ensures
        derived_view(r) == escrow_address(depositor@, escrow_id),
{
    let seeds = escrow_seeds_of(depositor, escrow_id);
    try_find_program_address(&seeds, &PROGRAM_ID)
}

/// Distinct escrow ids give distinct derivation seeds for the same depositor.
pub proof fn lemma_distinct_ids_distinct_seeds(depositor: Seq<u8>, id1: u64, id2: u64)
    requires
        id1 != id2,
    ensures
        escrow_seeds(depositor, id1) != escrow_seeds(depositor, id2),
{
    if escrow_seeds(depositor, id1) == escrow_seeds(depositor, id2) {
        assert(escrow_seeds(depositor, id1)[2] == le_bytes(id1));
        lemma_le_bytes_injective(id1, id2);
    }
}

/// Little-endian bytes determine the integer.
pub proof fn lemma_le_bytes_injective(a: u64, b: u64)
    requires
        le_bytes(a) == le_bytes(b),
    ensures
        a == b,
{
    assert(le_bytes(a)[0] == (a >> 0u64) as u8 && le_bytes(b)[0] == (b >> 0u64) as u8);
    assert(le_bytes(a)[1] == (a >> 8u64) as u8 && le_bytes(b)[1] == (b >> 8u64) as u8);
    assert(le_bytes(a)[2] == (a >> 16u64) as u8 && le_bytes(b)[2] == (b >> 16u64) as u8);
    assert(le_bytes(a)[3] == (a >> 24u64) as u8 && le_bytes(b)[3] == (b >> 24u64) as u8);
    assert(le_bytes(a)[4] == (a >> 32u64) as u8 && le_bytes(b)[4] == (b >> 32u64) as u8);
    assert(le_bytes(a)[5] == (a >> 40u64) as u8 && le_bytes(b)[5] == (b >> 40u64) as u8);
    assert(le_bytes(a)[6] == (a >> 48u64) as u8 && le_bytes(b)[6] == (b >> 48u64) as u8);
    assert(le_bytes(a)[7] == (a >> 56u64) as u8 && le_bytes(b)[7] == (b >> 56u64) as u8);
    assert(le_bytes(a)[0] == le_bytes(b)[0]);
    assert(le_bytes(a)[1] == le_bytes(b)[1]);
    assert(le_bytes(a)[2] == le_bytes(b)[2]);
    assert(le_bytes(a)[3] == le_bytes(b)[3]);
    assert(le_bytes(a)[4] == le_bytes(b)[4]);
    assert(le_bytes(a)[5] == le_bytes(b)[5]);
    assert(le_bytes(a)[6] == le_bytes(b)[6]);
    assert(le_bytes(a)[7] == le_bytes(b)[7]);
    assert(a == b) by (bit_vector)
        requires
            (a >> 0u64) as u8 == (b >> 0u64) as u8,
            (a >> 8u64) as u8 == (b >> 8u64) as u8,
            (a >> 16u64) as u8 == (b >> 16u64) as u8,
            (a >> 24u64) as u8 == (b >> 24u64) as u8,
            (a >> 32u64) as u8 == (b >> 32u64) as u8,
            (a >> 40u64) as u8 == (b >> 40u64) as u8,
            (a >> 48u64) as u8 == (b >> 48u64) as u8,
            (a >> 56u64) as u8 == (b >> 56u64) as u8,
    ;
}

} // verus!
