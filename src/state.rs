//! The escrow record.
use vstd::prelude::*;
use crate::address::{le_bytes, lemma_le_bytes_injective, Identity};

verus! {

/// One locked-value agreement between a depositor and a recipient.
#[derive(Clone, Copy, Debug)]
pub struct Escrow {
    /// The party that funded the escrow and may cancel it.
    pub depositor: Identity,
    /// The party that may claim the escrow.
    pub recipient: Identity,
    /// Lamports held in the escrow.
    pub amount: u64,
    /// The bump seed found when the record's address was derived.
    pub bump: u8,
    /// Caller-chosen id, unique per depositor.
    pub escrow_id: u64,
    /// Unix timestamp of creation; informational only.
    pub created_at: i64,
}

impl Escrow {
    /// Stored size: an 8-byte type tag, two identities, the amount, the bump,
    /// the escrow id and the timestamp.
    pub const LEN: usize = 8 + 32 + 32 + 8 + 1 + 8 + 8;

    /// The key under which the record lives: `(depositor, escrow_id)`.
    pub open spec fn key(&self) -> (Seq<u8>, u64) {
        (self.depositor@, self.escrow_id)
    }

    /// Serialises the record: type tag, depositor, recipient, amount, bump,
    /// escrow id and creation time, integers little-endian.
    pub fn to_bytes(&self) -> (r: Vec<u8>)
        ensures
            r@ == encode(*self),
            r@.len() == Escrow::LEN,
    {
        let mut out = discriminator_bytes();
        append_all(&mut out, &self.depositor.bytes);
        append_all(&mut out, &self.recipient.bytes);
        let amount = crate::address::le_bytes_of(self.amount);
        append_all(&mut out, amount.as_slice());
        out.push(self.bump);
        let id = crate::address::le_bytes_of(self.escrow_id);
        append_all(&mut out, id.as_slice());
        let created = crate::address::le_bytes_of(#[verifier::truncate] (self.created_at as u64));
        append_all(&mut out, created.as_slice());
        assert(out@ =~= encode(*self));
        out
    }

    /// Reads a record from the front of `data`; `None` when `data` is shorter
    /// than a record or does not start with the record's type tag.
    pub fn from_bytes(data: &[u8]) -> (r: Option<Escrow>)
        ensures
            r is Some <==> data@.len() >= Escrow::LEN && data@.subrange(0, 8) == discriminator(),
            r matches Some(e) ==> encode(e) == data@.subrange(0, Escrow::LEN as int),
    {
        if data.len() < Escrow::LEN {
            return None;
        }
        let tag = discriminator_bytes();
        let mut i: usize = 0;
        while i < 8
            invariant
                i <= 8,
                tag@ == discriminator(),
                tag@.len() == 8,
                data@.len() >= Escrow::LEN,
                forall|j: int| 0 <= j < i ==> data@[j] == tag@[j],
            decreases 8 - i,
        {
            if data[i] != tag[i] {
                assert(data@.subrange(0, 8)[i as int] != discriminator()[i as int]);
                return None;
            }
            i = i + 1;
        }
        assert(data@.subrange(0, 8) =~= discriminator());
        let depositor = read_identity(data, 8);
        let recipient = read_identity(data, 40);
        let amount = read_u64(data, 72);
        let bump = data[80];
        let escrow_id = read_u64(data, 81);
        let created = read_u64(data, 89);
        let e = Escrow { depositor, recipient, amount, bump, escrow_id, created_at: #[verifier::truncate] (created as i64) };
        proof {
            let c = created;
            assert((c as i64) as u64 == c) by (bit_vector);
            assert(encode(e) =~= data@.subrange(0, Escrow::LEN as int));
        }
        Some(e)
    }
}

/// What `to_bytes` writes, `from_bytes` reads back as the same record: the
/// stored form starts with the type tag, and a record whose stored form is the
/// first `Escrow::LEN` bytes of it is the record written.
pub proof fn lemma_round_trip(e: Escrow, d: Escrow)
    requires
        encode(e).len() == Escrow::LEN,
        encode(d) == encode(e).subrange(0, Escrow::LEN as int),
    ensures
        encode(e).subrange(0, 8) == discriminator(),
        d == e,
{
    let a = encode(e);
    let b = encode(d);
    assert(a.subrange(0, Escrow::LEN as int) =~= a);
    assert(a.subrange(0, 8) =~= discriminator());
    assert(e.depositor@ =~= a.subrange(8, 40));
    assert(d.depositor@ =~= b.subrange(8, 40));
    assert(e.recipient@ =~= a.subrange(40, 72));
    assert(d.recipient@ =~= b.subrange(40, 72));
    assert(le_bytes(e.amount) =~= a.subrange(72, 80));
    assert(le_bytes(d.amount) =~= b.subrange(72, 80));
    assert(a[80] == e.bump && b[80] == d.bump);
    assert(le_bytes(e.escrow_id) =~= a.subrange(81, 89));
    assert(le_bytes(d.escrow_id) =~= b.subrange(81, 89));
    assert(le_bytes(e.created_at as u64) =~= a.subrange(89, 97));
    assert(le_bytes(d.created_at as u64) =~= b.subrange(89, 97));
    assert(e.depositor.bytes =~= d.depositor.bytes);
    assert(e.recipient.bytes =~= d.recipient.bytes);
    lemma_le_bytes_injective(e.amount, d.amount);
    lemma_le_bytes_injective(e.escrow_id, d.escrow_id);
    lemma_le_bytes_injective(e.created_at as u64, d.created_at as u64);
    let (x, y) = (e.created_at, d.created_at);
    assert(x as u64 == y as u64 ==> x == y) by (bit_vector);
}

/// The bytes of `"account:Escrow"`, whose digest begins every stored record.
pub open spec fn account_tag() -> Seq<u8> {
    seq![97u8, 99u8, 99u8, 111u8, 117u8, 110u8, 116u8, 58u8, 69u8, 115u8, 99u8, 114u8, 111u8, 119u8]
}

/// The SHA-256 digest of `data`.
pub uninterp spec fn sha256_of(data: Seq<u8>) -> Seq<u8>;

/// The record's type tag: the first eight bytes of the digest of `account_tag()`.
pub open spec fn discriminator() -> Seq<u8> {
    sha256_of(account_tag()).subrange(0, 8)
}

/// The stored form of a record.
pub open spec fn encode(e: Escrow) -> Seq<u8> {
    discriminator() + e.depositor@ + e.recipient@ + le_bytes(e.amount) + seq![e.bump]
        + le_bytes(e.escrow_id) + le_bytes(e.created_at as u64)
}

/// Relies on `solana_program::hash::hash` (re-exported by anchor_lang): the
/// 32-byte SHA-256 digest of `data`, a function of `data` alone.
#[verifier::external_body]
fn sha256(data: &[u8]) -> (r: [u8; 32])
    ensures
        r@ == sha256_of(data@),
{
    anchor_lang::solana_program::hash::hash(data).to_bytes()
}

/// The record's type tag.
pub fn discriminator_bytes() -> (r: Vec<u8>)
    ensures
        r@ == discriminator(),
        r@.len() == 8,
{
    let tag: Vec<u8> = vec![97u8, 99u8, 99u8, 111u8, 117u8, 110u8, 116u8, 58u8, 69u8, 115u8, 99u8, 114u8, 111u8, 119u8];
    assert(tag@ =~= account_tag());
    let digest = sha256(tag.as_slice());
    let mut r: Vec<u8> = Vec::new();
    let mut i: usize = 0;
    while i < 8
        invariant
            i <= 8,
            digest@.len() == 32,
            r@ =~= digest@.subrange(0, i as int),
        decreases 8 - i,
    {
        r.push(digest[i]);
        i = i + 1;
    }
    r
}

fn append_all(out: &mut Vec<u8>, src: &[u8])
    ensures
        final(out)@ == old(out)@ + src@,
{
    let mut i: usize = 0;
    while i < src.len()
        invariant
            i <= src@.len(),
            out@ =~= old(out)@ + src@.subrange(0, i as int),
        decreases src@.len() - i,
    {
        out.push(src[i]);
        i = i + 1;
    }
    assert(src@.subrange(0, src@.len() as int) =~= src@);
}

fn read_identity(data: &[u8], at: usize) -> (r: Identity)
    requires
        at + 32 <= data@.len(),
    ensures
        r@ == data@.subrange(at as int, at + 32),
{
    let n = data.len();
    let mut bytes = [0u8; 32];
    let mut i: usize = 0;
    while i < 32
        invariant
            i <= 32,
            n == data@.len(),
            at + 32 <= data@.len(),
            bytes@.len() == 32,
            forall|j: int| 0 <= j < i ==> bytes@[j] == data@[at + j],
        decreases 32 - i,
    {
        bytes[i] = data[at + i];
        i = i + 1;
    }
    assert(bytes@ =~= data@.subrange(at as int, at + 32));
    Identity { bytes }
}

fn read_u64(data: &[u8], at: usize) -> (r: u64)
    requires
        at + 8 <= data@.len(),
    ensures
        le_bytes(r) == data@.subrange(at as int, at + 8),
{
    let b0 = data[at];
    let b1 = data[at + 1];
    let b2 = data[at + 2];
    let b3 = data[at + 3];
    let b4 = data[at + 4];
    let b5 = data[at + 5];
    let b6 = data[at + 6];
    let b7 = data[at + 7];
    let r: u64 = (b0 as u64) | ((b1 as u64) << 8u64) | ((b2 as u64) << 16u64) | ((b3 as u64) << 24u64)
        | ((b4 as u64) << 32u64) | ((b5 as u64) << 40u64) | ((b6 as u64) << 48u64) | ((b7 as u64) << 56u64);
    proof {
        lemma_bytes_of_word(b0, b1, b2, b3, b4, b5, b6, b7, r);
        assert(le_bytes(r) =~= data@.subrange(at as int, at + 8));
    }
    r
}

proof fn lemma_bytes_of_word(b0: u8, b1: u8, b2: u8, b3: u8, b4: u8, b5: u8, b6: u8, b7: u8, r: u64)
    requires
        r == (b0 as u64) | ((b1 as u64) << 8u64) | ((b2 as u64) << 16u64) | ((b3 as u64) << 24u64)
            | ((b4 as u64) << 32u64) | ((b5 as u64) << 40u64) | ((b6 as u64) << 48u64) | ((b7 as u64) << 56u64),
    ensures
        (r >> 0u64) as u8 == b0,
        (r >> 8u64) as u8 == b1,
        (r >> 16u64) as u8 == b2,
        (r >> 24u64) as u8 == b3,
        (r >> 32u64) as u8 == b4,
        (r >> 40u64) as u8 == b5,
        (r >> 48u64) as u8 == b6,
        (r >> 56u64) as u8 == b7,
{
    assert((r >> 0u64) as u8 == b0 && (r >> 8u64) as u8 == b1 && (r >> 16u64) as u8 == b2
        && (r >> 24u64) as u8 == b3 && (r >> 32u64) as u8 == b4 && (r >> 40u64) as u8 == b5
        && (r >> 48u64) as u8 == b6 && (r >> 56u64) as u8 == b7) by (bit_vector)
        requires
            r == (b0 as u64) | ((b1 as u64) << 8u64) | ((b2 as u64) << 16u64) | ((b3 as u64) << 24u64)
                | ((b4 as u64) << 32u64) | ((b5 as u64) << 40u64) | ((b6 as u64) << 48u64) | ((b7 as u64) << 56u64),
    ;
}

} // verus!
