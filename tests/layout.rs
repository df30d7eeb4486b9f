use escrow::address::Identity;
use escrow::state::{discriminator_bytes, Escrow};

fn sample() -> Escrow {
    Escrow {
        depositor: Identity::new([1; 32]),
        recipient: Identity::new([2; 32]),
        amount: 300,
        bump: 254,
        escrow_id: 7,
        created_at: -5,
    }
}

#[test]
fn discriminator_is_account_digest_prefix() {
    let digest = anchor_lang::solana_program::hash::hash(b"account:Escrow").to_bytes();
    assert_eq!(discriminator_bytes(), digest[..8].to_vec());
}

#[test]
fn record_layout() {
    let bytes = sample().to_bytes();
    assert_eq!(bytes.len(), Escrow::LEN);
    assert_eq!(bytes[..8].to_vec(), discriminator_bytes());
    assert_eq!(bytes[8..40].to_vec(), vec![1u8; 32]);
    assert_eq!(bytes[40..72].to_vec(), vec![2u8; 32]);
    assert_eq!(bytes[72..80].to_vec(), vec![44, 1, 0, 0, 0, 0, 0, 0]);
    assert_eq!(bytes[80], 254);
    assert_eq!(bytes[81..89].to_vec(), vec![7, 0, 0, 0, 0, 0, 0, 0]);
    assert_eq!(bytes[89..97].to_vec(), vec![251, 255, 255, 255, 255, 255, 255, 255]);
}

#[test]
fn record_round_trip() {
    let e = sample();
    let mut bytes = e.to_bytes();
    bytes.push(9);
    let d = Escrow::from_bytes(&bytes).unwrap();
    assert!(d.depositor.same_as(&e.depositor));
    assert!(d.recipient.same_as(&e.recipient));
    assert_eq!(d.amount, 300);
    assert_eq!(d.bump, 254);
    assert_eq!(d.escrow_id, 7);
    assert_eq!(d.created_at, -5);
}

#[test]
fn short_or_untagged_data_is_rejected() {
    let bytes = sample().to_bytes();
    assert!(Escrow::from_bytes(&bytes[..Escrow::LEN - 1]).is_none());
    let mut other = bytes.clone();
    other[0] ^= 1;
    assert!(Escrow::from_bytes(&other).is_none());
    assert!(Escrow::from_bytes(&[]).is_none());
}
