use anchor_lang::prelude::Pubkey;
use escrow::address::{escrow_authority, escrow_seeds, escrow_signer_seeds, find_escrow_address};
use escrow::{AccountKey, Address, Key, ESCROW_SEED, PROGRAM_ID};
use std::str::FromStr;

fn maker() -> Address {
    Address { bytes: [17; 32] }
}

#[test]
fn program_id_is_the_declared_one() {
    let id = Pubkey::from_str("9w6Bay8y3yDdQzPLH8h4ygBQqDBDHjQEr3U2KqQHec9B").unwrap();
    assert_eq!(PROGRAM_ID, id.to_bytes());
}

#[test]
fn seeds_are_prefix_maker_and_seed_in_little_endian() {
    assert_eq!(ESCROW_SEED, *b"escrow");
    assert_eq!(
        escrow_seeds(&maker(), 0x0102),
        vec![b"escrow".to_vec(), vec![17; 32], vec![2, 1, 0, 0, 0, 0, 0, 0]]
    );
    assert_eq!(
        escrow_signer_seeds(&maker(), 0x0102, 250),
        vec![b"escrow".to_vec(), vec![17; 32], vec![2, 1, 0, 0, 0, 0, 0, 0], vec![250]]
    );
}

#[test]
fn record_address_is_the_program_address_of_the_seeds() {
    let program = Pubkey::new_from_array(PROGRAM_ID);
    for seed in [0u64, 7, u64::MAX] {
        let (key, bump) = Pubkey::find_program_address(
            &[b"escrow", &[17; 32], &seed.to_le_bytes()],
            &program,
        );
        assert_eq!(
            find_escrow_address(&maker(), seed),
            Some((Address { bytes: key.to_bytes() }, bump))
        );
    }
}

#[test]
fn record_address_depends_on_maker_and_seed() {
    let first = find_escrow_address(&maker(), 1).unwrap();
    assert_eq!(find_escrow_address(&maker(), 1), Some(first));
    assert_ne!(find_escrow_address(&maker(), 2).unwrap().0, first.0);
    assert_ne!(find_escrow_address(&Address { bytes: [18; 32] }, 1).unwrap().0, first.0);
    assert_ne!(first.0, maker());
}

#[test]
fn authority_is_the_address_found() {
    let program = Pubkey::new_from_array(PROGRAM_ID);
    for seed in [0u64, 7, 1 << 40] {
        let (address, bump) = find_escrow_address(&maker(), seed).unwrap();
        assert_eq!(escrow_authority(&maker(), seed, bump), Some(address));
        let key = Pubkey::create_program_address(
            &[b"escrow", &[17; 32], &seed.to_le_bytes(), &[bump]],
            &program,
        )
        .unwrap();
        assert_eq!(address.bytes, key.to_bytes());
    }
}

#[test]
fn authority_of_another_bump_is_another_address() {
    let program = Pubkey::new_from_array(PROGRAM_ID);
    let (address, bump) = find_escrow_address(&maker(), 7).unwrap();
    for other in 0..=255u8 {
        let expected = Pubkey::create_program_address(
            &[b"escrow", &[17; 32], &7u64.to_le_bytes(), &[other]],
            &program,
        )
        .ok()
        .map(|k| Address { bytes: k.to_bytes() });
        assert_eq!(escrow_authority(&maker(), 7, other), expected);
        if other != bump {
            assert_ne!(expected, Some(address));
        }
    }
}

#[test]
fn identities_are_the_same_when_all_bytes_are() {
    let a = Address { bytes: [5; 32] };
    let mut b = a;
    assert!(a.same(&b));
    b.bytes[31] = 6;
    assert!(!a.same(&b));
    let mut c = a;
    c.bytes[0] = 4;
    assert!(!a.same(&c));
    let k = AccountKey { holder: a, asset: b };
    assert!(k.same(&AccountKey { holder: a, asset: b }));
    assert!(!k.same(&AccountKey { holder: b, asset: a }));
    assert!(!k.same(&AccountKey { holder: a, asset: a }));
}
