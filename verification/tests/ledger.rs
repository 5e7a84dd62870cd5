use escrow::{Address, EscrowError, Ledger, Mint};

fn who(n: u8) -> Address {
    Address { bytes: [n; 32] }
}

fn gold() -> Mint {
    Mint { key: who(0x90), decimals: 2 }
}

fn bank() -> (Ledger, Address, Address) {
    let alice = who(1);
    let bob = who(2);
    let mut ledger = Ledger::new(5, 7);
    assert!(ledger.airdrop(&alice, 100));
    assert!(ledger.airdrop(&bob, 100));
    assert!(ledger.register_asset(&gold()));
    assert_eq!(ledger.open_account(&alice, &alice, &gold().key), Ok(()));
    assert_eq!(ledger.open_account(&bob, &bob, &gold().key), Ok(()));
    assert!(ledger.mint_to(&alice, &gold().key, 50));
    (ledger, alice, bob)
}

#[test]
fn new_ledger_is_empty() {
    let ledger = Ledger::new(5, 7);
    assert_eq!(ledger.lamports(&who(1)), 0);
    assert_eq!(ledger.balance(&who(1), &gold().key), None);
    assert_eq!(ledger.record(&who(1)), None);
    assert!(!ledger.precise(&gold()));
}

#[test]
fn airdrop_adds_up_and_stops_at_the_largest_amount() {
    let mut ledger = Ledger::new(5, 7);
    assert!(ledger.airdrop(&who(1), 40));
    assert!(ledger.airdrop(&who(1), 2));
    assert_eq!(ledger.lamports(&who(1)), 42);
    assert!(ledger.airdrop(&who(2), u64::MAX - 42));
    assert!(!ledger.airdrop(&who(3), 1));
    assert_eq!(ledger.lamports(&who(3)), 0);
    assert_eq!(ledger.lamports(&who(2)), u64::MAX - 42);
}

#[test]
fn asset_is_registered_once() {
    let mut ledger = Ledger::new(5, 7);
    assert!(ledger.register_asset(&gold()));
    assert!(ledger.precise(&gold()));
    assert!(!ledger.precise(&Mint { key: gold().key, decimals: 3 }));
    assert!(!ledger.register_asset(&Mint { key: gold().key, decimals: 3 }));
    assert!(ledger.precise(&gold()));
}

#[test]
fn account_is_opened_once_and_paid_for() {
    let (mut ledger, alice, bob) = bank();
    assert_eq!(ledger.lamports(&alice), 93);
    assert_eq!(ledger.balance(&bob, &gold().key), Some(0));
    assert_eq!(
        ledger.open_account(&alice, &bob, &gold().key),
        Err(EscrowError::DuplicateOffer)
    );
    assert_eq!(
        ledger.open_account(&alice, &alice, &who(0x91)),
        Err(EscrowError::AssetMismatch)
    );
    assert_eq!(
        ledger.open_account(&who(3), &who(3), &gold().key),
        Err(EscrowError::InsufficientFunds)
    );
    assert_eq!(ledger.lamports(&alice), 93);
    assert_eq!(ledger.ensure_account(&alice, &bob, &gold().key), Ok(()));
    assert_eq!(ledger.lamports(&alice), 93);
    assert_eq!(ledger.ensure_account(&alice, &who(3), &gold().key), Ok(()));
    assert_eq!(ledger.lamports(&alice), 86);
    assert_eq!(ledger.balance(&who(3), &gold().key), Some(0));
}

#[test]
fn mint_needs_an_account_and_room_in_the_supply() {
    let (mut ledger, alice, bob) = bank();
    assert!(!ledger.mint_to(&who(3), &gold().key, 1));
    assert!(!ledger.mint_to(&alice, &who(0x91), 1));
    assert!(ledger.mint_to(&bob, &gold().key, u64::MAX - 50));
    assert!(!ledger.mint_to(&alice, &gold().key, 1));
    assert_eq!(ledger.balance(&alice, &gold().key), Some(50));
    assert_eq!(ledger.balance(&bob, &gold().key), Some(u64::MAX - 50));
    // The whole supply fits in one sub-account.
    assert_eq!(ledger.transfer_checked(&alice, &alice, &bob, &gold(), 50), Ok(()));
    assert_eq!(ledger.balance(&bob, &gold().key), Some(u64::MAX));
}

#[test]
fn transfer_moves_exactly_the_amount() {
    let (mut ledger, alice, bob) = bank();
    assert_eq!(ledger.transfer_checked(&alice, &alice, &bob, &gold(), 20), Ok(()));
    assert_eq!(ledger.balance(&alice, &gold().key), Some(30));
    assert_eq!(ledger.balance(&bob, &gold().key), Some(20));
    assert_eq!(ledger.transfer_checked(&alice, &alice, &alice, &gold(), 30), Ok(()));
    assert_eq!(ledger.balance(&alice, &gold().key), Some(30));
    assert_eq!(ledger.transfer_checked(&bob, &bob, &alice, &gold(), 0), Ok(()));
    assert_eq!(ledger.balance(&alice, &gold().key), Some(30));
    assert_eq!(ledger.lamports(&alice), 93);
}

#[test]
fn transfer_is_rejected_whole() {
    let (mut ledger, alice, bob) = bank();
    let wrong = Mint { key: gold().key, decimals: 3 };
    assert_eq!(
        ledger.transfer_checked(&alice, &alice, &bob, &wrong, 20),
        Err(EscrowError::AssetMismatch)
    );
    assert_eq!(
        ledger.transfer_checked(&bob, &alice, &bob, &gold(), 20),
        Err(EscrowError::Unauthorized)
    );
    assert_eq!(
        ledger.transfer_checked(&alice, &alice, &bob, &gold(), 51),
        Err(EscrowError::InsufficientFunds)
    );
    assert_eq!(
        ledger.transfer_checked(&who(3), &who(3), &bob, &gold(), 0),
        Err(EscrowError::InsufficientFunds)
    );
    assert_eq!(
        ledger.transfer_checked(&alice, &alice, &who(3), &gold(), 20),
        Err(EscrowError::AssetMismatch)
    );
    assert_eq!(ledger.balance(&alice, &gold().key), Some(50));
    assert_eq!(ledger.balance(&bob, &gold().key), Some(0));
}

#[test]
fn snapshot_is_a_ledger_of_its_own() {
    let (mut ledger, alice, bob) = bank();
    let kept = ledger.snapshot();
    assert_eq!(ledger.transfer_checked(&alice, &alice, &bob, &gold(), 20), Ok(()));
    assert_eq!(kept.balance(&alice, &gold().key), Some(50));
    assert_eq!(kept.balance(&bob, &gold().key), Some(0));
    assert_eq!(kept.lamports(&alice), 93);
    assert!(kept.precise(&gold()));
}
