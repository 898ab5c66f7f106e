use switchly_router::ledger::Ledger;
use switchly_router::router::{RouterError, SwitchlyRouter};

// Principals and assets are opaque ledger identifiers; the tests pick small
// distinct numbers for them.

#[test]
fn test_basic_deposit() {
    let mut l = Ledger::new(0);
    let from: u64 = 1;
    let vault: u64 = 2;
    let asset: u64 = 10;
    l.mint(asset, from, 1000);
    l.authorize(from);

    let r = SwitchlyRouter::deposit(
        &mut l,
        from,
        vault,
        asset,
        1000,
        String::from("SWAP:BTC.BTC:bc1qxyz"),
    );
    assert!(r.is_ok());

    assert_eq!(l.get_balance(asset, from), 0);
    assert_eq!(l.get_balance(asset, vault), 1000);
}

#[test]
fn test_deposit_with_expiry() {
    let mut l = Ledger::new(100);
    let from: u64 = 1;
    let vault: u64 = 2;
    let asset: u64 = 10;
    l.mint(asset, from, 1000);
    l.authorize(from);

    let expiry = l.timestamp() + 3600;
    let r = SwitchlyRouter::deposit_with_expiry(
        &mut l,
        from,
        vault,
        asset,
        1000,
        String::from("SWAP:BTC.BTC:bc1qxyz"),
        expiry,
    );
    assert!(r.is_ok());

    assert_eq!(l.get_balance(asset, from), 0);
    assert_eq!(l.get_balance(asset, vault), 1000);
}

#[test]
fn test_deposit_with_expiry_expired() {
    let mut l = Ledger::new(0);
    let from: u64 = 1;
    let vault: u64 = 2;
    let asset: u64 = 10;
    l.mint(asset, from, 1000);
    l.authorize(from);

    l.set_timestamp(1000);
    let expiry: u64 = 999;
    let r = SwitchlyRouter::deposit_with_expiry(
        &mut l,
        from,
        vault,
        asset,
        1000,
        String::from("SWAP:BTC.BTC:bc1qxyz"),
        expiry,
    );
    assert_eq!(r, Err(RouterError::Expired));
    assert_eq!(l.get_balance(asset, from), 1000);
    assert_eq!(l.get_balance(asset, vault), 0);
    assert_eq!(l.events.len(), 0);
}

#[test]
fn test_transfer_out() {
    let mut l = Ledger::new(0);
    let vault: u64 = 2;
    let recipient: u64 = 3;
    let asset: u64 = 10;
    l.mint(asset, vault, 1000);
    l.authorize(vault);

    let r = SwitchlyRouter::transfer_out(
        &mut l,
        vault,
        recipient,
        asset,
        500,
        String::from("OUT:HASH"),
    );
    assert!(r.is_ok());

    assert_eq!(l.get_balance(asset, vault), 500);
    assert_eq!(l.get_balance(asset, recipient), 500);
}

#[test]
fn test_transfer_allowance() {
    let mut l = Ledger::new(0);
    let old_vault: u64 = 2;
    let new_vault: u64 = 3;
    let asset: u64 = 10;
    l.mint(asset, old_vault, 1000);
    l.authorize(old_vault);

    let assets = vec![asset];
    let amounts = vec![1000i128];
    let r = SwitchlyRouter::return_vault_assets(
        &mut l,
        old_vault,
        new_vault,
        assets,
        amounts,
        String::from("MIGRATE:VAULT"),
    );
    assert!(r.is_ok());

    assert_eq!(l.get_balance(asset, old_vault), 0);
    assert_eq!(l.get_balance(asset, new_vault), 1000);
}

#[test]
fn test_return_vault_assets() {
    let mut l = Ledger::new(0);
    let old_vault: u64 = 2;
    let new_vault: u64 = 3;
    let asset1: u64 = 10;
    let asset2: u64 = 11;
    l.mint(asset1, old_vault, 1000);
    l.mint(asset2, old_vault, 2000);
    l.authorize(old_vault);

    let assets = vec![asset1, asset2];
    let amounts = vec![1000i128, 2000i128];
    let r = SwitchlyRouter::return_vault_assets(
        &mut l,
        old_vault,
        new_vault,
        assets,
        amounts,
        String::from("CHURN:COMPLETE"),
    );
    assert!(r.is_ok());

    assert_eq!(l.get_balance(asset1, old_vault), 0);
    assert_eq!(l.get_balance(asset1, new_vault), 1000);
    assert_eq!(l.get_balance(asset2, old_vault), 0);
    assert_eq!(l.get_balance(asset2, new_vault), 2000);
}

#[test]
fn test_return_vault_assets_length_mismatch() {
    let mut l = Ledger::new(0);
    let old_vault: u64 = 2;
    let new_vault: u64 = 3;
    let asset1: u64 = 10;
    let asset2: u64 = 11;
    l.authorize(old_vault);

    let assets = vec![asset1, asset2];
    let amounts = vec![1000i128]; // Only one amount for two assets
    let r = SwitchlyRouter::return_vault_assets(
        &mut l,
        old_vault,
        new_vault,
        assets,
        amounts,
        String::from("CHURN:COMPLETE"),
    );
    assert_eq!(r, Err(RouterError::LengthMismatch));
    assert_eq!(l.get_balance(asset1, old_vault), 0);
    assert_eq!(l.get_balance(asset1, new_vault), 0);
    assert_eq!(l.events.len(), 0);
}

#[test]
fn test_version() {
    let version = SwitchlyRouter::version();
    assert_eq!(version, String::from("3.0.0-stateless"));
}

#[test]
fn test_multiple_deposits_different_vaults() {
    let mut l = Ledger::new(0);
    let from: u64 = 1;
    let vault1: u64 = 2;
    let vault2: u64 = 3;
    let asset: u64 = 10;
    l.mint(asset, from, 3000);
    l.authorize(from);

    let r1 = SwitchlyRouter::deposit(
        &mut l,
        from,
        vault1,
        asset,
        1000,
        String::from("SWAP:ETH.ETH:0x123"),
    );
    let r2 = SwitchlyRouter::deposit(
        &mut l,
        from,
        vault2,
        asset,
        2000,
        String::from("SWAP:BTC.BTC:0x456"),
    );
    assert!(r1.is_ok() && r2.is_ok());

    assert_eq!(l.get_balance(asset, from), 0);
    assert_eq!(l.get_balance(asset, vault1), 1000);
    assert_eq!(l.get_balance(asset, vault2), 2000);
}

#[test]
fn test_multi_asset_support() {
    let mut l = Ledger::new(0);
    let from: u64 = 1;
    let vault: u64 = 2;
    let asset1: u64 = 10;
    let asset2: u64 = 11;
    l.mint(asset1, from, 1000);
    l.mint(asset2, from, 2000);
    l.authorize(from);

    let r1 = SwitchlyRouter::deposit(
        &mut l,
        from,
        vault,
        asset1,
        1000,
        String::from("SWAP:ETH.ETH:0x123"),
    );
    let r2 = SwitchlyRouter::deposit(
        &mut l,
        from,
        vault,
        asset2,
        2000,
        String::from("SWAP:BTC.BTC:0x456"),
    );
    assert!(r1.is_ok() && r2.is_ok());

    assert_eq!(l.get_balance(asset1, from), 0);
    assert_eq!(l.get_balance(asset1, vault), 1000);
    assert_eq!(l.get_balance(asset2, from), 0);
    assert_eq!(l.get_balance(asset2, vault), 2000);
}

#[test]
fn test_vault_rotation_scenario() {
    let mut l = Ledger::new(0);
    let old_vault: u64 = 2;
    let new_vault: u64 = 3;
    let asset1: u64 = 10;
    let asset2: u64 = 11;
    l.mint(asset1, old_vault, 1500);
    l.mint(asset2, old_vault, 3000);
    l.authorize(old_vault);

    let r1 = SwitchlyRouter::return_vault_assets(
        &mut l,
        old_vault,
        new_vault,
        vec![asset1],
        vec![1000i128],
        String::from("ROTATE:ASSET1"),
    );
    let r2 = SwitchlyRouter::return_vault_assets(
        &mut l,
        old_vault,
        new_vault,
        vec![asset2],
        vec![2000i128],
        String::from("ROTATE:ASSET2"),
    );
    let r3 = SwitchlyRouter::return_vault_assets(
        &mut l,
        old_vault,
        new_vault,
        vec![asset1, asset2],
        vec![500i128, 1000i128],
        String::from("ROTATE:ALL"),
    );
    assert!(r1.is_ok() && r2.is_ok() && r3.is_ok());

    assert_eq!(l.get_balance(asset1, old_vault), 0);
    assert_eq!(l.get_balance(asset1, new_vault), 1500);
    assert_eq!(l.get_balance(asset2, old_vault), 0);
    assert_eq!(l.get_balance(asset2, new_vault), 3000);
}

#[test]
fn test_large_amount_deposit() {
    let mut l = Ledger::new(0);
    let from: u64 = 1;
    let vault: u64 = 2;
    let asset: u64 = 10;
    let large_amount = 1_000_000_000_000_000_000i128;
    l.mint(asset, from, large_amount);
    l.authorize(from);

    let r = SwitchlyRouter::deposit(
        &mut l,
        from,
        vault,
        asset,
        large_amount,
        String::from("SWAP:ETH.ETH:0x123"),
    );
    assert!(r.is_ok());

    assert_eq!(l.get_balance(asset, from), 0);
    assert_eq!(l.get_balance(asset, vault), large_amount);
}

#[test]
fn test_event_emission() {
    let mut l = Ledger::new(0);
    let from: u64 = 1;
    let vault: u64 = 2;
    let asset: u64 = 10;
    l.mint(asset, from, 1000);
    l.authorize(from);

    let r = SwitchlyRouter::deposit(
        &mut l,
        from,
        vault,
        asset,
        1000,
        String::from("SWAP:ETH.ETH:0x123"),
    );
    assert!(r.is_ok());

    assert_eq!(l.events.len(), 1);

    assert_eq!(l.get_balance(asset, from), 0);
    assert_eq!(l.get_balance(asset, vault), 1000);
}

#[test]
fn test_no_initialization_required() {
    let mut l = Ledger::new(0);
    let from: u64 = 1;
    let vault: u64 = 2;
    let asset: u64 = 10;
    l.mint(asset, from, 1000);
    l.authorize(from);

    let r = SwitchlyRouter::deposit(
        &mut l,
        from,
        vault,
        asset,
        1000,
        String::from("SWAP:ETH.ETH:0x123"),
    );
    assert!(r.is_ok());

    let version = SwitchlyRouter::version();
    assert_eq!(version, String::from("3.0.0-stateless"));

    assert_eq!(l.get_balance(asset, from), 0);
    assert_eq!(l.get_balance(asset, vault), 1000);
}
