use kitty_contracts::kitties::{Error, Kitties};
use kitty_contracts::kitty_coin::KittyCoin;

// Accounts as the test environment hands them out.
const ALICE: u64 = 1;
const BOB: u64 = 2;
const EVE: u64 = 5;
const FRANK: u64 = 6;

// The registry's own account.
const REGISTRY: u64 = 99;

/// A registry that mints for free, next to a small coin ledger.
fn new_kitties() -> (KittyCoin, Kitties) {
    let coin = KittyCoin::new(ALICE, 10_000);
    let kitties = Kitties::new(REGISTRY, 0);
    (coin, kitties)
}

#[test]
fn mint_works() {
    let (mut coin, mut kitties) = new_kitties();
    // Kitty 1 does not exist.
    assert_eq!(kitties.owner_of(1), None);
    // Alice does not own kitties.
    assert_eq!(kitties.balance_of(ALICE), 0);
    // Create kitty Id 1.
    assert_eq!(kitties.mint(ALICE, 1, &mut coin), Ok(()));
    // Alice owns 1 kitty.
    assert_eq!(kitties.balance_of(ALICE), 1);
}

#[test]
fn mint_existing_should_fail() {
    let (mut coin, mut kitties) = new_kitties();
    // Create kitty Id 1.
    assert_eq!(kitties.mint(ALICE, 1, &mut coin), Ok(()));
    // The first Transfer event takes place.
    assert_eq!(1, kitties.events().len());
    // Alice owns 1 kitty.
    assert_eq!(kitties.balance_of(ALICE), 1);
    // Alice owns kitty Id 1.
    assert_eq!(kitties.owner_of(1), Some(ALICE));
    // Cannot create kitty Id if it exists.
    // Bob cannot own kitty Id 1.
    assert_eq!(kitties.mint(BOB, 1, &mut coin), Err(Error::TokenExists));
    // The failed mint left everything as it was.
    assert_eq!(kitties.balance_of(ALICE), 1);
    assert_eq!(kitties.balance_of(BOB), 0);
    assert_eq!(kitties.owner_of(1), Some(ALICE));
    assert_eq!(1, kitties.events().len());
}

#[test]
fn transfer_works() {
    let (mut coin, mut kitties) = new_kitties();
    // Create kitty Id 1 for Alice.
    assert_eq!(kitties.mint(ALICE, 1, &mut coin), Ok(()));
    // Alice owns kitty 1.
    assert_eq!(kitties.balance_of(ALICE), 1);
    // Bob does not own any kitty.
    assert_eq!(kitties.balance_of(BOB), 0);
    // The first Transfer event takes place.
    assert_eq!(1, kitties.events().len());
    // Alice transfers kitty 1 to Bob.
    assert_eq!(kitties.transfer(ALICE, BOB, 1), Ok(()));
    // The second Transfer event takes place.
    assert_eq!(2, kitties.events().len());
    // Bob owns kitty 1.
    assert_eq!(kitties.balance_of(BOB), 1);
}

#[test]
fn invalid_transfer_should_fail() {
    let (mut coin, mut kitties) = new_kitties();
    // Transfer of a kitty fails if it does not exist.
    assert_eq!(kitties.transfer(ALICE, BOB, 2), Err(Error::TokenNotFound));
    // Kitty Id 2 does not exist.
    assert_eq!(kitties.owner_of(2), None);
    // Create kitty Id 2.
    assert_eq!(kitties.mint(ALICE, 2, &mut coin), Ok(()));
    // Alice owns 1 kitty.
    assert_eq!(kitties.balance_of(ALICE), 1);
    // Kitty Id 2 is owned by Alice.
    assert_eq!(kitties.owner_of(2), Some(ALICE));
    // Bob cannot transfer kitties he neither owns nor is approved for.
    assert_eq!(kitties.transfer(BOB, EVE, 2), Err(Error::NotApproved));
}

#[test]
fn approved_transfer_works() {
    let (mut coin, mut kitties) = new_kitties();
    // Create kitty Id 1.
    assert_eq!(kitties.mint(ALICE, 1, &mut coin), Ok(()));
    // Kitty Id 1 is owned by Alice.
    assert_eq!(kitties.owner_of(1), Some(ALICE));
    // Approve kitty Id 1 transfer for Bob on behalf of Alice.
    assert_eq!(kitties.approve(ALICE, BOB, 1), Ok(()));
    // Bob transfers kitty Id 1 from Alice to Eve.
    assert_eq!(kitties.transfer_from(BOB, ALICE, EVE, 1), Ok(()));
    // Kitty Id 1 is owned by Eve.
    assert_eq!(kitties.owner_of(1), Some(EVE));
    // Alice does not own kitties.
    assert_eq!(kitties.balance_of(ALICE), 0);
    // Bob does not own kitties.
    assert_eq!(kitties.balance_of(BOB), 0);
    // Eve owns 1 kitty.
    assert_eq!(kitties.balance_of(EVE), 1);
}

#[test]
fn approved_for_all_works() {
    let (mut coin, mut kitties) = new_kitties();
    // Create kitty Id 1.
    assert_eq!(kitties.mint(ALICE, 1, &mut coin), Ok(()));
    // Create kitty Id 2.
    assert_eq!(kitties.mint(ALICE, 2, &mut coin), Ok(()));
    // Alice owns 2 kitties.
    assert_eq!(kitties.balance_of(ALICE), 2);
    // Approve all of Alice's kitties for Bob.
    assert_eq!(kitties.set_approval_for_all(ALICE, BOB, true), Ok(()));
    // Bob is an approved operator for Alice.
    assert!(kitties.is_approved_for_all(ALICE, BOB));
    // Bob transfers kitty Id 1 from Alice to Eve.
    assert_eq!(kitties.transfer_from(BOB, ALICE, EVE, 1), Ok(()));
    // Kitty Id 1 is owned by Eve.
    assert_eq!(kitties.owner_of(1), Some(EVE));
    // Alice owns 1 kitty.
    assert_eq!(kitties.balance_of(ALICE), 1);
    // Bob transfers kitty Id 2 from Alice to Eve.
    assert_eq!(kitties.transfer_from(BOB, ALICE, EVE, 2), Ok(()));
    // Bob does not own kitties.
    assert_eq!(kitties.balance_of(BOB), 0);
    // Eve owns 2 kitties.
    assert_eq!(kitties.balance_of(EVE), 2);
    // Remove operator approval for Bob on behalf of Alice.
    assert_eq!(kitties.set_approval_for_all(ALICE, BOB, false), Ok(()));
    // Bob is not an approved operator for Alice.
    assert!(!kitties.is_approved_for_all(ALICE, BOB));
}

#[test]
fn not_approved_transfer_should_fail() {
    let (mut coin, mut kitties) = new_kitties();
    // Create kitty Id 1.
    assert_eq!(kitties.mint(ALICE, 1, &mut coin), Ok(()));
    // Alice owns 1 kitty.
    assert_eq!(kitties.balance_of(ALICE), 1);
    // Bob does not own kitties.
    assert_eq!(kitties.balance_of(BOB), 0);
    // Eve does not own kitties.
    assert_eq!(kitties.balance_of(EVE), 0);
    // Eve is not an approved operator of Alice.
    assert_eq!(
        kitties.transfer_from(EVE, ALICE, FRANK, 1),
        Err(Error::NotApproved)
    );
    // Alice owns 1 kitty.
    assert_eq!(kitties.balance_of(ALICE), 1);
    // Bob does not own kitties.
    assert_eq!(kitties.balance_of(BOB), 0);
    // Eve does not own kitties.
    assert_eq!(kitties.balance_of(EVE), 0);
}

#[test]
fn burn_works() {
    let (mut coin, mut kitties) = new_kitties();
    // Create kitty Id 1 for Alice.
    assert_eq!(kitties.mint(ALICE, 1, &mut coin), Ok(()));
    // Alice owns 1 kitty.
    assert_eq!(kitties.balance_of(ALICE), 1);
    // Alice owns kitty Id 1.
    assert_eq!(kitties.owner_of(1), Some(ALICE));
    // Destroy kitty Id 1.
    assert_eq!(kitties.burn(ALICE, 1), Ok(()));
    // Alice does not own kitties.
    assert_eq!(kitties.balance_of(ALICE), 0);
    // Kitty Id 1 does not exist.
    assert_eq!(kitties.owner_of(1), None);
}

#[test]
fn burn_fails_token_not_found() {
    let (_coin, mut kitties) = new_kitties();
    // Try burning a non-existent kitty.
    assert_eq!(kitties.burn(ALICE, 1), Err(Error::TokenNotFound));
}

#[test]
fn burn_fails_not_owner() {
    let (mut coin, mut kitties) = new_kitties();
    // Create kitty Id 1 for Alice.
    assert_eq!(kitties.mint(ALICE, 1, &mut coin), Ok(()));
    // Try burning this kitty with a different account.
    assert_eq!(kitties.burn(EVE, 1), Err(Error::NotOwner));
}

#[test]
fn transfer_clears_prior_approval() {
    let (mut coin, mut kitties) = new_kitties();
    assert_eq!(kitties.mint(ALICE, 7, &mut coin), Ok(()));
    assert_eq!(kitties.approve(ALICE, BOB, 7), Ok(()));
    assert_eq!(kitties.get_approved(7), Some(BOB));
    // Bob uses his approval once; the transfer consumes it.
    assert_eq!(kitties.transfer_from(BOB, ALICE, EVE, 7), Ok(()));
    assert_eq!(kitties.get_approved(7), None);
    // Bob can no longer move the kitty.
    assert_eq!(kitties.transfer_from(BOB, EVE, FRANK, 7), Err(Error::NotApproved));
}

#[test]
fn approve_slot_cannot_be_overwritten() {
    let (mut coin, mut kitties) = new_kitties();
    assert_eq!(kitties.mint(ALICE, 1, &mut coin), Ok(()));
    assert_eq!(kitties.approve(ALICE, BOB, 1), Ok(()));
    // The slot is taken until a transfer clears it.
    assert_eq!(kitties.approve(ALICE, EVE, 1), Err(Error::CannotInsert));
    assert_eq!(kitties.get_approved(1), Some(BOB));
}

#[test]
fn null_account_is_rejected() {
    let (mut coin, mut kitties) = new_kitties();
    assert_eq!(kitties.mint(ALICE, 1, &mut coin), Ok(()));
    // Nothing may be approved to the null account.
    assert_eq!(kitties.approve(ALICE, 0, 1), Err(Error::NotAllowed));
    // Nothing may be transferred to the null account.
    assert_eq!(kitties.transfer(ALICE, 0, 1), Err(Error::NotAllowed));
    // An account may not name itself as operator.
    assert_eq!(kitties.set_approval_for_all(ALICE, ALICE, true), Err(Error::NotAllowed));
}

#[test]
fn mint_charges_the_mint_price() {
    let mut coin = KittyCoin::new(ALICE, 10_000);
    let mut kitties = Kitties::new(REGISTRY, 250);
    // Without an allowance for the registry, the payment fails.
    assert_eq!(kitties.mint(ALICE, 1, &mut coin), Err(Error::CoinTransferFail));
    assert_eq!(kitties.owner_of(1), None);
    assert_eq!(coin.balance_of(ALICE), 10_000);
    // Alice lets the registry's account take the mint price.
    assert_eq!(coin.approve(ALICE, REGISTRY, 250), Ok(()));
    assert_eq!(kitties.mint(ALICE, 1, &mut coin), Ok(()));
    assert_eq!(kitties.owner_of(1), Some(ALICE));
    assert_eq!(coin.balance_of(ALICE), 9_750);
    assert_eq!(coin.balance_of(REGISTRY), 250);
    assert_eq!(coin.allowances_of(ALICE, REGISTRY), 0);
}

#[test]
fn kitty_balances_sum_to_kitty_count() {
    let (mut coin, mut kitties) = new_kitties();
    assert_eq!(kitties.mint(ALICE, 1, &mut coin), Ok(()));
    assert_eq!(kitties.mint(ALICE, 2, &mut coin), Ok(()));
    assert_eq!(kitties.mint(BOB, 3, &mut coin), Ok(()));
    assert_eq!(kitties.transfer(ALICE, EVE, 1), Ok(()));
    // Three kitties exist, however they are spread.
    let sum = kitties.balance_of(ALICE) + kitties.balance_of(BOB) + kitties.balance_of(EVE);
    assert_eq!(sum, 3);
    assert_eq!(kitties.burn(BOB, 3), Ok(()));
    let sum = kitties.balance_of(ALICE) + kitties.balance_of(BOB) + kitties.balance_of(EVE);
    assert_eq!(sum, 2);
}
