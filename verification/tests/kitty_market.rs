use kitty_contracts::kitties::Kitties;
use kitty_contracts::kitty_coin::KittyCoin;
use kitty_contracts::kitty_market::{Adopted, Error, KittyMarket, MarketEvent, Sold};

// Accounts as the test environment hands them out.
const ALICE: u64 = 1;
const BOB: u64 = 2;
const EVE: u64 = 5;

// The contracts' own accounts.
const REGISTRY: u64 = 99;
const MARKET: u64 = 77;

/// A ledger funding Alice, a free-minting registry, and a marketplace.
fn new_market() -> (KittyCoin, Kitties, KittyMarket) {
    let coin = KittyCoin::new(ALICE, 10_000);
    let kitties = Kitties::new(REGISTRY, 0);
    let market = KittyMarket::new(MARKET);
    (coin, kitties, market)
}

#[test]
fn list_for_sale_zero_price_fails() {
    let (mut coin, mut kitties, mut market) = new_market();
    assert_eq!(kitties.mint(ALICE, 1, &mut coin), Ok(()));
    assert_eq!(kitties.set_approval_for_all(ALICE, MARKET, true), Ok(()));
    // A sale price of zero is rejected and nothing is listed.
    assert_eq!(
        market.list_for_sale(ALICE, 1, 0, &mut kitties),
        Err(Error::PriceIsZero)
    );
    assert_eq!(market.kitties_for_sale(), vec![]);
    assert_eq!(kitties.get_approved(1), None);
}

#[test]
fn buy_unlisted_fails() {
    let (mut coin, mut kitties, mut market) = new_market();
    assert_eq!(kitties.mint(ALICE, 1, &mut coin), Ok(()));
    // Kitty 1 was never listed.
    assert_eq!(
        market.buy(BOB, 1, &mut kitties, &mut coin),
        Err(Error::NotForSale)
    );
    assert_eq!(kitties.owner_of(1), Some(ALICE));
}

#[test]
fn sale_works() {
    let (mut coin, mut kitties, mut market) = new_market();
    assert_eq!(kitties.mint(ALICE, 1, &mut coin), Ok(()));
    // Alice authorizes the marketplace over her kitties, then lists.
    assert_eq!(kitties.set_approval_for_all(ALICE, MARKET, true), Ok(()));
    assert_eq!(market.list_for_sale(ALICE, 1, 100, &mut kitties), Ok(()));
    assert_eq!(market.kitties_for_sale(), vec![(1, 100)]);
    // Listing handed the kitty's approval to the marketplace.
    assert_eq!(kitties.get_approved(1), Some(MARKET));
    // Bob gets coins and lets the marketplace spend the price.
    assert_eq!(coin.transfer(ALICE, BOB, 500), Ok(()));
    assert_eq!(coin.approve(BOB, MARKET, 100), Ok(()));
    assert_eq!(market.buy(BOB, 1, &mut kitties, &mut coin), Ok(()));
    // The kitty changed hands, the payment went to the seller.
    assert_eq!(kitties.owner_of(1), Some(BOB));
    assert_eq!(coin.balance_of(BOB), 400);
    assert_eq!(coin.balance_of(ALICE), 9_600);
    // The listing is gone and the sale was recorded.
    assert_eq!(market.kitties_for_sale(), vec![]);
    let events = market.events();
    assert_eq!(
        events[events.len() - 1],
        MarketEvent::Sold(Sold { seller: ALICE, buyer: BOB, kitty_id: 1, price: 100 })
    );
}

#[test]
fn adoption_works() {
    let (mut coin, mut kitties, mut market) = new_market();
    assert_eq!(kitties.mint(ALICE, 1, &mut coin), Ok(()));
    assert_eq!(kitties.set_approval_for_all(ALICE, MARKET, true), Ok(()));
    assert_eq!(market.list_for_adoption(ALICE, 1, &mut kitties), Ok(()));
    assert_eq!(market.adoption_list(), vec![1]);
    // Eve adopts the kitty for free.
    assert_eq!(market.adopt(EVE, 1, &mut kitties), Ok(()));
    assert_eq!(kitties.owner_of(1), Some(EVE));
    assert_eq!(market.adoption_list(), vec![]);
    let events = market.events();
    assert_eq!(
        events[events.len() - 1],
        MarketEvent::Adopted(Adopted { adopter: EVE, kitty_id: 1 })
    );
}

#[test]
fn adopt_unlisted_fails() {
    let (mut coin, mut kitties, mut market) = new_market();
    assert_eq!(kitties.mint(ALICE, 1, &mut coin), Ok(()));
    assert_eq!(market.adopt(EVE, 1, &mut kitties), Err(Error::NotForAdoption));
    assert_eq!(kitties.owner_of(1), Some(ALICE));
}

#[test]
fn only_the_owner_may_list() {
    let (mut coin, mut kitties, mut market) = new_market();
    assert_eq!(kitties.mint(ALICE, 1, &mut coin), Ok(()));
    assert_eq!(
        market.list_for_sale(BOB, 1, 100, &mut kitties),
        Err(Error::NotOwner)
    );
    assert_eq!(
        market.list_for_adoption(BOB, 1, &mut kitties),
        Err(Error::NotOwner)
    );
}

#[test]
fn listing_needs_the_operator_grant() {
    let (mut coin, mut kitties, mut market) = new_market();
    assert_eq!(kitties.mint(ALICE, 1, &mut coin), Ok(()));
    // Alice never authorized the marketplace, so it cannot obtain the
    // kitty's approval for itself.
    assert_eq!(
        market.list_for_sale(ALICE, 1, 100, &mut kitties),
        Err(Error::ListSaleNotApproved)
    );
    assert_eq!(
        market.list_for_adoption(ALICE, 1, &mut kitties),
        Err(Error::ListAdoptNotApproved)
    );
    assert_eq!(market.kitties_for_sale(), vec![]);
    assert_eq!(market.adoption_list(), vec![]);
}

#[test]
fn double_listing_fails() {
    let (mut coin, mut kitties, mut market) = new_market();
    assert_eq!(kitties.mint(ALICE, 1, &mut coin), Ok(()));
    assert_eq!(kitties.set_approval_for_all(ALICE, MARKET, true), Ok(()));
    assert_eq!(market.list_for_sale(ALICE, 1, 100, &mut kitties), Ok(()));
    assert_eq!(
        market.list_for_sale(ALICE, 1, 200, &mut kitties),
        Err(Error::AlreadyListedForSale)
    );
    assert_eq!(market.kitties_for_sale(), vec![(1, 100)]);

    assert_eq!(kitties.mint(ALICE, 2, &mut coin), Ok(()));
    assert_eq!(market.list_for_adoption(ALICE, 2, &mut kitties), Ok(()));
    assert_eq!(
        market.list_for_adoption(ALICE, 2, &mut kitties),
        Err(Error::AlreadyListedForAdoption)
    );
    assert_eq!(market.adoption_list(), vec![2]);
}

#[test]
fn buy_without_funds_fails() {
    let (mut coin, mut kitties, mut market) = new_market();
    assert_eq!(kitties.mint(ALICE, 1, &mut coin), Ok(()));
    assert_eq!(kitties.set_approval_for_all(ALICE, MARKET, true), Ok(()));
    assert_eq!(market.list_for_sale(ALICE, 1, 100, &mut kitties), Ok(()));
    // Bob never allowed the marketplace to spend his coins.
    assert_eq!(
        market.buy(BOB, 1, &mut kitties, &mut coin),
        Err(Error::CoinTransferFail)
    );
    // Bob allows the price but holds nothing.
    assert_eq!(coin.approve(BOB, MARKET, 100), Ok(()));
    assert_eq!(
        market.buy(BOB, 1, &mut kitties, &mut coin),
        Err(Error::CoinTransferFail)
    );
    assert_eq!(kitties.owner_of(1), Some(ALICE));
    assert_eq!(market.kitties_for_sale(), vec![(1, 100)]);
}

#[test]
fn buy_fails_when_the_kitty_moved_away() {
    let (mut coin, mut kitties, mut market) = new_market();
    assert_eq!(kitties.mint(ALICE, 1, &mut coin), Ok(()));
    assert_eq!(kitties.set_approval_for_all(ALICE, MARKET, true), Ok(()));
    assert_eq!(market.list_for_sale(ALICE, 1, 100, &mut kitties), Ok(()));
    // Alice hands the kitty to Eve directly; that clears the marketplace's
    // approval, so the stale listing can no longer be served.
    assert_eq!(kitties.transfer(ALICE, EVE, 1), Ok(()));
    assert_eq!(coin.transfer(ALICE, BOB, 500), Ok(()));
    assert_eq!(coin.approve(BOB, MARKET, 100), Ok(()));
    assert_eq!(
        market.buy(BOB, 1, &mut kitties, &mut coin),
        Err(Error::OwnershipTransferFail)
    );
    // Nothing was paid and nothing moved.
    assert_eq!(coin.balance_of(BOB), 500);
    assert_eq!(kitties.owner_of(1), Some(EVE));
}

#[test]
fn buy_fails_when_the_kitty_was_burned() {
    let (mut coin, mut kitties, mut market) = new_market();
    assert_eq!(kitties.mint(ALICE, 1, &mut coin), Ok(()));
    assert_eq!(kitties.set_approval_for_all(ALICE, MARKET, true), Ok(()));
    assert_eq!(market.list_for_sale(ALICE, 1, 100, &mut kitties), Ok(()));
    // Alice burns the listed kitty; the registry then reports no owner.
    assert_eq!(kitties.burn(ALICE, 1), Ok(()));
    assert_eq!(
        market.buy(BOB, 1, &mut kitties, &mut coin),
        Err(Error::NoOwner)
    );
}

#[test]
fn relisting_into_the_other_category() {
    let (mut coin, mut kitties, mut market) = new_market();
    assert_eq!(kitties.mint(ALICE, 1, &mut coin), Ok(()));
    assert_eq!(kitties.set_approval_for_all(ALICE, MARKET, true), Ok(()));
    assert_eq!(market.list_for_sale(ALICE, 1, 100, &mut kitties), Ok(()));
    // The kitty's approval slot is still taken by the sale listing, so the
    // adoption listing cannot obtain it again.
    assert_eq!(
        market.list_for_adoption(ALICE, 1, &mut kitties),
        Err(Error::ListAdoptNotApproved)
    );
    assert_eq!(market.kitties_for_sale(), vec![(1, 100)]);
    assert_eq!(market.adoption_list(), vec![]);
}

#[test]
fn two_listings_are_kept_in_order() {
    let (mut coin, mut kitties, mut market) = new_market();
    assert_eq!(kitties.mint(ALICE, 1, &mut coin), Ok(()));
    assert_eq!(kitties.mint(ALICE, 2, &mut coin), Ok(()));
    assert_eq!(kitties.set_approval_for_all(ALICE, MARKET, true), Ok(()));
    assert_eq!(market.list_for_sale(ALICE, 1, 100, &mut kitties), Ok(()));
    assert_eq!(market.list_for_sale(ALICE, 2, 250, &mut kitties), Ok(()));
    assert_eq!(market.kitties_for_sale(), vec![(1, 100), (2, 250)]);
}
