use kitties::{Error, Event, GenesisConfig, Kitty, KittyIndex, Pallet};
use std::collections::BTreeMap;

const SEED: [u8; 32] = [7u8; 32];

/// The host's ledger, as far as a purchase needs one.
struct Balances {
    free: BTreeMap<u64, u64>,
    existential_deposit: u64,
}

impl Balances {
    fn free_balance(&self, who: u64) -> u64 {
        self.free.get(&who).copied().unwrap_or(0)
    }

    fn transfer_keep_alive(&mut self, source: u64, dest: u64, value: u64) -> Result<(), ()> {
        let from = self.free_balance(source);
        let to = self.free_balance(dest);
        if from < value || from - value < self.existential_deposit {
            return Err(());
        }
        let credited = to.checked_add(value).ok_or(())?;
        self.free.insert(source, from - value);
        self.free.insert(dest, credited);
        Ok(())
    }
}

#[derive(Debug, PartialEq)]
enum Refused {
    Registry(Error),
    Ledger,
}

struct Runtime {
    kitties: Pallet,
    balances: Balances,
}

impl Runtime {
    fn buy(&mut self, buyer: u64, kitty_id: KittyIndex, bid: u64) -> Result<Event, Refused> {
        let free = self.balances.free_balance(buyer);
        let payment = self.kitties.buy(buyer, kitty_id, bid, free).map_err(Refused::Registry)?;
        self.balances
            .transfer_keep_alive(payment.buyer, payment.seller, payment.value)
            .map_err(|_| Refused::Ledger)?;
        self.kitties.settle(&payment).map_err(Refused::Registry)
    }

    fn snapshot(&self) -> (Option<u32>, Vec<Option<Kitty>>, Vec<Vec<KittyIndex>>, Vec<u64>) {
        let kitties = (0..12).map(|id| self.kitties.kitties(id)).collect();
        let owned = (0..4).map(|acct| self.kitties.kitty_owned(acct)).collect();
        let free = (0..4).map(|acct| self.balances.free_balance(acct)).collect();
        (self.kitties.kitties_count(), kitties, owned, free)
    }
}

fn new_test_ext() -> Runtime {
    let genesis = GenesisConfig {
        kitties: vec![
            (1, [0, 1, 0, 0, 0, 0, 0, 0, 0, 0, 0, 0, 0, 0, 0, 0]),
            (2, [1, 1, 0, 0, 0, 0, 0, 0, 0, 0, 0, 0, 0, 0, 0, 0]),
        ],
    };
    let mut free = BTreeMap::new();
    free.insert(1, 1_000_000);
    free.insert(2, 10);
    Runtime { kitties: genesis.build(), balances: Balances { free, existential_deposit: 1 } }
}

#[test]
fn create_should_work() {
    let mut rt = new_test_ext();
    assert_eq!(rt.kitties.kitties_count(), Some(2));
    assert_eq!(rt.kitties.kitty_owned(1).len(), 1);
    assert_eq!(rt.kitties.create(1, &SEED, Some(0)), Ok(Event::KittyCreate(1, 2)));
    assert_eq!(rt.kitties.kitties(2).unwrap().owner, 1);
    assert_eq!(rt.kitties.kitties_count(), Some(3));
    assert_eq!(rt.kitties.kitty_owned(1).len(), 2);
}

#[test]
fn tranfer_should_work() {
    let mut rt = new_test_ext();
    assert_eq!(rt.kitties.kitties(0).unwrap().owner, 1);
    assert_eq!(rt.kitties.kitty_owned(1).len(), 1);
    assert_eq!(rt.kitties.kitty_owned(2).len(), 1);
    assert_eq!(rt.kitties.transfer(1, 2, 0), Ok(Event::KittyTransfer(1, 2, 0)));
    assert_eq!(rt.kitties.kitty_owned(1).len(), 0);
    assert_eq!(rt.kitties.kitty_owned(2).len(), 2);
    assert_eq!(rt.kitties.kitty_owned(2), [1, 0]);
    assert_eq!(rt.kitties.kitties(0).unwrap().owner, 2);
}

#[test]
fn transfer_failed_because_not_the_owner() {
    let mut rt = new_test_ext();
    let before = rt.snapshot();
    assert_eq!(rt.kitties.transfer(1, 2, 1), Err(Error::NotOwner));
    assert_eq!(rt.snapshot(), before);
}

#[test]
fn transfer_failed_because_kitty_not_exists() {
    let mut rt = new_test_ext();
    let before = rt.snapshot();
    assert_eq!(rt.kitties.transfer(1, 2, 1000), Err(Error::KittyNotExist));
    assert_eq!(rt.snapshot(), before);
}

#[test]
fn breed_should_work() {
    let mut rt = new_test_ext();
    assert_eq!(rt.kitties.transfer(2, 1, 1), Ok(Event::KittyTransfer(2, 1, 1)));
    assert_eq!(rt.kitties.kitty_owned(1), [0, 1]);
    assert_eq!(rt.kitties.breed(1, 0, 1, &SEED, Some(0)), Ok(Event::KittyCreate(1, 2)));
    assert_eq!(rt.kitties.kitty_owned(1), [0, 1, 2]);
    assert_eq!(rt.kitties.kitties_count(), Some(3));
    assert_eq!(rt.kitties.kitties(2).unwrap().owner, 1);
}

#[test]
fn breed_failed_because_the_two_kitties_are_the_same() {
    let mut rt = new_test_ext();
    let before = rt.snapshot();
    assert_eq!(rt.kitties.breed(1, 0, 0, &SEED, Some(0)), Err(Error::SameParentIndex));
    assert_eq!(rt.snapshot(), before);
}

#[test]
fn breed_failed_because_invalid_kitty_index() {
    let mut rt = new_test_ext();
    let before = rt.snapshot();
    assert_eq!(rt.kitties.breed(1, 0, 10, &SEED, Some(0)), Err(Error::InvalidKittyIndex));
    assert_eq!(rt.snapshot(), before);
    assert_eq!(rt.kitties.breed(1, 10, 0, &SEED, Some(0)), Err(Error::InvalidKittyIndex));
    assert_eq!(rt.snapshot(), before);
}

#[test]
fn breed_failed_because_parent_kitty_not_ownered_by_signer() {
    let mut rt = new_test_ext();
    let before = rt.snapshot();
    assert_eq!(rt.kitties.breed(1, 1, 0, &SEED, Some(0)), Err(Error::NotOwner));
    assert_eq!(rt.snapshot(), before);
    assert_eq!(rt.kitties.breed(1, 0, 1, &SEED, Some(0)), Err(Error::NotOwner));
    assert_eq!(rt.snapshot(), before);
}

#[test]
fn sell_kitty_should_work() {
    let mut rt = new_test_ext();
    assert_eq!(rt.kitties.kitties(0).unwrap().price, None);
    assert_eq!(rt.kitties.sell(1, 0, Some(5)), Ok(Event::SellKitty(1, 0, Some(5))));
    assert_eq!(rt.kitties.kitties(0).unwrap().price, Some(5));
}

#[test]
fn sell_kitty_failed_because_kitty_not_exist() {
    let mut rt = new_test_ext();
    let before = rt.snapshot();
    assert_eq!(rt.kitties.sell(1, 10, Some(5)), Err(Error::KittyNotExist));
    assert_eq!(rt.snapshot(), before);
}

#[test]
fn sell_kitty_failed_because_the_kitty_do_not_be_owned_by_seller() {
    let mut rt = new_test_ext();
    let before = rt.snapshot();
    assert_eq!(rt.kitties.sell(1, 1, Some(5)), Err(Error::NotOwner));
    assert_eq!(rt.snapshot(), before);
}

#[test]
fn cancel_sell_kitty_should_work() {
    let mut rt = new_test_ext();
    assert_eq!(rt.kitties.kitties(0).unwrap().price, None);
    assert_eq!(rt.kitties.sell(1, 0, Some(5)), Ok(Event::SellKitty(1, 0, Some(5))));
    assert_eq!(rt.kitties.kitties(0).unwrap().price, Some(5));
    assert_eq!(rt.kitties.CancelSell(1, 0), Ok(Event::CancelSellKitty(1, 0)));
    assert_eq!(rt.kitties.kitties(0).unwrap().price, None);
}

#[test]
fn buy_kitty_should_work() {
    let mut rt = new_test_ext();
    assert_eq!(rt.kitties.kitties(0).unwrap().price, None);
    assert_eq!(rt.kitties.sell(1, 0, Some(5)), Ok(Event::SellKitty(1, 0, Some(5))));
    assert_eq!(rt.kitties.kitties(0).unwrap().price, Some(5));
    assert_eq!(rt.buy(2, 0, 6), Ok(Event::BuyKitty(2, 1, 0, 6)));
    assert_eq!(rt.kitties.kitty_owned(1).len(), 0);
    assert_eq!(rt.kitties.kitty_owned(2).len(), 2);
    assert_eq!(rt.kitties.kitty_owned(2), [1, 0]);
    assert_eq!(rt.kitties.kitties(0).unwrap().owner, 2);
    assert_eq!(rt.balances.free_balance(1), 1_000_000 + 6);
    assert_eq!(rt.balances.free_balance(2), 10 - 6);
}

#[test]
fn buy_kitty_failed_because_kitty_not_exist() {
    let mut rt = new_test_ext();
    let before = rt.snapshot();
    assert_eq!(rt.buy(1, 10, 5), Err(Refused::Registry(Error::KittyNotExist)));
    assert_eq!(rt.snapshot(), before);
}

#[test]
fn can_not_buy_kitty_because_the_buyer_is_the_owner() {
    let mut rt = new_test_ext();
    let before = rt.snapshot();
    assert_eq!(rt.buy(1, 0, 5), Err(Refused::Registry(Error::CanNotBuyTheKittyYouOwned)));
    assert_eq!(rt.snapshot(), before);
}

#[test]
fn can_not_buy_kitty_because_the_kitty_is_not_on_sell() {
    let mut rt = new_test_ext();
    let before = rt.snapshot();
    assert_eq!(rt.buy(1, 1, 5), Err(Refused::Registry(Error::TheKittyIsNotOnSell)));
    assert_eq!(rt.snapshot(), before);
}

#[test]
fn buy_kitty_failed_because_bit_price_is_too_low() {
    let mut rt = new_test_ext();
    assert_eq!(rt.kitties.kitties(0).unwrap().price, None);
    assert_eq!(rt.kitties.sell(1, 0, Some(5)), Ok(Event::SellKitty(1, 0, Some(5))));
    assert_eq!(rt.kitties.kitties(0).unwrap().price, Some(5));
    let before = rt.snapshot();
    assert_eq!(rt.buy(2, 0, 4), Err(Refused::Registry(Error::BidPriceIsTooLow)));
    assert_eq!(rt.snapshot(), before);
    assert_eq!(rt.kitties.kitty_owned(1).len(), 1);
    assert_eq!(rt.kitties.kitty_owned(2).len(), 1);
    assert_eq!(rt.kitties.kitties(0).unwrap().owner, 1);
    assert_eq!(rt.balances.free_balance(1), 1_000_000);
    assert_eq!(rt.balances.free_balance(2), 10);
}

#[test]
fn buy_kitty_failed_because_balance_of_buyer_is_insufficient() {
    let mut rt = new_test_ext();
    assert_eq!(rt.kitties.kitties(0).unwrap().price, None);
    assert_eq!(rt.kitties.sell(1, 0, Some(50)), Ok(Event::SellKitty(1, 0, Some(50))));
    assert_eq!(rt.kitties.kitties(0).unwrap().price, Some(50));
    let before = rt.snapshot();
    assert_eq!(rt.buy(2, 0, 51), Err(Refused::Registry(Error::InsufficientBalance)));
    assert_eq!(rt.snapshot(), before);
    assert_eq!(rt.kitties.kitty_owned(1).len(), 1);
    assert_eq!(rt.kitties.kitty_owned(2).len(), 1);
    assert_eq!(rt.kitties.kitties(0).unwrap().owner, 1);
    assert_eq!(rt.balances.free_balance(1), 1_000_000);
    assert_eq!(rt.balances.free_balance(2), 10);
}

#[test]
fn buy_dropped_when_the_ledger_refuses_the_payment() {
    let mut rt = new_test_ext();
    assert_eq!(rt.kitties.sell(1, 0, Some(5)), Ok(Event::SellKitty(1, 0, Some(5))));
    let before = rt.snapshot();
    // The whole balance would leave the buyer's account: the bid is
    // accepted, the ledger refuses, and nothing has changed.
    assert_eq!(rt.buy(2, 0, 10), Err(Refused::Ledger));
    assert_eq!(rt.snapshot(), before);
    assert_eq!(rt.kitties.kitties(0).unwrap().price, Some(5));
}

#[test]
fn scenario_from_genesis_to_purchase() {
    let mut rt = new_test_ext();
    assert_eq!(rt.kitties.kitties_count(), Some(2));
    assert_eq!(rt.kitties.kitty_owned(1), [0]);
    assert_eq!(rt.kitties.kitty_owned(2), [1]);
    assert_eq!(rt.kitties.create(1, &SEED, Some(0)), Ok(Event::KittyCreate(1, 2)));
    assert_eq!(rt.kitties.kitties_count(), Some(3));
    assert_eq!(rt.kitties.kitty_owned(1), [0, 2]);
    assert_eq!(rt.kitties.sell(1, 0, Some(5)), Ok(Event::SellKitty(1, 0, Some(5))));
    assert_eq!(rt.kitties.kitties(0).unwrap().price, Some(5));
    assert_eq!(rt.kitties.CancelSell(1, 0), Ok(Event::CancelSellKitty(1, 0)));
    assert_eq!(rt.kitties.kitties(0).unwrap().price, None);
    assert_eq!(rt.kitties.sell(1, 0, Some(5)), Ok(Event::SellKitty(1, 0, Some(5))));
    let free_1 = rt.balances.free_balance(1);
    let free_2 = rt.balances.free_balance(2);
    assert_eq!(rt.buy(2, 0, 6), Ok(Event::BuyKitty(2, 1, 0, 6)));
    assert_eq!(rt.kitties.kitties(0).unwrap().owner, 2);
    assert_eq!(rt.kitties.kitties(0).unwrap().price, None);
    assert_eq!(rt.balances.free_balance(1), free_1 + 6);
    assert_eq!(rt.balances.free_balance(2), free_2 - 6);
    assert_eq!(rt.kitties.kitty_owned(1), [2]);
    assert_eq!(rt.kitties.kitty_owned(2), [1, 0]);
    assert_eq!(rt.kitties.kitties_count(), Some(3));
}
