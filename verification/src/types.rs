//! The plain data that the registry stores, reports and refuses with.

use vstd::prelude::*;

verus! {

/// An account of the host chain.
pub type AccountId = u64;

/// An amount of the host's currency.
pub type Balance = u64;

/// Identifier of a kitty: the value of the counter when it was minted.
pub type KittyIndex = u32;

/// The seed that the host draws for one execution context.
pub type Seed = [u8; 32];

/// One collectible: its genome, who owns it, and what it is offered for.
#[derive(Clone, Copy, Debug, PartialEq, Eq)]
pub struct Kitty {
    /// The genome; never changes after minting.
    pub dna: [u8; 16],
    /// The account whose ownership list holds this kitty.
    pub owner: AccountId,
    /// The asking price; `None` while the kitty is not for sale.
    pub price: Option<Balance>,
}

/// A kitty as the contracts speak of it: the genome as a sequence of bytes.
pub struct KittyView {
    pub dna: Seq<u8>,
    pub owner: AccountId,
    pub price: Option<Balance>,
}

impl View for Kitty {
    type V = KittyView;

    open spec fn view(&self) -> KittyView {
        KittyView { dna: self.dna@, owner: self.owner, price: self.price }
    }
}

/// Why a transition was refused. A refused transition changes nothing.
#[derive(Clone, Copy, Debug, PartialEq, Eq, Structural)]
pub enum Error {
    /// The counter already stands at its largest value.
    KittiesCountOverflow,
    /// The caller does not own the kitty, or the ownership index lacks it.
    NotOwner,
    /// A parent named for breeding does not exist.
    InvalidKittyIndex,
    /// Both parents named for breeding are the same kitty.
    SameParentIndex,
    /// No kitty has this identifier.
    KittyNotExist,
    /// The buyer already owns the kitty.
    CanNotBuyTheKittyYouOwned,
    /// The kitty has no asking price.
    TheKittyIsNotOnSell,
    /// The bid is below the asking price.
    BidPriceIsTooLow,
    /// The buyer's free balance is below the bid.
    InsufficientBalance,
}

/// What a transition that went through reports to the host.
#[derive(Clone, Copy, Debug, PartialEq, Eq)]
pub enum Event {
    /// A kitty was minted for the account, under the identifier.
    KittyCreate(AccountId, KittyIndex),
    /// The first account handed the kitty to the second.
    KittyTransfer(AccountId, AccountId, KittyIndex),
    /// The owner set the kitty's asking price.
    SellKitty(AccountId, KittyIndex, Option<Balance>),
    /// The owner withdrew the kitty from sale.
    CancelSellKitty(AccountId, KittyIndex),
    /// The first account bought the kitty from the second, for the amount.
    BuyKitty(AccountId, AccountId, KittyIndex, Balance),
}

/// An accepted bid: the host moves `value` from `buyer` to `seller`, keeping
/// the buyer's account alive, before the purchase is settled.
#[derive(Clone, Copy, Debug, PartialEq, Eq)]
pub struct Payment {
    /// The account that pays.
    pub buyer: AccountId,
    /// The account that is paid: the kitty's owner when the bid was accepted.
    pub seller: AccountId,
    /// The kitty that changes hands.
    pub kitty_id: KittyIndex,
    /// The amount to move: the whole bid.
    pub value: Balance,
}

} // verus!
