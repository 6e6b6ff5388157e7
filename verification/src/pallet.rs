//! The registry as the host holds it, and the transitions it offers.

use vstd::prelude::*;
use crate::index::OwnedIndex;
use crate::laws::lemma_relocate_moves_one;
use crate::genome::{combine, combine_dna};
use crate::random::random_bytes;
use crate::state::State;
use crate::types::{AccountId, Balance, Error, Event, Kitty, KittyIndex, Payment, Seed};

verus! {

/// The identifier that a counter standing at `count` hands out next. It
/// refuses at the largest value, so that the counter can always move on by
/// one after handing out an identifier.
pub fn next_kitty_id(count: Option<u32>) -> (r: Result<KittyIndex, Error>)
    ensures
        r == match count {
            None => Ok::<KittyIndex, Error>(0),
            Some(id) => if id == u32::MAX {
                Err(Error::KittiesCountOverflow)
            } else {
                Ok(id)
            },
        },
{
    match count {
        Some(id) => {
            if id == u32::MAX {
                return Err(Error::KittiesCountOverflow);
            }
            Ok(id)
        },
        None => Ok(0),
    }
}

/// The genome that a mint uses: the one given, or else the bytes drawn for
/// the owner.
pub open spec fn given_or_drawn(
    dna: Option<[u8; 16]>,
    seed: Seq<u8>,
    owner: AccountId,
    extrinsic_index: Option<u32>,
) -> Seq<u8> {
    match dna {
        Some(given) => given@,
        None => random_bytes(seed, owner, extrinsic_index),
    }
}

/// The registry: every kitty by identifier, and the ownership index.
pub struct Pallet {
    kitties: Vec<Kitty>,
    owned: OwnedIndex,
}

impl View for Pallet {
    type V = State;

    closed spec fn view(&self) -> State {
        State {
            kitties: Seq::new(self.kitties@.len(), |i: int| self.kitties@[i]@),
            owned: self.owned@,
        }
    }
}

impl Pallet {
    /// The table and the index agree, as `State::wf` says.
    pub open spec fn wf(&self) -> bool {
        self@.wf()
    }

    /// A registry without kitties.
    pub fn new() -> (r: Self)
        ensures
            r.wf(),
            r@ == State::empty(),
    {
        let r = Pallet { kitties: Vec::new(), owned: OwnedIndex::new() };
        proof {
            assert(r@.kitties =~= State::empty().kitties);
            State::lemma_empty_wf();
        }
        r
    }

    /// Puts a table and an index together, whether or not they agree.
    pub(crate) fn assemble(kitties: Vec<Kitty>, owned: OwnedIndex) -> (r: Self)
        ensures
            r@ == (State { kitties: Seq::new(kitties@.len(), |i: int| kitties@[i]@), owned: owned@ }),
    {
        Pallet { kitties, owned }
    }

    /// The counter: how many kitties were minted, absent before the first.
    pub fn kitties_count(&self) -> (r: Option<u32>)
        requires
            self.wf(),
        ensures
            r == self@.count(),
    {
        let n = self.kitties.len();
        if n == 0 {
            None
        } else {
            Some(n as u32)
        }
    }

    /// The kitty minted under `kitty_id`, if there is one.
    pub fn kitties(&self, kitty_id: KittyIndex) -> (r: Option<Kitty>)
        ensures
            match r {
                Some(kitty) => self@.has(kitty_id) && kitty@ == self@.kitties[kitty_id as int],
                None => !self@.has(kitty_id),
            },
    {
        let at = kitty_id as usize;
        if at < self.kitties.len() {
            Some(self.kitties[at])
        } else {
            None
        }
    }

    /// The identifiers that `acct` owns, in index order.
    pub fn kitty_owned(&self, acct: AccountId) -> (r: Vec<KittyIndex>)
        ensures
            r@ == self@.owned[acct],
    {
        self.owned.get(&acct)
    }

    /// Enters the unpriced `kitty` under the next identifier.
    fn insert_kitty(&mut self, kitty: Kitty) -> (id: KittyIndex)
        requires
            old(self).wf(),
            old(self)@.kitties.len() < u32::MAX,
            kitty.price is None,
        ensures
            final(self).wf(),
            id == old(self)@.kitties.len(),
            final(self)@ == old(self)@.mint(kitty.owner, kitty.dna@),
    {
        let id = self.kitties.len() as u32;
        self.kitties.push(kitty);
        self.owned.push(&kitty.owner, id);
        proof {
            let next = old(self)@.mint(kitty.owner, kitty.dna@);
            assert(self@.kitties =~= next.kitties);
            old(self)@.lemma_mint_wf(kitty.owner, kitty.dna@);
        }
        id
    }

    /// Mints a kitty for `acct`, with the genome given or else one drawn
    /// from `seed`, `acct` and `extrinsic_index`. It is refused only when the
    /// counter cannot move on.
    pub fn mint(
        &mut self,
        acct: &AccountId,
        dna: Option<[u8; 16]>,
        seed: &Seed,
        extrinsic_index: Option<u32>,
    ) -> (r: Result<KittyIndex, Error>)
        requires
            old(self).wf(),
        ensures
            final(self).wf(),
            match r {
                Ok(id) => {
                    &&& old(self)@.kitties.len() < u32::MAX
                    &&& id == old(self)@.kitties.len()
                    &&& final(self)@ == old(self)@.mint(
                        *acct,
                        given_or_drawn(dna, seed@, *acct, extrinsic_index),
                    )
                },
                Err(e) => {
                    &&& e == Error::KittiesCountOverflow
                    &&& old(self)@.kitties.len() == u32::MAX
                    &&& final(self)@ == old(self)@
                },
            },
    {
        let kitty_id = match next_kitty_id(self.kitties_count()) {
            Ok(id) => id,
            Err(e) => {
                return Err(e);
            },
        };
        let dna = match dna {
            Some(given) => given,
            None => Self::random_value(seed, acct, extrinsic_index),
        };
        let kitty = Kitty { dna, owner: *acct, price: None };
        let id = self.insert_kitty(kitty);
        Ok(id)
    }

    /// Hands kitty `kitty_id` to `receiver`: it leaves its owner's list,
    /// the last entry of that list taking its place, goes to the end of the
    /// receiver's list, and is no longer for sale. Whoever calls has checked
    /// that the transfer is allowed. A kitty that its owner's list does not
    /// hold is refused before anything is changed; a well-formed registry
    /// has no such kitty.
    pub fn transfer_kitty_to(&mut self, kitty_id: KittyIndex, receiver: &AccountId) -> (r: Result<
        (),
        Error,
    >)
        ensures
            old(self).wf() ==> final(self).wf(),
            match r {
                Ok(()) => {
                    &&& old(self)@.relocate_refusal(kitty_id) is None
                    &&& final(self)@ == old(self)@.relocate(kitty_id, *receiver)
                },
                Err(e) => {
                    &&& old(self)@.relocate_refusal(kitty_id) == Some(e)
                    &&& final(self)@ == old(self)@
                },
            },
    {
        let at = kitty_id as usize;
        if at >= self.kitties.len() {
            return Err(Error::KittyNotExist);
        }
        let mut kitty = self.kitties[at];
        let sender = kitty.owner;
        kitty.owner = *receiver;
        let found_id = match self.owned.position(&sender, kitty_id) {
            Some(found_id) => found_id,
            None => {
                return Err(Error::NotOwner);
            },
        };
        self.owned.swap_remove(&sender, found_id);
        self.owned.push(receiver, kitty_id);
        kitty.price = None;
        self.kitties[at] = kitty;
        proof {
            let next = old(self)@.relocate(kitty_id, *receiver);
            assert(self@.kitties =~= next.kitties);
            if old(self).wf() {
                old(self)@.lemma_relocate_wf(kitty_id, *receiver);
            }
        }
        Ok(())
    }

    /// Sets the asking price of kitty `kitty_id`, which `acct` must own.
    /// `None` withdraws it from sale.
    pub fn set_price(&mut self, acct: &AccountId, kitty_id: KittyIndex, price: &Option<Balance>) -> (r:
        Result<(), Error>)
        requires
            old(self).wf(),
        ensures
            final(self).wf(),
            match r {
                Ok(()) => {
                    &&& old(self)@.price_refusal(*acct, kitty_id) is None
                    &&& final(self)@ == old(self)@.set_price(kitty_id, *price)
                },
                Err(e) => {
                    &&& old(self)@.price_refusal(*acct, kitty_id) == Some(e)
                    &&& final(self)@ == old(self)@
                },
            },
    {
        let at = kitty_id as usize;
        if at >= self.kitties.len() {
            return Err(Error::KittyNotExist);
        }
        let mut kitty = self.kitties[at];
        if *acct != kitty.owner {
            return Err(Error::NotOwner);
        }
        kitty.price = *price;
        self.kitties[at] = kitty;
        proof {
            let next = old(self)@.set_price(kitty_id, *price);
            assert(self@.kitties =~= next.kitties);
            old(self)@.lemma_set_price_wf(kitty_id, *price);
        }
        Ok(())
    }

    /// Breeds a kitty for `owner` from two different kitties that `owner`
    /// owns. The child's genome is `combine` of a selector drawn for the
    /// owner and the parents' genomes; the child is minted like any other.
    pub fn breed_kitty(
        &mut self,
        owner: &AccountId,
        kitty_id_1: KittyIndex,
        kitty_id_2: KittyIndex,
        seed: &Seed,
        extrinsic_index: Option<u32>,
    ) -> (r: Result<KittyIndex, Error>)
        requires
            old(self).wf(),
        ensures
            final(self).wf(),
            match r {
                Ok(id) => {
                    &&& old(self)@.breed_refusal(*owner, kitty_id_1, kitty_id_2) is None
                    &&& id == old(self)@.kitties.len()
                    &&& final(self)@ == old(self)@.mint(
                        *owner,
                        combine(
                            random_bytes(seed@, *owner, extrinsic_index),
                            old(self)@.kitties[kitty_id_1 as int].dna,
                            old(self)@.kitties[kitty_id_2 as int].dna,
                        ),
                    )
                },
                Err(e) => {
                    &&& old(self)@.breed_refusal(*owner, kitty_id_1, kitty_id_2) == Some(e)
                    &&& final(self)@ == old(self)@
                },
            },
    {
        if kitty_id_1 == kitty_id_2 {
            return Err(Error::SameParentIndex);
        }
        let kitty1 = match self.kitties(kitty_id_1) {
            Some(kitty) => kitty,
            None => {
                return Err(Error::InvalidKittyIndex);
            },
        };
        let kitty2 = match self.kitties(kitty_id_2) {
            Some(kitty) => kitty,
            None => {
                return Err(Error::InvalidKittyIndex);
            },
        };
        if *owner != kitty1.owner {
            return Err(Error::NotOwner);
        }
        if *owner != kitty2.owner {
            return Err(Error::NotOwner);
        }
        let kitty_id = match next_kitty_id(self.kitties_count()) {
            Ok(id) => id,
            Err(e) => {
                return Err(e);
            },
        };
        let selector = Self::random_value(seed, owner, extrinsic_index);
        let new_dna = combine_dna(&selector, &kitty1.dna, &kitty2.dna);
        let new_kitty = Kitty { dna: new_dna, owner: *owner, price: None };
        let id = self.insert_kitty(new_kitty);
        Ok(id)
    }

    /// `who` mints a kitty with a drawn genome.
    pub fn create(&mut self, who: AccountId, seed: &Seed, extrinsic_index: Option<u32>) -> (r: Result<
        Event,
        Error,
    >)
        requires
            old(self).wf(),
        ensures
            final(self).wf(),
            match r {
                Ok(event) => {
                    &&& old(self)@.kitties.len() < u32::MAX
                    &&& event == Event::KittyCreate(who, old(self)@.kitties.len() as KittyIndex)
                    &&& final(self)@ == old(self)@.mint(
                        who,
                        random_bytes(seed@, who, extrinsic_index),
                    )
                    &&& final(self)@.kitties.len() == old(self)@.kitties.len() + 1
                    &&& final(self)@.owned[who] == old(self)@.owned[who].push(
                        old(self)@.kitties.len() as KittyIndex,
                    )
                },
                Err(e) => {
                    &&& e == Error::KittiesCountOverflow
                    &&& old(self)@.kitties.len() == u32::MAX
                    &&& final(self)@ == old(self)@
                },
            },
    {
        let kitty_id = match self.mint(&who, None, seed, extrinsic_index) {
            Ok(id) => id,
            Err(e) => {
                return Err(e);
            },
        };
        Ok(Event::KittyCreate(who, kitty_id))
    }

    /// `who` hands its kitty `kitty_id` to `new_owner`.
    pub fn transfer(&mut self, who: AccountId, new_owner: AccountId, kitty_id: KittyIndex) -> (r:
        Result<Event, Error>)
        requires
            old(self).wf(),
        ensures
            final(self).wf(),
            match r {
                Ok(event) => {
                    &&& old(self)@.transfer_refusal(who, kitty_id) is None
                    &&& event == Event::KittyTransfer(who, new_owner, kitty_id)
                    &&& final(self)@ == old(self)@.relocate(kitty_id, new_owner)
                    &&& final(self)@.kitties[kitty_id as int].owner == new_owner
                    &&& final(self)@.kitties[kitty_id as int].price is None
                    &&& final(self)@.owned[new_owner].contains(kitty_id)
                    &&& who != new_owner ==> !final(self)@.owned[who].contains(kitty_id)
                },
                Err(e) => {
                    &&& old(self)@.transfer_refusal(who, kitty_id) == Some(e)
                    &&& final(self)@ == old(self)@
                },
            },
    {
        match self.kitties(kitty_id) {
            None => {
                return Err(Error::KittyNotExist);
            },
            Some(kitty) => {
                if who != kitty.owner {
                    return Err(Error::NotOwner);
                }
            },
        }
        proof {
            self@.lemma_relocate_allowed(kitty_id);
            lemma_relocate_moves_one(self@, kitty_id, new_owner);
        }
        match self.transfer_kitty_to(kitty_id, &new_owner) {
            Ok(()) => Ok(Event::KittyTransfer(who, new_owner, kitty_id)),
            Err(e) => Err(e),
        }
    }

    /// `who` breeds its kitties `kitty_id_1` and `kitty_id_2`.
    pub fn breed(
        &mut self,
        who: AccountId,
        kitty_id_1: KittyIndex,
        kitty_id_2: KittyIndex,
        seed: &Seed,
        extrinsic_index: Option<u32>,
    ) -> (r: Result<Event, Error>)
        requires
            old(self).wf(),
        ensures
            final(self).wf(),
            kitty_id_1 == kitty_id_2 ==> r == Err::<Event, Error>(Error::SameParentIndex),
            match r {
                Ok(event) => {
                    &&& old(self)@.breed_refusal(who, kitty_id_1, kitty_id_2) is None
                    &&& event == Event::KittyCreate(who, old(self)@.kitties.len() as KittyIndex)
                    &&& final(self)@ == old(self)@.mint(
                        who,
                        combine(
                            random_bytes(seed@, who, extrinsic_index),
                            old(self)@.kitties[kitty_id_1 as int].dna,
                            old(self)@.kitties[kitty_id_2 as int].dna,
                        ),
                    )
                },
                Err(e) => {
                    &&& old(self)@.breed_refusal(who, kitty_id_1, kitty_id_2) == Some(e)
                    &&& final(self)@ == old(self)@
                },
            },
    {
        let kitty_id = match self.breed_kitty(&who, kitty_id_1, kitty_id_2, seed, extrinsic_index) {
            Ok(id) => id,
            Err(e) => {
                return Err(e);
            },
        };
        Ok(Event::KittyCreate(who, kitty_id))
    }

    /// `seller` sets the asking price of its kitty `kitty_id`.
    pub fn sell(&mut self, seller: AccountId, kitty_id: KittyIndex, price: Option<Balance>) -> (r:
        Result<Event, Error>)
        requires
            old(self).wf(),
        ensures
            final(self).wf(),
            match r {
                Ok(event) => {
                    &&& old(self)@.price_refusal(seller, kitty_id) is None
                    &&& event == Event::SellKitty(seller, kitty_id, price)
                    &&& final(self)@ == old(self)@.set_price(kitty_id, price)
                },
                Err(e) => {
                    &&& old(self)@.price_refusal(seller, kitty_id) == Some(e)
                    &&& final(self)@ == old(self)@
                },
            },
    {
        match self.set_price(&seller, kitty_id, &price) {
            Ok(()) => Ok(Event::SellKitty(seller, kitty_id, price)),
            Err(e) => Err(e),
        }
    }

    /// `seller` withdraws its kitty `kitty_id` from sale.
    #[allow(non_snake_case)]
    pub fn CancelSell(&mut self, seller: AccountId, kitty_id: KittyIndex) -> (r: Result<
        Event,
        Error,
    >)
        requires
            old(self).wf(),
        ensures
            final(self).wf(),
            match r {
                Ok(event) => {
                    &&& old(self)@.price_refusal(seller, kitty_id) is None
                    &&& event == Event::CancelSellKitty(seller, kitty_id)
                    &&& final(self)@ == old(self)@.set_price(kitty_id, None)
                },
                Err(e) => {
                    &&& old(self)@.price_refusal(seller, kitty_id) == Some(e)
                    &&& final(self)@ == old(self)@
                },
            },
    {
        let price = None;
        match self.set_price(&seller, kitty_id, &price) {
            Ok(()) => Ok(Event::CancelSellKitty(seller, kitty_id)),
            Err(e) => Err(e),
        }
    }

    /// `buyer`, whose free balance the host read as `free_balance`, bids
    /// `bid_price` for kitty `kitty_id`. An accepted bid changes nothing yet:
    /// it says which payment the host has to make. Once the host has moved
    /// it, `settle` hands the kitty over; if the host cannot move it, the
    /// purchase is dropped and the registry is as it was.
    pub fn buy(
        &self,
        buyer: AccountId,
        kitty_id: KittyIndex,
        bid_price: Balance,
        free_balance: Balance,
    ) -> (r: Result<Payment, Error>)
        ensures
            match r {
                Ok(payment) => {
                    &&& self@.buy_refusal(buyer, kitty_id, bid_price, free_balance) is None
                    &&& payment == self@.payment(buyer, kitty_id, bid_price)
                },
                Err(e) => self@.buy_refusal(buyer, kitty_id, bid_price, free_balance) == Some(e),
            },
            r is Err <==> {
                ||| !self@.has(kitty_id)
                ||| self@.kitties[kitty_id as int].owner == buyer
                ||| self@.kitties[kitty_id as int].price is None
                ||| bid_price < self@.kitties[kitty_id as int].price->0
                ||| free_balance < bid_price
            },
    {
        let kitty = match self.kitties(kitty_id) {
            Some(kitty) => kitty,
            None => {
                return Err(Error::KittyNotExist);
            },
        };
        if buyer == kitty.owner {
            return Err(Error::CanNotBuyTheKittyYouOwned);
        }
        match kitty.price {
            Some(sell_price) => {
                if bid_price < sell_price {
                    return Err(Error::BidPriceIsTooLow);
                }
            },
            None => {
                return Err(Error::TheKittyIsNotOnSell);
            },
        }
        if free_balance < bid_price {
            return Err(Error::InsufficientBalance);
        }
        let seller = kitty.owner;
        Ok(Payment { buyer, seller, kitty_id, value: bid_price })
    }

    /// Completes a purchase whose payment the host has moved: the kitty goes
    /// to the buyer and is no longer for sale.
    pub fn settle(&mut self, payment: &Payment) -> (r: Result<Event, Error>)
        requires
            old(self).wf(),
        ensures
            final(self).wf(),
            match r {
                Ok(event) => {
                    &&& old(self)@.has(payment.kitty_id)
                    &&& event == Event::BuyKitty(
                        payment.buyer,
                        payment.seller,
                        payment.kitty_id,
                        payment.value,
                    )
                    &&& final(self)@ == old(self)@.relocate(payment.kitty_id, payment.buyer)
                    &&& final(self)@.kitties[payment.kitty_id as int].owner == payment.buyer
                    &&& forall|k: int|
                        0 <= k < old(self)@.kitties.len() && k != payment.kitty_id
                            ==> #[trigger] final(self)@.kitties[k] == old(self)@.kitties[k]
                    &&& forall|a: AccountId, x: KittyIndex|
                        x != payment.kitty_id ==> (#[trigger] final(self)@.owned[a].contains(x)
                            <==> old(self)@.owned[a].contains(x))
                    &&& forall|a: AccountId|
                        #[trigger] final(self)@.owned[a].contains(payment.kitty_id) <==> a
                            == payment.buyer
                },
                Err(e) => {
                    &&& e == Error::KittyNotExist
                    &&& !old(self)@.has(payment.kitty_id)
                    &&& final(self)@ == old(self)@
                },
            },
    {
        proof {
            if self@.has(payment.kitty_id) {
                self@.lemma_relocate_allowed(payment.kitty_id);
                lemma_relocate_moves_one(self@, payment.kitty_id, payment.buyer);
            }
        }
        match self.transfer_kitty_to(payment.kitty_id, &payment.buyer) {
            Ok(()) => Ok(
                Event::BuyKitty(payment.buyer, payment.seller, payment.kitty_id, payment.value),
            ),
            Err(e) => Err(e),
        }
    }
}

} // verus!
