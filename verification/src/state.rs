//! The registry as a mathematical value: the table of kitties, the ownership
//! index, and the transitions between such values.

use vstd::prelude::*;
use crate::lists::{first_index, lemma_first_index, lemma_swap_remove, swap_remove};
use crate::types::{AccountId, Balance, Error, KittyIndex, KittyView, Payment};

verus! {

/// The whole registry. The counter is the length of `kitties`: a kitty's
/// identifier is its position there, and no kitty is ever taken out.
pub struct State {
    /// Every kitty minted so far, by identifier.
    pub kitties: Seq<KittyView>,
    /// For every account, the identifiers it owns, in index order.
    pub owned: Map<AccountId, Seq<KittyIndex>>,
}

impl State {
    /// The registry before anything was minted.
    pub open spec fn empty() -> State {
        State {
            kitties: Seq::empty(),
            owned: Map::total(|a: AccountId| Seq::<KittyIndex>::empty()),
        }
    }

    /// The counter as the host stores it: absent until the first kitty.
    pub open spec fn count(self) -> Option<u32> {
        if self.kitties.len() == 0 {
            None
        } else {
            Some(self.kitties.len() as u32)
        }
    }

    /// Whether a kitty was minted under `id`.
    pub open spec fn has(self, id: KittyIndex) -> bool {
        (id as int) < self.kitties.len()
    }

    /// The table and the index agree: every listed identifier names a kitty
    /// whose owner is the account that lists it, no list repeats an
    /// identifier, and every kitty stands in its owner's list. The counter
    /// fits the identifier type.
    pub open spec fn wf(self) -> bool {
        &&& self.kitties.len() <= u32::MAX
        &&& forall|a: AccountId| #[trigger] self.owned.contains_key(a)
        &&& forall|a: AccountId, i: int|
            0 <= i < self.owned[a].len() ==> {
                &&& self.has(#[trigger] self.owned[a][i])
                &&& self.kitties[self.owned[a][i] as int].owner == a
            }
        &&& forall|a: AccountId| #![trigger self.owned[a]] self.owned[a].no_duplicates()
        &&& forall|id: int|
            0 <= id < self.kitties.len() ==> self.owned[(#[trigger] self.kitties[id]).owner].contains(
                id as KittyIndex,
            )
    }

    /// The registry after minting a kitty with genome `dna` for `owner`: the
    /// kitty takes the next identifier, unpriced, and the identifier goes to
    /// the end of the owner's list.
    pub open spec fn mint(self, owner: AccountId, dna: Seq<u8>) -> State {
        State {
            kitties: self.kitties.push(KittyView { dna, owner, price: None }),
            owned: self.owned.insert(
                owner,
                self.owned[owner].push(self.kitties.len() as KittyIndex),
            ),
        }
    }

    /// The index after `id` left its owner's list, the list's last entry
    /// taking its place.
    pub open spec fn owned_without(self, id: KittyIndex) -> Map<AccountId, Seq<KittyIndex>> {
        let sender = self.kitties[id as int].owner;
        let list = self.owned[sender];
        self.owned.insert(sender, swap_remove(list, first_index(list, id)))
    }

    /// The registry after kitty `id` went to `receiver`: it leaves its
    /// owner's list, goes to the end of the receiver's, and loses its price.
    pub open spec fn relocate(self, id: KittyIndex, receiver: AccountId) -> State {
        let without = self.owned_without(id);
        State {
            kitties: self.kitties.update(
                id as int,
                KittyView { owner: receiver, price: None, ..self.kitties[id as int] },
            ),
            owned: without.insert(receiver, without[receiver].push(id)),
        }
    }

    /// The registry after kitty `id` got the asking price `price`.
    pub open spec fn set_price(self, id: KittyIndex, price: Option<Balance>) -> State {
        State {
            kitties: self.kitties.update(id as int, KittyView { price, ..self.kitties[id as int] }),
            owned: self.owned,
        }
    }

    /// Why kitty `id` cannot be relocated, if it cannot: it must exist, and
    /// its owner's list must hold it. The second never fails in a
    /// well-formed registry.
    pub open spec fn relocate_refusal(self, id: KittyIndex) -> Option<Error> {
        if !self.has(id) {
            Some(Error::KittyNotExist)
        } else if !self.owned[self.kitties[id as int].owner].contains(id) {
            Some(Error::NotOwner)
        } else {
            None
        }
    }

    /// A well-formed registry can relocate every kitty it has.
    pub proof fn lemma_relocate_allowed(self, id: KittyIndex)
        requires
            self.wf(),
            self.has(id),
        ensures
            self.relocate_refusal(id) is None,
    {
        assert(self.owned[self.kitties[id as int].owner].contains(id));
    }

    /// Why `acct` may not price kitty `id`, if it may not: the kitty must
    /// exist, and `acct` must own it.
    pub open spec fn price_refusal(self, acct: AccountId, id: KittyIndex) -> Option<Error> {
        if !self.has(id) {
            Some(Error::KittyNotExist)
        } else if self.kitties[id as int].owner != acct {
            Some(Error::NotOwner)
        } else {
            None
        }
    }

    /// Why `who` may not hand kitty `id` on, if it may not: the kitty must
    /// exist, and `who` must own it.
    pub open spec fn transfer_refusal(self, who: AccountId, id: KittyIndex) -> Option<Error> {
        self.price_refusal(who, id)
    }

    /// Why `owner` may not breed `id_1` with `id_2`, if it may not. The
    /// checks are made in this order: the parents differ, both exist,
    /// `owner` owns both, and the counter can move on.
    pub open spec fn breed_refusal(self, owner: AccountId, id_1: KittyIndex, id_2: KittyIndex) -> Option<
        Error,
    > {
        if id_1 == id_2 {
            Some(Error::SameParentIndex)
        } else if !self.has(id_1) || !self.has(id_2) {
            Some(Error::InvalidKittyIndex)
        } else if self.kitties[id_1 as int].owner != owner || self.kitties[id_2 as int].owner
            != owner {
            Some(Error::NotOwner)
        } else if self.kitties.len() == u32::MAX {
            Some(Error::KittiesCountOverflow)
        } else {
            None
        }
    }

    /// Why `buyer`, whose free balance is `free_balance`, may not buy kitty
    /// `id` for `bid`, if it may not. The checks are made in this order: the
    /// kitty exists, the buyer is not its owner, it has an asking price, the
    /// bid reaches that price, and the buyer's free balance reaches the bid.
    pub open spec fn buy_refusal(
        self,
        buyer: AccountId,
        id: KittyIndex,
        bid: Balance,
        free_balance: Balance,
    ) -> Option<Error> {
        if !self.has(id) {
            Some(Error::KittyNotExist)
        } else if self.kitties[id as int].owner == buyer {
            Some(Error::CanNotBuyTheKittyYouOwned)
        } else if self.kitties[id as int].price is None {
            Some(Error::TheKittyIsNotOnSell)
        } else if bid < self.kitties[id as int].price->0 {
            Some(Error::BidPriceIsTooLow)
        } else if free_balance < bid {
            Some(Error::InsufficientBalance)
        } else {
            None
        }
    }

    /// The payment that an accepted bid asks of the host: the whole bid,
    /// from the buyer to the kitty's owner.
    pub open spec fn payment(self, buyer: AccountId, id: KittyIndex, bid: Balance) -> Payment {
        Payment { buyer, seller: self.kitties[id as int].owner, kitty_id: id, value: bid }
    }

    /// The empty registry is well formed.
    pub proof fn lemma_empty_wf()
        ensures
            Self::empty().wf(),
    {
    }

    /// Minting keeps the registry well formed while the counter has room.
    pub proof fn lemma_mint_wf(self, owner: AccountId, dna: Seq<u8>)
        requires
            self.wf(),
            self.kitties.len() < u32::MAX,
        ensures
            self.mint(owner, dna).wf(),
    {
        let next = self.mint(owner, dna);
        let id = self.kitties.len() as KittyIndex;
        let list = self.owned[owner];
        assert forall|a: AccountId| #![trigger next.owned[a]] next.owned[a].no_duplicates() by {
            assert forall|i: int| 0 <= i < list.len() implies list[i] != id by {
                assert(self.has(self.owned[owner][i]));
            }
        }
        assert forall|k: int| 0 <= k < next.kitties.len() implies next.owned[(
        #[trigger] next.kitties[k]).owner].contains(k as KittyIndex) by {
            if k == id {
                assert(next.owned[owner][list.len() as int] == id);
            } else {
                let o = self.kitties[k].owner;
                let at = choose|at: int|
                    0 <= at < self.owned[o].len() && self.owned[o][at] == k as KittyIndex;
                assert(next.owned[o][at] == k as KittyIndex);
            }
        }
    }

    /// What `owned_without` does to each list: the owner's list loses `id`
    /// and keeps its other entries, and every other list stays as it was.
    pub proof fn lemma_owned_without(self, id: KittyIndex)
        requires
            self.wf(),
            self.has(id),
        ensures
            forall|a: AccountId| #[trigger] self.owned_without(id).contains_key(a),
            forall|a: AccountId|
                a != self.kitties[id as int].owner ==> #[trigger] self.owned_without(id)[a]
                    == self.owned[a],
            forall|a: AccountId| #![trigger self.owned_without(id)[a]]
                self.owned_without(id)[a].no_duplicates(),
            forall|a: AccountId, x: KittyIndex|
                #[trigger] self.owned_without(id)[a].contains(x) <==> (self.owned[a].contains(x) && x
                    != id),
    {
        let sender = self.kitties[id as int].owner;
        let list = self.owned[sender];
        let without = self.owned_without(id);
        lemma_first_index(list, id);
        lemma_swap_remove(list, first_index(list, id));
        assert forall|a: AccountId, x: KittyIndex|
            #[trigger] without[a].contains(x) <==> (self.owned[a].contains(x) && x != id) by {
            if a != sender && self.owned[a].contains(x) {
                let at = choose|at: int| 0 <= at < self.owned[a].len() && self.owned[a][at] == x;
                assert(self.kitties[self.owned[a][at] as int].owner == a);
            }
        }
    }

    /// Relocating an existing kitty keeps the registry well formed.
    pub proof fn lemma_relocate_wf(self, id: KittyIndex, receiver: AccountId)
        requires
            self.wf(),
            self.has(id),
        ensures
            self.relocate(id, receiver).wf(),
    {
        let without = self.owned_without(id);
        let next = self.relocate(id, receiver);
        self.lemma_owned_without(id);
        assert forall|a: AccountId, i: int| 0 <= i < next.owned[a].len() implies {
            &&& next.has(#[trigger] next.owned[a][i])
            &&& next.kitties[next.owned[a][i] as int].owner == a
        } by {
            if i < without[a].len() {
                let x = without[a][i];
                assert(without[a].contains(x));
                let at = choose|at: int| 0 <= at < self.owned[a].len() && self.owned[a][at] == x;
                assert(self.has(self.owned[a][at]));
            }
        }
        assert forall|a: AccountId| #![trigger next.owned[a]] next.owned[a].no_duplicates() by {
            assert(!without[a].contains(id));
        }
        assert forall|k: int| 0 <= k < next.kitties.len() implies next.owned[(
        #[trigger] next.kitties[k]).owner].contains(k as KittyIndex) by {
            if k == id {
                assert(next.owned[receiver][without[receiver].len() as int] == id);
            } else {
                let o = self.kitties[k].owner;
                assert(without[o].contains(k as KittyIndex));
                let at = choose|at: int| 0 <= at < without[o].len() && without[o][at] == k as KittyIndex;
                assert(next.owned[o][at] == k as KittyIndex);
            }
        }
    }

    /// Setting a price keeps the registry well formed.
    pub proof fn lemma_set_price_wf(self, id: KittyIndex, price: Option<Balance>)
        requires
            self.wf(),
            self.has(id),
        ensures
            self.set_price(id, price).wf(),
    {
        let next = self.set_price(id, price);
        assert forall|a: AccountId, i: int| 0 <= i < next.owned[a].len() implies {
            &&& next.has(#[trigger] next.owned[a][i])
            &&& next.kitties[next.owned[a][i] as int].owner == a
        } by {
            assert(self.has(self.owned[a][i]));
        }
        assert forall|k: int| 0 <= k < next.kitties.len() implies next.owned[(
        #[trigger] next.kitties[k]).owner].contains(k as KittyIndex) by {
            assert(self.owned[self.kitties[k].owner].contains(k as KittyIndex));
        }
    }
}

} // verus!
