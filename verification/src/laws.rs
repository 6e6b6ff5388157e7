//! What holds of every transition, stated over the registry's model.

use vstd::prelude::*;
use crate::lists::{first_index, lemma_first_index, lemma_swap_remove};
use crate::state::State;
use crate::types::{AccountId, Balance, Error, KittyIndex, KittyView};

verus! {

/// A mint moves the counter on by exactly one and appends exactly the new
/// identifier to the owner's list; every other list and every earlier kitty
/// stays as it was.
pub proof fn lemma_mint_adds_one(s: State, owner: AccountId, dna: Seq<u8>)
    requires
        s.wf(),
        s.kitties.len() < u32::MAX,
    ensures
        s.mint(owner, dna).kitties.len() == s.kitties.len() + 1,
        s.mint(owner, dna).kitties.last() == (KittyView { dna, owner, price: None }),
        s.mint(owner, dna).owned[owner] == s.owned[owner].push(s.kitties.len() as KittyIndex),
        forall|a: AccountId| a != owner ==> #[trigger] s.mint(owner, dna).owned[a] == s.owned[a],
        forall|k: int| 0 <= k < s.kitties.len() ==> #[trigger] s.mint(owner, dna).kitties[k]
            == s.kitties[k],
        !s.has(s.kitties.len() as KittyIndex),
        s.mint(owner, dna).has(s.kitties.len() as KittyIndex),
        s.mint(owner, dna).count() == Some((s.kitties.len() + 1) as u32),
{
}

/// In a well-formed registry a kitty stands in the list of its owner, once,
/// and in no other list.
pub proof fn lemma_listed_by_owner_alone(s: State, a: AccountId, id: KittyIndex)
    requires
        s.wf(),
        s.has(id),
    ensures
        s.owned[a].contains(id) <==> s.kitties[id as int].owner == a,
        forall|i: int, j: int|
            0 <= i < s.owned[a].len() && 0 <= j < s.owned[a].len() && s.owned[a][i] == id
                && s.owned[a][j] == id ==> i == j,
{
    if s.owned[a].contains(id) {
        let at = choose|at: int| 0 <= at < s.owned[a].len() && s.owned[a][at] == id;
        assert(s.kitties[s.owned[a][at] as int].owner == a);
    }
    if s.kitties[id as int].owner == a {
        assert(s.owned[s.kitties[id as int].owner].contains(id));
    }
    assert(s.owned[a].no_duplicates());
}

/// No transition takes a kitty out or touches a genome: after a mint, a
/// relocation or a pricing, every kitty that was there is still there, with
/// the genome it was minted with.
pub proof fn lemma_kitties_stay(
    s: State,
    owner: AccountId,
    dna: Seq<u8>,
    id: KittyIndex,
    receiver: AccountId,
    price: Option<Balance>,
    k: KittyIndex,
)
    requires
        s.wf(),
        s.has(k),
    ensures
        s.mint(owner, dna).has(k),
        s.mint(owner, dna).kitties[k as int] == s.kitties[k as int],
        s.has(id) ==> s.relocate(id, receiver).has(k) && s.relocate(id, receiver).kitties[k as int].dna
            == s.kitties[k as int].dna,
        s.has(id) ==> s.set_price(id, price).has(k) && s.set_price(id, price).kitties[k as int].dna
            == s.kitties[k as int].dna && s.set_price(id, price).kitties[k as int].owner
            == s.kitties[k as int].owner,
        s.has(id) ==> s.set_price(id, price).kitties[id as int].price == price,
        s.has(id) ==> s.set_price(id, price).owned == s.owned,
{
}

/// A relocation moves exactly one kitty: kitty `id` gets the receiver as
/// owner and no price, and stands in the receiver's list; no other kitty
/// changes, and no other identifier enters or leaves any list.
pub proof fn lemma_relocate_moves_one(s: State, id: KittyIndex, receiver: AccountId)
    requires
        s.wf(),
        s.has(id),
    ensures
        s.relocate(id, receiver).kitties.len() == s.kitties.len(),
        s.relocate(id, receiver).kitties[id as int] == (KittyView {
            owner: receiver,
            price: None,
            ..s.kitties[id as int]
        }),
        forall|k: int|
            0 <= k < s.kitties.len() && k != id ==> #[trigger] s.relocate(id, receiver).kitties[k]
                == s.kitties[k],
        forall|a: AccountId, x: KittyIndex|
            x != id ==> (#[trigger] s.relocate(id, receiver).owned[a].contains(x)
                <==> s.owned[a].contains(x)),
        forall|a: AccountId|
            #[trigger] s.relocate(id, receiver).owned[a].contains(id) <==> a == receiver,
        forall|a: AccountId|
            a != receiver && a != s.kitties[id as int].owner ==> #[trigger] s.relocate(
                id,
                receiver,
            ).owned[a] == s.owned[a],
{
    let next = s.relocate(id, receiver);
    let without = s.owned_without(id);
    s.lemma_owned_without(id);
    assert forall|a: AccountId, x: KittyIndex| x != id implies (#[trigger] next.owned[a].contains(x)
        <==> s.owned[a].contains(x)) by {
        lemma_push_contains(without[a], id, x);
    }
    assert forall|a: AccountId| #[trigger] next.owned[a].contains(id) <==> a == receiver by {
        lemma_push_contains(without[a], id, id);
    }
}

/// What a list holds after one more entry.
pub proof fn lemma_push_contains(list: Seq<KittyIndex>, id: KittyIndex, x: KittyIndex)
    ensures
        list.push(id).contains(x) <==> (list.contains(x) || x == id),
{
    if list.contains(x) {
        let at = choose|at: int| 0 <= at < list.len() && list[at] == x;
        assert(list.push(id)[at] == x);
    }
    if x == id {
        assert(list.push(id)[list.len() as int] == x);
    }
    if list.push(id).contains(x) {
        let at = choose|at: int| 0 <= at < list.push(id).len() && list.push(id)[at] == x;
        if at < list.len() {
            assert(list[at] == x);
        }
    }
}

/// A transfer that is allowed, to another account: the kitty leaves the
/// sender's list, which shrinks by one, goes to the end of the receiver's
/// list, has the receiver as owner, and is no longer for sale.
pub proof fn lemma_transfer(s: State, who: AccountId, new_owner: AccountId, id: KittyIndex)
    requires
        s.wf(),
        s.transfer_refusal(who, id) is None,
        who != new_owner,
    ensures
        !s.relocate(id, new_owner).owned[who].contains(id),
        s.relocate(id, new_owner).owned[who].len() == s.owned[who].len() - 1,
        s.relocate(id, new_owner).owned[new_owner] == s.owned[new_owner].push(id),
        s.relocate(id, new_owner).owned[new_owner].contains(id),
        s.relocate(id, new_owner).kitties[id as int].owner == new_owner,
        s.relocate(id, new_owner).kitties[id as int].price is None,
        s.relocate(id, new_owner).kitties[id as int].dna == s.kitties[id as int].dna,
{
    lemma_relocate_moves_one(s, id, new_owner);
    let list = s.owned[who];
    lemma_first_index(list, id);
    lemma_swap_remove(list, first_index(list, id));
}

/// A transfer to the owner itself keeps the kitty with its owner: it moves
/// to the end of the owner's list and is no longer for sale.
pub proof fn lemma_transfer_to_self(s: State, who: AccountId, id: KittyIndex)
    requires
        s.wf(),
        s.transfer_refusal(who, id) is None,
    ensures
        s.relocate(id, who).owned[who].last() == id,
        s.relocate(id, who).owned[who].len() == s.owned[who].len(),
        s.relocate(id, who).kitties[id as int].owner == who,
        s.relocate(id, who).kitties[id as int].price is None,
{
    let list = s.owned[who];
    lemma_first_index(list, id);
    lemma_swap_remove(list, first_index(list, id));
}

/// Breeding a kitty with itself is refused as `SameParentIndex`, whatever
/// else holds.
pub proof fn lemma_breed_same_parent(s: State, owner: AccountId, id: KittyIndex)
    ensures
        s.breed_refusal(owner, id, id) == Some(Error::SameParentIndex),
{
}

/// A bid is refused whenever the kitty does not exist, the buyer owns it,
/// it has no asking price, the bid is below the asking price, or the
/// buyer's free balance is below the bid; and only then. A refused bid
/// names no payment.
pub proof fn lemma_buy_refused(
    s: State,
    buyer: AccountId,
    id: KittyIndex,
    bid: Balance,
    free_balance: Balance,
)
    ensures
        s.buy_refusal(buyer, id, bid, free_balance) is Some <==> {
            ||| !s.has(id)
            ||| s.kitties[id as int].owner == buyer
            ||| s.kitties[id as int].price is None
            ||| bid < s.kitties[id as int].price->0
            ||| free_balance < bid
        },
{
}

/// An accepted bid asks for exactly the bid, from the buyer to the owner,
/// who is another account; settling it cannot fail, and moves exactly the
/// kitty that was bid for: out of the seller's list, into the buyer's.
pub proof fn lemma_purchase(
    s: State,
    buyer: AccountId,
    id: KittyIndex,
    bid: Balance,
    free_balance: Balance,
)
    requires
        s.wf(),
        s.buy_refusal(buyer, id, bid, free_balance) is None,
    ensures
        s.payment(buyer, id, bid).value == bid,
        s.payment(buyer, id, bid).buyer == buyer,
        s.payment(buyer, id, bid).seller == s.kitties[id as int].owner,
        s.payment(buyer, id, bid).seller != buyer,
        s.payment(buyer, id, bid).kitty_id == id,
        bid >= s.kitties[id as int].price->0,
        free_balance >= bid,
        s.has(id),
        s.relocate_refusal(id) is None,
        s.relocate(id, buyer).wf(),
        s.relocate(id, buyer).kitties[id as int].owner == buyer,
        s.relocate(id, buyer).kitties[id as int].price is None,
        s.relocate(id, buyer).owned[buyer] == s.owned[buyer].push(id),
        !s.relocate(id, buyer).owned[s.kitties[id as int].owner].contains(id),
        s.relocate(id, buyer).owned[s.kitties[id as int].owner].len() == s.owned[s.kitties[id as int].owner].len()
            - 1,
        forall|k: int|
            0 <= k < s.kitties.len() && k != id ==> #[trigger] s.relocate(id, buyer).kitties[k]
                == s.kitties[k],
        forall|a: AccountId, x: KittyIndex|
            x != id ==> (#[trigger] s.relocate(id, buyer).owned[a].contains(x)
                <==> s.owned[a].contains(x)),
{
    lemma_relocate_moves_one(s, id, buyer);
    lemma_transfer(s, s.kitties[id as int].owner, buyer, id);
    s.lemma_relocate_allowed(id);
    s.lemma_relocate_wf(id, buyer);
}

} // verus!
