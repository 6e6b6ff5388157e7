//! Taking a registry back from what the host stored of it: the table of
//! kitties and, account by account, the ownership lists. Nothing that the
//! host hands in is believed: a registry comes back only if the parts agree.

use vstd::prelude::*;
use crate::index::OwnedIndex;
use crate::pallet::Pallet;
use crate::state::State;
use crate::types::{AccountId, Kitty, KittyIndex};

verus! {

/// The index that gives each account named in `entries` the list that
/// stands with it, and every other account the empty list.
pub open spec fn index_of_entries(entries: Seq<(AccountId, Vec<KittyIndex>)>) -> Map<
    AccountId,
    Seq<KittyIndex>,
>
    decreases entries.len(),
{
    if entries.len() == 0 {
        Map::total(|a: AccountId| Seq::<KittyIndex>::empty())
    } else {
        index_of_entries(entries.drop_last()).insert(entries.last().0, entries.last().1@)
    }
}

/// The accounts of `entries` strictly increase, so none is named twice.
pub open spec fn accounts_increase(entries: Seq<(AccountId, Vec<KittyIndex>)>) -> bool {
    forall|i: int, j: int| 0 <= i < j < entries.len() ==> entries[i].0 < entries[j].0
}

/// The registry that the parts describe.
pub open spec fn restored(kitties: Seq<Kitty>, entries: Seq<(AccountId, Vec<KittyIndex>)>) -> State {
    State {
        kitties: Seq::new(kitties.len(), |i: int| kitties[i]@),
        owned: index_of_entries(entries),
    }
}

/// Whether the parts describe a registry: no account is named twice, and
/// the table and the lists agree.
pub open spec fn parts_agree(kitties: Seq<Kitty>, entries: Seq<(AccountId, Vec<KittyIndex>)>) -> bool {
    accounts_increase(entries) && restored(kitties, entries).wf()
}

/// Every account has a list in `index_of_entries`; the list of an account
/// that no entry names is empty, and any other list is that of the last
/// entry which names the account.
proof fn lemma_index_of_entries(entries: Seq<(AccountId, Vec<KittyIndex>)>, a: AccountId)
    ensures
        index_of_entries(entries).contains_key(a),
        (forall|k: int| 0 <= k < entries.len() ==> entries[k].0 != a) ==> index_of_entries(
            entries,
        )[a] == Seq::<KittyIndex>::empty(),
        (exists|k: int| 0 <= k < entries.len() && entries[k].0 == a) ==> exists|k: int|
            0 <= k < entries.len() && entries[k].0 == a && index_of_entries(entries)[a]
                == entries[k].1@ && forall|l: int| k < l < entries.len() ==> entries[l].0 != a,
    decreases entries.len(),
{
    if entries.len() > 0 {
        let before = entries.drop_last();
        let last = entries.len() - 1;
        lemma_index_of_entries(before, a);
        if entries[last].0 == a {
        } else if exists|k: int| 0 <= k < entries.len() && entries[k].0 == a {
            let k0 = choose|k: int| 0 <= k < entries.len() && entries[k].0 == a;
            assert(before[k0].0 == a);
            let k = choose|k: int|
                0 <= k < before.len() && before[k].0 == a && index_of_entries(before)[a]
                    == before[k].1@ && forall|l: int| k < l < before.len() ==> before[l].0 != a;
            assert(entries[k].0 == a && index_of_entries(entries)[a] == entries[k].1@);
            assert forall|l: int| k < l < entries.len() implies entries[l].0 != a by {
                if l < last {
                    assert(before[l].0 != a);
                }
            }
        } else {
            assert forall|k: int| 0 <= k < before.len() implies before[k].0 != a by {
                assert(entries[k].0 != a);
            }
        }
    }
}

/// Where no account is named twice, each entry's list is its account's list.
proof fn lemma_entry_is_listed(entries: Seq<(AccountId, Vec<KittyIndex>)>, k: int)
    requires
        accounts_increase(entries),
        0 <= k < entries.len(),
    ensures
        index_of_entries(entries)[entries[k].0] == entries[k].1@,
{
    lemma_index_of_entries(entries, entries[k].0);
}

/// A list that is not empty comes from an entry.
proof fn lemma_list_has_entry(entries: Seq<(AccountId, Vec<KittyIndex>)>, a: AccountId) -> (k: int)
    requires
        index_of_entries(entries)[a].len() > 0,
    ensures
        0 <= k < entries.len(),
        entries[k].0 == a,
        index_of_entries(entries)[a] == entries[k].1@,
{
    lemma_index_of_entries(entries, a);
    choose|k: int|
        0 <= k < entries.len() && entries[k].0 == a && index_of_entries(entries)[a]
            == entries[k].1@
}

/// Every identifier in the lists of the first `upto` entries names a kitty
/// that the entry's account owns, and is marked.
spec fn lists_checked(
    kitties: Seq<Kitty>,
    entries: Seq<(AccountId, Vec<KittyIndex>)>,
    seen: Seq<bool>,
    upto: int,
) -> bool {
    forall|k: int, j: int|
        0 <= k < upto && 0 <= j < entries[k].1@.len() ==> {
            &&& (#[trigger] entries[k].1@[j]) < kitties.len()
            &&& kitties[entries[k].1@[j] as int].owner == entries[k].0
            &&& seen[entries[k].1@[j] as int]
        }
}

/// Identifier `id` stands in the list of one of the first `upto` entries.
spec fn listed(entries: Seq<(AccountId, Vec<KittyIndex>)>, upto: int, id: KittyIndex) -> bool {
    exists|k: int, j: int|
        0 <= k < upto && 0 <= j < entries[k].1@.len() && #[trigger] entries[k].1@[j] == id
}

/// Identifier `id` stands among the first `upto` entries of `list`.
spec fn among(list: Seq<KittyIndex>, upto: int, id: KittyIndex) -> bool {
    exists|j: int| 0 <= j < upto && #[trigger] list[j] == id
}

impl Pallet {
    /// Takes a registry back from its parts: the kitties by identifier, and
    /// for each account that owns any, its list. The accounts must come in
    /// increasing order. The parts are checked against each other, and a
    /// registry is returned exactly if they agree.
    pub fn restore(kitties: Vec<Kitty>, owned: Vec<(AccountId, Vec<KittyIndex>)>) -> (r: Option<
        Pallet,
    >)
        ensures
            match r {
                Some(pallet) => {
                    &&& parts_agree(kitties@, owned@)
                    &&& pallet.wf()
                    &&& pallet@ == restored(kitties@, owned@)
                },
                None => !parts_agree(kitties@, owned@),
            },
    {
        let n = kitties.len();
        if n > u32::MAX as usize {
            return None;
        }
        let mut seen: Vec<bool> = Vec::new();
        while seen.len() < n
            invariant
                seen.len() <= n,
                forall|i: int| 0 <= i < seen.len() ==> !seen@[i],
            decreases n - seen.len(),
        {
            seen.push(false);
        }
        let mut index = OwnedIndex::new();
        let mut e: usize = 0;
        while e < owned.len()
            invariant
                n == kitties.len(),
                n <= u32::MAX,
                seen.len() == n,
                e <= owned.len(),
                forall|i: int, j: int| 0 <= i < j < e ==> owned@[i].0 < owned@[j].0,
                index@ == index_of_entries(owned@.subrange(0, e as int)),
                lists_checked(kitties@, owned@, seen@, e as int),
                forall|k: int| 0 <= k < e ==> (#[trigger] owned@[k]).1@.no_duplicates(),
                forall|id: KittyIndex|
                    id < n && seen@[id as int] ==> #[trigger] listed(owned@, e as int, id),
            decreases owned.len() - e,
        {
            let acct = owned[e].0;
            if e > 0 && owned[e - 1].0 >= acct {
                return None;
            }
            let list = &owned[e].1;
            let mut j: usize = 0;
            while j < list.len()
                invariant
                    n == kitties.len(),
                    seen.len() == n,
                    e < owned.len(),
                    acct == owned@[e as int].0,
                    *list == owned@[e as int].1,
                    j <= list.len(),
                    forall|i: int| 0 <= i < e ==> owned@[i].0 < acct,
                    lists_checked(kitties@, owned@, seen@, e as int),
                    forall|i: int|
                        0 <= i < j ==> {
                            &&& (#[trigger] list@[i]) < n
                            &&& kitties@[list@[i] as int].owner == acct
                            &&& seen@[list@[i] as int]
                        },
                    forall|i: int, l: int| 0 <= i < l < j ==> list@[i] != list@[l],
                    forall|id: KittyIndex|
                        id < n && seen@[id as int] ==> #[trigger] listed(owned@, e as int, id)
                            || among(list@, j as int, id),
                decreases list.len() - j,
            {
                let id = list[j];
                let at = id as usize;
                if at >= n {
                    proof {
                        if parts_agree(kitties@, owned@) {
                            lemma_entry_is_listed(owned@, e as int);
                            let state = restored(kitties@, owned@);
                            assert(state.has(state.owned[acct][j as int]));
                        }
                    }
                    return None;
                }
                if kitties[at].owner != acct {
                    proof {
                        if parts_agree(kitties@, owned@) {
                            lemma_entry_is_listed(owned@, e as int);
                            let state = restored(kitties@, owned@);
                            assert(state.has(state.owned[acct][j as int]));
                        }
                    }
                    return None;
                }
                if seen[at] {
                    proof {
                        if listed(owned@, e as int, id) {
                            let (k, l) = choose|k: int, l: int|
                                0 <= k < e && 0 <= l < owned@[k].1@.len() && #[trigger] owned@[k].1@[l]
                                    == id;
                            assert(kitties@[owned@[k].1@[l] as int].owner == owned@[k].0);
                        } else {
                            let l = choose|l: int| 0 <= l < j && #[trigger] list@[l] == id;
                            if parts_agree(kitties@, owned@) {
                                lemma_entry_is_listed(owned@, e as int);
                                let state = restored(kitties@, owned@);
                                assert(state.owned[acct].no_duplicates());
                                assert(state.owned[acct][l] == state.owned[acct][j as int]);
                            }
                        }
                    }
                    return None;
                }
                let ghost before = seen@;
                seen[at] = true;
                proof {
                    assert forall|k: int, l: int|
                        0 <= k < e && 0 <= l < owned@[k].1@.len() implies {
                        &&& (#[trigger] owned@[k].1@[l]) < kitties@.len()
                        &&& kitties@[owned@[k].1@[l] as int].owner == owned@[k].0
                        &&& seen@[owned@[k].1@[l] as int]
                    } by {
                        assert(before[owned@[k].1@[l] as int]);
                    }
                    assert forall|x: KittyIndex| x < n && seen@[x as int] implies #[trigger] listed(
                        owned@,
                        e as int,
                        x,
                    ) || among(list@, j + 1, x) by {
                        if x == id {
                            assert(list@[j as int] == x);
                        } else {
                            assert(before[x as int]);
                            if among(list@, j as int, x) {
                                let l = choose|l: int| 0 <= l < j && #[trigger] list@[l] == x;
                                assert(list@[l] == x);
                            }
                        }
                    }
                }
                j += 1;
            }
            let copy = list.clone();
            assert(copy@ =~= list@);
            index.put(&acct, copy);
            proof {
                let upto = owned@.subrange(0, e + 1);
                assert(upto.drop_last() =~= owned@.subrange(0, e as int));
                assert(upto.last() == owned@[e as int]);
                assert forall|x: KittyIndex| x < n && seen@[x as int] implies #[trigger] listed(
                    owned@,
                    e + 1,
                    x,
                ) by {
                    if listed(owned@, e as int, x) {
                        let (k, l) = choose|k: int, l: int|
                            0 <= k < e && 0 <= l < owned@[k].1@.len() && #[trigger] owned@[k].1@[l]
                                == x;
                        assert(owned@[k].1@[l] == x);
                    } else {
                        let l = choose|l: int| 0 <= l < j && #[trigger] list@[l] == x;
                        assert(owned@[e as int].1@[l] == x);
                    }
                }
                assert(owned@[e as int].1@.no_duplicates());
            }
            e += 1;
        }
        let mut i: usize = 0;
        while i < n
            invariant
                n == kitties.len(),
                seen.len() == n,
                i <= n,
                e == owned.len(),
                lists_checked(kitties@, owned@, seen@, e as int),
                forall|k: int| 0 <= k < i ==> seen@[k],
            decreases n - i,
        {
            if !seen[i] {
                proof {
                    if parts_agree(kitties@, owned@) {
                        let state = restored(kitties@, owned@);
                        let o = state.kitties[i as int].owner;
                        assert(state.owned[o].contains(i as KittyIndex));
                        let at = choose|at: int|
                            0 <= at < state.owned[o].len() && state.owned[o][at] == i as KittyIndex;
                        let k = lemma_list_has_entry(owned@, o);
                        assert(seen@[owned@[k].1@[at] as int]);
                    }
                }
                return None;
            }
            i += 1;
        }
        let ghost state = restored(kitties@, owned@);
        assert(owned@.subrange(0, e as int) =~= owned@);
        let pallet = Pallet::assemble(kitties, index);
        proof {
            assert(pallet@ == state);
            assert forall|a: AccountId| #[trigger] state.owned.contains_key(a) by {
                lemma_index_of_entries(owned@, a);
            }
            assert forall|a: AccountId, l: int| 0 <= l < state.owned[a].len() implies {
                &&& state.has(#[trigger] state.owned[a][l])
                &&& state.kitties[state.owned[a][l] as int].owner == a
            } by {
                let k = lemma_list_has_entry(owned@, a);
                assert(owned@[k].1@[l] < kitties@.len());
            }
            assert forall|a: AccountId| #![trigger state.owned[a]] state.owned[a].no_duplicates() by {
                if state.owned[a].len() > 0 {
                    let k = lemma_list_has_entry(owned@, a);
                    assert(owned@[k].1@.no_duplicates());
                }
            }
            assert forall|id: int| 0 <= id < state.kitties.len() implies state.owned[(
            #[trigger] state.kitties[id]).owner].contains(id as KittyIndex) by {
                assert(seen@[id]);
                assert(listed(owned@, e as int, id as KittyIndex));
                let (k, l) = choose|k: int, l: int|
                    0 <= k < e && 0 <= l < owned@[k].1@.len() && #[trigger] owned@[k].1@[l]
                        == id as KittyIndex;
                assert(kitties@[owned@[k].1@[l] as int].owner == owned@[k].0);
                lemma_entry_is_listed(owned@, k);
                assert(state.owned[owned@[k].0][l] == id as KittyIndex);
            }
        }
        Some(pallet)
    }
}

} // verus!
