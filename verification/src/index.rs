//! The reverse ownership index: for each account, the identifiers it owns,
//! in the order in which the index holds them.

use std::collections::BTreeMap;
use vstd::prelude::*;
use crate::lists::{first_index, lemma_first_index, lemma_first_index_is, swap_remove};
use crate::types::{AccountId, KittyIndex};

verus! {

/// Account to list of owned identifiers. An account without an entry owns
/// nothing, so the view is a total map.
pub struct OwnedIndex {
    lists: BTreeMap<AccountId, Vec<KittyIndex>>,
}

impl View for OwnedIndex {
    type V = Map<AccountId, Seq<KittyIndex>>;

    closed spec fn view(&self) -> Map<AccountId, Seq<KittyIndex>> {
        Map::total(
            |a: AccountId|
                if self.lists@.contains_key(a) {
                    self.lists@[a]@
                } else {
                    Seq::empty()
                },
        )
    }
}

impl OwnedIndex {
    /// An index in which no account owns anything.
    pub fn new() -> (r: Self)
        ensures
            r@ == Map::<AccountId, Seq<KittyIndex>>::total(|a: AccountId| Seq::<KittyIndex>::empty()),
    {
        OwnedIndex { lists: BTreeMap::new() }
    }

    /// Takes the account's list out of the index, leaving it empty.
    fn take(&mut self, acct: &AccountId) -> (list: Vec<KittyIndex>)
        ensures
            list@ == old(self)@[*acct],
            final(self)@ == old(self)@.insert(*acct, Seq::empty()),
    {
        broadcast use vstd::std_specs::btree::group_btree_axioms;
        broadcast use vstd::laws_cmp::group_laws_cmp;
        match self.lists.remove(acct) {
            Some(list) => list,
            None => Vec::new(),
        }
    }

    /// Stores `list` as the account's list.
    pub fn put(&mut self, acct: &AccountId, list: Vec<KittyIndex>)
        ensures
            final(self)@ == old(self)@.insert(*acct, list@),
    {
        broadcast use vstd::std_specs::btree::group_btree_axioms;
        broadcast use vstd::laws_cmp::group_laws_cmp;
        self.lists.insert(*acct, list);
    }

    /// The account's list as the index holds it, if it holds one.
    fn find(&self, acct: &AccountId) -> (r: Option<&Vec<KittyIndex>>)
        ensures
            match r {
                Some(list) => list@ == self@[*acct],
                None => self@[*acct] == Seq::<KittyIndex>::empty(),
            },
    {
        broadcast use vstd::std_specs::btree::group_btree_axioms;
        broadcast use vstd::laws_cmp::group_laws_cmp;
        self.lists.get(acct)
    }

    /// A copy of the account's list.
    pub fn get(&self, acct: &AccountId) -> (list: Vec<KittyIndex>)
        ensures
            list@ == self@[*acct],
    {
        match self.find(acct) {
            Some(found) => found.clone(),
            None => Vec::new(),
        }
    }

    /// Where `id` first stands in the account's list, if it stands there.
    pub fn position(&self, acct: &AccountId, id: KittyIndex) -> (r: Option<usize>)
        ensures
            match r {
                Some(i) => {
                    &&& i < self@[*acct].len()
                    &&& i == first_index(self@[*acct], id)
                    &&& self@[*acct].contains(id)
                },
                None => !self@[*acct].contains(id),
            },
    {
        proof {
            lemma_first_index(self@[*acct], id);
        }
        match self.find(acct) {
            Some(list) => {
                let mut i: usize = 0;
                while i < list.len()
                    invariant
                        i <= list.len(),
                        list@ == self@[*acct],
                        forall|j: int| 0 <= j < i ==> list@[j] != id,
                    decreases list.len() - i,
                {
                    if list[i] == id {
                        proof {
                            lemma_first_index_is(list@, id, i as int);
                            lemma_first_index(list@, id);
                        }
                        return Some(i);
                    }
                    i += 1;
                }
                None
            },
            None => None,
        }
    }

    /// Takes the entry at `i` out of the account's list; the list's last
    /// entry moves into its place.
    pub fn swap_remove(&mut self, acct: &AccountId, i: usize)
        requires
            i < old(self)@[*acct].len(),
        ensures
            final(self)@ == old(self)@.insert(*acct, swap_remove(old(self)@[*acct], i as int)),
    {
        let mut list = self.take(acct);
        list.swap_remove(i);
        self.put(acct, list);
    }

    /// Appends `id` to the account's list.
    pub fn push(&mut self, acct: &AccountId, id: KittyIndex)
        ensures
            final(self)@ == old(self)@.insert(*acct, old(self)@[*acct].push(id)),
    {
        let mut list = self.take(acct);
        list.push(id);
        self.put(acct, list);
    }
}

} // verus!
