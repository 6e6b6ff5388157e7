//! The kitties that exist before the first transition.

use vstd::prelude::*;
use crate::pallet::Pallet;
use crate::state::State;
use crate::types::AccountId;

verus! {

/// The kitties to mint at genesis: for each, its owner and its genome.
pub struct GenesisConfig {
    pub kitties: Vec<(AccountId, [u8; 16])>,
}

/// The registry after the entries were minted one after another, from the
/// first on. An entry for which the counter has no room is passed over.
pub open spec fn genesis_state(entries: Seq<(AccountId, [u8; 16])>) -> State
    decreases entries.len(),
{
    if entries.len() == 0 {
        State::empty()
    } else {
        let before = genesis_state(entries.drop_last());
        if before.kitties.len() < u32::MAX {
            before.mint(entries.last().0, entries.last().1@)
        } else {
            before
        }
    }
}

/// Whatever the entries, the registry built from them is well formed.
pub proof fn lemma_genesis_wf(entries: Seq<(AccountId, [u8; 16])>)
    ensures
        genesis_state(entries).wf(),
    decreases entries.len(),
{
    if entries.len() > 0 {
        lemma_genesis_wf(entries.drop_last());
        let before = genesis_state(entries.drop_last());
        if before.kitties.len() < u32::MAX {
            before.lemma_mint_wf(entries.last().0, entries.last().1@);
        }
    }
}

impl Default for GenesisConfig {
    /// A genesis without kitties.
    fn default() -> (r: GenesisConfig)
        ensures
            r.kitties@.len() == 0,
    {
        GenesisConfig { kitties: Vec::new() }
    }
}

impl GenesisConfig {
    /// Builds the registry that the first transition finds: every entry is
    /// minted with its own genome, as any kitty is minted.
    pub fn build(&self) -> (r: Pallet)
        ensures
            r.wf(),
            r@ == genesis_state(self.kitties@),
    {
        let mut pallet = Pallet::new();
        // A genome is given with every entry, so no seed is ever consulted.
        let seed = [0u8; 32];
        let mut i: usize = 0;
        while i < self.kitties.len()
            invariant
                i <= self.kitties.len(),
                pallet.wf(),
                pallet@ == genesis_state(self.kitties@.subrange(0, i as int)),
            decreases self.kitties.len() - i,
        {
            let (acct, dna) = self.kitties[i];
            proof {
                let upto = self.kitties@.subrange(0, i + 1);
                assert(upto.drop_last() =~= self.kitties@.subrange(0, i as int));
            }
            let _ = pallet.mint(&acct, Some(dna), &seed, None);
            i += 1;
        }
        assert(self.kitties@.subrange(0, i as int) =~= self.kitties@);
        pallet
    }
}

} // verus!
