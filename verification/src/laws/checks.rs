//! How the questions about a calculation hang together.
use anchor_lang::solana_program::pubkey::Pubkey;
use vstd::prelude::*;
use vstd::std_specs::convert::FromSpec;

use crate::margin::{IsolatedMarginCalculation, SimplifiedView};
use crate::shims::Account;
use crate::table::lemma_first_place;
use crate::types::AccountWithKey;

verus! {

/// A calculation that is covered cannot be liquidated, and each of its isolated
/// positions is covered.
pub proof fn law_covered_everywhere(calculation: SimplifiedView, market_index: u16)
    requires
        calculation.covered(),
    ensures
        calculation.free_collateral() >= 0,
        calculation.isolated_place(market_index) matches Some(place)
            ==> calculation.isolated[place].covered(),
{
    lemma_first_place(
        calculation.isolated,
        |c: IsolatedMarginCalculation| c.is_for(market_index),
        0,
    );
}

/// An isolated position has a shortage exactly where it is not covered with the buffers.
pub proof fn law_shortage_is_not_covered(calculation: IsolatedMarginCalculation)
    ensures
        calculation.shortage() == 0 <==> calculation.covered_with_buffer(),
{
}

/// An account and its address can be put together and taken apart again.
pub proof fn law_account_round_trip(key: Pubkey, account: Account)
    ensures
        <(Pubkey, Account) as FromSpec<AccountWithKey>>::from_spec(
            <AccountWithKey as FromSpec<(Pubkey, Account)>>::from_spec((key, account)),
        ) == (key, account),
{
}

} // verus!
