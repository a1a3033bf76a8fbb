//! A fungible-token ledger with ERC-20 semantics: balances, spending
//! allowances, total supply and an append-only event log, with every
//! operation proved to keep the supply equal to the sum of all balances.

mod address;
mod balances;
mod allowances;
mod token;
mod uint;

pub use address::Address;
pub use token::{
    balance_total, is_approval, lemma_approve_then_allowance, lemma_balance_at_most_supply,
    lemma_self_transfer, lemma_supply_is_sum_of_balances, lemma_transfer_from_whole_allowance,
    lemma_zero_transfer, lemma_zero_transfer_from, ERC20Token, Event, TokenError,
};
pub use uint::{u256_max, U256};
