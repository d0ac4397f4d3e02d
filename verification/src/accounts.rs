//! Queries to the accounts state and their answers.

use crate::types::{bytes_equal, DRepChoice, KeyHash};
use vstd::prelude::*;

verus! {

/// A query to the accounts state.
#[derive(Debug)]
pub enum AccountsStateQuery {
    GetAccountInfo { stake_key: Vec<u8> },
    GetAccountRewardHistory { stake_key: Vec<u8> },
    GetAccountHistory { stake_key: Vec<u8> },
    GetAccountDelegationHistory { stake_key: Vec<u8> },
    GetAccountsDrepDelegationsMap { stake_keys: Vec<Vec<u8>> },
    GetAccountRegistrationHistory { stake_key: Vec<u8> },
    GetAccountWithdrawalHistory { stake_key: Vec<u8> },
    GetAccountMIRHistory { stake_key: Vec<u8> },
    GetAccountAssociatedAddresses { stake_key: Vec<u8> },
    GetAccountAssets { stake_key: Vec<u8> },
    GetAccountAssetsTotals { stake_key: Vec<u8> },
    GetAccountUTxOs { stake_key: Vec<u8> },
    GetAccountsBalancesMap { stake_keys: Vec<Vec<u8>> },
    GetAccountsBalancesSum { stake_keys: Vec<Vec<u8>> },
    GetAccountDRepDelegation { stake_key: Vec<u8> },
}

/// An answer of the accounts state. Maps are given as sequences of
/// (stake key, value) pairs; as maps, their stake keys are distinct (see
/// [`distinct_stake_keys`]).
#[derive(Debug)]
pub enum AccountsStateQueryResponse {
    AccountInfo(AccountInfo),
    AccountRewardHistory(AccountRewardHistory),
    AccountHistory(AccountHistory),
    AccountDelegationHistory(AccountDelegationHistory),
    AccountsDrepDelegationsMap(Vec<(Vec<u8>, Option<DRepChoice>)>),
    AccountRegistrationHistory(AccountRegistrationHistory),
    AccountWithdrawalHistory(AccountWithdrawalHistory),
    AccountMIRHistory(AccountMIRHistory),
    AccountAssociatedAddresses(AccountAssociatedAddresses),
    AccountAssets(AccountAssets),
    AccountAssetsTotals(AccountAssetsTotals),
    AccountUTxOs(AccountUTxOs),
    AccountsBalancesMap(Vec<(Vec<u8>, u64)>),
    AccountsBalancesSum(u64),
    AccountDRepDelegation(Option<DRepChoice>),
    NotFound,
    Error(String),
}

/// Whether the stake keys of a map given as (stake key, value) pairs are
/// distinct.
pub open spec fn distinct_stake_keys<V>(m: Seq<(Vec<u8>, V)>) -> bool {
    forall|i: int, j: int| 0 <= i < j < m.len() ==> (#[trigger] m[i]).0@ != (#[trigger] m[j]).0@
}

/// Whether the stake keys of a map given as (stake key, value) pairs are
/// distinct, as they are in a map.
pub fn has_distinct_stake_keys<V>(m: &Vec<(Vec<u8>, V)>) -> (r: bool)
    ensures
        r == distinct_stake_keys(m@),
{
    let mut j: usize = 0;
    while j < m.len()
        invariant
            j <= m@.len(),
            forall|a: int, b: int| 0 <= a < b < j ==> (#[trigger] m@[a]).0@ != (#[trigger] m@[b]).0@,
        decreases m@.len() - j,
    {
        let mut i: usize = 0;
        while i < j
            invariant
                i <= j < m@.len(),
                forall|a: int| 0 <= a < i ==> (#[trigger] m@[a]).0@ != m@[j as int].0@,
            decreases j - i,
        {
            if bytes_equal(&m[i].0, &m[j].0) {
                return false;
            }
            i = i + 1;
        }
        j = j + 1;
    }
    true
}

/// The state of one account.
#[derive(Debug)]
pub struct AccountInfo {
    pub utxo_value: u64,
    pub rewards: u64,
    pub delegated_spo: Option<KeyHash>,
    pub delegated_drep: Option<DRepChoice>,
}

#[derive(Debug, Clone, Copy, PartialEq, Eq, Structural)]
pub struct AccountRewardHistory {}

#[derive(Debug, Clone, Copy, PartialEq, Eq, Structural)]
pub struct AccountHistory {}

#[derive(Debug, Clone, Copy, PartialEq, Eq, Structural)]
pub struct AccountDelegationHistory {}

#[derive(Debug, Clone, Copy, PartialEq, Eq, Structural)]
pub struct AccountRegistrationHistory {}

#[derive(Debug, Clone, Copy, PartialEq, Eq, Structural)]
pub struct AccountWithdrawalHistory {}

#[derive(Debug, Clone, Copy, PartialEq, Eq, Structural)]
pub struct AccountMIRHistory {}

#[derive(Debug, Clone, Copy, PartialEq, Eq, Structural)]
pub struct AccountAssociatedAddresses {}

#[derive(Debug, Clone, Copy, PartialEq, Eq, Structural)]
pub struct AccountAssets {}

#[derive(Debug, Clone, Copy, PartialEq, Eq, Structural)]
pub struct AccountAssetsTotals {}

#[derive(Debug, Clone, Copy, PartialEq, Eq, Structural)]
pub struct AccountUTxOs {}

} // verus!
