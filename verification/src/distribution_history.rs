//! Delegation distributions kept per epoch, apart from the state history used
//! for rollbacks so that they are not duplicated there.

use crate::types::{DRepCredential, KeyHash};
use std::collections::BTreeMap;
use vstd::prelude::*;

verus! {

broadcast use vstd::laws_cmp::group_laws_cmp;

/// The stake delegated to DReps in one epoch.
#[derive(Debug)]
pub struct DRepDelegationDistribution {
    pub abstain: u64,
    pub no_confidence: u64,
    pub dreps: Vec<(DRepCredential, u64)>,
}

/// Delegation distributions per epoch.
#[derive(Debug)]
pub struct DistributionHistory {
    /// DRep delegation distribution per epoch.
    pub drdd: BTreeMap<u64, DRepDelegationDistribution>,
    /// Stake pool delegation distribution per epoch.
    pub spdd: BTreeMap<u64, BTreeMap<KeyHash, u64>>,
}

impl DistributionHistory {
    pub fn new() -> (r: Self)
        ensures
            r.drdd@ == Map::<u64, DRepDelegationDistribution>::empty(),
            r.spdd@ == Map::<u64, BTreeMap<KeyHash, u64>>::empty(),
    {
        DistributionHistory { drdd: BTreeMap::new(), spdd: BTreeMap::new() }
    }

    /// Records the DRep delegation distribution of `epoch`, replacing any
    /// recorded before.
    pub fn insert_drdd(&mut self, epoch: u64, drdd: DRepDelegationDistribution)
        ensures
            final(self).drdd@ == old(self).drdd@.insert(epoch, drdd),
            final(self).spdd@ == old(self).spdd@,
    {
        self.drdd.insert(epoch, drdd);
    }

    /// Records the stake pool delegation distribution of `epoch`, replacing any
    /// recorded before.
    pub fn insert_spdd(&mut self, epoch: u64, spdd: BTreeMap<KeyHash, u64>)
        ensures
            final(self).spdd@ == old(self).spdd@.insert(epoch, spdd),
            final(self).drdd@ == old(self).drdd@,
    {
        self.spdd.insert(epoch, spdd);
    }

    /// The DRep delegation distribution recorded for `epoch`.
    pub fn get_drdd(&self, epoch: u64) -> (r: Option<&DRepDelegationDistribution>)
        ensures
            match r {
                Some(d) => self.drdd@.contains_key(epoch) && *d == self.drdd@[epoch],
                None => !self.drdd@.contains_key(epoch),
            },
    {
        self.drdd.get(&epoch)
    }

    /// The stake pool delegation distribution recorded for `epoch`.
    pub fn get_spdd(&self, epoch: u64) -> (r: Option<&BTreeMap<KeyHash, u64>>)
        ensures
            match r {
                Some(d) => self.spdd@.contains_key(epoch) && *d == self.spdd@[epoch],
                None => !self.spdd@.contains_key(epoch),
            },
    {
        self.spdd.get(&epoch)
    }
}

} // verus!
