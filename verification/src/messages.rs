//! Certificates and governance procedures carried by blocks, as far as the
//! DRep state reads them.

use crate::types::{
    Anchor, DRepChoice, DRepCredential, GovActionId, KeyHash, Lovelace, StakeCredential, TxHash,
    Vote, Voter,
};
use vstd::prelude::*;

verus! {

/// Registration of a DRep.
#[derive(Debug, Clone, PartialEq, Eq)]
pub struct DRepRegistration {
    pub credential: DRepCredential,
    pub deposit: Lovelace,
    pub anchor: Option<Anchor>,
}

/// A DRep registration with its position in the chain.
#[derive(Debug, Clone, PartialEq, Eq)]
pub struct DRepRegistrationWithPos {
    pub reg: DRepRegistration,
    pub tx_hash: TxHash,
    pub cert_index: u64,
    pub epoch: u64,
}

/// Deregistration of a DRep.
#[derive(Debug, Clone, PartialEq, Eq)]
pub struct DRepDeregistration {
    pub credential: DRepCredential,
    pub refund: Lovelace,
}

/// A DRep deregistration with its position in the chain.
#[derive(Debug, Clone, PartialEq, Eq)]
pub struct DRepDeregistrationWithPos {
    pub reg: DRepDeregistration,
    pub tx_hash: TxHash,
    pub cert_index: u64,
    pub epoch: u64,
}

/// Update of a DRep's anchor.
#[derive(Debug, Clone, PartialEq, Eq)]
pub struct DRepUpdate {
    pub credential: DRepCredential,
    pub anchor: Option<Anchor>,
}

/// A DRep update with its position in the chain.
#[derive(Debug, Clone, PartialEq, Eq)]
pub struct DRepUpdateWithPos {
    pub reg: DRepUpdate,
    pub tx_hash: TxHash,
    pub cert_index: u64,
    pub epoch: u64,
}

/// Delegation of a stake address's vote.
#[derive(Debug, Clone, PartialEq, Eq)]
pub struct VoteDelegation {
    pub credential: StakeCredential,
    pub drep: DRepChoice,
}

/// Delegation of a stake address's stake and vote.
#[derive(Debug, Clone, PartialEq, Eq)]
pub struct StakeAndVoteDelegation {
    pub credential: StakeCredential,
    pub operator: KeyHash,
    pub drep: DRepChoice,
}

/// Registration of a stake address together with a vote delegation.
#[derive(Debug, Clone, PartialEq, Eq)]
pub struct StakeRegistrationAndVoteDelegation {
    pub credential: StakeCredential,
    pub drep: DRepChoice,
    pub deposit: Lovelace,
}

/// Registration of a stake address together with a stake and vote delegation.
#[derive(Debug, Clone, PartialEq, Eq)]
pub struct StakeRegistrationAndStakeAndVoteDelegation {
    pub credential: StakeCredential,
    pub operator: KeyHash,
    pub drep: DRepChoice,
    pub deposit: Lovelace,
}

/// Delegation of a stake address's stake to a pool.
#[derive(Debug, Clone, PartialEq, Eq)]
pub struct StakeDelegation {
    pub credential: StakeCredential,
    pub operator: KeyHash,
}

/// A transaction certificate.
#[derive(Debug, Clone, PartialEq, Eq)]
pub enum TxCertificate {
    StakeRegistration(StakeCredential),
    StakeDeregistration(StakeCredential),
    StakeDelegation(StakeDelegation),
    VoteDelegation(VoteDelegation),
    StakeAndVoteDelegation(StakeAndVoteDelegation),
    StakeRegistrationAndVoteDelegation(StakeRegistrationAndVoteDelegation),
    StakeRegistrationAndStakeAndVoteDelegation(StakeRegistrationAndStakeAndVoteDelegation),
    DRepRegistration(DRepRegistrationWithPos),
    DRepDeregistration(DRepDeregistrationWithPos),
    DRepUpdate(DRepUpdateWithPos),
}

/// The certificates of one block.
#[derive(Debug, Clone, PartialEq, Eq)]
pub struct TxCertificatesMessage {
    pub certificates: Vec<TxCertificate>,
}

/// One vote on a governance action.
#[derive(Debug, Clone, PartialEq, Eq)]
pub struct VotingProcedure {
    pub vote: Vote,
    pub anchor: Option<Anchor>,
    pub vote_index: u32,
}

/// The votes of one voter in one transaction, by governance action.
#[derive(Debug, Clone, PartialEq, Eq)]
pub struct SingleVoterVotes {
    pub voting_procedures: Vec<(GovActionId, VotingProcedure)>,
}

/// The votes of one transaction, by voter.
#[derive(Debug, Clone, PartialEq, Eq)]
pub struct VotingProcedures {
    pub votes: Vec<(Voter, SingleVoterVotes)>,
}

/// The governance procedures of one block, by transaction.
#[derive(Debug, Clone, PartialEq, Eq)]
pub struct GovernanceProceduresMessage {
    pub voting_procedures: Vec<(TxHash, VotingProcedures)>,
}

/// The stake credential and DRep choice of a certificate that delegates a vote.
pub open spec fn delegation_fields(c: TxCertificate) -> Option<(StakeCredential, DRepChoice)> {
    match c {
        TxCertificate::VoteDelegation(d) => Some((d.credential, d.drep)),
        TxCertificate::StakeAndVoteDelegation(d) => Some((d.credential, d.drep)),
        TxCertificate::StakeRegistrationAndVoteDelegation(d) => Some((d.credential, d.drep)),
        TxCertificate::StakeRegistrationAndStakeAndVoteDelegation(d) => Some(
            (d.credential, d.drep),
        ),
        _ => None,
    }
}

/// The stake credential and DRep choice of a vote-delegating certificate.
pub fn extract_delegation_fields(cert: &TxCertificate) -> (r: Option<(&StakeCredential, &DRepChoice)>)
    ensures
        match r {
            Some((c, d)) => delegation_fields(*cert) == Some((*c, *d)),
            None => delegation_fields(*cert) is None,
        },
{
    match cert {
        TxCertificate::VoteDelegation(d) => Some((&d.credential, &d.drep)),
        TxCertificate::StakeAndVoteDelegation(d) => Some((&d.credential, &d.drep)),
        TxCertificate::StakeRegistrationAndVoteDelegation(d) => Some((&d.credential, &d.drep)),
        TxCertificate::StakeRegistrationAndStakeAndVoteDelegation(d) => {
            Some((&d.credential, &d.drep))
        },
        _ => None,
    }
}

} // verus!
