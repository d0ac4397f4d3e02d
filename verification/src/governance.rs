//! Queries to the governance and DRep states and their answers.

use crate::drep_state::{DRepMetadata, DRepUpdateEvent, VoteRecord};
use crate::messages::VotingProcedure;
use crate::text::{decimal_string, decimal_text};
use crate::types::{Credential, CredentialView, DRepCredential, GovActionId, Lovelace, TxHash, Voter};
use vstd::prelude::*;

verus! {

/// A query to the governance or DRep state.
#[derive(Debug)]
pub enum GovernanceStateQuery {
    GetDRepsList,
    GetDRepInfo { drep_credential: DRepCredential },
    GetDRepInfoWithDelegators { drep_credential: DRepCredential },
    GetDRepDelegators { drep_credential: DRepCredential },
    GetDRepMetadata { drep_credential: DRepCredential },
    GetDRepUpdates { drep_credential: DRepCredential },
    GetDRepVotes { drep_credential: DRepCredential },
    GetProposalsList,
    GetProposalInfo { proposal: GovActionId },
    GetProposalVotes { proposal: GovActionId },
}

/// The numbers of a byte list, separated by `, `.
pub open spec fn byte_items_text(b: Seq<u8>) -> Seq<char>
    decreases b.len(),
{
    if b.len() == 0 {
        Seq::empty()
    } else if b.len() == 1 {
        decimal_text(b[0] as nat)
    } else {
        byte_items_text(b.drop_last()) + ", "@ + decimal_text(b.last() as nat)
    }
}

/// The debug text of a byte list: its numbers in square brackets.
pub open spec fn bytes_text(b: Seq<u8>) -> Seq<char> {
    "["@ + byte_items_text(b) + "]"@
}

/// The debug text of a credential.
pub open spec fn credential_text(c: CredentialView) -> Seq<char> {
    match c {
        CredentialView::AddrKeyHash(h) => "AddrKeyHash("@ + bytes_text(h) + ")"@,
        CredentialView::ScriptHash(h) => "ScriptHash("@ + bytes_text(h) + ")"@,
    }
}

/// The debug text of a governance action identifier.
pub open spec fn action_id_text(id: GovActionId) -> Seq<char> {
    "GovActionId { transaction_id: "@ + bytes_text(id.transaction_id@) + ", action_index: "@
        + decimal_text(id.action_index as nat) + " }"@
}

/// The debug text of a query: its variant's name, then its field by name.
pub open spec fn query_text(q: GovernanceStateQuery) -> Seq<char> {
    match q {
        GovernanceStateQuery::GetDRepsList => "GetDRepsList"@,
        GovernanceStateQuery::GetDRepInfo { drep_credential } => "GetDRepInfo { drep_credential: "@
            + credential_text(drep_credential@) + " }"@,
        GovernanceStateQuery::GetDRepInfoWithDelegators { drep_credential } =>
            "GetDRepInfoWithDelegators { drep_credential: "@ + credential_text(drep_credential@)
            + " }"@,
        GovernanceStateQuery::GetDRepDelegators { drep_credential } =>
            "GetDRepDelegators { drep_credential: "@ + credential_text(drep_credential@) + " }"@,
        GovernanceStateQuery::GetDRepMetadata { drep_credential } =>
            "GetDRepMetadata { drep_credential: "@ + credential_text(drep_credential@) + " }"@,
        GovernanceStateQuery::GetDRepUpdates { drep_credential } =>
            "GetDRepUpdates { drep_credential: "@ + credential_text(drep_credential@) + " }"@,
        GovernanceStateQuery::GetDRepVotes { drep_credential } => "GetDRepVotes { drep_credential: "@
            + credential_text(drep_credential@) + " }"@,
        GovernanceStateQuery::GetProposalsList => "GetProposalsList"@,
        GovernanceStateQuery::GetProposalInfo { proposal } => "GetProposalInfo { proposal: "@
            + action_id_text(proposal) + " }"@,
        GovernanceStateQuery::GetProposalVotes { proposal } => "GetProposalVotes { proposal: "@
            + action_id_text(proposal) + " }"@,
    }
}

/// The debug text of a byte list.
pub fn render_bytes(b: &Vec<u8>) -> (r: String)
    ensures
        r@ == bytes_text(b@),
{
    let mut s = "[".to_owned();
    let mut i: usize = 0;
    while i < b.len()
        invariant
            i <= b@.len(),
            s@ == "["@ + byte_items_text(b@.subrange(0, i as int)),
        decreases b@.len() - i,
    {
        let ghost pre = b@.subrange(0, i as int);
        let ghost next = b@.subrange(0, i + 1);
        assert(next.drop_last() =~= pre);
        assert(next.last() == b@[i as int]);
        if i > 0 {
            s.append(", ");
        }
        let d = decimal_string(b[i] as u64);
        s.append(d.as_str());
        proof {
            if i == 0 {
                assert(pre =~= Seq::<u8>::empty());
                assert(s@ =~= "["@ + byte_items_text(next));
            } else {
                assert(s@ =~= "["@ + byte_items_text(next));
            }
        }
        i = i + 1;
    }
    assert(b@.subrange(0, b@.len() as int) =~= b@);
    s.append("]");
    s
}

/// The debug text of a credential.
pub fn render_credential(c: &Credential) -> (r: String)
    ensures
        r@ == credential_text(c@),
{
    match c {
        Credential::AddrKeyHash(h) => {
            let mut s = "AddrKeyHash(".to_owned();
            s.append(render_bytes(h).as_str());
            s.append(")");
            s
        },
        Credential::ScriptHash(h) => {
            let mut s = "ScriptHash(".to_owned();
            s.append(render_bytes(h).as_str());
            s.append(")");
            s
        },
    }
}

/// The debug text of a governance action identifier.
pub fn render_action_id(id: &GovActionId) -> (r: String)
    ensures
        r@ == action_id_text(*id),
{
    let mut s = "GovActionId { transaction_id: ".to_owned();
    s.append(render_bytes(&id.transaction_id).as_str());
    s.append(", action_index: ");
    s.append(decimal_string(id.action_index as u64).as_str());
    s.append(" }");
    s
}

/// A field of a query, after the query's opening text.
fn render_field(open: &str, field: String) -> (r: String)
    ensures
        r@ == open@ + field@ + " }"@,
{
    let mut s = open.to_owned();
    s.append(field.as_str());
    s.append(" }");
    s
}

/// The debug text of a query.
pub fn render_query(q: &GovernanceStateQuery) -> (r: String)
    ensures
        r@ == query_text(*q),
{
    match q {
        GovernanceStateQuery::GetDRepsList => "GetDRepsList".to_owned(),
        GovernanceStateQuery::GetDRepInfo { drep_credential } => render_field(
            "GetDRepInfo { drep_credential: ",
            render_credential(drep_credential),
        ),
        GovernanceStateQuery::GetDRepInfoWithDelegators { drep_credential } => render_field(
            "GetDRepInfoWithDelegators { drep_credential: ",
            render_credential(drep_credential),
        ),
        GovernanceStateQuery::GetDRepDelegators { drep_credential } => render_field(
            "GetDRepDelegators { drep_credential: ",
            render_credential(drep_credential),
        ),
        GovernanceStateQuery::GetDRepMetadata { drep_credential } => render_field(
            "GetDRepMetadata { drep_credential: ",
            render_credential(drep_credential),
        ),
        GovernanceStateQuery::GetDRepUpdates { drep_credential } => render_field(
            "GetDRepUpdates { drep_credential: ",
            render_credential(drep_credential),
        ),
        GovernanceStateQuery::GetDRepVotes { drep_credential } => render_field(
            "GetDRepVotes { drep_credential: ",
            render_credential(drep_credential),
        ),
        GovernanceStateQuery::GetProposalsList => "GetProposalsList".to_owned(),
        GovernanceStateQuery::GetProposalInfo { proposal } => render_field(
            "GetProposalInfo { proposal: ",
            render_action_id(proposal),
        ),
        GovernanceStateQuery::GetProposalVotes { proposal } => render_field(
            "GetProposalVotes { proposal: ",
            render_action_id(proposal),
        ),
    }
}

/// The registered DReps.
#[derive(Debug)]
pub struct DRepsList {
    pub dreps: Vec<DRepCredential>,
}

/// The status of a DRep.
#[derive(Debug, Clone, Copy, PartialEq, Eq, Structural)]
pub struct DRepInfo {
    pub deposit: Lovelace,
    pub retired: bool,
    pub expired: bool,
    pub active_epoch: Option<u64>,
    pub last_active_epoch: u64,
}

/// The status of a DRep with its delegators.
#[derive(Debug)]
pub struct DRepInfoWithDelegators {
    pub info: DRepInfo,
    pub delegators: Vec<Credential>,
}

/// The delegators of a DRep.
#[derive(Debug)]
pub struct DRepDelegatorAddresses {
    pub addresses: Vec<Credential>,
}

/// The certificates of a DRep.
#[derive(Debug)]
pub struct DRepUpdates {
    pub updates: Vec<DRepUpdateEvent>,
}

/// The votes of a DRep.
#[derive(Debug)]
pub struct DRepVotes {
    pub votes: Vec<VoteRecord>,
}

/// The governance actions that are proposed.
#[derive(Debug)]
pub struct ProposalsList {
    pub proposals: Vec<GovActionId>,
}

/// A proposed governance action, by its identifier.
#[derive(Debug)]
pub struct ProposalInfo {
    pub id: GovActionId,
}

/// The votes on a governance action, with the transaction of each vote.
#[derive(Debug)]
pub struct ProposalVotes {
    pub votes: Vec<(Voter, (TxHash, VotingProcedure))>,
}

/// An answer of the governance or DRep state.
#[derive(Debug)]
pub enum GovernanceStateQueryResponse {
    DRepsList(DRepsList),
    DRepInfo(DRepInfo),
    DRepInfoWithDelegators(DRepInfoWithDelegators),
    DRepDelegators(DRepDelegatorAddresses),
    DRepMetadata(DRepMetadata),
    DRepUpdates(DRepUpdates),
    DRepVotes(DRepVotes),
    ProposalsList(ProposalsList),
    ProposalInfo(ProposalInfo),
    ProposalVotes(ProposalVotes),
    NotFound,
    Error(String),
}

} // verus!
