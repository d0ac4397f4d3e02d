use acropolis_state::drep_module::answer_drep_query;
use acropolis_state::drep_state::{DRepStorageConfig, State};
use acropolis_state::governance::{
    render_action_id, render_bytes, render_credential, render_query, GovernanceStateQuery,
    GovernanceStateQueryResponse,
};
use acropolis_state::types::{Credential, GovActionId};

fn queries() -> Vec<GovernanceStateQuery> {
    let c = Credential::AddrKeyHash(vec![1, 22, 255]);
    let sc = Credential::ScriptHash(vec![]);
    let id = GovActionId { transaction_id: vec![0, 9, 10], action_index: 200 };
    vec![
        GovernanceStateQuery::GetDRepsList,
        GovernanceStateQuery::GetDRepInfo { drep_credential: c.clone() },
        GovernanceStateQuery::GetDRepInfoWithDelegators { drep_credential: sc.clone() },
        GovernanceStateQuery::GetDRepDelegators { drep_credential: c.clone() },
        GovernanceStateQuery::GetDRepMetadata { drep_credential: c.clone() },
        GovernanceStateQuery::GetDRepUpdates { drep_credential: sc.clone() },
        GovernanceStateQuery::GetDRepVotes { drep_credential: c.clone() },
        GovernanceStateQuery::GetProposalsList,
        GovernanceStateQuery::GetProposalInfo { proposal: id.clone() },
        GovernanceStateQuery::GetProposalVotes {
            proposal: GovActionId { transaction_id: vec![7], action_index: 0 },
        },
    ]
}

#[test]
fn rendered_queries_match_their_debug_text() {
    for q in queries() {
        assert_eq!(render_query(&q), format!("{q:?}"));
    }
}

#[test]
fn rendered_parts() {
    assert_eq!(render_bytes(&vec![]), "[]");
    assert_eq!(render_bytes(&vec![5]), "[5]");
    assert_eq!(render_bytes(&vec![5, 0, 100]), "[5, 0, 100]");
    assert_eq!(render_credential(&Credential::ScriptHash(vec![3, 4])), "ScriptHash([3, 4])");
    assert_eq!(
        render_action_id(&GovActionId { transaction_id: vec![1], action_index: 2 }),
        "GovActionId { transaction_id: [1], action_index: 2 }"
    );
}

#[test]
fn unserved_queries_are_named_in_the_error() {
    let s = State::new(DRepStorageConfig::default());
    let q = GovernanceStateQuery::GetProposalInfo {
        proposal: GovActionId { transaction_id: vec![10, 11], action_index: 3 },
    };
    match answer_drep_query(Some(&s), &q) {
        GovernanceStateQueryResponse::Error(e) => assert_eq!(
            e,
            "Unimplemented governance query: GetProposalInfo { proposal: GovActionId { transaction_id: [10, 11], action_index: 3 } }"
        ),
        other => panic!("unexpected {other:?}"),
    }
    let q = GovernanceStateQuery::GetDRepInfo { drep_credential: Credential::AddrKeyHash(vec![1]) };
    match answer_drep_query(None, &q) {
        GovernanceStateQueryResponse::Error(e) => assert_eq!(
            e,
            "Unimplemented governance query: GetDRepInfo { drep_credential: AddrKeyHash([1]) }"
        ),
        other => panic!("unexpected {other:?}"),
    }
}
