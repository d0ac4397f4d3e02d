use acropolis_state::accounts::{AccountsStateQuery, AccountsStateQueryResponse};
use acropolis_state::distribution_history::{DRepDelegationDistribution, DistributionHistory};
use acropolis_state::drep_module::answer_drep_query;
use acropolis_state::drep_state::{
    delegation_query, CertError, DRepActionUpdate, DRepStorageConfig, DelegationError,
    HistoricalDRepState, State,
};
use acropolis_state::governance::{GovernanceStateQuery, GovernanceStateQueryResponse};
use acropolis_state::messages::{
    DRepDeregistration, DRepDeregistrationWithPos, DRepRegistration, DRepRegistrationWithPos,
    DRepUpdate, DRepUpdateWithPos, GovernanceProceduresMessage, SingleVoterVotes,
    StakeAndVoteDelegation, TxCertificate, TxCertificatesMessage, VoteDelegation,
    VotingProcedure, VotingProcedures,
};
use acropolis_state::state_history::StateHistory;
use acropolis_state::types::{
    drep_choice_to_credential, Anchor, BlockInfo, BlockStatus, Credential, DRepChoice,
    GovActionId, Vote, Voter, Era,
};
use std::collections::BTreeMap;

fn all_on() -> DRepStorageConfig {
    DRepStorageConfig {
        store_info: true,
        store_delegators: true,
        store_metadata: true,
        store_updates: true,
        store_votes: true,
    }
}

fn key(n: u8) -> Credential {
    Credential::AddrKeyHash(vec![n; 4])
}

fn anchor(url: &str) -> Anchor {
    Anchor {
        url: url.to_string(),
        data_hash: vec![9, 9],
    }
}

fn reg(c: &Credential, deposit: u64, a: Option<Anchor>, epoch: u64) -> TxCertificate {
    TxCertificate::DRepRegistration(DRepRegistrationWithPos {
        reg: DRepRegistration {
            credential: c.clone(),
            deposit,
            anchor: a,
        },
        tx_hash: [1u8; 32],
        cert_index: 3,
        epoch,
    })
}

fn dereg(c: &Credential, epoch: u64) -> TxCertificate {
    TxCertificate::DRepDeregistration(DRepDeregistrationWithPos {
        reg: DRepDeregistration {
            credential: c.clone(),
            refund: 0,
        },
        tx_hash: [2u8; 32],
        cert_index: 4,
        epoch,
    })
}

fn update(c: &Credential, a: Option<Anchor>, epoch: u64) -> TxCertificate {
    TxCertificate::DRepUpdate(DRepUpdateWithPos {
        reg: DRepUpdate {
            credential: c.clone(),
            anchor: a,
        },
        tx_hash: [3u8; 32],
        cert_index: 5,
        epoch,
    })
}

#[test]
fn history_disabled_answers_errors() {
    let s = State::new(DRepStorageConfig::default());
    let c = key(1);
    assert_eq!(
        s.get_drep_info(&c).unwrap_err(),
        "Historical DRep storage is disabled by configuration."
    );
    assert_eq!(
        s.get_drep_votes(&c).unwrap_err(),
        "Historical DRep storage is disabled by configuration."
    );
}

#[test]
fn history_parts_not_kept_answer_errors() {
    let cfg = DRepStorageConfig {
        store_info: false,
        store_delegators: false,
        store_metadata: false,
        store_updates: true,
        store_votes: false,
    };
    let mut s = State::new(cfg);
    let c = key(1);
    assert!(s.get_drep_info(&c).unwrap().is_none());
    s.process_one_cert(&reg(&c, 10, None, 1)).unwrap();
    assert_eq!(s.get_drep_info(&c).unwrap_err(), "DRep info storage is disabled by configuration.");
    assert_eq!(
        s.get_drep_delegators(&c).unwrap_err(),
        "DRep delegator storage is disabled by configuration."
    );
    assert_eq!(s.get_drep_anchor(&c).unwrap_err(), "DRep metadata not found");
    assert_eq!(
        s.get_drep_votes(&c).unwrap_err(),
        "DRep votes storage is disabled by configuration."
    );
    let updates = s.get_drep_updates(&c).unwrap().unwrap();
    assert_eq!(updates.len(), 1);
    assert_eq!(updates[0].action, DRepActionUpdate::Registered);
}

#[test]
fn history_follows_registration_update_and_deregistration() {
    let mut s = State::new(all_on());
    let c = key(7);
    assert_eq!(s.process_one_cert(&reg(&c, 500, Some(anchor("https://a")), 4)).unwrap(), true);
    let info = *s.get_drep_info(&c).unwrap().unwrap();
    assert_eq!(info.deposit, 500);
    assert_eq!(info.active_epoch, Some(4));
    assert_eq!(info.last_active_epoch, 4);
    assert!(!info.retired);
    assert_eq!(s.get_drep_anchor(&c).unwrap().unwrap().url, "https://a");

    // An update without an anchor keeps the metadata anchor.
    assert_eq!(s.process_one_cert(&update(&c, None, 6)).unwrap(), false);
    assert_eq!(s.get_drep_anchor(&c).unwrap().unwrap().url, "https://a");
    assert!(s.get_drep(&c).unwrap().anchor.is_none());
    assert_eq!(s.get_drep_info(&c).unwrap().unwrap().last_active_epoch, 6);

    // An update with an anchor replaces it.
    s.process_one_cert(&update(&c, Some(anchor("https://b")), 7)).unwrap();
    assert_eq!(s.get_drep_anchor(&c).unwrap().unwrap().url, "https://b");

    // Re-registration with zero deposit keeps the deposit and replaces the anchor.
    assert_eq!(s.process_one_cert(&reg(&c, 0, None, 8)).unwrap(), false);
    assert_eq!(s.get_drep(&c).unwrap().deposit, 500);
    assert!(s.get_drep_anchor(&c).unwrap().is_none());

    assert_eq!(s.process_one_cert(&dereg(&c, 9)).unwrap(), true);
    let info = *s.get_drep_info(&c).unwrap().unwrap();
    assert!(info.retired);
    assert_eq!(info.deposit, 0);
    assert_eq!(info.active_epoch, None);
    assert_eq!(info.last_active_epoch, 9);
    let updates = s.get_drep_updates(&c).unwrap().unwrap();
    let actions: Vec<DRepActionUpdate> = updates.iter().map(|u| u.action).collect();
    assert_eq!(
        actions,
        vec![
            DRepActionUpdate::Registered,
            DRepActionUpdate::Updated,
            DRepActionUpdate::Updated,
            DRepActionUpdate::Registered,
            DRepActionUpdate::Deregistered
        ]
    );
    assert_eq!(updates[4].tx_hash, [2u8; 32]);
    assert_eq!(updates[4].cert_index, 4);
}

#[test]
fn refused_certificates_name_their_credential() {
    let mut s = State::new(DRepStorageConfig::default());
    let c = key(2);
    match s.process_one_cert(&dereg(&c, 1)) {
        Err(CertError::UnknownDeregistration { credential }) => assert_eq!(credential, c),
        other => panic!("unexpected {other:?}"),
    }
    match s.process_one_cert(&update(&c, None, 1)) {
        Err(CertError::UnknownUpdate { credential }) => assert_eq!(credential, c),
        other => panic!("unexpected {other:?}"),
    }
    s.process_one_cert(&reg(&c, 3, None, 1)).unwrap();
    match s.process_one_cert(&reg(&c, 4, None, 1)) {
        Err(CertError::ReplacementRequiresZeroDeposit { credential, deposit }) => {
            assert_eq!(credential, c);
            assert_eq!(deposit, 4);
        }
        other => panic!("unexpected {other:?}"),
    }
}

#[test]
fn registration_then_deregistration_leaves_no_drep() {
    let mut s = State::new(all_on());
    let c = key(3);
    assert_eq!(s.process_one_cert(&reg(&c, 1, None, 1)).unwrap(), true);
    assert_eq!(s.process_one_cert(&dereg(&c, 2)).unwrap(), true);
    assert_eq!(s.get_count(), 0);
    assert!(s.list().is_empty());
}

#[test]
fn other_certificates_change_nothing() {
    let mut s = State::new(DRepStorageConfig::default());
    let c = key(3);
    assert_eq!(
        s.process_one_cert(&TxCertificate::StakeRegistration(c.clone())).unwrap(),
        false
    );
    assert_eq!(s.get_count(), 0);
}

#[test]
fn lists_registered_dreps_once() {
    let mut s = State::new(DRepStorageConfig::default());
    s.process_one_cert(&reg(&key(1), 10, None, 1)).unwrap();
    s.process_one_cert(&reg(&key(2), 20, None, 1)).unwrap();
    s.process_one_cert(&reg(&key(1), 0, None, 1)).unwrap();
    let mut list = s.active_drep_list();
    list.sort_by_key(|(_, d)| *d);
    assert_eq!(list, vec![(key(1), 10), (key(2), 20)]);
    let mut creds = s.list();
    creds.sort_by_key(|c| c.get_hash());
    assert_eq!(creds, vec![key(1), key(2)]);
}

#[test]
fn expirations_mark_only_dreps_past_the_offset() {
    let mut s = State::new(all_on());
    s.process_one_cert(&reg(&key(1), 10, None, 5)).unwrap();
    s.process_one_cert(&reg(&key(2), 10, None, 8)).unwrap();
    s.update_drep_expirations(10, 3);
    assert!(s.get_drep_info(&key(1)).unwrap().unwrap().expired);
    assert!(!s.get_drep_info(&key(2)).unwrap().unwrap().expired);
    // An offset past the end of the epochs never expires anyone.
    s.update_drep_expirations(11, u32::MAX);
    assert!(!s.get_drep_info(&key(2)).unwrap().unwrap().expired);
    // A later update clears the mark.
    s.process_one_cert(&update(&key(1), None, 11)).unwrap();
    assert!(!s.get_drep_info(&key(1)).unwrap().unwrap().expired);
}

fn votes_msg() -> GovernanceProceduresMessage {
    let proc_ = |vote, index| {
        (
            GovActionId {
                transaction_id: vec![1],
                action_index: 0,
            },
            VotingProcedure {
                vote,
                anchor: None,
                vote_index: index,
            },
        )
    };
    GovernanceProceduresMessage {
        voting_procedures: vec![(
            [7u8; 32],
            VotingProcedures {
                votes: vec![
                    (
                        Voter::DRepKey(vec![5; 4]),
                        SingleVoterVotes {
                            voting_procedures: vec![proc_(Vote::Yes, 0), proc_(Vote::No, 1)],
                        },
                    ),
                    (
                        Voter::StakePoolKey(vec![6; 4]),
                        SingleVoterVotes {
                            voting_procedures: vec![proc_(Vote::Abstain, 2)],
                        },
                    ),
                ],
            },
        )],
    }
}

#[test]
fn votes_are_recorded_for_dreps_only() {
    let mut s = State::new(all_on());
    s.process_votes(&votes_msg());
    let votes = s.get_drep_votes(&key(5)).unwrap().unwrap();
    assert_eq!(votes.len(), 2);
    assert_eq!(votes[0].vote, Vote::Yes);
    assert_eq!(votes[0].cert_index, 0);
    assert_eq!(votes[0].tx_hash, [7u8; 32]);
    assert_eq!(votes[1].vote, Vote::No);
    assert!(s.get_drep_votes(&key(6)).unwrap().is_none());
    // A DRep that votes gets a history of its own.
    assert!(s.get_drep_info(&key(5)).unwrap().is_some());
}

#[test]
fn votes_are_ignored_when_not_kept() {
    let mut cfg = all_on();
    cfg.store_votes = false;
    let mut s = State::new(cfg);
    s.process_votes(&votes_msg());
    assert!(s.get_drep_votes(&key(5)).unwrap().is_none());
}

#[test]
fn delegations_are_set_aside_and_applied() {
    let mut s = State::new(all_on());
    let drep_a = key(10);
    let drep_b = key(11);
    s.process_one_cert(&reg(&drep_a, 1, None, 1)).unwrap();
    s.process_one_cert(&reg(&drep_b, 1, None, 1)).unwrap();
    let staker = Credential::ScriptHash(vec![42; 4]);
    let msg = TxCertificatesMessage {
        certificates: vec![
            TxCertificate::VoteDelegation(VoteDelegation {
                credential: staker.clone(),
                drep: DRepChoice::Key(vec![10; 4]),
            }),
            reg(&key(12), 1, None, 1),
        ],
    };
    let batched = s.process_certificates(&msg).delegations;
    assert_eq!(batched.len(), 1);
    assert_eq!(s.get_count(), 3);
    match delegation_query(&batched) {
        AccountsStateQuery::GetAccountsDrepDelegationsMap { stake_keys } => {
            assert_eq!(stake_keys, vec![vec![42u8; 4]])
        }
        other => panic!("unexpected {other:?}"),
    }
    let response =
        AccountsStateQueryResponse::AccountsDrepDelegationsMap(vec![(vec![42u8; 4], None)]);
    s.apply_delegation_response(&batched, &response).unwrap();
    assert_eq!(s.get_drep_delegators(&drep_a).unwrap().unwrap(), &vec![staker.clone()]);

    // The staker moves from drep_a to drep_b.
    let msg = TxCertificatesMessage {
        certificates: vec![TxCertificate::StakeAndVoteDelegation(StakeAndVoteDelegation {
            credential: staker.clone(),
            operator: vec![0; 4],
            drep: DRepChoice::Key(vec![11; 4]),
        })],
    };
    let batched = s.process_certificates(&msg).delegations;
    let response = AccountsStateQueryResponse::AccountsDrepDelegationsMap(vec![(
        vec![42u8; 4],
        Some(DRepChoice::Key(vec![10; 4])),
    )]);
    s.apply_delegation_response(&batched, &response).unwrap();
    assert!(s.get_drep_delegators(&drep_a).unwrap().unwrap().is_empty());
    assert_eq!(s.get_drep_delegators(&drep_b).unwrap().unwrap(), &vec![staker.clone()]);

    // Delegating again to the same DRep does not duplicate the delegator.
    s.apply_delegation_response(&batched, &response).unwrap();
    assert_eq!(s.get_drep_delegators(&drep_b).unwrap().unwrap().len(), 1);
}

#[test]
fn delegations_to_abstain_or_unknown_keys_are_ignored() {
    let mut s = State::new(all_on());
    let staker = key(1);
    let batched = vec![(staker.clone(), DRepChoice::Abstain)];
    let response =
        AccountsStateQueryResponse::AccountsDrepDelegationsMap(vec![(vec![1u8; 4], None), (vec![9u8], None)]);
    s.apply_delegation_response(&batched, &response).unwrap();
    assert!(s.get_drep_info(&key(1)).unwrap().is_none());
}

#[test]
fn unexpected_delegation_response_is_refused() {
    let mut s = State::new(all_on());
    let batched = vec![(key(1), DRepChoice::Key(vec![2; 4]))];
    let r = s.apply_delegation_response(&batched, &AccountsStateQueryResponse::NotFound);
    assert!(matches!(r, Err(DelegationError::UnexpectedResponse)));
    assert!(s.get_drep_info(&key(2)).unwrap().is_none());
}

#[test]
fn delegations_without_history_are_refused() {
    let mut s = State::new(DRepStorageConfig::default());
    let batched = vec![(key(1), DRepChoice::Key(vec![2; 4]))];
    let response =
        AccountsStateQueryResponse::AccountsDrepDelegationsMap(vec![(vec![1u8; 4], None)]);
    assert!(matches!(
        s.apply_delegations(&batched, &match response {
            AccountsStateQueryResponse::AccountsDrepDelegationsMap(m) => m,
            _ => unreachable!(),
        }),
        Err(DelegationError::NoHistory)
    ));
}

#[test]
fn choice_credentials() {
    assert_eq!(drep_choice_to_credential(&DRepChoice::Key(vec![1])), Some(Credential::AddrKeyHash(vec![1])));
    assert_eq!(drep_choice_to_credential(&DRepChoice::Script(vec![2])), Some(Credential::ScriptHash(vec![2])));
    assert_eq!(drep_choice_to_credential(&DRepChoice::Abstain), None);
    assert_eq!(drep_choice_to_credential(&DRepChoice::NoConfidence), None);
}

#[test]
fn fresh_history_entry_follows_configuration() {
    let cfg = DRepStorageConfig {
        store_info: true,
        store_delegators: false,
        store_metadata: true,
        store_updates: false,
        store_votes: true,
    };
    let h = HistoricalDRepState::from_config(&cfg);
    assert_eq!(h.info.unwrap().deposit, 0);
    assert!(h.delegators.is_none());
    assert!(h.metadata.unwrap().anchor.is_none());
    assert!(h.updates.is_none());
    assert!(h.votes.unwrap().is_empty());
}

fn block(status: BlockStatus, number: u64) -> BlockInfo {
    BlockInfo {
        status,
        slot: number,
        number,
        hash: vec![],
        epoch: 1,
        new_epoch: false,
        era: Era::Conway,
    }
}

#[test]
fn rollback_restores_the_state_before_the_block() {
    let mut h = StateHistory::<State>::new("test");
    let c = key(1);
    let mut s = h.get_or_init_with(|| State::new(DRepStorageConfig::default()));
    s.process_one_cert(&reg(&c, 1, None, 1)).unwrap();
    h.commit(&block(BlockStatus::Volatile, 1), s);
    let mut s = h.get_current_state();
    s.process_one_cert(&reg(&key(2), 1, None, 1)).unwrap();
    h.commit(&block(BlockStatus::Volatile, 2), s);
    let mut s = h.get_current_state();
    s.process_one_cert(&dereg(&c, 1)).unwrap();
    h.commit(&block(BlockStatus::Volatile, 3), s);
    assert_eq!(h.get_current_state().get_count(), 1);
    let rolled = h.get_rolled_back_state(&block(BlockStatus::RolledBack, 2));
    assert_eq!(rolled.get_count(), 1);
    assert!(rolled.get_drep(&c).is_some());
    assert!(h.current().unwrap().get_drep(&key(2)).is_none());
}

#[test]
fn answers_drep_queries() {
    let c = key(1);
    let q = GovernanceStateQuery::GetDRepsList;
    match answer_drep_query(None, &q) {
        GovernanceStateQueryResponse::Error(e) => assert_eq!(e, "No current DRep state"),
        other => panic!("unexpected {other:?}"),
    }
    let mut s = State::new(all_on());
    let q = GovernanceStateQuery::GetDRepInfoWithDelegators {
        drep_credential: c.clone(),
    };
    assert!(matches!(answer_drep_query(Some(&s), &q), GovernanceStateQueryResponse::NotFound));
    s.process_one_cert(&reg(&c, 9, Some(anchor("https://m")), 3)).unwrap();
    match answer_drep_query(Some(&s), &q) {
        GovernanceStateQueryResponse::DRepInfoWithDelegators(w) => {
            assert_eq!(w.info.deposit, 9);
            assert_eq!(w.info.active_epoch, Some(3));
            assert!(w.delegators.is_empty());
        }
        other => panic!("unexpected {other:?}"),
    }
    match answer_drep_query(
        Some(&s),
        &GovernanceStateQuery::GetDRepMetadata {
            drep_credential: c.clone(),
        },
    ) {
        GovernanceStateQueryResponse::DRepMetadata(m) => {
            assert_eq!(m.anchor.unwrap().url, "https://m")
        }
        other => panic!("unexpected {other:?}"),
    }
    match answer_drep_query(
        Some(&s),
        &GovernanceStateQuery::GetDRepUpdates {
            drep_credential: c.clone(),
        },
    ) {
        GovernanceStateQueryResponse::DRepUpdates(u) => assert_eq!(u.updates.len(), 1),
        other => panic!("unexpected {other:?}"),
    }
    match answer_drep_query(Some(&s), &GovernanceStateQuery::GetProposalsList) {
        GovernanceStateQueryResponse::Error(e) => {
            assert_eq!(e, "Unimplemented governance query: GetProposalsList")
        }
        other => panic!("unexpected {other:?}"),
    }
    let plain = State::new(DRepStorageConfig::default());
    match answer_drep_query(
        Some(&plain),
        &GovernanceStateQuery::GetDRepVotes {
            drep_credential: c.clone(),
        },
    ) {
        GovernanceStateQueryResponse::Error(e) => {
            assert_eq!(e, "Historical DRep storage is disabled by configuration.")
        }
        other => panic!("unexpected {other:?}"),
    }
    match answer_drep_query(None, &GovernanceStateQuery::GetDRepDelegators { drep_credential: c }) {
        GovernanceStateQueryResponse::Error(e) => assert_eq!(e, "No current state"),
        other => panic!("unexpected {other:?}"),
    }
}

#[test]
fn distribution_history_keeps_one_distribution_per_epoch() {
    let mut d = DistributionHistory::new();
    d.insert_drdd(
        3,
        DRepDelegationDistribution {
            abstain: 1,
            no_confidence: 2,
            dreps: vec![(key(1), 5)],
        },
    );
    d.insert_drdd(
        3,
        DRepDelegationDistribution {
            abstain: 7,
            no_confidence: 0,
            dreps: vec![],
        },
    );
    assert_eq!(d.get_drdd(3).unwrap().abstain, 7);
    assert!(d.get_drdd(4).is_none());
    let mut spdd = BTreeMap::new();
    spdd.insert(vec![1u8], 100u64);
    d.insert_spdd(5, spdd);
    assert_eq!(d.get_spdd(5).unwrap().get(&vec![1u8]), Some(&100));
    assert!(d.get_spdd(3).is_none());
}

#[test]
fn repeated_expiry_check_changes_nothing() {
    let mut s = State::new(all_on());
    s.process_one_cert(&reg(&key(1), 10, None, 2)).unwrap();
    s.update_drep_expirations(10, 3);
    let first = *s.get_drep_info(&key(1)).unwrap().unwrap();
    s.update_drep_expirations(10, 3);
    let second = *s.get_drep_info(&key(1)).unwrap().unwrap();
    assert_eq!(first, second);
    assert!(second.expired);
    assert_eq!(second.active_epoch, Some(2));
}

#[test]
fn delegations_apply_in_turn_without_delegators() {
    let mut s = State::new(DRepStorageConfig::default());
    let msg = TxCertificatesMessage {
        certificates: vec![
            TxCertificate::VoteDelegation(VoteDelegation {
                credential: key(9),
                drep: DRepChoice::Key(vec![1; 4]),
            }),
            reg(&key(1), 5, None, 1),
            dereg(&key(2), 1),
            update(&key(1), Some(anchor("https://z")), 1),
        ],
    };
    let batched = s.process_certificates(&msg).delegations;
    assert!(batched.is_empty());
    assert_eq!(s.get_count(), 1);
    assert_eq!(s.get_drep(&key(1)).unwrap().anchor.as_ref().unwrap().url, "https://z");
}
