use acropolis_state::accounts::{has_distinct_stake_keys, AccountsStateQuery};
use acropolis_state::drep_module::{
    apply_block, conway_activity, delegations_to_query, needs_parameters, BlockPipeline, Pair,
};
use acropolis_state::drep_state::{CertError, DRepStorageConfig, State};
use acropolis_state::state_history::StateHistory;
use acropolis_state::messages::{
    DRepDeregistration, DRepDeregistrationWithPos, DRepRegistration, DRepRegistrationWithPos, GovernanceProceduresMessage, SingleVoterVotes,
    TxCertificate, TxCertificatesMessage, VoteDelegation, VotingProcedure, VotingProcedures,
};
use acropolis_state::types::{
    BlockInfo, BlockStatus, Credential, DRepChoice, Era, GovActionId, Vote, Voter,
};

fn all_on() -> DRepStorageConfig {
    DRepStorageConfig {
        store_info: true,
        store_delegators: true,
        store_metadata: true,
        store_updates: true,
        store_votes: true,
    }
}

fn key(n: u8) -> Credential {
    Credential::AddrKeyHash(vec![n; 4])
}

fn block(number: u64, epoch: u64, new_epoch: bool) -> BlockInfo {
    BlockInfo {
        status: BlockStatus::Volatile,
        slot: number,
        number,
        hash: vec![],
        epoch,
        new_epoch,
        era: Era::Conway,
    }
}

fn reg(c: &Credential, epoch: u64) -> TxCertificate {
    TxCertificate::DRepRegistration(DRepRegistrationWithPos {
        reg: DRepRegistration {
            credential: c.clone(),
            deposit: 100,
            anchor: None,
        },
        tx_hash: [1u8; 32],
        cert_index: 0,
        epoch,
    })
}

fn votes_by(voter: u8) -> GovernanceProceduresMessage {
    GovernanceProceduresMessage {
        voting_procedures: vec![(
            [7u8; 32],
            VotingProcedures {
                votes: vec![(
                    Voter::DRepKey(vec![voter; 4]),
                    SingleVoterVotes {
                        voting_procedures: vec![(
                            GovActionId {
                                transaction_id: vec![1],
                                action_index: 0,
                            },
                            VotingProcedure {
                                vote: Vote::Yes,
                                anchor: None,
                                vote_index: 0,
                            },
                        )],
                    },
                )],
            },
        )],
    }
}

#[test]
fn apply_block_runs_expirations_votes_then_certificates() {
    let mut s = State::new(all_on());
    s.process_one_cert(&reg(&key(1), 1)).unwrap();
    let pair = Pair {
        bi: block(20, 10, true),
        certs: Some(TxCertificatesMessage {
            certificates: vec![
                reg(&key(2), 10),
                TxCertificate::VoteDelegation(VoteDelegation {
                    credential: key(9),
                    drep: DRepChoice::Key(vec![2; 4]),
                }),
            ],
        }),
        gov: Some(votes_by(5)),
    };
    let batched = apply_block(&mut s, &pair, Some(3)).delegations;
    // Registered at epoch 1 with period 3: expired at epoch 10.
    assert!(s.get_drep_info(&key(1)).unwrap().unwrap().expired);
    // Registered by the block itself, after the expirations.
    assert!(!s.get_drep_info(&key(2)).unwrap().unwrap().expired);
    assert_eq!(s.get_drep_votes(&key(5)).unwrap().unwrap().len(), 1);
    assert_eq!(batched.len(), 1);
    assert_eq!(batched[0].0, key(9));
}

#[test]
fn apply_block_without_activity_leaves_expirations() {
    let mut s = State::new(all_on());
    s.process_one_cert(&reg(&key(1), 1)).unwrap();
    let pair = Pair { bi: block(20, 10, true), certs: None, gov: None };
    let batched = apply_block(&mut s, &pair, None).delegations;
    assert!(!s.get_drep_info(&key(1)).unwrap().unwrap().expired);
    assert!(batched.is_empty());
    assert_eq!(s.get_count(), 1);
}

#[test]
fn parameters_are_read_at_boundaries_where_kept() {
    let mut cfg = DRepStorageConfig::default();
    assert!(!needs_parameters(cfg, &block(1, 3, true)));
    cfg.store_votes = true;
    assert!(needs_parameters(cfg, &block(1, 3, true)));
    assert!(!needs_parameters(cfg, &block(1, 3, false)));
    assert!(!needs_parameters(cfg, &block(1, 0, true)));
    cfg.store_votes = false;
    cfg.store_info = true;
    assert!(needs_parameters(cfg, &block(1, 3, true)));
}

#[test]
fn conway_activity_needs_conway_section() {
    assert_eq!(conway_activity(Some(20)), Ok(20));
    assert_eq!(
        conway_activity(None),
        Err("ProtocolParams without Conway section".to_string())
    );
}

#[test]
fn accounts_are_asked_only_for_kept_delegations() {
    let batched = vec![(key(9), DRepChoice::Abstain)];
    match delegations_to_query(all_on(), &batched) {
        Some(AccountsStateQuery::GetAccountsDrepDelegationsMap { stake_keys }) => {
            assert_eq!(stake_keys, vec![vec![9u8; 4]]);
        }
        _ => panic!("expected a delegations query"),
    }
    assert!(delegations_to_query(all_on(), &Vec::new()).is_none());
    let mut cfg = all_on();
    cfg.store_delegators = false;
    assert!(delegations_to_query(cfg, &batched).is_none());
}

fn dereg(c: &Credential) -> TxCertificate {
    TxCertificate::DRepDeregistration(DRepDeregistrationWithPos {
        reg: DRepDeregistration { credential: c.clone(), refund: 0 },
        tx_hash: [2u8; 32],
        cert_index: 1,
        epoch: 3,
    })
}

#[test]
fn refused_certificates_are_reported_with_their_positions() {
    let mut s = State::new(all_on());
    let msg = TxCertificatesMessage {
        certificates: vec![
            reg(&key(1), 3),
            dereg(&key(7)),
            TxCertificate::VoteDelegation(VoteDelegation {
                credential: key(9),
                drep: DRepChoice::Abstain,
            }),
            dereg(&key(1)),
            dereg(&key(1)),
        ],
    };
    let out = s.process_certificates(&msg);
    assert_eq!(out.delegations.len(), 1);
    assert_eq!(out.refused.len(), 2);
    assert_eq!(out.refused[0].0, 1);
    assert!(matches!(
        &out.refused[0].1,
        CertError::UnknownDeregistration { credential } if *credential == key(7)
    ));
    assert_eq!(out.refused[1].0, 4);
}

#[test]
fn pipeline_processes_and_commits_a_block() {
    let mut p = BlockPipeline::new(all_on());
    let mut h: StateHistory<State> = StateHistory::new("DRepState");
    let mut s = State::new(all_on());
    let pair = Pair {
        bi: block(5, 4, true),
        certs: Some(TxCertificatesMessage {
            certificates: vec![
                reg(&key(2), 4),
                TxCertificate::VoteDelegation(VoteDelegation {
                    credential: key(9),
                    drep: DRepChoice::Key(vec![2; 4]),
                }),
            ],
        }),
        gov: None,
    };
    let work = p.process_block(&mut s, &pair, Some(20));
    assert_eq!(p.conway_epoch_start, Some(4));
    assert!(work.outcome.refused.is_empty());
    match work.accounts_query {
        Some(AccountsStateQuery::GetAccountsDrepDelegationsMap { stake_keys }) => {
            assert_eq!(stake_keys, vec![vec![9u8; 4]])
        }
        _ => panic!("expected a delegations query"),
    }
    p.commit_block(&mut h, &pair.bi, s);
    assert_eq!(p.last_committed, 5);
    assert_eq!(h.current().unwrap().get_count(), 1);

    // Without parameters the Conway start stays, and without delegations no
    // query is made.
    let mut s = h.get_current_state();
    let pair = Pair { bi: block(6, 9, false), certs: None, gov: None };
    let work = p.process_block(&mut s, &pair, None);
    assert_eq!(p.conway_epoch_start, Some(4));
    assert!(work.accounts_query.is_none());
}

#[test]
fn distinct_stake_keys_are_checked() {
    assert!(has_distinct_stake_keys::<u8>(&vec![]));
    assert!(has_distinct_stake_keys(&vec![(vec![1], 0u8), (vec![1, 1], 0u8)]));
    assert!(!has_distinct_stake_keys(&vec![(vec![1], 0u8), (vec![2], 1u8), (vec![1], 2u8)]));
}
