use acropolis_state::drep_module::{is_epoch_boundary, BlockPipeline, Filing};
use acropolis_state::drep_state::{DRepStorageConfig, State};
use acropolis_state::messages::{
    DRepRegistration, DRepRegistrationWithPos, GovernanceProceduresMessage, TxCertificate,
    TxCertificatesMessage,
};
use acropolis_state::state_history::StateHistory;
use acropolis_state::types::{BlockInfo, BlockStatus, Credential, Era};

fn block(status: BlockStatus, number: u64, epoch: u64) -> BlockInfo {
    BlockInfo {
        status,
        slot: number,
        number,
        hash: vec![],
        epoch,
        new_epoch: false,
        era: Era::Conway,
    }
}

fn certs() -> TxCertificatesMessage {
    TxCertificatesMessage {
        certificates: vec![],
    }
}

fn gov() -> GovernanceProceduresMessage {
    GovernanceProceduresMessage {
        voting_procedures: vec![],
    }
}

fn history() -> StateHistory<State> {
    StateHistory::new("DRepState")
}

fn votes_on() -> DRepStorageConfig {
    DRepStorageConfig {
        store_info: false,
        store_delegators: false,
        store_metadata: false,
        store_updates: false,
        store_votes: true,
    }
}

#[test]
fn pipeline_hands_out_blocks_in_order() {
    let mut p = BlockPipeline::new(DRepStorageConfig::default());
    let mut h = history();
    assert_eq!(p.file_certs(&mut h, block(BlockStatus::Volatile, 3, 1), certs()), Filing::Stored);
    assert_eq!(p.file_certs(&mut h, block(BlockStatus::Volatile, 2, 1), certs()), Filing::Stored);
    assert_eq!(p.take_ready().unwrap().bi.number, 2);
    p.note_committed(2);
    assert_eq!(p.take_ready().unwrap().bi.number, 3);
    p.note_committed(3);
    assert!(p.take_ready().is_none());
    assert_eq!(p.last_committed, 3);
}

#[test]
fn pipeline_skips_applied_blocks() {
    let mut p = BlockPipeline::new(DRepStorageConfig::default());
    p.note_committed(5);
    let mut h = history();
    assert_eq!(p.file_certs(&mut h, block(BlockStatus::Volatile, 5, 1), certs()), Filing::Skipped);
    assert_eq!(p.file_gov(&mut h, block(BlockStatus::Volatile, 4, 1), gov()), Filing::Skipped);
    assert!(p.take_ready().is_none());
}

#[test]
fn pipeline_rollback_drops_later_blocks_and_conway_start() {
    let mut p = BlockPipeline::new(votes_on());
    let mut h = history();
    p.note_conway_parameters(7);
    p.note_conway_parameters(9);
    assert_eq!(p.conway_epoch_start, Some(7));
    p.file_certs(&mut h, block(BlockStatus::Volatile, 10, 7), certs());
    p.file_certs(&mut h, block(BlockStatus::Volatile, 11, 7), certs());
    p.file_certs(&mut h, block(BlockStatus::Volatile, 12, 7), certs());
    assert_eq!(
        p.file_certs(&mut h, block(BlockStatus::RolledBack, 11, 7), certs()),
        Filing::RolledBack
    );
    assert_eq!(p.conway_epoch_start, None);
    assert_eq!(p.pending.len(), 1);
    assert_eq!(p.pending.get(&10).unwrap().bi.number, 10);
    assert_eq!(p.last_committed, 0);
    assert_eq!(
        p.file_gov(&mut h, block(BlockStatus::RolledBack, 10, 9), gov()),
        Filing::RolledBack
    );
    assert!(p.pending.is_empty());
    assert_eq!(p.last_committed, 10);
}

#[test]
fn pipeline_applies_rollback_to_committed_block() {
    let cfg = DRepStorageConfig::default();
    let mut p = BlockPipeline::new(cfg);
    let mut h = history();
    let reg = TxCertificate::DRepRegistration(DRepRegistrationWithPos {
        reg: DRepRegistration {
            credential: Credential::AddrKeyHash(vec![1; 4]),
            deposit: 500,
            anchor: None,
        },
        tx_hash: [1u8; 32],
        cert_index: 0,
        epoch: 4,
    });
    // Block 1 is committed with no DRep, block 2 with one.
    h.commit(&block(BlockStatus::Volatile, 1, 4), State::new(cfg));
    let mut s = State::new(cfg);
    s.process_certificates(&TxCertificatesMessage { certificates: vec![reg] });
    h.commit(&block(BlockStatus::Volatile, 2, 4), s);
    p.note_committed(2);
    p.note_conway_parameters(4);
    assert_eq!(h.current().unwrap().get_count(), 1);
    // A rollback to the committed block 2 is applied, not skipped.
    assert_eq!(
        p.file_certs(&mut h, block(BlockStatus::RolledBack, 2, 4), certs()),
        Filing::RolledBack
    );
    assert_eq!(h.current().unwrap().get_count(), 0);
    assert_eq!(p.conway_epoch_start, None);
    assert_eq!(p.last_committed, 2);
    // An ordinary message for an applied block is still skipped.
    assert_eq!(
        p.file_certs(&mut h, block(BlockStatus::Volatile, 2, 4), certs()),
        Filing::Skipped
    );
    assert_eq!(
        p.file_gov(&mut h, block(BlockStatus::RolledBack, 1, 4), gov()),
        Filing::RolledBack
    );
    assert_eq!(p.last_committed, 1);
    assert_eq!(h.current().unwrap().get_count(), 0);
}

#[test]
fn pipeline_waits_for_votes_in_conway() {
    let mut p = BlockPipeline::new(votes_on());
    let mut h = history();
    p.file_certs(&mut h, block(BlockStatus::Volatile, 1, 3), certs());
    // Before Conway no governance procedures are needed.
    assert!(!p.waiting_for_gov());
    p.note_conway_parameters(3);
    assert!(p.waiting_for_gov());
    assert!(p.take_ready().is_none());
    p.store_gov(block(BlockStatus::Volatile, 1, 3), gov());
    assert!(!p.waiting_for_gov());
    let pair = p.take_ready().unwrap();
    assert!(pair.certs.is_some() && pair.gov.is_some());
}

#[test]
fn pipeline_needs_certificates() {
    let mut p = BlockPipeline::new(DRepStorageConfig::default());
    p.store_gov(block(BlockStatus::Volatile, 1, 3), gov());
    assert!(p.take_ready().is_none());
    p.store_certs(block(BlockStatus::Volatile, 1, 3), certs());
    assert!(p.take_ready().is_some());
}

#[test]
fn epoch_boundaries() {
    let mut b = block(BlockStatus::Volatile, 1, 0);
    b.new_epoch = true;
    assert!(!is_epoch_boundary(&b));
    b.epoch = 1;
    assert!(is_epoch_boundary(&b));
    b.new_epoch = false;
    assert!(!is_epoch_boundary(&b));
}

#[test]
fn pipeline_merges_messages_of_one_block() {
    let mut p = BlockPipeline::new(votes_on());
    let mut h = history();
    p.note_conway_parameters(1);
    assert_eq!(p.file_gov(&mut h, block(BlockStatus::Volatile, 4, 2), gov()), Filing::Stored);
    assert_eq!(p.file_certs(&mut h, block(BlockStatus::Volatile, 6, 2), certs()), Filing::Stored);
    assert_eq!(p.file_certs(&mut h, block(BlockStatus::Volatile, 4, 2), certs()), Filing::Stored);
    assert_eq!(p.pending.len(), 2);
    // Block 4 now has both messages and is the lowest: it is handed out.
    let pair = p.take_ready().unwrap();
    assert_eq!(pair.bi.number, 4);
    assert!(pair.certs.is_some() && pair.gov.is_some());
    // Block 6 waits for its governance procedures.
    assert!(p.waiting_for_gov());
    assert!(p.take_ready().is_none());
    assert_eq!(p.pending.len(), 1);
}
