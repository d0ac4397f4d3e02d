use acropolis_state::drep_state::{DRepRecord, DRepStorageConfig, State};
use acropolis_state::messages::{
    DRepDeregistration, DRepDeregistrationWithPos, DRepRegistration, DRepRegistrationWithPos,
    DRepUpdate, DRepUpdateWithPos, TxCertificate,
};
use acropolis_state::state_history::StateHistory;
use acropolis_state::types::{Anchor, BlockInfo, BlockStatus, Credential, Era};

const CRED_1: [u8; 28] = [
    123, 222, 247, 170, 243, 201, 37, 233, 124, 164, 45, 54, 241, 25, 176, 70, 154, 18, 204, 164,
    161, 126, 207, 239, 198, 144, 3, 80,
];
const CRED_2: [u8; 28] = [
    124, 223, 248, 171, 244, 202, 38, 234, 125, 165, 46, 55, 242, 26, 177, 71, 155, 19, 205, 165,
    162, 127, 208, 240, 199, 145, 4, 81,
];

#[test]
fn test_drep_process_one_certificate() {
    let tx_cred = Credential::AddrKeyHash(CRED_1.to_vec());
    let tx_cert = TxCertificate::DRepRegistration(DRepRegistrationWithPos {
        reg: DRepRegistration {
            credential: tx_cred.clone(),
            deposit: 500000000,
            anchor: None,
        },
        tx_hash: [0u8; 32],
        cert_index: 1,
        epoch: 1,
    });
    let mut state = State::new(DRepStorageConfig::default());

    assert_eq!(state.process_one_cert(&tx_cert).unwrap(), true);
    assert_eq!(state.get_count(), 1);
    let tx_cert_record = DRepRecord {
        deposit: 500000000,
        anchor: None,
    };
    assert_eq!(state.get_drep(&tx_cred).unwrap().deposit, tx_cert_record.deposit);
}

#[test]
fn test_drep_do_not_replace_existing_certificate() {
    let tx_cred = Credential::AddrKeyHash(CRED_1.to_vec());
    let tx_cert = TxCertificate::DRepRegistration(DRepRegistrationWithPos {
        reg: DRepRegistration {
            credential: tx_cred.clone(),
            deposit: 500000000,
            anchor: None,
        },
        tx_hash: [0u8; 32],
        cert_index: 1,
        epoch: 1,
    });
    let mut state = State::new(DRepStorageConfig::default());
    assert_eq!(state.process_one_cert(&tx_cert).unwrap(), true);

    let bad_tx_cert = TxCertificate::DRepRegistration(DRepRegistrationWithPos {
        reg: DRepRegistration {
            credential: tx_cred.clone(),
            deposit: 600000000,
            anchor: None,
        },
        tx_hash: [0u8; 32],
        cert_index: 1,
        epoch: 1,
    });
    assert!(state.process_one_cert(&bad_tx_cert).is_err());

    assert_eq!(state.get_count(), 1);
    let tx_cert_record = DRepRecord {
        deposit: 500000000,
        anchor: None,
    };
    assert_eq!(state.get_drep(&tx_cred).unwrap().deposit, tx_cert_record.deposit);
}

#[test]
fn test_drep_update_certificate() {
    let tx_cred = Credential::AddrKeyHash(CRED_1.to_vec());
    let tx_cert = TxCertificate::DRepRegistration(DRepRegistrationWithPos {
        reg: DRepRegistration {
            credential: tx_cred.clone(),
            deposit: 500000000,
            anchor: None,
        },
        tx_hash: [0u8; 32],
        cert_index: 1,
        epoch: 1,
    });
    let mut state = State::new(DRepStorageConfig::default());
    assert_eq!(state.process_one_cert(&tx_cert).unwrap(), true);

    let anchor = Anchor {
        url: "https://poop.bike".into(),
        data_hash: vec![0x13, 0x37],
    };
    let update_anchor_tx_cert = TxCertificate::DRepUpdate(DRepUpdateWithPos {
        reg: DRepUpdate {
            credential: tx_cred.clone(),
            anchor: Some(anchor.clone()),
        },
        tx_hash: [0u8; 32],
        cert_index: 1,
        epoch: 1,
    });

    assert_eq!(state.process_one_cert(&update_anchor_tx_cert).unwrap(), false);

    assert_eq!(state.get_count(), 1);
    let tx_cert_record = DRepRecord {
        deposit: 500000000,
        anchor: Some(anchor),
    };
    assert_eq!(state.get_drep(&tx_cred).unwrap().anchor, tx_cert_record.anchor);
}

#[test]
fn test_drep_do_not_update_nonexistent_certificate() {
    let tx_cred = Credential::AddrKeyHash(CRED_1.to_vec());
    let tx_cert = TxCertificate::DRepRegistration(DRepRegistrationWithPos {
        reg: DRepRegistration {
            credential: tx_cred.clone(),
            deposit: 500000000,
            anchor: None,
        },
        tx_hash: [0u8; 32],
        cert_index: 1,
        epoch: 1,
    });
    let mut state = State::new(DRepStorageConfig::default());
    assert_eq!(state.process_one_cert(&tx_cert).unwrap(), true);

    let anchor = Anchor {
        url: "https://poop.bike".into(),
        data_hash: vec![0x13, 0x37],
    };

    let update_anchor_tx_cert = TxCertificate::DRepUpdate(DRepUpdateWithPos {
        reg: DRepUpdate {
            credential: Credential::AddrKeyHash(CRED_2.to_vec()),
            anchor: Some(anchor.clone()),
        },
        tx_hash: [0u8; 32],
        cert_index: 1,
        epoch: 1,
    });

    assert!(state.process_one_cert(&update_anchor_tx_cert).is_err());

    assert_eq!(state.get_count(), 1);
    let tx_cert_record = DRepRecord {
        deposit: 500000000,
        anchor: Some(anchor),
    };
    assert_eq!(state.get_drep(&tx_cred).unwrap().deposit, tx_cert_record.deposit);
}

#[test]
fn test_drep_deregister() {
    let tx_cred = Credential::AddrKeyHash(CRED_1.to_vec());
    let tx_cert = TxCertificate::DRepRegistration(DRepRegistrationWithPos {
        reg: DRepRegistration {
            credential: tx_cred.clone(),
            deposit: 500000000,
            anchor: None,
        },
        tx_hash: [0u8; 32],
        cert_index: 1,
        epoch: 1,
    });
    let mut state = State::new(DRepStorageConfig::default());
    assert_eq!(state.process_one_cert(&tx_cert).unwrap(), true);

    let unregister_tx_cert = TxCertificate::DRepDeregistration(DRepDeregistrationWithPos {
        reg: DRepDeregistration {
            credential: tx_cred.clone(),
            refund: 500000000,
        },
        tx_hash: [0u8; 32],
        cert_index: 1,
        epoch: 1,
    });
    assert_eq!(state.process_one_cert(&unregister_tx_cert).unwrap(), true);
    assert_eq!(state.get_count(), 0);
    assert!(state.get_drep(&tx_cred).is_none());
}

#[test]
fn test_drep_do_not_deregister_nonexistent_cert() {
    let tx_cred = Credential::AddrKeyHash(CRED_1.to_vec());
    let tx_cert = TxCertificate::DRepRegistration(DRepRegistrationWithPos {
        reg: DRepRegistration {
            credential: tx_cred.clone(),
            deposit: 500000000,
            anchor: None,
        },
        tx_hash: [0u8; 32],
        cert_index: 1,
        epoch: 1,
    });
    let mut state = State::new(DRepStorageConfig::default());
    assert_eq!(state.process_one_cert(&tx_cert).unwrap(), true);

    let unregister_tx_cert = TxCertificate::DRepDeregistration(DRepDeregistrationWithPos {
        reg: DRepDeregistration {
            credential: Credential::AddrKeyHash(CRED_2.to_vec()),
            refund: 500000000,
        },
        tx_hash: [0u8; 32],
        cert_index: 1,
        epoch: 1,
    });
    assert!(state.process_one_cert(&unregister_tx_cert).is_err());
    assert_eq!(state.get_count(), 1);
    assert_eq!(state.get_drep(&tx_cred).unwrap().deposit, 500000000);
}

// Create a block for testing
fn create_block(status: BlockStatus, slot: u64, number: u64) -> BlockInfo {
    BlockInfo {
        status,
        slot,
        number,
        hash: vec![],
        epoch: 99,
        new_epoch: false,
        era: Era::Byron,
    }
}

fn reg_with_pos(credential: &Credential, deposit: u64, anchor: Option<Anchor>, epoch: u64) -> TxCertificate {
    TxCertificate::DRepRegistration(DRepRegistrationWithPos {
        reg: DRepRegistration {
            credential: credential.clone(),
            deposit,
            anchor,
        },
        tx_hash: [0u8; 32],
        cert_index: 0,
        epoch,
    })
}

fn dereg_with_pos(credential: &Credential, refund: u64, epoch: u64) -> TxCertificate {
    TxCertificate::DRepDeregistration(DRepDeregistrationWithPos {
        reg: DRepDeregistration {
            credential: credential.clone(),
            refund,
        },
        tx_hash: [0u8; 32],
        cert_index: 0,
        epoch,
    })
}

fn update_with_pos(credential: &Credential, anchor: Option<Anchor>, epoch: u64) -> TxCertificate {
    TxCertificate::DRepUpdate(DRepUpdateWithPos {
        reg: DRepUpdate {
            credential: credential.clone(),
            anchor,
        },
        tx_hash: [0u8; 32],
        cert_index: 0,
        epoch,
    })
}

fn cred(n: u8) -> Credential {
    Credential::AddrKeyHash(vec![
        n, 1, 2, 3, 4, 5, 6, 7, 8, 9, 10, 11, 12, 13, 14, 15, 16, 17, 18, 19, 20, 21, 22, 23, 24,
        25, 26, 27,
    ])
}

#[test]
fn rollback_removes_future_registered_drep() {
    let mut history = StateHistory::<State>::new("DRepRollbackAdd");
    let cfg = DRepStorageConfig {
        store_info: true,
        store_delegators: false,
        store_metadata: true,
        store_updates: true,
        store_votes: false,
    };
    let c = Credential::AddrKeyHash(CRED_1.to_vec());

    // register drep at block 10
    let b10 = create_block(BlockStatus::Volatile, 10, 10);
    {
        let mut s = history.get_or_init_with(|| State::new(cfg));
        s.process_one_cert(&reg_with_pos(&c, 1_000_000, None, 10)).unwrap();
        history.commit(&b10, s);
    }
    assert!(history.get_current_state().get_drep(&c).is_some());

    // rollback to 10
    let rb = create_block(BlockStatus::RolledBack, 10, 10);
    let rolled = history.get_rolled_back_state(&rb);
    history.commit(&rb, rolled);

    // check that drep does not exist
    assert!(history.get_current_state().get_drep(&c).is_none());
}

#[test]
fn rollback_reinstates_future_deregistered_drep() {
    let mut history = StateHistory::<State>::new("DRepStateTest");
    let c = cred(2);

    let cfg = DRepStorageConfig {
        store_info: true,
        store_delegators: false,
        store_metadata: true,
        store_updates: true,
        store_votes: false,
    };

    // register drep at block 10
    let b10 = create_block(BlockStatus::Volatile, 10, 10);
    {
        let mut s = history.get_or_init_with(|| State::new(cfg));
        s.process_one_cert(&reg_with_pos(&c, 5_000_000, None, 10)).unwrap();
        history.commit(&b10, s);
    }
    // Check that drep was registered
    {
        let s = history.get_current_state();
        assert_eq!(s.get_count(), 1);
        assert_eq!(s.get_drep(&c).unwrap().deposit, 5_000_000);
    }

    // deregister drep at block 11
    let b11 = create_block(BlockStatus::Volatile, 11, 11);
    {
        let mut s = history.get_current_state();
        s.process_one_cert(&dereg_with_pos(&c, 5_000_000, 11)).unwrap();
        history.commit(&b11, s);
    }
    // Check that drep was deregistered
    {
        let s = history.get_current_state();
        assert!(s.get_drep(&c).is_none());
    }

    // rollback to 11
    let rb_to_11 = create_block(BlockStatus::RolledBack, 11, 11);
    {
        let s = history.get_rolled_back_state(&rb_to_11);
        history.commit(&rb_to_11, s);
    }
    // Ensure drep is restored
    {
        let s = history.get_current_state();
        assert_eq!(s.get_count(), 1);
        assert_eq!(s.get_drep(&c).unwrap().deposit, 5_000_000);
    }
}

#[test]
fn rollback_reverts_future_anchor_update() {
    let mut history = StateHistory::<State>::new("DRepRollbackModify");
    let cfg = DRepStorageConfig {
        store_info: true,
        store_delegators: false,
        store_metadata: true,
        store_updates: true,
        store_votes: false,
    };
    let c = Credential::AddrKeyHash(CRED_1.to_vec());
    let anchor_a = Anchor {
        url: "https://a.example".into(),
        data_hash: vec![1, 2, 3],
    };
    let anchor_b = Anchor {
        url: "https://b.example".into(),
        data_hash: vec![4, 5, 6],
    };

    // register drep at block 10
    let b10 = create_block(BlockStatus::Volatile, 10, 10);
    {
        let mut s = history.get_or_init_with(|| State::new(cfg));
        s.process_one_cert(&reg_with_pos(&c, 5_000_000, Some(anchor_a.clone()), 10)).unwrap();
        history.commit(&b10, s);
    }

    // check that anchor was set
    assert_eq!(
        history.get_current_state().get_drep(&c).unwrap().anchor.as_ref(),
        Some(&anchor_a)
    );

    // update drep registration at block 11
    let b11 = create_block(BlockStatus::Volatile, 11, 11);
    {
        let mut s = history.get_current_state();
        s.process_one_cert(&update_with_pos(&c, Some(anchor_b.clone()), 11)).unwrap();
        history.commit(&b11, s);
    }
    // Check that anchor was updated
    assert_eq!(
        history.get_current_state().get_drep(&c).unwrap().anchor.as_ref(),
        Some(&anchor_b)
    );

    // rollback to 11
    let rb = create_block(BlockStatus::RolledBack, 11, 11);
    let rolled = history.get_rolled_back_state(&rb);
    history.commit(&rb, rolled);

    // check that anchor was restored to previous
    assert_eq!(
        history.get_current_state().get_drep(&c).unwrap().anchor.as_ref(),
        Some(&anchor_a)
    );
}

#[test]
fn update_drep_expirations_marks_expired_when_past_offset() {
    let mut history = StateHistory::<State>::new("DRepExpirations");
    let cfg = DRepStorageConfig {
        store_info: true,
        store_delegators: false,
        store_metadata: true,
        store_updates: true,
        store_votes: false,
    };
    let c = Credential::AddrKeyHash(CRED_1.to_vec());

    // register drep with active_epoch 5
    let b1 = create_block(BlockStatus::Volatile, 5, 5);
    {
        let mut s = history.get_or_init_with(|| State::new(cfg));
        s.process_one_cert(&reg_with_pos(&c, 1_000_000, None, 5)).unwrap();
        history.commit(&b1, s);
    }

    // create a block past retired param (3 epochs later for this test)
    let b2 = create_block(BlockStatus::Volatile, 8, 8);
    {
        let mut s = history.get_current_state();
        s.update_drep_expirations(10, 3);
        history.commit(&b2, s);
    }

    // check that drep is marked as expired
    let s = history.get_current_state();
    assert!(s.get_drep_info(&c).unwrap().unwrap().expired);
}
