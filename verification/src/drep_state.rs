//! The DRep state: the registered DReps with their deposits and anchors, and,
//! where the configuration asks for it, a history of each DRep (its status,
//! updates, metadata, delegators and votes).

use crate::accounts::{distinct_stake_keys, AccountsStateQuery, AccountsStateQueryResponse};
use crate::cred_map::CredMap;
use crate::messages::{
    DRepDeregistrationWithPos, DRepRegistrationWithPos, DRepUpdateWithPos,
    delegation_fields, extract_delegation_fields, GovernanceProceduresMessage, SingleVoterVotes,
    TxCertificate, TxCertificatesMessage, VotingProcedure,
};
use crate::types::{
    bytes_equal, choice_credential, copy_bytes, drep_choice_to_credential, duplicate_anchor,
    copy_vec, duplicate_credentials, voter_drep_credential, Duplicate, Anchor, AnchorView, Credential, CredentialView,
    DRepChoice, DRepChoiceView, DRepCredential, GovActionId, Lovelace, StakeCredential, TxHash,
    Vote, Voter,
};
use vstd::prelude::*;

verus! {

/// A registered DRep: its deposit and its anchor.
#[derive(Debug, Clone, PartialEq, Eq)]
pub struct DRepRecord {
    pub deposit: Lovelace,
    pub anchor: Option<Anchor>,
}

/// Model of a [`DRepRecord`].
pub struct DRepRecordView {
    pub deposit: u64,
    pub anchor: Option<AnchorView>,
}

impl View for DRepRecord {
    type V = DRepRecordView;

    open spec fn view(&self) -> DRepRecordView {
        DRepRecordView { deposit: self.deposit, anchor: self.anchor.deep_view() }
    }
}

impl DRepRecord {
    pub fn new(deposit: Lovelace, anchor: Option<Anchor>) -> (r: Self)
        ensures
            r.deposit == deposit,
            r.anchor == anchor,
    {
        Self { deposit, anchor }
    }
}

/// The status of a DRep as its history records it.
#[derive(Debug, Clone, Copy, PartialEq, Eq, Structural)]
pub struct DRepRecordExtended {
    pub deposit: Lovelace,
    pub expired: bool,
    pub retired: bool,
    pub active_epoch: Option<u64>,
    pub last_active_epoch: u64,
}

/// The status of a DRep that nothing has been recorded of yet.
pub open spec fn blank_info() -> DRepRecordExtended {
    DRepRecordExtended {
        deposit: 0,
        expired: false,
        retired: false,
        active_epoch: None,
        last_active_epoch: 0,
    }
}

impl Default for DRepRecordExtended {
    fn default() -> (r: Self)
        ensures
            r == blank_info(),
    {
        DRepRecordExtended {
            deposit: 0,
            expired: false,
            retired: false,
            active_epoch: None,
            last_active_epoch: 0,
        }
    }
}

/// What a DRep certificate did.
#[derive(Debug, Clone, Copy, PartialEq, Eq, Structural)]
pub enum DRepActionUpdate {
    Registered,
    Deregistered,
    Updated,
}

/// A DRep certificate in a DRep's history.
#[derive(Debug, Clone, Copy, PartialEq, Eq)]
pub struct DRepUpdateEvent {
    pub tx_hash: TxHash,
    pub cert_index: u64,
    pub action: DRepActionUpdate,
}

/// The metadata anchor of a DRep.
#[derive(Debug, Clone, PartialEq, Eq)]
pub struct DRepMetadata {
    pub anchor: Option<Anchor>,
}

/// A vote cast by a DRep.
#[derive(Debug, Clone, Copy, PartialEq, Eq)]
pub struct VoteRecord {
    pub tx_hash: TxHash,
    pub cert_index: u32,
    pub vote: Vote,
}

/// The history of one DRep. Each part is kept only where the configuration
/// asks for it (`None` otherwise).
#[derive(Debug)]
pub struct HistoricalDRepState {
    pub info: Option<DRepRecordExtended>,
    pub updates: Option<Vec<DRepUpdateEvent>>,
    pub metadata: Option<DRepMetadata>,
    pub delegators: Option<Vec<Credential>>,
    pub votes: Option<Vec<VoteRecord>>,
}

/// Model of a [`HistoricalDRepState`]; `metadata` is the optional anchor of the
/// metadata, where metadata is kept.
#[verifier::ext_equal]
pub struct HistoricalDRepStateView {
    pub info: Option<DRepRecordExtended>,
    pub updates: Option<Seq<DRepUpdateEvent>>,
    pub metadata: Option<Option<AnchorView>>,
    pub delegators: Option<Seq<CredentialView>>,
    pub votes: Option<Seq<VoteRecord>>,
}

impl View for HistoricalDRepState {
    type V = HistoricalDRepStateView;

    open spec fn view(&self) -> HistoricalDRepStateView {
        HistoricalDRepStateView {
            info: self.info,
            updates: match self.updates {
                Some(u) => Some(u@),
                None => None,
            },
            metadata: match self.metadata {
                Some(m) => Some(m.anchor.deep_view()),
                None => None,
            },
            delegators: match self.delegators {
                Some(d) => Some(d.deep_view()),
                None => None,
            },
            votes: match self.votes {
                Some(v) => Some(v@),
                None => None,
            },
        }
    }
}

/// Which parts of the DRep history are kept.
#[derive(Debug, Clone, Copy, PartialEq, Eq, Structural)]
pub struct DRepStorageConfig {
    pub store_info: bool,
    pub store_delegators: bool,
    pub store_metadata: bool,
    pub store_updates: bool,
    pub store_votes: bool,
}

impl Default for DRepStorageConfig {
    fn default() -> (r: Self)
        ensures
            !r.store_info,
            !r.store_delegators,
            !r.store_metadata,
            !r.store_updates,
            !r.store_votes,
    {
        DRepStorageConfig {
            store_info: false,
            store_delegators: false,
            store_metadata: false,
            store_updates: false,
            store_votes: false,
        }
    }
}

impl DRepStorageConfig {
    /// Whether any part of the history is kept.
    pub open spec fn spec_any_enabled(self) -> bool {
        self.store_info || self.store_delegators || self.store_metadata || self.store_updates
            || self.store_votes
    }

    /// Whether any part of the history is kept.
    pub fn any_enabled(&self) -> (r: bool)
        ensures
            r == self.spec_any_enabled(),
    {
        self.store_info || self.store_delegators || self.store_metadata || self.store_updates
            || self.store_votes
    }
}

/// The history of a DRep that nothing has been recorded of yet: each part that
/// the configuration keeps is present and empty.
pub open spec fn config_history(cfg: DRepStorageConfig) -> HistoricalDRepStateView {
    HistoricalDRepStateView {
        info: if cfg.store_info {
            Some(blank_info())
        } else {
            None
        },
        updates: if cfg.store_updates {
            Some(Seq::empty())
        } else {
            None
        },
        metadata: if cfg.store_metadata {
            Some(None)
        } else {
            None
        },
        delegators: if cfg.store_delegators {
            Some(Seq::empty())
        } else {
            None
        },
        votes: if cfg.store_votes {
            Some(Seq::empty())
        } else {
            None
        },
    }
}

impl HistoricalDRepState {
    pub fn from_config(cfg: &DRepStorageConfig) -> (r: Self)
        ensures
            r@ == config_history(*cfg),
    {
        let r = HistoricalDRepState {
            info: if cfg.store_info {
                Some(DRepRecordExtended::default())
            } else {
                None
            },
            updates: if cfg.store_updates {
                Some(Vec::new())
            } else {
                None
            },
            metadata: if cfg.store_metadata {
                Some(DRepMetadata { anchor: None })
            } else {
                None
            },
            delegators: if cfg.store_delegators {
                Some(Vec::new())
            } else {
                None
            },
            votes: if cfg.store_votes {
                Some(Vec::new())
            } else {
                None
            },
        };
        assert(r@ =~= config_history(*cfg));
        r
    }
}

/// The history entry of `k`, or a fresh one where `k` has none.
pub open spec fn hist_entry(
    h: Map<CredentialView, HistoricalDRepStateView>,
    cfg: DRepStorageConfig,
    k: CredentialView,
) -> HistoricalDRepStateView {
    if h.contains_key(k) {
        h[k]
    } else {
        config_history(cfg)
    }
}

/// A history entry after a registration.
pub open spec fn registered_entry(
    e: HistoricalDRepStateView,
    reg: DRepRegistrationWithPos,
) -> HistoricalDRepStateView {
    HistoricalDRepStateView {
        info: match e.info {
            Some(_) => Some(
                DRepRecordExtended {
                    deposit: reg.reg.deposit,
                    expired: false,
                    retired: false,
                    active_epoch: Some(reg.epoch),
                    last_active_epoch: reg.epoch,
                },
            ),
            None => None,
        },
        updates: match e.updates {
            Some(u) => Some(
                u.push(
                    DRepUpdateEvent {
                        tx_hash: reg.tx_hash,
                        cert_index: reg.cert_index,
                        action: DRepActionUpdate::Registered,
                    },
                ),
            ),
            None => None,
        },
        metadata: match e.metadata {
            Some(_) => Some(reg.reg.anchor.deep_view()),
            None => None,
        },
        delegators: e.delegators,
        votes: e.votes,
    }
}

/// A history entry after a deregistration.
pub open spec fn deregistered_entry(
    e: HistoricalDRepStateView,
    dereg: DRepDeregistrationWithPos,
) -> HistoricalDRepStateView {
    HistoricalDRepStateView {
        info: match e.info {
            Some(_) => Some(
                DRepRecordExtended {
                    deposit: 0,
                    expired: false,
                    retired: true,
                    active_epoch: None,
                    last_active_epoch: dereg.epoch,
                },
            ),
            None => None,
        },
        updates: match e.updates {
            Some(u) => Some(
                u.push(
                    DRepUpdateEvent {
                        tx_hash: dereg.tx_hash,
                        cert_index: dereg.cert_index,
                        action: DRepActionUpdate::Deregistered,
                    },
                ),
            ),
            None => None,
        },
        metadata: e.metadata,
        delegators: e.delegators,
        votes: e.votes,
    }
}

/// A history entry after an update.
pub open spec fn updated_entry(
    e: HistoricalDRepStateView,
    upd: DRepUpdateWithPos,
) -> HistoricalDRepStateView {
    HistoricalDRepStateView {
        info: match e.info {
            Some(i) => Some(
                DRepRecordExtended {
                    deposit: i.deposit,
                    expired: false,
                    retired: false,
                    active_epoch: i.active_epoch,
                    last_active_epoch: upd.epoch,
                },
            ),
            None => None,
        },
        updates: match e.updates {
            Some(u) => Some(
                u.push(
                    DRepUpdateEvent {
                        tx_hash: upd.tx_hash,
                        cert_index: upd.cert_index,
                        action: DRepActionUpdate::Updated,
                    },
                ),
            ),
            None => None,
        },
        metadata: match (e.metadata, upd.reg.anchor) {
            (Some(_), Some(a)) => Some(Some(a@)),
            _ => e.metadata,
        },
        delegators: e.delegators,
        votes: e.votes,
    }
}

fn apply_registration(e: HistoricalDRepState, reg: &DRepRegistrationWithPos) -> (r:
    HistoricalDRepState)
    ensures
        r@ == registered_entry(e@, *reg),
{
    let HistoricalDRepState { info, updates, metadata, delegators, votes } = e;
    let info = match info {
        Some(_) => Some(
            DRepRecordExtended {
                deposit: reg.reg.deposit,
                expired: false,
                retired: false,
                active_epoch: Some(reg.epoch),
                last_active_epoch: reg.epoch,
            },
        ),
        None => None,
    };
    let updates = match updates {
        Some(mut u) => {
            u.push(
                DRepUpdateEvent {
                    tx_hash: reg.tx_hash,
                    cert_index: reg.cert_index,
                    action: DRepActionUpdate::Registered,
                },
            );
            Some(u)
        },
        None => None,
    };
    let metadata = match metadata {
        Some(_) => Some(DRepMetadata { anchor: duplicate_anchor(&reg.reg.anchor) }),
        None => None,
    };
    let r = HistoricalDRepState { info, updates, metadata, delegators, votes };
    assert(r@ =~= registered_entry(e@, *reg));
    r
}

fn apply_deregistration(e: HistoricalDRepState, dereg: &DRepDeregistrationWithPos) -> (r:
    HistoricalDRepState)
    ensures
        r@ == deregistered_entry(e@, *dereg),
{
    let HistoricalDRepState { info, updates, metadata, delegators, votes } = e;
    let info = match info {
        Some(_) => Some(
            DRepRecordExtended {
                deposit: 0,
                expired: false,
                retired: true,
                active_epoch: None,
                last_active_epoch: dereg.epoch,
            },
        ),
        None => None,
    };
    let updates = match updates {
        Some(mut u) => {
            u.push(
                DRepUpdateEvent {
                    tx_hash: dereg.tx_hash,
                    cert_index: dereg.cert_index,
                    action: DRepActionUpdate::Deregistered,
                },
            );
            Some(u)
        },
        None => None,
    };
    let r = HistoricalDRepState { info, updates, metadata, delegators, votes };
    assert(r@ =~= deregistered_entry(e@, *dereg));
    r
}

fn apply_update(e: HistoricalDRepState, upd: &DRepUpdateWithPos) -> (r: HistoricalDRepState)
    ensures
        r@ == updated_entry(e@, *upd),
{
    let HistoricalDRepState { info, updates, metadata, delegators, votes } = e;
    let info = match info {
        Some(i) => Some(
            DRepRecordExtended {
                deposit: i.deposit,
                expired: false,
                retired: false,
                active_epoch: i.active_epoch,
                last_active_epoch: upd.epoch,
            },
        ),
        None => None,
    };
    let updates = match updates {
        Some(mut u) => {
            u.push(
                DRepUpdateEvent {
                    tx_hash: upd.tx_hash,
                    cert_index: upd.cert_index,
                    action: DRepActionUpdate::Updated,
                },
            );
            Some(u)
        },
        None => None,
    };
    let metadata = match (metadata, &upd.reg.anchor) {
        (Some(_), Some(a)) => Some(DRepMetadata { anchor: Some(a.duplicate()) }),
        (m, _) => m,
    };
    let r = HistoricalDRepState { info, updates, metadata, delegators, votes };
    assert(r@ =~= updated_entry(e@, *upd));
    r
}

/// Why a DRep certificate was refused.
#[derive(Debug)]
pub enum CertError {
    /// A registration of a DRep that is already registered carried a deposit.
    ReplacementRequiresZeroDeposit { credential: DRepCredential, deposit: Lovelace },
    /// A deregistration named a DRep that is not registered.
    UnknownDeregistration { credential: DRepCredential },
    /// An update named a DRep that is not registered.
    UnknownUpdate { credential: DRepCredential },
}

/// The kinds of [`CertError`].
pub enum CertFailure {
    ReplacementRequiresZeroDeposit,
    UnknownDeregistration,
    UnknownUpdate,
}

/// The kind of a [`CertError`].
pub open spec fn failure_of(e: CertError) -> CertFailure {
    match e {
        CertError::ReplacementRequiresZeroDeposit { .. } => CertFailure::ReplacementRequiresZeroDeposit,
        CertError::UnknownDeregistration { .. } => CertFailure::UnknownDeregistration,
        CertError::UnknownUpdate { .. } => CertFailure::UnknownUpdate,
    }
}

/// The outcome of a certificate, with its error reduced to its kind.
pub open spec fn outcome_of(r: Result<bool, CertError>) -> Result<bool, CertFailure> {
    match r {
        Ok(b) => Ok(b),
        Err(e) => Err(failure_of(e)),
    }
}

/// The DRep state.
#[derive(Debug)]
pub struct State {
    pub config: DRepStorageConfig,
    pub dreps: CredMap<DRepRecord>,
    pub historical_dreps: Option<CredMap<HistoricalDRepState>>,
}

/// Model of the DRep state.
#[verifier::ext_equal]
pub struct StateView {
    pub config: DRepStorageConfig,
    pub dreps: Map<CredentialView, DRepRecordView>,
    pub historical: Option<Map<CredentialView, HistoricalDRepStateView>>,
}

impl View for State {
    type V = StateView;

    open spec fn view(&self) -> StateView {
        StateView {
            config: self.config,
            dreps: self.dreps@,
            historical: match self.historical_dreps {
                Some(h) => Some(h@),
                None => None,
            },
        }
    }
}

/// What a certificate does to the DRep state, and what it answers: `Ok(true)`
/// where it adds or removes a DRep, `Ok(false)` where it leaves the set of DReps
/// as it was, and the kind of error where it is refused (leaving the state as
/// it was).
pub open spec fn cert_step(s: StateView, c: TxCertificate) -> (StateView, Result<bool, CertFailure>) {
    match c {
        TxCertificate::DRepRegistration(reg) => {
            let k = reg.reg.credential@;
            if s.dreps.contains_key(k) && reg.reg.deposit != 0 {
                (s, Err(CertFailure::ReplacementRequiresZeroDeposit))
            } else {
                let deposit = if s.dreps.contains_key(k) {
                    s.dreps[k].deposit
                } else {
                    reg.reg.deposit
                };
                let dreps = s.dreps.insert(
                    k,
                    DRepRecordView { deposit, anchor: reg.reg.anchor.deep_view() },
                );
                let historical = match s.historical {
                    Some(h) => Some(h.insert(k, registered_entry(hist_entry(h, s.config, k), reg))),
                    None => None,
                };
                (
                    StateView { config: s.config, dreps, historical },
                    Ok(!s.dreps.contains_key(k)),
                )
            }
        },
        TxCertificate::DRepDeregistration(dereg) => {
            let k = dereg.reg.credential@;
            if !s.dreps.contains_key(k) {
                (s, Err(CertFailure::UnknownDeregistration))
            } else {
                let historical = match s.historical {
                    Some(h) => if h.contains_key(k) {
                        Some(h.insert(k, deregistered_entry(h[k], dereg)))
                    } else {
                        Some(h)
                    },
                    None => None,
                };
                (
                    StateView { config: s.config, dreps: s.dreps.remove(k), historical },
                    Ok(true),
                )
            }
        },
        TxCertificate::DRepUpdate(upd) => {
            let k = upd.reg.credential@;
            if !s.dreps.contains_key(k) {
                (s, Err(CertFailure::UnknownUpdate))
            } else {
                let dreps = s.dreps.insert(
                    k,
                    DRepRecordView { deposit: s.dreps[k].deposit, anchor: upd.reg.anchor.deep_view() },
                );
                let historical = match s.historical {
                    Some(h) => if h.contains_key(k) {
                        Some(h.insert(k, updated_entry(h[k], upd)))
                    } else {
                        Some(h)
                    },
                    None => None,
                };
                (StateView { config: s.config, dreps, historical }, Ok(false))
            }
        },
        _ => (s, Ok(false)),
    }
}

/// The error that a refused certificate reports names its credential (and, for
/// a refused registration, its deposit).
pub open spec fn error_names_cert(e: CertError, c: TxCertificate) -> bool {
    match (e, c) {
        (
            CertError::ReplacementRequiresZeroDeposit { credential, deposit },
            TxCertificate::DRepRegistration(reg),
        ) => credential@ == reg.reg.credential@ && deposit == reg.reg.deposit,
        (
            CertError::UnknownDeregistration { credential },
            TxCertificate::DRepDeregistration(d),
        ) => credential@ == d.reg.credential@,
        (CertError::UnknownUpdate { credential }, TxCertificate::DRepUpdate(u)) => credential@
            == u.reg.credential@,
        _ => false,
    }
}

/// The history map after an entry was taken out and put back changed.
proof fn lemma_remove_insert<V>(m: Map<CredentialView, V>, k: CredentialView, v: V)
    ensures
        m.remove(k).insert(k, v) == m.insert(k, v),
{
    assert(m.remove(k).insert(k, v) =~= m.insert(k, v));
}

impl State {
    /// The maps of the state have distinct keys.
    pub open spec fn wf(&self) -> bool {
        &&& self.dreps.wf()
        &&& match self.historical_dreps {
            Some(h) => h.wf(),
            None => true,
        }
    }

    pub fn new(config: DRepStorageConfig) -> (r: Self)
        ensures
            r.wf(),
            r@.config == config,
            r@.dreps == Map::<CredentialView, DRepRecordView>::empty(),
            r@.historical == if config.spec_any_enabled() {
                Some(Map::<CredentialView, HistoricalDRepStateView>::empty())
            } else {
                None
            },
    {
        Self {
            config,
            dreps: CredMap::new(),
            historical_dreps: if config.any_enabled() {
                Some(CredMap::new())
            } else {
                None
            },
        }
    }

    /// Applies one certificate.
    pub fn process_one_cert(&mut self, tx_cert: &TxCertificate) -> (r: Result<bool, CertError>)
        requires
            old(self).wf(),
        ensures
            final(self).wf(),
            final(self)@ == cert_step(old(self)@, *tx_cert).0,
            outcome_of(r) == cert_step(old(self)@, *tx_cert).1,
            r matches Err(e) ==> error_names_cert(e, *tx_cert),
    {
        match tx_cert {
            TxCertificate::DRepRegistration(reg) => {
                let cred = &reg.reg.credential;
                let new = match self.dreps.get(cred) {
                    Some(drep) => {
                        if reg.reg.deposit != 0 {
                            return Err(
                                CertError::ReplacementRequiresZeroDeposit {
                                    credential: cred.duplicate(),
                                    deposit: reg.reg.deposit,
                                },
                            );
                        }
                        let deposit = drep.deposit;
                        self.dreps.insert(
                            cred.duplicate(),
                            DRepRecord::new(deposit, duplicate_anchor(&reg.reg.anchor)),
                        );
                        false
                    },
                    None => {
                        self.dreps.insert(
                            cred.duplicate(),
                            DRepRecord::new(reg.reg.deposit, duplicate_anchor(&reg.reg.anchor)),
                        );
                        true
                    },
                };
                let hist = self.historical_dreps.take();
                match hist {
                    Some(mut h) => {
                        let ghost h0 = h@;
                        let entry = match h.remove(cred) {
                            Some(e) => e,
                            None => HistoricalDRepState::from_config(&self.config),
                        };
                        let e2 = apply_registration(entry, reg);
                        h.insert(cred.duplicate(), e2);
                        proof {
                            lemma_remove_insert(h0, cred@, e2@);
                        }
                        self.historical_dreps = Some(h);
                    },
                    None => {},
                }
                Ok(new)
            },
            TxCertificate::DRepDeregistration(dereg) => {
                let cred = &dereg.reg.credential;
                if self.dreps.remove(cred).is_none() {
                    return Err(CertError::UnknownDeregistration { credential: cred.duplicate() });
                }
                let hist = self.historical_dreps.take();
                match hist {
                    Some(mut h) => {
                        let ghost h0 = h@;
                        match h.remove(cred) {
                            Some(e) => {
                                let e2 = apply_deregistration(e, dereg);
                                h.insert(cred.duplicate(), e2);
                                proof {
                                    lemma_remove_insert(h0, cred@, e2@);
                                }
                            },
                            None => {},
                        }
                        self.historical_dreps = Some(h);
                    },
                    None => {},
                }
                Ok(true)
            },
            TxCertificate::DRepUpdate(upd) => {
                let cred = &upd.reg.credential;
                let deposit = match self.dreps.get(cred) {
                    Some(drep) => drep.deposit,
                    None => {
                        return Err(CertError::UnknownUpdate { credential: cred.duplicate() });
                    },
                };
                self.dreps.insert(
                    cred.duplicate(),
                    DRepRecord::new(deposit, duplicate_anchor(&upd.reg.anchor)),
                );
                let hist = self.historical_dreps.take();
                match hist {
                    Some(mut h) => {
                        let ghost h0 = h@;
                        match h.remove(cred) {
                            Some(e) => {
                                let e2 = apply_update(e, upd);
                                h.insert(cred.duplicate(), e2);
                                proof {
                                    lemma_remove_insert(h0, cred@, e2@);
                                }
                            },
                            None => {},
                        }
                        self.historical_dreps = Some(h);
                    },
                    None => {},
                }
                Ok(false)
            },
            _ => Ok(false),
        }
    }
}


/// The error answered where the configuration keeps no DRep history.
pub open spec fn msg_history_disabled() -> Seq<char> {
    "Historical DRep storage is disabled by configuration."@
}

/// The error answered where DRep info is not kept.
pub open spec fn msg_info_disabled() -> Seq<char> {
    "DRep info storage is disabled by configuration."@
}

/// The error answered where DRep delegators are not kept.
pub open spec fn msg_delegators_disabled() -> Seq<char> {
    "DRep delegator storage is disabled by configuration."@
}

/// The error answered where DRep metadata is not kept.
pub open spec fn msg_metadata_missing() -> Seq<char> {
    "DRep metadata not found"@
}

/// The error answered where DRep updates are not kept.
pub open spec fn msg_updates_disabled() -> Seq<char> {
    "DRep updates storage is disabled by configuration."@
}

/// The error answered where DRep votes are not kept.
pub open spec fn msg_votes_disabled() -> Seq<char> {
    "DRep votes storage is disabled by configuration."@
}

/// A history entry after an expiry check at `current_epoch`: an active DRep
/// whose activity lies `offset` or more epochs back is marked expired.
pub open spec fn expired_entry(
    e: HistoricalDRepStateView,
    current_epoch: u64,
    offset: u32,
) -> HistoricalDRepStateView {
    match e.info {
        Some(i) => match i.active_epoch {
            Some(a) => if !i.expired && a + offset <= current_epoch {
                HistoricalDRepStateView {
                    info: Some(
                        DRepRecordExtended {
                            deposit: i.deposit,
                            expired: true,
                            retired: i.retired,
                            active_epoch: i.active_epoch,
                            last_active_epoch: i.last_active_epoch,
                        },
                    ),
                    updates: e.updates,
                    metadata: e.metadata,
                    delegators: e.delegators,
                    votes: e.votes,
                }
            } else {
                e
            },
            None => e,
        },
        None => e,
    }
}

/// What a history query for a part of a DRep's history answers: an error where
/// history or that part is not kept (`part` is `None`), nothing where the DRep
/// has no history, and the part otherwise.
pub open spec fn history_lookup<T>(
    s: StateView,
    k: CredentialView,
    part: spec_fn(HistoricalDRepStateView) -> Option<T>,
    missing: Seq<char>,
) -> Result<Option<T>, Seq<char>> {
    match s.historical {
        None => Err(msg_history_disabled()),
        Some(h) => if !h.contains_key(k) {
            Ok(None)
        } else {
            match part(h[k]) {
                Some(x) => Ok(Some(x)),
                None => Err(missing),
            }
        },
    }
}

/// The answer to a query for a DRep's status.
pub open spec fn info_lookup(s: StateView, k: CredentialView) -> Result<Option<DRepRecordExtended>, Seq<char>> {
    history_lookup(s, k, |e: HistoricalDRepStateView| e.info, msg_info_disabled())
}

/// The answer to a query for a DRep's delegators.
pub open spec fn delegators_lookup(s: StateView, k: CredentialView) -> Result<Option<Seq<CredentialView>>, Seq<char>> {
    history_lookup(s, k, |e: HistoricalDRepStateView| e.delegators, msg_delegators_disabled())
}

/// The answer to a query for a DRep's certificates.
pub open spec fn updates_lookup(s: StateView, k: CredentialView) -> Result<Option<Seq<DRepUpdateEvent>>, Seq<char>> {
    history_lookup(s, k, |e: HistoricalDRepStateView| e.updates, msg_updates_disabled())
}

/// The answer to a query for a DRep's votes.
pub open spec fn votes_lookup(s: StateView, k: CredentialView) -> Result<Option<Seq<VoteRecord>>, Seq<char>> {
    history_lookup(s, k, |e: HistoricalDRepStateView| e.votes, msg_votes_disabled())
}

/// The answer to a query for a DRep's metadata anchor: as [`history_lookup`],
/// and nothing where the metadata has no anchor.
pub open spec fn anchor_lookup(s: StateView, k: CredentialView) -> Result<Option<AnchorView>, Seq<char>> {
    match history_lookup(s, k, |e: HistoricalDRepStateView| e.metadata, msg_metadata_missing()) {
        Ok(Some(a)) => Ok(a),
        Ok(None) => Ok(None),
        Err(m) => Err(m),
    }
}

/// An answer with a borrowed part, reduced to the model of the part.
pub open spec fn answer_of<X, T>(r: Result<Option<&X>, &str>, f: spec_fn(X) -> T) -> Result<Option<T>, Seq<char>> {
    match r {
        Ok(Some(x)) => Ok(Some(f(*x))),
        Ok(None) => Ok(None),
        Err(m) => Err(m@),
    }
}

impl State {
    /// The registered DReps with their deposits, each once.
    pub fn active_drep_list(&self) -> (r: Vec<(DRepCredential, Lovelace)>)
        requires
            self.wf(),
        ensures
            r@.len() == self@.dreps.dom().len(),
            forall|i: int|
                0 <= i < r@.len() ==> self@.dreps.contains_key((#[trigger] r@[i]).0@)
                    && self@.dreps[r@[i].0@].deposit == r@[i].1,
            forall|i: int, j: int|
                0 <= i < j < r@.len() ==> (#[trigger] r@[i]).0@ != (#[trigger] r@[j]).0@,
    {
        let mut r: Vec<(DRepCredential, Lovelace)> = Vec::new();
        let n = self.dreps.entry_count();
        let mut i: usize = 0;
        while i < n
            invariant
                self.wf(),
                n == self.dreps.seq().len(),
                i <= n,
                r@.len() == i,
                forall|j: int|
                    0 <= j < i ==> (#[trigger] r@[j]).0@ == self.dreps.seq()[j].0@
                        && r@[j].1 == self.dreps.seq()[j].1.deposit,
            decreases n - i,
        {
            let e = self.dreps.entry_at(i);
            r.push((e.0.duplicate(), e.1.deposit));
            i = i + 1;
        }
        proof {
            self.dreps.lemma_keys(CredentialView::AddrKeyHash(Seq::empty()));
            assert forall|j: int| 0 <= j < r@.len() implies self@.dreps.contains_key(
                (#[trigger] r@[j]).0@,
            ) && self@.dreps[r@[j].0@].deposit == r@[j].1 by {
                self.dreps.lemma_entry(j);
            }
            assert forall|a: int, b: int| 0 <= a < b < r@.len() implies (#[trigger] r@[a]).0@
                != (#[trigger] r@[b]).0@ by {
                self.dreps.lemma_entry(a);
            }
        }
        r
    }

    /// The registered DReps, each once.
    pub fn list(&self) -> (r: Vec<DRepCredential>)
        requires
            self.wf(),
        ensures
            r.deep_view().no_duplicates(),
            r.deep_view().to_set() == self@.dreps.dom(),
            r.len() == self@.dreps.dom().len(),
    {
        self.dreps.keys()
    }

    /// The number of registered DReps.
    pub fn get_count(&self) -> (r: usize)
        requires
            self.wf(),
        ensures
            r == self@.dreps.dom().len(),
    {
        self.dreps.len()
    }

    /// The record of a registered DRep.
    pub fn get_drep(&self, credential: &DRepCredential) -> (r: Option<&DRepRecord>)
        requires
            self.wf(),
        ensures
            match r {
                Some(d) => self@.dreps.contains_key(credential@) && d@ == self@.dreps[credential@],
                None => !self@.dreps.contains_key(credential@),
            },
    {
        self.dreps.get(credential)
    }

    /// The status of a DRep: an error where history or info is not kept,
    /// `None` where the DRep has no history.
    pub fn get_drep_info(&self, credential: &DRepCredential) -> (r: Result<
        Option<&DRepRecordExtended>,
        &'static str,
    >)
        requires
            self.wf(),
        ensures
            answer_of(r, |x: DRepRecordExtended| x) == info_lookup(self@, credential@),
    {
        let hist = match &self.historical_dreps {
            Some(h) => h,
            None => {
                return Err("Historical DRep storage is disabled by configuration.");
            },
        };
        match hist.get(credential) {
            Some(e) => match &e.info {
                Some(i) => Ok(Some(i)),
                None => Err("DRep info storage is disabled by configuration."),
            },
            None => Ok(None),
        }
    }

    /// The delegators of a DRep: an error where history or delegators are not
    /// kept, `None` where the DRep has no history.
    pub fn get_drep_delegators(&self, credential: &DRepCredential) -> (r: Result<
        Option<&Vec<Credential>>,
        &'static str,
    >)
        requires
            self.wf(),
        ensures
            answer_of(r, |x: Vec<Credential>| x.deep_view()) == delegators_lookup(self@, credential@),
    {
        let hist = match &self.historical_dreps {
            Some(h) => h,
            None => {
                return Err("Historical DRep storage is disabled by configuration.");
            },
        };
        match hist.get(credential) {
            Some(e) => match &e.delegators {
                Some(d) => Ok(Some(d)),
                None => Err("DRep delegator storage is disabled by configuration."),
            },
            None => Ok(None),
        }
    }

    /// The anchor of a DRep's metadata: an error where history or metadata is
    /// not kept, `None` where the DRep has no history or no anchor.
    pub fn get_drep_anchor(&self, credential: &DRepCredential) -> (r: Result<
        Option<&Anchor>,
        &'static str,
    >)
        requires
            self.wf(),
        ensures
            answer_of(r, |x: Anchor| x@) == anchor_lookup(self@, credential@),
    {
        let hist = match &self.historical_dreps {
            Some(h) => h,
            None => {
                return Err("Historical DRep storage is disabled by configuration.");
            },
        };
        match hist.get(credential) {
            Some(e) => match &e.metadata {
                Some(m) => match &m.anchor {
                    Some(a) => Ok(Some(a)),
                    None => Ok(None),
                },
                None => Err("DRep metadata not found"),
            },
            None => Ok(None),
        }
    }

    /// The certificates in a DRep's history: an error where history or updates
    /// are not kept, `None` where the DRep has no history.
    pub fn get_drep_updates(&self, credential: &DRepCredential) -> (r: Result<
        Option<&Vec<DRepUpdateEvent>>,
        &'static str,
    >)
        requires
            self.wf(),
        ensures
            answer_of(r, |x: Vec<DRepUpdateEvent>| x@) == updates_lookup(self@, credential@),
    {
        let hist = match &self.historical_dreps {
            Some(h) => h,
            None => {
                return Err("Historical DRep storage is disabled by configuration.");
            },
        };
        match hist.get(credential) {
            Some(e) => match &e.updates {
                Some(u) => Ok(Some(u)),
                None => Err("DRep updates storage is disabled by configuration."),
            },
            None => Ok(None),
        }
    }

    /// The votes of a DRep: an error where history or votes are not kept,
    /// `None` where the DRep has no history.
    pub fn get_drep_votes(&self, credential: &DRepCredential) -> (r: Result<
        Option<&Vec<VoteRecord>>,
        &'static str,
    >)
        requires
            self.wf(),
        ensures
            answer_of(r, |x: Vec<VoteRecord>| x@) == votes_lookup(self@, credential@),
    {
        let hist = match &self.historical_dreps {
            Some(h) => h,
            None => {
                return Err("Historical DRep storage is disabled by configuration.");
            },
        };
        match hist.get(credential) {
            Some(e) => match &e.votes {
                Some(v) => Ok(Some(v)),
                None => Err("DRep votes storage is disabled by configuration."),
            },
            None => Ok(None),
        }
    }

    /// Marks expired every active DRep whose activity lies `expired_epoch_param`
    /// or more epochs before `current_epoch`.
    pub fn update_drep_expirations(&mut self, current_epoch: u64, expired_epoch_param: u32)
        requires
            old(self).wf(),
        ensures
            final(self).wf(),
            final(self)@ == (StateView {
                config: old(self)@.config,
                dreps: old(self)@.dreps,
                historical: match old(self)@.historical {
                    Some(h) => Some(
                        h.map_values(
                            |e: HistoricalDRepStateView|
                                expired_entry(e, current_epoch, expired_epoch_param),
                        ),
                    ),
                    None => None,
                },
            }),
    {
        let expired_offset = expired_epoch_param as u64;
        let hist = self.historical_dreps.take();
        match hist {
            Some(mut h) => {
                let ghost h0 = h;
                let n = h.entry_count();
                let mut i: usize = 0;
                while i < n
                    invariant
                        h0.wf(),
                        h.wf(),
                        n == h0.seq().len(),
                        h.seq().len() == n,
                        i <= n,
                        expired_offset == expired_epoch_param,
                        forall|j: int| 0 <= j < n ==> (#[trigger] h.seq()[j]).0@ == h0.seq()[j].0@,
                        forall|j: int|
                            0 <= j < i ==> (#[trigger] h.seq()[j]).1@ == expired_entry(
                                h0.seq()[j].1@,
                                current_epoch,
                                expired_epoch_param,
                            ),
                        forall|j: int| i <= j < n ==> #[trigger] h.seq()[j] == h0.seq()[j],
                    decreases n - i,
                {
                    let ghost before = h.seq();
                    let (k, e) = h.take_entry(i);
                    let HistoricalDRepState { info, updates, metadata, delegators, votes } = e;
                    let info = match info {
                        Some(inf) => match inf.active_epoch {
                            Some(a) => {
                                if !inf.expired && a <= current_epoch && expired_offset
                                    <= current_epoch - a {
                                    Some(
                                        DRepRecordExtended {
                                            deposit: inf.deposit,
                                            expired: true,
                                            retired: inf.retired,
                                            active_epoch: inf.active_epoch,
                                            last_active_epoch: inf.last_active_epoch,
                                        },
                                    )
                                } else {
                                    Some(inf)
                                }
                            },
                            None => Some(inf),
                        },
                        None => None,
                    };
                    let e2 = HistoricalDRepState { info, updates, metadata, delegators, votes };
                    assert(e2@ =~= expired_entry(e@, current_epoch, expired_epoch_param));
                    h.restore_entry(i, (k, e2), Ghost(before));
                    i = i + 1;
                }
                proof {
                    h0.lemma_map_values(
                        &h,
                        |e: HistoricalDRepStateView|
                            expired_entry(e, current_epoch, expired_epoch_param),
                    );
                }
                self.historical_dreps = Some(h);
            },
            None => {},
        }
        assert(self@ =~= (StateView {
            config: old(self)@.config,
            dreps: old(self)@.dreps,
            historical: match old(self)@.historical {
                Some(h) => Some(
                    h.map_values(
                        |e: HistoricalDRepStateView|
                            expired_entry(e, current_epoch, expired_epoch_param),
                    ),
                ),
                None => None,
            },
        }));
    }
}


/// The vote records of one voter's procedures in one transaction.
pub open spec fn vote_records(tx_hash: TxHash, procs: Seq<(GovActionId, VotingProcedure)>) -> Seq<
    VoteRecord,
> {
    procs.map_values(
        |p: (GovActionId, VotingProcedure)|
            VoteRecord { tx_hash, cert_index: p.1.vote_index, vote: p.1.vote },
    )
}

/// A history entry with vote records appended (starting a vote list where
/// there was none).
pub open spec fn with_votes(e: HistoricalDRepStateView, recs: Seq<VoteRecord>) -> HistoricalDRepStateView {
    HistoricalDRepStateView {
        info: e.info,
        updates: e.updates,
        metadata: e.metadata,
        delegators: e.delegators,
        votes: Some(
            match e.votes {
                Some(v) => v + recs,
                None => recs,
            },
        ),
    }
}

/// The history after the votes of one voter in one transaction: recorded for a
/// DRep voter, ignored for any other voter.
pub open spec fn voter_step(
    h: Map<CredentialView, HistoricalDRepStateView>,
    cfg: DRepStorageConfig,
    tx_hash: TxHash,
    entry: (Voter, SingleVoterVotes),
) -> Map<CredentialView, HistoricalDRepStateView> {
    match voter_drep_credential(entry.0) {
        Some(k) => h.insert(
            k,
            with_votes(hist_entry(h, cfg, k), vote_records(tx_hash, entry.1.voting_procedures@)),
        ),
        None => h,
    }
}

/// The history after the votes of the voters of one transaction, in order.
pub open spec fn voters_fold(
    h: Map<CredentialView, HistoricalDRepStateView>,
    cfg: DRepStorageConfig,
    tx_hash: TxHash,
    vs: Seq<(Voter, SingleVoterVotes)>,
) -> Map<CredentialView, HistoricalDRepStateView>
    decreases vs.len(),
{
    if vs.len() == 0 {
        h
    } else {
        voter_step(voters_fold(h, cfg, tx_hash, vs.drop_last()), cfg, tx_hash, vs.last())
    }
}

/// The history after the votes of a sequence of transactions, in order.
pub open spec fn votes_fold(
    h: Map<CredentialView, HistoricalDRepStateView>,
    cfg: DRepStorageConfig,
    txs: Seq<(TxHash, crate::messages::VotingProcedures)>,
) -> Map<CredentialView, HistoricalDRepStateView>
    decreases txs.len(),
{
    if txs.len() == 0 {
        h
    } else {
        voters_fold(votes_fold(h, cfg, txs.drop_last()), cfg, txs.last().0, txs.last().1.votes@)
    }
}

impl State {
    /// Records the votes of DReps, where votes are kept.
    pub fn process_votes(&mut self, governance_msg: &GovernanceProceduresMessage)
        requires
            old(self).wf(),
        ensures
            final(self).wf(),
            final(self)@ == if !old(self)@.config.store_votes || old(self)@.historical is None {
                old(self)@
            } else {
                StateView {
                    config: old(self)@.config,
                    dreps: old(self)@.dreps,
                    historical: Some(
                        votes_fold(
                            old(self)@.historical.unwrap(),
                            old(self)@.config,
                            governance_msg.voting_procedures@,
                        ),
                    ),
                }
            },
    {
        if !self.config.store_votes {
            return;
        }
        let hist = self.historical_dreps.take();
        let mut h = match hist {
            Some(h) => h,
            None => {
                return;
            },
        };
        let ghost h0 = h@;
        let cfg = self.config;
        let txs = &governance_msg.voting_procedures;
        let mut i: usize = 0;
        while i < txs.len()
            invariant
                h.wf(),
                i <= txs@.len(),
                h@ == votes_fold(h0, cfg, txs@.subrange(0, i as int)),
            decreases txs@.len() - i,
        {
            let tx_hash = txs[i].0;
            let voters = &txs[i].1.votes;
            let ghost hi = h@;
            let mut j: usize = 0;
            while j < voters.len()
                invariant
                    h.wf(),
                    j <= voters@.len(),
                    h@ == voters_fold(hi, cfg, tx_hash, voters@.subrange(0, j as int)),
                decreases voters@.len() - j,
            {
                let ghost hj = h@;
                let voter = &voters[j].0;
                let single = &voters[j].1;
                let cred = match voter {
                    Voter::DRepKey(k) => Credential::AddrKeyHash(copy_bytes(k)),
                    Voter::DRepScript(k) => Credential::ScriptHash(copy_bytes(k)),
                    _ => {
                        j = j + 1;
                        proof {
                            assert(voters@.subrange(0, j as int).drop_last() =~= voters@.subrange(
                                0,
                                j - 1,
                            ));
                        }
                        continue;
                    },
                };
                let entry = match h.remove(&cred) {
                    Some(e) => e,
                    None => HistoricalDRepState::from_config(&cfg),
                };
                let HistoricalDRepState { info, updates, metadata, delegators, votes } = entry;
                let mut vs = match votes {
                    Some(v) => v,
                    None => Vec::new(),
                };
                let ghost vs0 = vs@;
                let procs = &single.voting_procedures;
                let mut p: usize = 0;
                while p < procs.len()
                    invariant
                        p <= procs@.len(),
                        vs@ == vs0 + vote_records(tx_hash, procs@.subrange(0, p as int)),
                    decreases procs@.len() - p,
                {
                    vs.push(
                        VoteRecord {
                            tx_hash,
                            cert_index: procs[p].1.vote_index,
                            vote: procs[p].1.vote,
                        },
                    );
                    p = p + 1;
                    assert(vs@ =~= vs0 + vote_records(tx_hash, procs@.subrange(0, p as int)));
                }
                assert(procs@.subrange(0, procs@.len() as int) =~= procs@);
                let e2 = HistoricalDRepState { info, updates, metadata, delegators, votes: Some(vs) };
                assert(e2@ =~= with_votes(
                    hist_entry(hj, cfg, cred@),
                    vote_records(tx_hash, procs@),
                ));
                h.insert(cred, e2);
                j = j + 1;
                proof {
                    lemma_remove_insert(hj, cred@, e2@);
                    assert(voters@.subrange(0, j as int).drop_last() =~= voters@.subrange(
                        0,
                        j - 1,
                    ));
                }
            }
            assert(voters@.subrange(0, voters@.len() as int) =~= voters@);
            i = i + 1;
            proof {
                assert(txs@.subrange(0, i as int).drop_last() =~= txs@.subrange(0, i - 1));
            }
        }
        assert(txs@.subrange(0, txs@.len() as int) =~= txs@);
        self.historical_dreps = Some(h);
        assert(self@ =~= StateView {
            config: old(self)@.config,
            dreps: old(self)@.dreps,
            historical: Some(
                votes_fold(
                    old(self)@.historical.unwrap(),
                    old(self)@.config,
                    governance_msg.voting_procedures@,
                ),
            ),
        });
    }
}


/// The state after the certificates of a block, in order, together with the
/// vote delegations set aside (where delegators are kept) for a query of the
/// accounts state. Every other certificate is applied by [`cert_step`]; a
/// refused one leaves the state as it was.
pub open spec fn certs_fold(s: StateView, certs: Seq<TxCertificate>) -> (
    StateView,
    Seq<(CredentialView, DRepChoiceView)>,
)
    decreases certs.len(),
{
    if certs.len() == 0 {
        (s, Seq::empty())
    } else {
        let (s1, b1) = certs_fold(s, certs.drop_last());
        let c = certs.last();
        if s.config.store_delegators && delegation_fields(c) is Some {
            let f = delegation_fields(c).unwrap();
            (s1, b1.push((f.0@, f.1@)))
        } else {
            (cert_step(s1, c).0, b1)
        }
    }
}

/// The certificates of a sequence that are refused, in order: the position of
/// each and the kind of its refusal. Vote delegations set aside for the
/// accounts state are not applied, so they are never refused.
pub open spec fn cert_refusals(s: StateView, certs: Seq<TxCertificate>) -> Seq<(int, CertFailure)>
    decreases certs.len(),
{
    if certs.len() == 0 {
        Seq::empty()
    } else {
        let prev = cert_refusals(s, certs.drop_last());
        let c = certs.last();
        if s.config.store_delegators && delegation_fields(c) is Some {
            prev
        } else {
            match cert_step(certs_fold(s, certs.drop_last()).0, c).1 {
                Err(f) => prev.push((certs.len() - 1, f)),
                Ok(_) => prev,
            }
        }
    }
}

/// Whether the refusals returned match those stated, each error naming its
/// certificate.
pub open spec fn refusals_match(
    r: Seq<(usize, CertError)>,
    stated: Seq<(int, CertFailure)>,
    certs: Seq<TxCertificate>,
) -> bool {
    &&& r.len() == stated.len()
    &&& forall|k: int|
        0 <= k < r.len() ==> ({
            let (idx, err) = #[trigger] r[k];
            &&& idx as int == stated[k].0
            &&& failure_of(err) == stated[k].1
            &&& 0 <= idx < certs.len()
            &&& error_names_cert(err, certs[idx as int])
        })
}

/// What applying the certificates of a block gives besides the new state:
/// the vote delegations set aside for the accounts state, and the refused
/// certificates with their positions.
#[derive(Debug)]
pub struct CertsOutcome {
    pub delegations: Vec<(StakeCredential, DRepChoice)>,
    pub refused: Vec<(usize, CertError)>,
}

/// The index of the last delegation whose stake credential has hash `key`.
pub open spec fn last_with_hash(d: Seq<(CredentialView, DRepChoiceView)>, key: Seq<u8>) -> Option<
    int,
>
    decreases d.len(),
{
    if d.len() == 0 {
        None
    } else if d.last().0.hash() == key {
        Some(d.len() - 1)
    } else {
        last_with_hash(d.drop_last(), key)
    }
}

/// The index that [`last_with_hash`] finds lies in the sequence and has the hash.
pub proof fn lemma_last_with_hash(d: Seq<(CredentialView, DRepChoiceView)>, key: Seq<u8>)
    ensures
        last_with_hash(d, key) matches Some(j) ==> 0 <= j < d.len() && d[j].0.hash() == key,
    decreases d.len(),
{
    if d.len() > 0 && d.last().0.hash() != key {
        lemma_last_with_hash(d.drop_last(), key);
    }
}

/// A sequence of credentials without any occurrence of `x`.
pub open spec fn remove_all(v: Seq<CredentialView>, x: CredentialView) -> Seq<CredentialView>
    decreases v.len(),
{
    if v.len() == 0 {
        Seq::empty()
    } else if v.last() == x {
        remove_all(v.drop_last(), x)
    } else {
        remove_all(v.drop_last(), x).push(v.last())
    }
}

/// A history entry whose delegators (where kept) no longer include `d`.
pub open spec fn without_delegator(e: HistoricalDRepStateView, d: CredentialView) -> HistoricalDRepStateView {
    HistoricalDRepStateView {
        info: e.info,
        updates: e.updates,
        metadata: e.metadata,
        delegators: match e.delegators {
            Some(v) => Some(remove_all(v, d)),
            None => None,
        },
        votes: e.votes,
    }
}

/// A history entry whose delegators (where kept) include `d` once more where
/// they did not include it.
pub open spec fn with_delegator(e: HistoricalDRepStateView, d: CredentialView) -> HistoricalDRepStateView {
    HistoricalDRepStateView {
        info: e.info,
        updates: e.updates,
        metadata: e.metadata,
        delegators: match e.delegators {
            Some(v) => if v.contains(d) {
                Some(v)
            } else {
                Some(v.push(d))
            },
            None => None,
        },
        votes: e.votes,
    }
}

/// The new DRep and delegator that an answer of the accounts state moves a
/// delegation to, where the answer's stake key was delegated in the block and
/// its new choice names a DRep.
pub open spec fn delegation_target(
    d: Seq<(CredentialView, DRepChoiceView)>,
    item: (Seq<u8>, Option<DRepChoiceView>),
) -> Option<(CredentialView, CredentialView)> {
    match last_with_hash(d, item.0) {
        Some(j) => match choice_credential(d[j].1) {
            Some(newc) => Some((d[j].0, newc)),
            None => None,
        },
        None => None,
    }
}

/// The history after one answer of the accounts state: the delegator leaves its
/// former DRep (where that was another DRep with a history) and joins the new one.
pub open spec fn delegation_step(
    h: Map<CredentialView, HistoricalDRepStateView>,
    cfg: DRepStorageConfig,
    d: Seq<(CredentialView, DRepChoiceView)>,
    item: (Seq<u8>, Option<DRepChoiceView>),
) -> Map<CredentialView, HistoricalDRepStateView> {
    match delegation_target(d, item) {
        None => h,
        Some((delegator, newc)) => {
            let h1 = match item.1 {
                Some(old) => match choice_credential(old) {
                    Some(oc) => if oc != newc && h.contains_key(oc) {
                        h.insert(oc, without_delegator(h[oc], delegator))
                    } else {
                        h
                    },
                    None => h,
                },
                None => h,
            };
            h1.insert(newc, with_delegator(hist_entry(h1, cfg, newc), delegator))
        },
    }
}

/// The history after a sequence of answers of the accounts state, in order.
pub open spec fn delegations_fold(
    h: Map<CredentialView, HistoricalDRepStateView>,
    cfg: DRepStorageConfig,
    d: Seq<(CredentialView, DRepChoiceView)>,
    items: Seq<(Seq<u8>, Option<DRepChoiceView>)>,
) -> Map<CredentialView, HistoricalDRepStateView>
    decreases items.len(),
{
    if items.len() == 0 {
        h
    } else {
        delegation_step(delegations_fold(h, cfg, d, items.drop_last()), cfg, d, items.last())
    }
}

/// Why the answer of the accounts state to a delegation query was not applied.
#[derive(Debug)]
pub enum DelegationError {
    /// The answer was not a map of DRep delegations.
    UnexpectedResponse,
    /// A delegation had to be recorded but no DRep history is kept.
    NoHistory,
}

/// Whether a sequence of credentials contains `c`.
fn contains_credential(v: &Vec<Credential>, c: &Credential) -> (r: bool)
    ensures
        r == v.deep_view().contains(c@),
{
    let mut i: usize = 0;
    while i < v.len()
        invariant
            i <= v@.len(),
            forall|j: int| 0 <= j < i ==> v@[j]@ != c@,
        decreases v@.len() - i,
    {
        if v[i].same_as(c) {
            assert(v.deep_view()[i as int] == c@);
            return true;
        }
        i = i + 1;
    }
    assert forall|j: int| 0 <= j < v.deep_view().len() implies v.deep_view()[j] != c@ by {
        assert(v.deep_view()[j] == v@[j]@);
    }
    false
}

/// Copies of the credentials of `v` other than `c`, in order.
fn without_credential(v: &Vec<Credential>, c: &Credential) -> (r: Vec<Credential>)
    ensures
        r.deep_view() == remove_all(v.deep_view(), c@),
{
    let mut r: Vec<Credential> = Vec::new();
    let mut i: usize = 0;
    while i < v.len()
        invariant
            i <= v@.len(),
            r.deep_view() == remove_all(v.deep_view().subrange(0, i as int), c@),
        decreases v@.len() - i,
    {
        let ghost pre = v.deep_view().subrange(0, i as int);
        assert(v.deep_view().subrange(0, i + 1).drop_last() =~= pre);
        if !v[i].same_as(c) {
            let x = v[i].duplicate();
            r.push(x);
            assert(r.deep_view() =~= remove_all(pre, c@).push(v.deep_view()[i as int]));
        }
        i = i + 1;
    }
    assert(v.deep_view().subrange(0, v@.len() as int) =~= v.deep_view());
    r
}

/// The index of the last delegation whose stake credential has hash `key`.
fn find_last_with_hash(d: &Vec<(StakeCredential, DRepChoice)>, key: &Vec<u8>) -> (r: Option<usize>)
    ensures
        match r {
            Some(j) => last_with_hash(d.deep_view(), key@) == Some(j as int) && j < d@.len(),
            None => last_with_hash(d.deep_view(), key@) is None,
        },
{
    proof {
        lemma_last_with_hash(d.deep_view(), key@);
    }
    let mut i: usize = d.len();
    assert(d.deep_view().subrange(0, i as int) =~= d.deep_view());
    while i > 0
        invariant
            i <= d@.len(),
            last_with_hash(d.deep_view(), key@) == last_with_hash(
                d.deep_view().subrange(0, i as int),
                key@,
            ),
        decreases i,
    {
        let h = d[i - 1].0.get_hash();
        let ghost pre = d.deep_view().subrange(0, i as int);
        assert(pre.last() == d.deep_view()[i - 1]);
        assert(pre.drop_last() =~= d.deep_view().subrange(0, i - 1));
        if bytes_equal(&h, key) {
            return Some(i - 1);
        }
        i = i - 1;
    }
    assert(d.deep_view().subrange(0, 0) =~= Seq::<(CredentialView, DRepChoiceView)>::empty());
    None
}

/// A copy of a delegation.
fn duplicate_delegation(c: &StakeCredential, d: &DRepChoice) -> (r: (StakeCredential, DRepChoice))
    ensures
        r.0@ == c@,
        r.1@ == d@,
{
    (c.duplicate(), d.duplicate())
}

impl State {
    /// Applies the certificates of a block in order and returns the vote
    /// delegations it set aside (where delegators are kept) for a query of the
    /// accounts state. A refused certificate is skipped.
    pub fn process_certificates(&mut self, tx_cert_msg: &TxCertificatesMessage) -> (r:
        CertsOutcome)
        requires
            old(self).wf(),
        ensures
            final(self).wf(),
            (final(self)@, r.delegations.deep_view()) == certs_fold(
                old(self)@,
                tx_cert_msg.certificates@,
            ),
            refusals_match(
                r.refused@,
                cert_refusals(old(self)@, tx_cert_msg.certificates@),
                tx_cert_msg.certificates@,
            ),
    {
        let mut batched: Vec<(StakeCredential, DRepChoice)> = Vec::new();
        let mut refused: Vec<(usize, CertError)> = Vec::new();
        let store_delegators = self.config.store_delegators;
        let certs = &tx_cert_msg.certificates;
        let ghost s0 = self@;
        let mut i: usize = 0;
        while i < certs.len()
            invariant
                self.wf(),
                i <= certs@.len(),
                store_delegators == s0.config.store_delegators,
                (self@, batched.deep_view()) == certs_fold(s0, certs@.subrange(0, i as int)),
                refusals_match(refused@, cert_refusals(s0, certs@.subrange(0, i as int)), certs@),
            decreases certs@.len() - i,
        {
            let tx_cert = &certs[i];
            let ghost pre = certs@.subrange(0, i as int);
            assert(certs@.subrange(0, i + 1).drop_last() =~= pre);
            assert(certs@.subrange(0, i + 1).last() == *tx_cert);
            if store_delegators {
                match extract_delegation_fields(tx_cert) {
                    Some((cred, drep)) => {
                        let e = duplicate_delegation(cred, drep);
                        batched.push(e);
                        i = i + 1;
                        assert(batched.deep_view() =~= certs_fold(
                            s0,
                            certs@.subrange(0, i as int),
                        ).1);
                        assert(cert_refusals(s0, certs@.subrange(0, i as int)) == cert_refusals(
                            s0,
                            pre,
                        ));
                        continue;
                    },
                    None => {},
                }
            }
            let ghost spre = cert_refusals(s0, pre);
            let ghost rpre = refused@;
            match self.process_one_cert(tx_cert) {
                Ok(_) => {},
                Err(e) => {
                    refused.push((i, e));
                },
            }
            proof {
                let snext = cert_refusals(s0, certs@.subrange(0, i + 1));
                assert forall|k: int| 0 <= k < refused@.len() implies ({
                    let (idx, err) = #[trigger] refused@[k];
                    &&& idx as int == snext[k].0
                    &&& failure_of(err) == snext[k].1
                    &&& 0 <= idx < certs@.len()
                    &&& error_names_cert(err, certs@[idx as int])
                }) by {
                    if k < rpre.len() {
                        assert(refused@[k] == rpre[k]);
                    }
                }
            }
            i = i + 1;
        }
        assert(certs@.subrange(0, certs@.len() as int) =~= certs@);
        CertsOutcome { delegations: batched, refused }
    }

    /// Applies the answer of the accounts state to a query for the former DRep
    /// choices of the delegations set aside by [`State::process_certificates`]:
    /// each delegator leaves its former DRep and joins its new one, in the order
    /// of the answer.
    pub fn apply_delegations(
        &mut self,
        delegators: &Vec<(StakeCredential, DRepChoice)>,
        result_map: &Vec<(Vec<u8>, Option<DRepChoice>)>,
    ) -> (r: Result<(), DelegationError>)
        requires
            old(self).wf(),
        ensures
            final(self).wf(),
            match old(self)@.historical {
                Some(h) => r is Ok && final(self)@ == (StateView {
                    config: old(self)@.config,
                    dreps: old(self)@.dreps,
                    historical: Some(
                        delegations_fold(
                            h,
                            old(self)@.config,
                            delegators.deep_view(),
                            result_map.deep_view(),
                        ),
                    ),
                }),
                None => final(self)@ == old(self)@ && (r is Err <==> exists|i: int|
                    0 <= i < result_map@.len() && #[trigger] delegation_target(
                        delegators.deep_view(),
                        result_map.deep_view()[i],
                    ) is Some) && (r matches Err(e) ==> e is NoHistory),
            },
    {
        let ghost d = delegators.deep_view();
        let ghost items = result_map.deep_view();
        let mut i: usize = 0;
        if self.historical_dreps.is_none() {
            let ghost s0 = *self;
            while i < result_map.len()
                invariant
                    *self == s0,
                    s0 == *old(self),
                    self.wf(),
                    self.historical_dreps is None,
                    i <= result_map@.len(),
                    d == delegators.deep_view(),
                    items == result_map.deep_view(),
                    forall|j: int| 0 <= j < i ==> #[trigger] delegation_target(d, items[j]) is None,
                decreases result_map@.len() - i,
            {
                let target = match find_last_with_hash(delegators, &result_map[i].0) {
                    Some(j) => drep_choice_to_credential(&delegators[j].1),
                    None => None,
                };
                proof {
                    assert(items[i as int].0 == result_map@[i as int].0@);
                    let lw = last_with_hash(d, items[i as int].0);
                    lemma_last_with_hash(d, items[i as int].0);
                    if lw is Some {
                        assert(d[lw.unwrap()].1 == delegators@[lw.unwrap()].1@);
                    }
                }
                if target.is_some() {
                    assert(delegation_target(d, items[i as int]) is Some);
                    return Err(DelegationError::NoHistory);
                }
                assert(delegation_target(d, items[i as int]) is None);
                i = i + 1;
            }
            return Ok(());
        }
        let hist = self.historical_dreps.take();
        let mut h = match hist {
            Some(h) => h,
            None => {
                return Ok(());
            },
        };
        let ghost h0 = h@;
        let cfg = self.config;
        while i < result_map.len()
            invariant
                h.wf(),
                i <= result_map@.len(),
                d == delegators.deep_view(),
                items == result_map.deep_view(),
                h@ == delegations_fold(h0, cfg, d, items.subrange(0, i as int)),
            decreases result_map@.len() - i,
        {
            let ghost hi = h@;
            let stake_key = &result_map[i].0;
            let old_drep_opt = &result_map[i].1;
            proof {
                assert(items.subrange(0, i + 1).drop_last() =~= items.subrange(0, i as int));
                assert(items[i as int].0 == stake_key@);
                assert(items[i as int].1 == old_drep_opt.deep_view());
            }
            let j = match find_last_with_hash(delegators, stake_key) {
                Some(j) => j,
                None => {
                    i = i + 1;
                    continue;
                },
            };
            let delegator = &delegators[j].0;
            assert(d[j as int].0 == delegator@);
            assert(d[j as int].1 == delegators@[j as int].1@);
            let new_drep_cred = match drep_choice_to_credential(&delegators[j].1) {
                Some(c) => c,
                None => {
                    i = i + 1;
                    continue;
                },
            };
            match old_drep_opt {
                Some(old_drep) => {
                    match drep_choice_to_credential(old_drep) {
                        Some(old_cred) => {
                            if !old_cred.same_as(&new_drep_cred) {
                                let ghost hb = h@;
                                match h.remove(&old_cred) {
                                    Some(e) => {
                                        let HistoricalDRepState {
                                            info,
                                            updates,
                                            metadata,
                                            delegators: dels,
                                            votes,
                                        } = e;
                                        let dels = match dels {
                                            Some(v) => Some(without_credential(&v, delegator)),
                                            None => None,
                                        };
                                        let e2 = HistoricalDRepState {
                                            info,
                                            updates,
                                            metadata,
                                            delegators: dels,
                                            votes,
                                        };
                                        assert(e2@ =~= without_delegator(hb[old_cred@], delegator@));
                                        h.insert(old_cred, e2);
                                        proof {
                                            lemma_remove_insert(hb, old_cred@, e2@);
                                        }
                                    },
                                    None => {},
                                }
                            }
                        },
                        None => {},
                    }
                },
                None => {},
            }
            let ghost h1 = h@;
            let entry = match h.remove(&new_drep_cred) {
                Some(e) => e,
                None => HistoricalDRepState::from_config(&cfg),
            };
            let HistoricalDRepState { info, updates, metadata, delegators: dels, votes } = entry;
            let dels = match dels {
                Some(mut v) => {
                    if !contains_credential(&v, delegator) {
                        v.push(delegator.duplicate());
                        assert(v.deep_view() =~= hist_entry(h1, cfg, new_drep_cred@).delegators.unwrap().push(delegator@));
                    }
                    Some(v)
                },
                None => None,
            };
            let e2 = HistoricalDRepState { info, updates, metadata, delegators: dels, votes };
            assert(e2@ =~= with_delegator(hist_entry(h1, cfg, new_drep_cred@), delegator@));
            let ghost nk = new_drep_cred@;
            h.insert(new_drep_cred, e2);
            proof {
                lemma_remove_insert(h1, nk, e2@);
            }
            i = i + 1;
        }
        assert(items.subrange(0, items.len() as int) =~= items);
        self.historical_dreps = Some(h);
        assert(self@ =~= StateView {
            config: old(self)@.config,
            dreps: old(self)@.dreps,
            historical: Some(delegations_fold(h0, cfg, d, items)),
        });
        Ok(())
    }
}


/// The query that asks the accounts state for the former DRep choices of the
/// stake addresses of a block's vote delegations.
pub fn delegation_query(delegators: &Vec<(StakeCredential, DRepChoice)>) -> (r: AccountsStateQuery)
    ensures
        r matches AccountsStateQuery::GetAccountsDrepDelegationsMap { stake_keys }
            && stake_keys.deep_view() == delegators.deep_view().map_values(
            |p: (CredentialView, DRepChoiceView)| p.0.hash(),
        ),
{
    let mut stake_keys: Vec<Vec<u8>> = Vec::new();
    let mut i: usize = 0;
    while i < delegators.len()
        invariant
            i <= delegators@.len(),
            stake_keys@.len() == i,
            forall|j: int| 0 <= j < i ==> (#[trigger] stake_keys@[j])@ == delegators@[j].0@.hash(),
        decreases delegators@.len() - i,
    {
        let k = delegators[i].0.get_hash();
        stake_keys.push(k);
        i = i + 1;
    }
    let ghost f = |p: (CredentialView, DRepChoiceView)| p.0.hash();
    assert forall|j: int| 0 <= j < stake_keys@.len() implies stake_keys.deep_view()[j]
        == delegators.deep_view().map_values(f)[j] by {
        assert(delegators.deep_view()[j] == (delegators@[j].0@, delegators@[j].1@));
        assert(stake_keys.deep_view()[j] == stake_keys@[j]@);
    }
    assert(stake_keys.deep_view() =~= delegators.deep_view().map_values(f));
    AccountsStateQuery::GetAccountsDrepDelegationsMap { stake_keys }
}

impl State {
    /// Applies an answer of the accounts state to the query of
    /// [`delegation_query`]: a map of former DRep choices is applied by
    /// [`State::apply_delegations`]; any other answer is refused, leaving the
    /// state as it was.
    pub fn apply_delegation_response(
        &mut self,
        delegators: &Vec<(StakeCredential, DRepChoice)>,
        response: &AccountsStateQueryResponse,
    ) -> (r: Result<(), DelegationError>)
        requires
            old(self).wf(),
            response matches AccountsStateQueryResponse::AccountsDrepDelegationsMap(map)
                ==> distinct_stake_keys(map@),
        ensures
            final(self).wf(),
            match response {
                AccountsStateQueryResponse::AccountsDrepDelegationsMap(map) => match old(
                    self,
                )@.historical {
                    Some(h) => r is Ok && final(self)@ == (StateView {
                        config: old(self)@.config,
                        dreps: old(self)@.dreps,
                        historical: Some(
                            delegations_fold(
                                h,
                                old(self)@.config,
                                delegators.deep_view(),
                                map.deep_view(),
                            ),
                        ),
                    }),
                    None => final(self)@ == old(self)@ && (r is Err <==> exists|i: int|
                        0 <= i < map@.len() && #[trigger] delegation_target(
                            delegators.deep_view(),
                            map.deep_view()[i],
                        ) is Some) && (r matches Err(e) ==> e is NoHistory),
                },
                _ => final(self)@ == old(self)@ && r matches Err(DelegationError::UnexpectedResponse),
            },
    {
        match response {
            AccountsStateQueryResponse::AccountsDrepDelegationsMap(map) => self.apply_delegations(
                delegators,
                map,
            ),
            _ => Err(DelegationError::UnexpectedResponse),
        }
    }
}


impl Duplicate for DRepRecord {
    fn duplicate(&self) -> (r: Self) {
        DRepRecord { deposit: self.deposit, anchor: duplicate_anchor(&self.anchor) }
    }
}

impl Duplicate for HistoricalDRepState {
    fn duplicate(&self) -> (r: Self) {
        let r = HistoricalDRepState {
            info: self.info,
            updates: match &self.updates {
                Some(u) => Some(copy_vec(u)),
                None => None,
            },
            metadata: match &self.metadata {
                Some(m) => Some(DRepMetadata { anchor: duplicate_anchor(&m.anchor) }),
                None => None,
            },
            delegators: match &self.delegators {
                Some(d) => Some(duplicate_credentials(d)),
                None => None,
            },
            votes: match &self.votes {
                Some(v) => Some(copy_vec(v)),
                None => None,
            },
        };
        assert(r@ =~= self@);
        r
    }
}

impl State {
    /// A state equal to this one.
    pub fn duplicate(&self) -> (r: Self)
        requires
            self.wf(),
        ensures
            r.wf(),
            r@ == self@,
    {
        State {
            config: self.config,
            dreps: self.dreps.duplicate(),
            historical_dreps: match &self.historical_dreps {
                Some(h) => Some(h.duplicate()),
                None => None,
            },
        }
    }
}

impl Default for State {
    fn default() -> (r: Self)
        ensures
            r.wf(),
            r@ == (StateView {
                config: DRepStorageConfig {
                    store_info: false,
                    store_delegators: false,
                    store_metadata: false,
                    store_updates: false,
                    store_votes: false,
                },
                dreps: Map::empty(),
                historical: None,
            }),
    {
        State { config: DRepStorageConfig::default(), dreps: CredMap::new(), historical_dreps: None }
    }
}

} // verus!
