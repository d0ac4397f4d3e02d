//! The decisions of the DRep state module: how the certificate and governance
//! messages of blocks are buffered until a block can be applied, how rollbacks
//! reach the buffer and the state history, how the Conway era is tracked, how a
//! block is applied to the state, and how queries to the DRep state are
//! answered. Reading messages, reading parameters, asking the accounts state
//! and publishing are the caller's part.

use crate::accounts::AccountsStateQuery;
use crate::drep_state::{
    anchor_lookup, cert_refusals, certs_fold, delegation_query, refusals_match, CertsOutcome, delegators_lookup, expired_entry, info_lookup,
    updates_lookup, votes_fold, votes_lookup, DRepMetadata, DRepStorageConfig,
    HistoricalDRepStateView, State, StateView,
};
use crate::governance::{
    query_text, render_query,
    DRepDelegatorAddresses, DRepInfo, DRepInfoWithDelegators, DRepUpdates, DRepVotes, DRepsList,
    GovernanceStateQuery, GovernanceStateQueryResponse,
};
use crate::messages::{GovernanceProceduresMessage, TxCertificatesMessage};
use crate::ordered_keys::{lemma_entries_increasing, lemma_u64_keys_ordered};
use crate::state_history::{current_of, drop_from, StateHistory};
use std::collections::BTreeMap;
use crate::types::{
    duplicate_credentials, BlockInfo, BlockStatus, CredentialView, DRepChoice, DRepChoiceView,
    StakeCredential, TxHash,
};
use vstd::prelude::*;
use vstd::std_specs::btree::spec_btree_map_iter;
use vstd::std_specs::iter::IteratorSpec;

verus! {

/// The DRep state module.
pub struct DRepState;

/// The messages of one block that has not been applied yet.
#[derive(Debug)]
pub struct Pair {
    pub bi: BlockInfo,
    pub certs: Option<TxCertificatesMessage>,
    pub gov: Option<GovernanceProceduresMessage>,
}

/// What was done with an incoming message.
#[derive(Debug, Clone, Copy, PartialEq, Eq, Structural)]
pub enum Filing {
    /// The block was applied already; the message was dropped.
    Skipped,
    /// The message announced a rollback: the buffered blocks from its number on
    /// were dropped. The caller restores the state from before that block.
    RolledBack,
    /// The message was buffered with its block.
    Stored,
}

/// Whether votes must be waited for in a block: where votes are kept and the
/// block lies in the Conway era.
pub open spec fn needs_gov(cfg: DRepStorageConfig, conway: Option<u64>, epoch: u64) -> bool {
    cfg.store_votes && match conway {
        Some(start) => epoch >= start,
        None => false,
    }
}

/// Whether a buffered block can be applied: it has its certificates, and its
/// governance procedures where they are needed.
pub open spec fn pair_ready(cfg: DRepStorageConfig, conway: Option<u64>, p: Pair) -> bool {
    p.certs is Some && (!needs_gov(cfg, conway, p.bi.epoch) || p.gov is Some)
}

/// The pair with its certificates or governance procedures replaced by those
/// given (where given).
pub open spec fn pair_with(
    p: Pair,
    certs: Option<TxCertificatesMessage>,
    gov: Option<GovernanceProceduresMessage>,
) -> Pair {
    Pair {
        bi: p.bi,
        certs: if certs is Some {
            certs
        } else {
            p.certs
        },
        gov: if gov is Some {
            gov
        } else {
            p.gov
        },
    }
}

/// `after` is `before` with the messages filed under block `bi`: merged into
/// the pair of that number where there is one (keeping its block info), and as
/// a new pair where there is none.
pub open spec fn filed(
    before: Map<u64, Pair>,
    after: Map<u64, Pair>,
    bi: BlockInfo,
    certs: Option<TxCertificatesMessage>,
    gov: Option<GovernanceProceduresMessage>,
) -> bool {
    after == before.insert(
        bi.number,
        if before.contains_key(bi.number) {
            pair_with(before[bi.number], certs, gov)
        } else {
            pair_with(Pair { bi, certs: None, gov: None }, certs, gov)
        },
    )
}

/// `after` keeps exactly the pairs of `before` below block number `n`.
pub open spec fn cut_at(before: Map<u64, Pair>, after: Map<u64, Pair>, n: u64) -> bool {
    after == before.restrict(before.dom().filter(|k: u64| k < n))
}

/// Whether `k` is the lowest block number buffered in `m`.
pub open spec fn is_lowest(m: Map<u64, Pair>, k: u64) -> bool {
    m.contains_key(k) && forall|j: u64| #[trigger] m.contains_key(j) ==> k <= j
}

/// The Conway start after a rollback into `epoch`: forgotten where the rollback
/// reaches back to it.
pub open spec fn conway_after_rollback(conway: Option<u64>, epoch: u64) -> Option<u64> {
    match conway {
        Some(start) => if epoch <= start {
            None
        } else {
            conway
        },
        None => None,
    }
}

/// The history after a rollback to block `n`: the states of `n` and of the
/// blocks after it are forgotten, and the state from before `n` is committed
/// again as the state of `n`.
pub open spec fn rolled_back(h: Seq<(u64, StateView)>, n: u64) -> Seq<(u64, StateView)> {
    let kept = drop_from(h, n);
    kept.push((n, current_of::<State>(kept)))
}

/// The buffer of blocks waiting to be applied, with the era and progress
/// markers that decide when they can be.
pub struct BlockPipeline {
    pub config: DRepStorageConfig,
    pub pending: BTreeMap<u64, Pair>,
    pub conway_epoch_start: Option<u64>,
    pub last_committed: u64,
}

impl BlockPipeline {
    /// The buffered blocks, by number.
    pub open spec fn pending(&self) -> Map<u64, Pair> {
        self.pending@
    }

    /// Each buffered block is filed under its own number.
    pub open spec fn wf(&self) -> bool {
        forall|n: u64| #[trigger] self.pending().contains_key(n) ==> self.pending()[n].bi.number == n
    }

    pub fn new(config: DRepStorageConfig) -> (r: Self)
        ensures
            r.wf(),
            r.config == config,
            r.pending() == Map::<u64, Pair>::empty(),
            r.conway_epoch_start is None,
            r.last_committed == 0,
    {
        BlockPipeline {
            config,
            pending: BTreeMap::new(),
            conway_epoch_start: None,
            last_committed: 0,
        }
    }

    /// Files messages under their block, unconditionally.
    fn store(
        &mut self,
        bi: BlockInfo,
        certs: Option<TxCertificatesMessage>,
        gov: Option<GovernanceProceduresMessage>,
    )
        requires
            old(self).wf(),
        ensures
            final(self).wf(),
            final(self).config == old(self).config,
            final(self).conway_epoch_start == old(self).conway_epoch_start,
            final(self).last_committed == old(self).last_committed,
            filed(old(self).pending(), final(self).pending(), bi, certs, gov),
    {
        proof {
            lemma_u64_keys_ordered();
        }
        let n = bi.number;
        let p = match self.pending.remove(&n) {
            Some(old_pair) => {
                let Pair { bi: pbi, certs: pcerts, gov: pgov } = old_pair;
                let ncerts = match certs {
                    Some(c) => Some(c),
                    None => pcerts,
                };
                let ngov = match gov {
                    Some(g) => Some(g),
                    None => pgov,
                };
                Pair { bi: pbi, certs: ncerts, gov: ngov }
            },
            None => {
                let ncerts = match certs {
                    Some(c) => Some(c),
                    None => None,
                };
                let ngov = match gov {
                    Some(g) => Some(g),
                    None => None,
                };
                Pair { bi, certs: ncerts, gov: ngov }
            },
        };
        self.pending.insert(n, p);
        assert(self.pending@ =~= old(self).pending().insert(n, p));
    }

    /// Drops the buffered blocks from number `n` on.
    fn cut(&mut self, n: u64)
        requires
            old(self).wf(),
        ensures
            final(self).wf(),
            final(self).config == old(self).config,
            final(self).conway_epoch_start == old(self).conway_epoch_start,
            final(self).last_committed == old(self).last_committed,
            cut_at(old(self).pending(), final(self).pending(), n),
    {
        proof {
            lemma_u64_keys_ordered();
        }
        let ghost before = self.pending@;
        let mut later: Vec<u64> = Vec::new();
        let it0 = self.pending.iter();
        let ghost s = it0.remaining();
        for kv in it: it0
            invariant
                it.seq() == s,
                s == spec_btree_map_iter(&self.pending).remaining(),
                self.pending@ == before,
                forall|i: int| 0 <= i < later@.len() ==> before.contains_key(#[trigger] later@[i]) && later@[i] >= n,
                forall|i: int| 0 <= i < it.index() && *(#[trigger] s[i]).0 >= n ==> later@.contains(*s[i].0),
        {
            let (k, _) = kv;
            let ghost idx = it.index() as int;
            let ghost l0 = later@;
            proof {
                assert(kv == s[idx]);
            }
            if *k >= n {
                later.push(*k);
                proof {
                    assert(later@[l0.len() as int] == *k);
                    assert forall|i: int| 0 <= i < idx && *(#[trigger] s[i]).0 >= n implies later@.contains(*s[i].0) by {
                        let j = choose|j: int| 0 <= j < l0.len() && l0[j] == *s[i].0;
                        assert(later@[j] == l0[j]);
                    }
                }
            }
        }
        let ghost keep = before.dom().filter(|k: u64| k < n);
        proof {
            assert forall|k: u64| before.contains_key(k) && k >= n implies later@.contains(k) by {
                assert(s.contains((&k, &before[k])));
                let p = choose|p: int| 0 <= p < s.len() && s[p] == (&k, &before[k]);
                assert(*s[p].0 == k);
            }
        }
        let mut i: usize = 0;
        while i < later.len()
            invariant
                self.config == old(self).config,
                self.conway_epoch_start == old(self).conway_epoch_start,
                self.last_committed == old(self).last_committed,
                i <= later@.len(),
                forall|j: int| 0 <= j < later@.len() ==> before.contains_key(#[trigger] later@[j]) && later@[j] >= n,
                forall|k: u64| before.contains_key(k) && k >= n ==> later@.contains(k),
                forall|k: u64| #[trigger] self.pending@.contains_key(k) ==> before.contains_key(k),
                forall|k: u64| #[trigger] self.pending@.contains_key(k) ==> self.pending@[k] == before[k],
                forall|k: u64| before.contains_key(k) && k < n ==> #[trigger] self.pending@.contains_key(k),
                forall|j: int| 0 <= j < i ==> !self.pending@.contains_key(#[trigger] later@[j]),
                forall|n2: u64| #[trigger] self.pending@.contains_key(n2) ==> self.pending@[n2].bi.number == n2,
            decreases later@.len() - i,
        {
            let k = later[i];
            self.pending.remove(&k);
            i = i + 1;
        }
        proof {
            assert forall|k: u64| #[trigger] self.pending@.contains_key(k) implies k < n by {
                if k >= n {
                    let j = choose|j: int| 0 <= j < later@.len() && later@[j] == k;
                }
            }
            assert(self.pending@ =~= before.restrict(keep));
        }
    }

    /// Rolls the history back to before block `bi` and commits the state
    /// from before it as the state of `bi`.
    fn roll_back_history(history: &mut StateHistory<State>, bi: &BlockInfo)
        requires
            old(history).wf(),
        ensures
            final(history).wf(),
            final(history).name() == old(history).name(),
            final(history).model() == rolled_back(old(history).model(), bi.number),
    {
        let state = history.get_rolled_back_state(bi);
        history.commit(bi, state);
    }

    /// Files the certificates of a block arriving from the certificate stream.
    /// A rollback drops the buffered blocks from its number on, rolls the
    /// history back to before it (committing the state from before it as the
    /// state of the rolled-back block) and forgets the Conway start where it
    /// reaches back to it. Otherwise the certificates are dropped where the
    /// block was applied already, and buffered with the block where it was not.
    pub fn file_certs(
        &mut self,
        history: &mut StateHistory<State>,
        bi: BlockInfo,
        certs: TxCertificatesMessage,
    ) -> (r: Filing)
        requires
            old(self).wf(),
            old(history).wf(),
        ensures
            final(self).wf(),
            final(history).wf(),
            final(history).name() == old(history).name(),
            final(self).config == old(self).config,
            final(self).last_committed == old(self).last_committed,
            if bi.status == BlockStatus::RolledBack {
                r == Filing::RolledBack && cut_at(
                    old(self).pending(),
                    final(self).pending(),
                    bi.number,
                ) && final(self).conway_epoch_start == conway_after_rollback(
                    old(self).conway_epoch_start,
                    bi.epoch,
                ) && final(history).model() == rolled_back(old(history).model(), bi.number)
            } else if bi.number <= old(self).last_committed {
                r == Filing::Skipped && final(self).pending() == old(self).pending()
                    && final(self).conway_epoch_start == old(self).conway_epoch_start
                    && final(history).model() == old(history).model()
            } else {
                r == Filing::Stored && filed(
                    old(self).pending(),
                    final(self).pending(),
                    bi,
                    Some(certs),
                    None,
                ) && final(self).conway_epoch_start == old(self).conway_epoch_start
                    && final(history).model() == old(history).model()
            },
    {
        if bi.status == BlockStatus::RolledBack {
            Self::roll_back_history(history, &bi);
            self.cut(bi.number);
            self.forget_conway_after(bi.epoch);
            Filing::RolledBack
        } else if bi.number <= self.last_committed {
            Filing::Skipped
        } else {
            self.store(bi, Some(certs), None);
            Filing::Stored
        }
    }

    /// Files the governance procedures of a block arriving from the governance
    /// stream, as [`BlockPipeline::file_certs`] does, except that a rollback
    /// also moves the last applied block back to the rollback's number.
    pub fn file_gov(
        &mut self,
        history: &mut StateHistory<State>,
        bi: BlockInfo,
        gov: GovernanceProceduresMessage,
    ) -> (r: Filing)
        requires
            old(self).wf(),
            old(history).wf(),
        ensures
            final(self).wf(),
            final(history).wf(),
            final(history).name() == old(history).name(),
            final(self).config == old(self).config,
            if bi.status == BlockStatus::RolledBack {
                r == Filing::RolledBack && cut_at(
                    old(self).pending(),
                    final(self).pending(),
                    bi.number,
                ) && final(self).conway_epoch_start == conway_after_rollback(
                    old(self).conway_epoch_start,
                    bi.epoch,
                ) && final(self).last_committed == bi.number && final(history).model()
                    == rolled_back(old(history).model(), bi.number)
            } else if bi.number <= old(self).last_committed {
                r == Filing::Skipped && final(self).pending() == old(self).pending()
                    && final(self).conway_epoch_start == old(self).conway_epoch_start
                    && final(self).last_committed == old(self).last_committed
                    && final(history).model() == old(history).model()
            } else {
                r == Filing::Stored && filed(
                    old(self).pending(),
                    final(self).pending(),
                    bi,
                    None,
                    Some(gov),
                ) && final(self).conway_epoch_start == old(self).conway_epoch_start
                    && final(self).last_committed == old(self).last_committed
                    && final(history).model() == old(history).model()
            },
    {
        if bi.status == BlockStatus::RolledBack {
            Self::roll_back_history(history, &bi);
            self.cut(bi.number);
            self.last_committed = bi.number;
            self.forget_conway_after(bi.epoch);
            Filing::RolledBack
        } else if bi.number <= self.last_committed {
            Filing::Skipped
        } else {
            self.store(bi, None, Some(gov));
            Filing::Stored
        }
    }

    fn forget_conway_after(&mut self, epoch: u64)
        ensures
            final(self).conway_epoch_start == conway_after_rollback(
                old(self).conway_epoch_start,
                epoch,
            ),
            final(self).config == old(self).config,
            final(self).pending() == old(self).pending(),
            final(self).last_committed == old(self).last_committed,
    {
        match self.conway_epoch_start {
            Some(start) => {
                if epoch <= start {
                    self.conway_epoch_start = None;
                }
            },
            None => {},
        }
    }

    /// Buffers certificates that arrived while waiting, with no check.
    pub fn store_certs(&mut self, bi: BlockInfo, certs: TxCertificatesMessage)
        requires
            old(self).wf(),
        ensures
            final(self).wf(),
            final(self).config == old(self).config,
            final(self).conway_epoch_start == old(self).conway_epoch_start,
            final(self).last_committed == old(self).last_committed,
            filed(old(self).pending(), final(self).pending(), bi, Some(certs), None),
    {
        self.store(bi, Some(certs), None);
    }

    /// Buffers governance procedures that arrived while waiting, with no check.
    pub fn store_gov(&mut self, bi: BlockInfo, gov: GovernanceProceduresMessage)
        requires
            old(self).wf(),
        ensures
            final(self).wf(),
            final(self).config == old(self).config,
            final(self).conway_epoch_start == old(self).conway_epoch_start,
            final(self).last_committed == old(self).last_committed,
            filed(old(self).pending(), final(self).pending(), bi, None, Some(gov)),
    {
        self.store(bi, None, Some(gov));
    }

    /// Whether to listen for governance procedures while waiting: where votes
    /// are kept, the Conway era has started, and a buffered Conway block has
    /// its certificates but not yet its governance procedures.
    pub fn waiting_for_gov(&self) -> (r: bool)
        ensures
            r == (self.config.store_votes && exists|k: u64|
                #[trigger] self.pending().contains_key(k) && self.pending()[k].certs is Some
                    && self.pending()[k].gov is None && needs_gov(
                    self.config,
                    self.conway_epoch_start,
                    self.pending()[k].bi.epoch,
                )),
    {
        if !self.config.store_votes {
            return false;
        }
        proof {
            lemma_u64_keys_ordered();
        }
        let it0 = self.pending.iter();
        let ghost s = it0.remaining();
        for kv in it: it0
            invariant
                it.seq() == s,
                s == spec_btree_map_iter(&self.pending).remaining(),
                self.config.store_votes,
                forall|j: int|
                    0 <= j < it.index() ==> !((#[trigger] s[j]).1.certs is Some && s[j].1.gov is None
                        && needs_gov(self.config, self.conway_epoch_start, s[j].1.bi.epoch)),
        {
            let (k, p) = kv;
            proof {
                assert(kv == s[it.index() as int]);
            }
            let in_conway = match self.conway_epoch_start {
                Some(start) => p.bi.epoch >= start,
                None => false,
            };
            if p.certs.is_some() && p.gov.is_none() && in_conway {
                proof {
                    assert(self.pending@.contains_key(*k) && self.pending@[*k] == *p);
                }
                return true;
            }
        }
        proof {
            assert forall|k: u64| #[trigger] self.pending().contains_key(k) implies !(
            self.pending()[k].certs is Some && self.pending()[k].gov is None && needs_gov(
                self.config,
                self.conway_epoch_start,
                self.pending()[k].bi.epoch,
            )) by {
                assert(s.contains((&k, &self.pending@[k])));
            }
        }
        false
    }

    /// The lowest buffered block number, if any block is buffered.
    fn lowest_number(&self) -> (r: Option<u64>)
        ensures
            match r {
                Some(k) => is_lowest(self.pending(), k),
                None => self.pending() == Map::<u64, Pair>::empty(),
            },
    {
        proof {
            lemma_u64_keys_ordered();
        }
        let it0 = self.pending.iter();
        let ghost s = it0.remaining();
        proof {
            lemma_entries_increasing(s);
        }
        for kv in it: it0
            invariant
                it.seq() == s,
                s == spec_btree_map_iter(&self.pending).remaining(),
                forall|i: int, j: int| 0 <= i < j < s.len() ==> *s[i].0 < *s[j].0,
                it.index() == 0,
        {
            let (k, _) = kv;
            proof {
                assert(kv == s[0]);
                assert forall|j: u64| #[trigger] self.pending().contains_key(j) implies *k <= j by {
                    assert(s.contains((&j, &self.pending@[j])));
                    let p = choose|p: int| 0 <= p < s.len() && s[p] == (&j, &self.pending@[j]);
                    if p > 0 {
                        assert(*s[0].0 < *s[p].0);
                    }
                }
            }
            return Some(*k);
        }
        proof {
            assert forall|j: u64| !self.pending().contains_key(j) by {
                if self.pending().contains_key(j) {
                    assert(s.contains((&j, &self.pending@[j])));
                }
            }
            assert(self.pending() =~= Map::<u64, Pair>::empty());
        }
        None
    }

    /// Hands out the lowest-numbered buffered block if it can be applied;
    /// otherwise hands out nothing.
    pub fn take_ready(&mut self) -> (r: Option<Pair>)
        requires
            old(self).wf(),
        ensures
            final(self).wf(),
            final(self).config == old(self).config,
            final(self).conway_epoch_start == old(self).conway_epoch_start,
            final(self).last_committed == old(self).last_committed,
            match r {
                Some(p) => {
                    let k = p.bi.number;
                    &&& is_lowest(old(self).pending(), k)
                    &&& old(self).pending()[k] == p
                    &&& pair_ready(old(self).config, old(self).conway_epoch_start, p)
                    &&& final(self).pending() == old(self).pending().remove(k)
                },
                None => (forall|k: u64|
                    #[trigger] is_lowest(old(self).pending(), k) ==> !pair_ready(
                        old(self).config,
                        old(self).conway_epoch_start,
                        old(self).pending()[k],
                    )) && final(self).pending() == old(self).pending(),
            },
    {
        proof {
            lemma_u64_keys_ordered();
        }
        let k = match self.lowest_number() {
            Some(k) => k,
            None => {
                return None;
            },
        };
        let ready = match self.pending.get(&k) {
            Some(p) => {
                let need_gov = self.config.store_votes && match self.conway_epoch_start {
                    Some(start) => p.bi.epoch >= start,
                    None => false,
                };
                p.certs.is_some() && (!need_gov || p.gov.is_some())
            },
            None => false,
        };
        if !ready {
            proof {
                assert forall|j: u64| #[trigger] is_lowest(old(self).pending(), j) implies !pair_ready(
                    old(self).config,
                    old(self).conway_epoch_start,
                    old(self).pending()[j],
                ) by {
                    assert(j <= k && k <= j);
                }
            }
            return None;
        }
        let r = self.pending.remove(&k);
        assert(self.pending@ =~= old(self).pending().remove(k));
        r
    }

    /// Notes protocol parameters of the Conway era seen at the boundary into
    /// `epoch`: the first such epoch becomes the Conway start.
    pub fn note_conway_parameters(&mut self, epoch: u64)
        ensures
            final(self).conway_epoch_start == match old(self).conway_epoch_start {
                Some(s) => Some(s),
                None => Some(epoch),
            },
            final(self).config == old(self).config,
            final(self).pending() == old(self).pending(),
            final(self).last_committed == old(self).last_committed,
    {
        if self.conway_epoch_start.is_none() {
            self.conway_epoch_start = Some(epoch);
        }
    }

    /// Notes that block `number` was applied.
    pub fn note_committed(&mut self, number: u64)
        ensures
            final(self).last_committed == number,
            final(self).config == old(self).config,
            final(self).pending() == old(self).pending(),
            final(self).conway_epoch_start == old(self).conway_epoch_start,
    {
        self.last_committed = number;
    }
}

/// Whether a block starts an epoch after the first: where parameters are read
/// and the DRep list is published.
pub fn is_epoch_boundary(bi: &BlockInfo) -> (r: bool)
    ensures
        r == (bi.new_epoch && bi.epoch > 0),
{
    bi.new_epoch && bi.epoch > 0
}

/// Whether protocol parameters are read for block `bi`: at an epoch boundary,
/// where DRep information or votes are kept.
pub fn needs_parameters(cfg: DRepStorageConfig, bi: &BlockInfo) -> (r: bool)
    ensures
        r == (bi.new_epoch && bi.epoch > 0 && (cfg.store_info || cfg.store_votes)),
{
    is_epoch_boundary(bi) && (cfg.store_info || cfg.store_votes)
}

/// The DRep activity period of a protocol parameters update: that of its
/// Conway section, or none where it has none.
pub fn conway_activity(conway_d_rep_activity: Option<u32>) -> (r: Result<u32, String>)
    ensures
        match conway_d_rep_activity {
            Some(d) => r == Ok::<u32, String>(d),
            None => r matches Err(e) && e@ == "ProtocolParams without Conway section"@,
        },
{
    match conway_d_rep_activity {
        Some(d) => Ok(d),
        None => Err("ProtocolParams without Conway section".to_owned()),
    }
}

/// The state after the expirations at the boundary into `epoch`, with DRep
/// activity period `activity`.
pub open spec fn expirations_applied(s: StateView, epoch: u64, activity: u32) -> StateView {
    StateView {
        config: s.config,
        dreps: s.dreps,
        historical: match s.historical {
            Some(h) => Some(
                h.map_values(|e: HistoricalDRepStateView| expired_entry(e, epoch, activity)),
            ),
            None => None,
        },
    }
}

/// The state after the votes of a block, where votes are kept.
pub open spec fn votes_applied(
    s: StateView,
    txs: Seq<(TxHash, crate::messages::VotingProcedures)>,
) -> StateView {
    if !s.config.store_votes || s.historical is None {
        s
    } else {
        StateView {
            config: s.config,
            dreps: s.dreps,
            historical: Some(votes_fold(s.historical.unwrap(), s.config, txs)),
        }
    }
}

/// The state after a block, and the vote delegations of the block that wait
/// for the accounts state: first the expirations (where the block's parameters
/// gave a DRep activity period), then the votes, then the certificates.
pub open spec fn block_step(s: StateView, p: Pair, activity: Option<u32>) -> (
    StateView,
    Seq<(CredentialView, DRepChoiceView)>,
) {
    let s2 = block_prelude(s, p, activity);
    match p.certs {
        Some(c) => certs_fold(s2, c.certificates@),
        None => (s2, Seq::empty()),
    }
}

/// The state of a block before its certificates: after the expirations
/// (where the block's parameters gave a DRep activity period) and the votes.
pub open spec fn block_prelude(s: StateView, p: Pair, activity: Option<u32>) -> StateView {
    let s1 = match activity {
        Some(d) => expirations_applied(s, p.bi.epoch, d),
        None => s,
    };
    match p.gov {
        Some(g) => votes_applied(s1, g.voting_procedures@),
        None => s1,
    }
}

/// Applies a block to the state: the expirations where `activity` is given,
/// then the block's votes, then its certificates. Returns the vote delegations
/// that wait for the accounts state and the refused certificates.
pub fn apply_block(state: &mut State, pair: &Pair, activity: Option<u32>) -> (r: CertsOutcome)
    requires
        old(state).wf(),
    ensures
        final(state).wf(),
        (final(state)@, r.delegations.deep_view()) == block_step(old(state)@, *pair, activity),
        match pair.certs {
            Some(c) => refusals_match(
                r.refused@,
                cert_refusals(block_prelude(old(state)@, *pair, activity), c.certificates@),
                c.certificates@,
            ),
            None => r.refused@.len() == 0,
        },
{
    if let Some(d) = activity {
        state.update_drep_expirations(pair.bi.epoch, d);
    }
    if let Some(gp) = &pair.gov {
        state.process_votes(gp);
    }
    match &pair.certs {
        Some(c) => state.process_certificates(c),
        None => {
            let delegations: Vec<(StakeCredential, DRepChoice)> = Vec::new();
            assert(delegations.deep_view() =~= Seq::<(CredentialView, DRepChoiceView)>::empty());
            CertsOutcome { delegations, refused: Vec::new() }
        },
    }
}

/// What is left to do for a block once it is applied: the refused
/// certificates to report, and the query to the accounts state for its vote
/// delegations, where one is needed.
#[derive(Debug)]
pub struct BlockWork {
    pub outcome: CertsOutcome,
    pub accounts_query: Option<AccountsStateQuery>,
}

impl BlockPipeline {
    /// Processes a block handed out by [`BlockPipeline::take_ready`], given
    /// the DRep activity period of the protocol parameters read for it, if
    /// any: such parameters mark the Conway era's start where none was
    /// noted; then the block is applied to `state` with that period; then the
    /// accounts query for its vote delegations is made where one is needed.
    pub fn process_block(&mut self, state: &mut State, pair: &Pair, parameters: Option<u32>) -> (r:
        BlockWork)
        requires
            old(state).wf(),
        ensures
            final(state).wf(),
            final(self).config == old(self).config,
            final(self).pending() == old(self).pending(),
            final(self).last_committed == old(self).last_committed,
            final(self).conway_epoch_start == match (parameters, old(self).conway_epoch_start) {
                (Some(_), None) => Some(pair.bi.epoch),
                _ => old(self).conway_epoch_start,
            },
            (final(state)@, r.outcome.delegations.deep_view()) == block_step(
                old(state)@,
                *pair,
                parameters,
            ),
            match pair.certs {
                Some(c) => refusals_match(
                    r.outcome.refused@,
                    cert_refusals(block_prelude(old(state)@, *pair, parameters), c.certificates@),
                    c.certificates@,
                ),
                None => r.outcome.refused@.len() == 0,
            },
            match r.accounts_query {
                Some(q) => old(self).config.store_delegators && r.outcome.delegations@.len() > 0
                    && (q matches AccountsStateQuery::GetAccountsDrepDelegationsMap { stake_keys }
                    && stake_keys.deep_view() == r.outcome.delegations.deep_view().map_values(
                    |p: (CredentialView, DRepChoiceView)| p.0.hash(),
                )),
                None => !(old(self).config.store_delegators && r.outcome.delegations@.len() > 0),
            },
    {
        if parameters.is_some() {
            self.note_conway_parameters(pair.bi.epoch);
        }
        let outcome = apply_block(state, pair, parameters);
        let accounts_query = delegations_to_query(self.config, &outcome.delegations);
        BlockWork { outcome, accounts_query }
    }

    /// Commits the state after block `bi` to the history and notes the block
    /// as applied.
    pub fn commit_block(&mut self, history: &mut StateHistory<State>, bi: &BlockInfo, state: State)
        requires
            old(history).wf(),
            state.wf(),
        ensures
            final(history).wf(),
            final(history).name() == old(history).name(),
            final(history).model() == old(history).model().push((bi.number, state@)),
            final(self).last_committed == bi.number,
            final(self).config == old(self).config,
            final(self).pending() == old(self).pending(),
            final(self).conway_epoch_start == old(self).conway_epoch_start,
    {
        history.commit(bi, state);
        self.note_committed(bi.number);
    }
}

/// The query to the accounts state for the vote delegations of a block: made
/// where delegators are kept and the block has any.
pub fn delegations_to_query(
    cfg: DRepStorageConfig,
    batched: &Vec<(StakeCredential, DRepChoice)>,
) -> (r: Option<AccountsStateQuery>)
    ensures
        match r {
            Some(q) => cfg.store_delegators && batched@.len() > 0 && (
            q matches AccountsStateQuery::GetAccountsDrepDelegationsMap { stake_keys }
                && stake_keys.deep_view() == batched.deep_view().map_values(
                |p: (CredentialView, DRepChoiceView)| p.0.hash(),
            )),
            None => !(cfg.store_delegators && batched@.len() > 0),
        },
{
    if cfg.store_delegators && batched.len() > 0 {
        Some(delegation_query(batched))
    } else {
        None
    }
}

/// The answer to a query the DRep state does not serve: an error naming the
/// query by its debug text.
fn unserved_response(query: &GovernanceStateQuery) -> (r: GovernanceStateQueryResponse)
    ensures
        r matches GovernanceStateQueryResponse::Error(e) && e@ == unserved_text(*query),
{
    let mut m = "Unimplemented governance query: ".to_owned();
    m.append(render_query(query).as_str());
    GovernanceStateQueryResponse::Error(m)
}

/// The text that answers a query the DRep state does not serve.
pub open spec fn unserved_text(query: GovernanceStateQuery) -> Seq<char> {
    "Unimplemented governance query: "@ + query_text(query)
}

/// An error answer with the given text.
fn error_response(m: &str) -> (r: GovernanceStateQueryResponse)
    ensures
        r matches GovernanceStateQueryResponse::Error(e) && e@ == m@,
{
    GovernanceStateQueryResponse::Error(m.to_owned())
}

/// The answer to a DRep query, given the current DRep state if there is one.
pub fn answer_drep_query(state: Option<&State>, query: &GovernanceStateQuery) -> (r:
    GovernanceStateQueryResponse)
    requires
        state matches Some(s) ==> s.wf(),
    ensures
        match query {
            GovernanceStateQuery::GetDRepsList => match state {
                None => r matches GovernanceStateQueryResponse::Error(e) && e@ == "No current DRep state"@,
                Some(s) => r matches GovernanceStateQueryResponse::DRepsList(l)
                    && l.dreps.deep_view().no_duplicates() && l.dreps.deep_view().to_set()
                    == s@.dreps.dom(),
            },
            GovernanceStateQuery::GetDRepInfoWithDelegators { drep_credential } => match state {
                None => r matches GovernanceStateQueryResponse::Error(e) && e@ == "No current state"@,
                Some(s) => match info_lookup(s@, drep_credential@) {
                    Ok(Some(info)) => match delegators_lookup(s@, drep_credential@) {
                        Ok(Some(d)) => r matches GovernanceStateQueryResponse::DRepInfoWithDelegators(
                            w,
                        ) && w.info == info_of(info) && w.delegators.deep_view() == d,
                        Ok(None) => r is NotFound,
                        Err(m) => r matches GovernanceStateQueryResponse::Error(e) && e@ == m,
                    },
                    Ok(None) => r is NotFound,
                    Err(m) => r matches GovernanceStateQueryResponse::Error(e) && e@ == m,
                },
            },
            GovernanceStateQuery::GetDRepDelegators { drep_credential } => match state {
                None => r matches GovernanceStateQueryResponse::Error(e) && e@ == "No current state"@,
                Some(s) => match delegators_lookup(s@, drep_credential@) {
                    Ok(Some(d)) => r matches GovernanceStateQueryResponse::DRepDelegators(a)
                        && a.addresses.deep_view() == d,
                    Ok(None) => r is NotFound,
                    Err(m) => r matches GovernanceStateQueryResponse::Error(e) && e@ == m,
                },
            },
            GovernanceStateQuery::GetDRepMetadata { drep_credential } => match state {
                None => r matches GovernanceStateQueryResponse::Error(e) && e@ == "No current state"@,
                Some(s) => match anchor_lookup(s@, drep_credential@) {
                    Ok(Some(a)) => r matches GovernanceStateQueryResponse::DRepMetadata(m)
                        && m.anchor.deep_view() == Some(a),
                    Ok(None) => r is NotFound,
                    Err(m) => r matches GovernanceStateQueryResponse::Error(e) && e@ == m,
                },
            },
            GovernanceStateQuery::GetDRepUpdates { drep_credential } => match state {
                None => r matches GovernanceStateQueryResponse::Error(e) && e@ == "No current state"@,
                Some(s) => match updates_lookup(s@, drep_credential@) {
                    Ok(Some(u)) => r matches GovernanceStateQueryResponse::DRepUpdates(x)
                        && x.updates@ == u,
                    Ok(None) => r is NotFound,
                    Err(m) => r matches GovernanceStateQueryResponse::Error(e) && e@ == m,
                },
            },
            GovernanceStateQuery::GetDRepVotes { drep_credential } => match state {
                None => r matches GovernanceStateQueryResponse::Error(e) && e@ == "No current state"@,
                Some(s) => match votes_lookup(s@, drep_credential@) {
                    Ok(Some(v)) => r matches GovernanceStateQueryResponse::DRepVotes(x)
                        && x.votes@ == v,
                    Ok(None) => r is NotFound,
                    Err(m) => r matches GovernanceStateQueryResponse::Error(e) && e@ == m,
                },
            },
            _ => r matches GovernanceStateQueryResponse::Error(e) && e@ == unserved_text(*query),
        },
{
    match query {
        GovernanceStateQuery::GetDRepsList => match state {
            Some(s) => GovernanceStateQueryResponse::DRepsList(DRepsList { dreps: s.list() }),
            None => error_response("No current DRep state"),
        },
        GovernanceStateQuery::GetDRepInfoWithDelegators { drep_credential } => match state {
            Some(s) => match s.get_drep_info(drep_credential) {
                Ok(Some(info)) => match s.get_drep_delegators(drep_credential) {
                    Ok(Some(delegators)) => {
                        GovernanceStateQueryResponse::DRepInfoWithDelegators(
                            DRepInfoWithDelegators {
                                info: DRepInfo {
                                    deposit: info.deposit,
                                    retired: info.retired,
                                    expired: info.expired,
                                    active_epoch: info.active_epoch,
                                    last_active_epoch: info.last_active_epoch,
                                },
                                delegators: duplicate_credentials(delegators),
                            },
                        )
                    },
                    Ok(None) => GovernanceStateQueryResponse::NotFound,
                    Err(msg) => error_response(msg),
                },
                Ok(None) => GovernanceStateQueryResponse::NotFound,
                Err(msg) => error_response(msg),
            },
            None => error_response("No current state"),
        },
        GovernanceStateQuery::GetDRepDelegators { drep_credential } => match state {
            Some(s) => match s.get_drep_delegators(drep_credential) {
                Ok(Some(delegators)) => GovernanceStateQueryResponse::DRepDelegators(
                    DRepDelegatorAddresses { addresses: duplicate_credentials(delegators) },
                ),
                Ok(None) => GovernanceStateQueryResponse::NotFound,
                Err(msg) => error_response(msg),
            },
            None => error_response("No current state"),
        },
        GovernanceStateQuery::GetDRepMetadata { drep_credential } => match state {
            Some(s) => match s.get_drep_anchor(drep_credential) {
                Ok(Some(anchor)) => GovernanceStateQueryResponse::DRepMetadata(
                    DRepMetadata { anchor: Some(anchor.duplicate()) },
                ),
                Ok(None) => GovernanceStateQueryResponse::NotFound,
                Err(msg) => error_response(msg),
            },
            None => error_response("No current state"),
        },
        GovernanceStateQuery::GetDRepUpdates { drep_credential } => match state {
            Some(s) => match s.get_drep_updates(drep_credential) {
                Ok(Some(updates)) => GovernanceStateQueryResponse::DRepUpdates(
                    DRepUpdates { updates: updates.clone() },
                ),
                Ok(None) => GovernanceStateQueryResponse::NotFound,
                Err(msg) => error_response(msg),
            },
            None => error_response("No current state"),
        },
        GovernanceStateQuery::GetDRepVotes { drep_credential } => match state {
            Some(s) => match s.get_drep_votes(drep_credential) {
                Ok(Some(votes)) => GovernanceStateQueryResponse::DRepVotes(
                    DRepVotes { votes: votes.clone() },
                ),
                Ok(None) => GovernanceStateQueryResponse::NotFound,
                Err(msg) => error_response(msg),
            },
            None => error_response("No current state"),
        },
        _ => unserved_response(query),
    }
}

/// The status answer for a DRep's recorded status.
pub open spec fn info_of(i: crate::drep_state::DRepRecordExtended) -> DRepInfo {
    DRepInfo {
        deposit: i.deposit,
        retired: i.retired,
        expired: i.expired,
        active_epoch: i.active_epoch,
        last_active_epoch: i.last_active_epoch,
    }
}

} // verus!
