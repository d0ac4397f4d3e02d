//! Properties of the library that span several calls or every state.

use crate::drep_state::{
    cert_step, certs_fold, delegation_step, delegation_target, expired_entry, hist_entry,
    info_lookup, remove_all, vote_records, voter_step, votes_fold, votes_lookup, with_delegator,
    without_delegator, CertFailure, DRepStorageConfig, HistoricalDRepStateView, StateView,
    VoteRecord,
};
use crate::drep_module::{cut_at, info_of, rolled_back, votes_applied, Pair};
use crate::messages::{
    DRepDeregistrationWithPos, DRepRegistrationWithPos, SingleVoterVotes, TxCertificate,
    VotingProcedures,
};
use crate::rest::{grouped, policies_in_order, lemma_policies_distinct};
use crate::drep_state::State;
use crate::state_history::{current_of, drop_from, Snapshot};
use crate::types::{CredentialView, DRepChoiceView, TxHash, Voter};
use vstd::prelude::*;

verus! {

/// A certificate that is refused leaves the DRep state as it was.
pub proof fn law_refused_certificate_changes_nothing(s: StateView, c: TxCertificate)
    ensures
        cert_step(s, c).1 is Err ==> cert_step(s, c).0 == s,
{
}

/// No certificate changes the configuration, or whether history is kept.
pub proof fn law_certificate_keeps_configuration(s: StateView, c: TxCertificate)
    ensures
        cert_step(s, c).0.config == s.config,
        cert_step(s, c).0.historical is Some <==> s.historical is Some,
{
}

/// An accepted certificate answers `true` exactly when it changes the set of
/// registered DReps.
pub proof fn law_certificate_answer_reports_membership_change(s: StateView, c: TxCertificate)
    ensures
        cert_step(s, c).1 matches Ok(b) ==> (b <==> cert_step(s, c).0.dreps.dom() != s.dreps.dom()),
{
    match c {
        TxCertificate::DRepRegistration(reg) => {
            let k = reg.reg.credential@;
            let t = cert_step(s, c).0;
            if s.dreps.contains_key(k) && reg.reg.deposit == 0 {
                assert(t.dreps.dom() =~= s.dreps.dom());
            } else if !s.dreps.contains_key(k) {
                assert(t.dreps.dom().contains(k));
            }
        },
        TxCertificate::DRepDeregistration(d) => {
            let k = d.reg.credential@;
            if s.dreps.contains_key(k) {
                assert(!cert_step(s, c).0.dreps.dom().contains(k));
            }
        },
        TxCertificate::DRepUpdate(u) => {
            let k = u.reg.credential@;
            if s.dreps.contains_key(k) {
                assert(cert_step(s, c).0.dreps.dom() =~= s.dreps.dom());
            }
        },
        _ => {},
    }
}

/// Registering a DRep that was not registered and then deregistering it
/// leaves the set of registered DReps as it was; both certificates answer
/// `true`.
pub proof fn law_deregistration_undoes_registration(
    s: StateView,
    reg: DRepRegistrationWithPos,
    dereg: DRepDeregistrationWithPos,
)
    requires
        !s.dreps.contains_key(reg.reg.credential@),
        dereg.reg.credential@ == reg.reg.credential@,
    ensures
        ({
            let (s1, r1) = cert_step(s, TxCertificate::DRepRegistration(reg));
            let (s2, r2) = cert_step(s1, TxCertificate::DRepDeregistration(dereg));
            r1 == Ok::<bool, CertFailure>(true) && r2 == Ok::<bool, CertFailure>(true) && s2.dreps
                == s.dreps
        }),
{
    let (s1, r1) = cert_step(s, TxCertificate::DRepRegistration(reg));
    let (s2, r2) = cert_step(s1, TxCertificate::DRepDeregistration(dereg));
    assert(s2.dreps =~= s.dreps);
}

/// An expiry check changes nothing when repeated at the same epoch.
pub proof fn law_expiry_check_is_idempotent(e: HistoricalDRepStateView, current_epoch: u64, offset: u32)
    ensures
        expired_entry(expired_entry(e, current_epoch, offset), current_epoch, offset)
            == expired_entry(e, current_epoch, offset),
{
}

/// An expiry check never clears the expired mark and changes nothing but it.
pub proof fn law_expiry_check_only_marks(e: HistoricalDRepStateView, current_epoch: u64, offset: u32)
    ensures
        ({
            let x = expired_entry(e, current_epoch, offset);
            &&& x.updates == e.updates
            &&& x.metadata == e.metadata
            &&& x.delegators == e.delegators
            &&& x.votes == e.votes
            &&& (e.info matches Some(i) ==> x.info matches Some(j) && j.deposit == i.deposit
                && j.retired == i.retired && j.active_epoch == i.active_epoch
                && j.last_active_epoch == i.last_active_epoch && (i.expired ==> j.expired))
            &&& (e.info is None ==> x.info is None)
        }),
{
}

/// After a delegation is recorded, its delegator is among the delegators of
/// its new DRep (where delegators are kept), and no longer among those of a
/// different former DRep.
pub proof fn law_delegation_moves_delegator(
    h: Map<CredentialView, HistoricalDRepStateView>,
    cfg: DRepStorageConfig,
    d: Seq<(CredentialView, DRepChoiceView)>,
    item: (Seq<u8>, Option<DRepChoiceView>),
)
    ensures
        delegation_target(d, item) matches Some((delegator, newc)) ==> {
            let h2 = delegation_step(h, cfg, d, item);
            &&& h2.contains_key(newc)
            &&& (h2[newc].delegators matches Some(v) ==> v.contains(delegator))
            &&& forall|oc: CredentialView|
                #![trigger h2[oc]]
                (item.1 matches Some(old) && crate::types::choice_credential(old) == Some(oc))
                    && oc != newc && h.contains_key(oc) ==> h2.contains_key(oc) && (
                h2[oc].delegators matches Some(v) ==> !v.contains(delegator))
        },
{
    if let Some((delegator, newc)) = delegation_target(d, item) {
        let h1 = match item.1 {
            Some(old) => match crate::types::choice_credential(old) {
                Some(oc) => if oc != newc && h.contains_key(oc) {
                    h.insert(oc, without_delegator(h[oc], delegator))
                } else {
                    h
                },
                None => h,
            },
            None => h,
        };
        let e = crate::drep_state::hist_entry(h1, cfg, newc);
        let h2 = delegation_step(h, cfg, d, item);
        assert(h2 == h1.insert(newc, with_delegator(e, delegator)));
        if let Some(v) = e.delegators {
            if !v.contains(delegator) {
                assert(v.push(delegator)[v.len() as int] == delegator);
            }
        }
        assert forall|oc: CredentialView|
            (item.1 matches Some(old) && crate::types::choice_credential(old) == Some(oc))
                && oc != newc && h.contains_key(oc) implies h2.contains_key(oc) && ((
            #[trigger] h2[oc]).delegators matches Some(v) ==> !v.contains(delegator)) by {
            assert(h1.contains_key(oc) && h1[oc] == without_delegator(h[oc], delegator));
            assert(h2[oc] == h1[oc]);
            if let Some(v) = h[oc].delegators {
                lemma_remove_all_removes(v, delegator);
            }
        }
    }
}

/// A sequence without any occurrence of `x` does not contain it and keeps
/// distinct elements distinct.
pub proof fn lemma_remove_all_removes(v: Seq<CredentialView>, x: CredentialView)
    ensures
        !remove_all(v, x).contains(x),
        v.no_duplicates() ==> remove_all(v, x).no_duplicates(),
        forall|y: CredentialView| #[trigger] remove_all(v, x).contains(y) ==> v.contains(y),
    decreases v.len(),
{
    if v.len() > 0 {
        lemma_remove_all_removes(v.drop_last(), x);
        let r = remove_all(v.drop_last(), x);
        assert forall|y: CredentialView| #[trigger] remove_all(v, x).contains(y) implies v.contains(
            y,
        ) by {
            if r.contains(y) {
                assert(v.drop_last().contains(y));
                let i = choose|i: int| 0 <= i < v.drop_last().len() && v.drop_last()[i] == y;
                assert(v[i] == y);
            } else {
                assert(v[v.len() - 1] == y);
            }
        }
        if v.no_duplicates() {
            assert(v.drop_last().no_duplicates());
            if v.last() != x {
                assert(!r.contains(v.last())) by {
                    if r.contains(v.last()) {
                        assert(v.drop_last().contains(v.last()));
                        let i = choose|i: int|
                            0 <= i < v.drop_last().len() && v.drop_last()[i] == v.last();
                        assert(v[i] == v[v.len() - 1]);
                    }
                }
            }
        }
    }
}

/// The delegators of a DRep stay distinct when a delegator joins or leaves.
pub proof fn law_delegators_stay_distinct(e: HistoricalDRepStateView, x: CredentialView)
    ensures
        e.delegators matches Some(v) && v.no_duplicates() ==> with_delegator(e, x).delegators.unwrap().no_duplicates()
            && without_delegator(e, x).delegators.unwrap().no_duplicates(),
{
    if let Some(v) = e.delegators {
        lemma_remove_all_removes(v, x);
    }
}

/// Rolling back to block `n` forgets a state committed for a block numbered
/// `n` or later.
pub proof fn law_rollback_forgets_later_commit<V>(h: Seq<(u64, V)>, m: u64, st: V, n: u64)
    requires
        m >= n,
    ensures
        drop_from(h.push((m, st)), n) == drop_from(h, n),
{
    assert(h.push((m, st)).drop_last() =~= h);
}

/// Rolling back to block `n` keeps every state committed for a block before
/// `n` when the commits came in increasing order of block number.
pub proof fn law_rollback_keeps_earlier_commits<V>(h: Seq<(u64, V)>, n: u64)
    requires
        forall|i: int| 0 <= i < h.len() ==> (#[trigger] h[i]).0 < n,
    ensures
        drop_from(h, n) == h,
{
}

/// The current state of a history is the state last committed.
pub proof fn law_current_is_last_commit<S: Snapshot>(h: Seq<(u64, S::V)>, n: u64, st: S::V)
    ensures
        current_of::<S>(h.push((n, st))) == st,
{
}

/// A rollback to block `n` that reaches the pipeline leaves the history with
/// the state from before `n` as its current state, committed under `n`, after
/// the states it kept.
pub proof fn law_rollback_recommits_earlier_state(h: Seq<(u64, StateView)>, n: u64)
    ensures
        current_of::<State>(rolled_back(h, n)) == current_of::<State>(drop_from(h, n)),
        rolled_back(h, n).last().0 == n,
        rolled_back(h, n).drop_last() == drop_from(h, n),
{
    assert(rolled_back(h, n).drop_last() =~= drop_from(h, n));
}

/// After a rollback to block `n`, no buffered block is numbered `n` or later,
/// and every block buffered below `n` stays as it was.
pub proof fn law_rollback_clears_later_blocks(before: Map<u64, Pair>, after: Map<u64, Pair>, n: u64)
    requires
        cut_at(before, after, n),
    ensures
        forall|k: u64| #[trigger] after.contains_key(k) ==> k < n,
        forall|k: u64|
            #[trigger] before.contains_key(k) && k < n ==> after.contains_key(k) && after[k]
                == before[k],
{
}

/// The policy groups of a value have distinct policies.
pub proof fn law_policy_groups_distinct(s: Seq<(Seq<char>, Seq<char>, u64)>)
    ensures
        grouped(s).map_values(|g: (Seq<char>, Seq<(Seq<char>, u64)>)| g.0).no_duplicates(),
{
    lemma_policies_distinct(s);
    assert(grouped(s).map_values(|g: (Seq<char>, Seq<(Seq<char>, u64)>)| g.0) =~= policies_in_order(s));
}


/// Where delegators are not kept, applying a block's certificates sets no
/// delegation aside and applies every certificate in turn.
pub proof fn law_no_delegations_set_aside_without_delegators(s: StateView, certs: Seq<TxCertificate>)
    requires
        !s.config.store_delegators,
    ensures
        certs_fold(s, certs).1 == Seq::<(CredentialView, DRepChoiceView)>::empty(),
        certs.len() > 0 ==> certs_fold(s, certs).0 == cert_step(
            certs_fold(s, certs.drop_last()).0,
            certs.last(),
        ).0,
    decreases certs.len(),
{
    if certs.len() > 0 {
        law_no_delegations_set_aside_without_delegators(s, certs.drop_last());
    }
}


/// An accepted DRep registration leaves the DRep's recorded status (where it
/// is kept) active from the registration's epoch: neither retired nor
/// expired, with the registration's deposit, whatever the history held
/// before. A DRep whose status was recorded keeps a recorded status, and a
/// DRep with no history yet gets one where status is kept.
pub proof fn law_registration_makes_drep_active(s: StateView, reg: DRepRegistrationWithPos)
    requires
        cert_step(s, TxCertificate::DRepRegistration(reg)).1 is Ok,
    ensures
        ({
            let k = reg.reg.credential@;
            let s2 = cert_step(s, TxCertificate::DRepRegistration(reg)).0;
            &&& info_lookup(s2, k) matches Ok(Some(i)) ==> {
                &&& !i.retired
                &&& !i.expired
                &&& i.active_epoch == Some(reg.epoch)
                &&& i.last_active_epoch == reg.epoch
                &&& i.deposit == reg.reg.deposit
            }
            &&& (info_lookup(s, k) matches Ok(Some(_))) ==> (info_lookup(s2, k) matches Ok(Some(_)))
            &&& (s.historical is Some && s.config.store_info && info_lookup(s, k) matches Ok(None))
                ==> (info_lookup(s2, k) matches Ok(Some(_)))
        }),
{
    let k = reg.reg.credential@;
    let s2 = cert_step(s, TxCertificate::DRepRegistration(reg)).0;
    if let Some(h) = s.historical {
        let e = hist_entry(h, s.config, k);
        let h2 = h.insert(k, crate::drep_state::registered_entry(e, reg));
        assert(s2.historical == Some(h2));
        assert(h2.contains_key(k));
        assert(h2[k] == crate::drep_state::registered_entry(e, reg));
        let r2 = crate::drep_state::registered_entry(e, reg);
        assert(info_lookup(s2, k) == match r2.info {
            Some(x) => Ok(Some(x)),
            None => Err(crate::drep_state::msg_info_disabled()),
        });
        if h.contains_key(k) {
            assert(e == h[k]);
            assert(info_lookup(s, k) == match h[k].info {
                Some(x) => Ok(Some(x)),
                None => Err(crate::drep_state::msg_info_disabled()),
            });
        } else {
            assert(e == crate::drep_state::config_history(s.config));
            assert(info_lookup(s, k) == Ok::<Option<crate::drep_state::DRepRecordExtended>, Seq<char>>(None));
        }
    }
}

/// An accepted deregistration leaves the DRep's recorded status (where it is
/// kept) retired, not expired, with no deposit and no active epoch, last
/// active in the deregistration's epoch; a recorded status stays recorded.
pub proof fn law_deregistration_retires_drep(s: StateView, dereg: DRepDeregistrationWithPos)
    requires
        cert_step(s, TxCertificate::DRepDeregistration(dereg)).1 is Ok,
    ensures
        ({
            let k = dereg.reg.credential@;
            let s2 = cert_step(s, TxCertificate::DRepDeregistration(dereg)).0;
            &&& info_lookup(s2, k) matches Ok(Some(i)) ==> {
                &&& i.retired
                &&& !i.expired
                &&& i.active_epoch is None
                &&& i.deposit == 0
                &&& i.last_active_epoch == dereg.epoch
            }
            &&& (info_lookup(s, k) matches Ok(Some(_))) ==> (info_lookup(s2, k) matches Ok(Some(_)))
        }),
{
    let k = dereg.reg.credential@;
    let s2 = cert_step(s, TxCertificate::DRepDeregistration(dereg)).0;
    if let Some(h) = s.historical {
        if h.contains_key(k) {
            let h2 = h.insert(k, crate::drep_state::deregistered_entry(h[k], dereg));
            assert(s2.historical == Some(h2));
            assert(info_lookup(s2, k) == match h2[k].info {
                Some(x) => Ok(Some(x)),
                None => Err(crate::drep_state::msg_info_disabled()),
            });
            assert(info_lookup(s, k) == match h[k].info {
                Some(x) => Ok(Some(x)),
                None => Err(crate::drep_state::msg_info_disabled()),
            });
        } else {
            assert(s2.historical == Some(h));
        }
    }
}

/// An accepted update leaves the DRep's recorded status (where it is kept)
/// neither retired nor expired, last active in the update's epoch, with the
/// deposit and active epoch it had.
pub proof fn law_update_keeps_drep_active(s: StateView, upd: crate::messages::DRepUpdateWithPos)
    requires
        cert_step(s, TxCertificate::DRepUpdate(upd)).1 is Ok,
    ensures
        ({
            let k = upd.reg.credential@;
            let s2 = cert_step(s, TxCertificate::DRepUpdate(upd)).0;
            info_lookup(s, k) matches Ok(Some(j)) ==> (info_lookup(s2, k) matches Ok(Some(i)) && {
                &&& !i.retired
                &&& !i.expired
                &&& i.last_active_epoch == upd.epoch
                &&& i.deposit == j.deposit
                &&& i.active_epoch == j.active_epoch
            })
        }),
{
    let k = upd.reg.credential@;
    let s2 = cert_step(s, TxCertificate::DRepUpdate(upd)).0;
    if let Some(h) = s.historical {
        if h.contains_key(k) {
            let h2 = h.insert(k, crate::drep_state::updated_entry(h[k], upd));
            assert(s2.historical == Some(h2));
            assert(info_lookup(s2, k) == match h2[k].info {
                Some(x) => Ok(Some(x)),
                None => Err(crate::drep_state::msg_info_disabled()),
            });
            assert(info_lookup(s, k) == match h[k].info {
                Some(x) => Ok(Some(x)),
                None => Err(crate::drep_state::msg_info_disabled()),
            });
        }
    }
}

/// Every certificate that delegates a vote (a vote delegation, a stake and
/// vote delegation, and either of them together with a stake registration)
/// is set aside, where delegators are kept, as its stake credential and DRep
/// choice, and changes nothing else; no other certificate is set aside.
pub proof fn law_vote_delegations_are_set_aside(s: StateView, c: TxCertificate)
    ensures
        ({
            let r = certs_fold(s, seq![c]);
            &&& s.config.store_delegators ==> match c {
                TxCertificate::VoteDelegation(d) => r == (s, seq![(d.credential@, d.drep@)]),
                TxCertificate::StakeAndVoteDelegation(d) => r == (s, seq![(d.credential@, d.drep@)]),
                TxCertificate::StakeRegistrationAndVoteDelegation(d) => r == (s, seq![
                    (d.credential@, d.drep@),
                ]),
                TxCertificate::StakeRegistrationAndStakeAndVoteDelegation(d) => r == (s, seq![
                    (d.credential@, d.drep@),
                ]),
                _ => r.1.len() == 0,
            }
            &&& !s.config.store_delegators ==> r.1.len() == 0
        }),
{
    assert(seq![c].drop_last() =~= Seq::<TxCertificate>::empty());
    assert(seq![c].last() == c);
    let e = Seq::<(CredentialView, DRepChoiceView)>::empty();
    assert(certs_fold(s, seq![c].drop_last()) == (s, e));
    match c {
        TxCertificate::VoteDelegation(d) => {
            assert(e.push((d.credential@, d.drep@)) =~= seq![(d.credential@, d.drep@)]);
        },
        TxCertificate::StakeAndVoteDelegation(d) => {
            assert(e.push((d.credential@, d.drep@)) =~= seq![(d.credential@, d.drep@)]);
        },
        TxCertificate::StakeRegistrationAndVoteDelegation(d) => {
            assert(e.push((d.credential@, d.drep@)) =~= seq![(d.credential@, d.drep@)]);
        },
        TxCertificate::StakeRegistrationAndStakeAndVoteDelegation(d) => {
            assert(e.push((d.credential@, d.drep@)) =~= seq![(d.credential@, d.drep@)]);
        },
        _ => {},
    }
}

/// The votes a voter has recorded before, as a query answers them (none
/// where the query finds none).
pub open spec fn recorded_votes(s: StateView, k: CredentialView) -> Seq<VoteRecord> {
    match votes_lookup(s, k) {
        Ok(Some(v)) => v,
        _ => Seq::empty(),
    }
}

/// A DRep voter's votes are recorded under the DRep's own credential: those
/// of a key voter under its key hash, those of a script voter under its
/// script hash, appended to the votes recorded there before, while the other
/// kind of credential with the same hash is left alone; the votes of other
/// voters are not recorded.
pub proof fn law_votes_filed_under_voter_credential(s: StateView, txs: Seq<(TxHash, VotingProcedures)>)
    requires
        s.config.store_votes,
        s.historical is Some,
        txs.len() == 1,
        txs[0].1.votes@.len() == 1,
    ensures
        ({
            let voter = txs[0].1.votes@[0].0;
            let recs = vote_records(txs[0].0, txs[0].1.votes@[0].1.voting_procedures@);
            let s2 = votes_applied(s, txs);
            match voter {
                Voter::DRepKey(h) => {
                    &&& votes_lookup(s2, CredentialView::AddrKeyHash(h@)) == Ok::<
                        Option<Seq<VoteRecord>>,
                        Seq<char>,
                    >(Some(recorded_votes(s, CredentialView::AddrKeyHash(h@)) + recs))
                    &&& votes_lookup(s2, CredentialView::ScriptHash(h@)) == votes_lookup(
                        s,
                        CredentialView::ScriptHash(h@),
                    )
                },
                Voter::DRepScript(h) => {
                    &&& votes_lookup(s2, CredentialView::ScriptHash(h@)) == Ok::<
                        Option<Seq<VoteRecord>>,
                        Seq<char>,
                    >(Some(recorded_votes(s, CredentialView::ScriptHash(h@)) + recs))
                    &&& votes_lookup(s2, CredentialView::AddrKeyHash(h@)) == votes_lookup(
                        s,
                        CredentialView::AddrKeyHash(h@),
                    )
                },
                _ => s2 == s,
            }
        }),
{
    let h = s.historical.unwrap();
    let vs = txs[0].1.votes@;
    assert(txs.drop_last() =~= Seq::<(TxHash, VotingProcedures)>::empty());
    assert(vs.drop_last() =~= Seq::<(Voter, SingleVoterVotes)>::empty());
    let h2 = votes_fold(h, s.config, txs);
    assert(votes_fold(h, s.config, txs.drop_last()) == h);
    assert(txs.last() == txs[0]);
    assert(crate::drep_state::voters_fold(h, s.config, txs[0].0, vs.drop_last()) == h);
    assert(vs.last() == vs[0]);
    assert(h2 == voter_step(h, s.config, txs[0].0, vs[0]));
    let recs = vote_records(txs[0].0, vs[0].1.voting_procedures@);
    match vs[0].0 {
        Voter::DRepKey(x) => {
            let k = CredentialView::AddrKeyHash(x@);
            assert(recorded_votes(s, k) + recs == match hist_entry(h, s.config, k).votes {
                Some(v) => v + recs,
                None => recs,
            }) by {
                assert(Seq::<VoteRecord>::empty() + recs =~= recs);
            }
        },
        Voter::DRepScript(x) => {
            let k = CredentialView::ScriptHash(x@);
            assert(recorded_votes(s, k) + recs == match hist_entry(h, s.config, k).votes {
                Some(v) => v + recs,
                None => recs,
            }) by {
                assert(Seq::<VoteRecord>::empty() + recs =~= recs);
            }
        },
        _ => {
            assert(votes_applied(s, txs) =~= s);
        },
    }
}

/// The status answered for a DRep carries its recorded status field by
/// field: the deposit, the retired and expired flags and the epochs.
pub proof fn law_info_answer_carries_status(s: StateView, k: CredentialView)
    ensures
        info_lookup(s, k) matches Ok(Some(i)) ==> {
            let a = info_of(i);
            &&& a.deposit == i.deposit
            &&& a.retired == i.retired
            &&& a.expired == i.expired
            &&& a.active_epoch == i.active_epoch
            &&& a.last_active_epoch == i.last_active_epoch
        },
{
}

/// Recording a delegation keeps every delegator the new DRep already had, in
/// their order, and adds the delegator at the end where it was not among
/// them; a DRep with no history yet starts with the delegator alone (where
/// delegators are kept).
pub proof fn law_delegation_keeps_other_delegators(
    h: Map<CredentialView, HistoricalDRepStateView>,
    cfg: DRepStorageConfig,
    d: Seq<(CredentialView, DRepChoiceView)>,
    item: (Seq<u8>, Option<DRepChoiceView>),
)
    ensures
        delegation_target(d, item) matches Some((delegator, newc)) ==> {
            let h2 = delegation_step(h, cfg, d, item);
            &&& (h.contains_key(newc) && h[newc].delegators is Some) ==> ({
                let v = h[newc].delegators.unwrap();
                &&& h2[newc].delegators is Some
                &&& h2[newc].delegators.unwrap().len() <= v.len() + 1
                &&& h2[newc].delegators.unwrap().subrange(0, v.len() as int) == v
                &&& h2[newc].delegators.unwrap().contains(delegator)
                &&& v.contains(delegator) ==> h2[newc].delegators.unwrap().len() == v.len()
            })
            &&& !h.contains_key(newc) && cfg.store_delegators ==> h2[newc].delegators == Some(
                seq![delegator],
            )
        },
{
    if let Some((delegator, newc)) = delegation_target(d, item) {
        let h1 = match item.1 {
            Some(old) => match crate::types::choice_credential(old) {
                Some(oc) => if oc != newc && h.contains_key(oc) {
                    h.insert(oc, without_delegator(h[oc], delegator))
                } else {
                    h
                },
                None => h,
            },
            None => h,
        };
        let h2 = delegation_step(h, cfg, d, item);
        assert(h2 == h1.insert(newc, with_delegator(hist_entry(h1, cfg, newc), delegator)));
        assert(h1.contains_key(newc) == h.contains_key(newc));
        if h.contains_key(newc) {
            assert(h1[newc] == h[newc]);
            if let Some(v) = h[newc].delegators {
                if !v.contains(delegator) {
                    assert(v.push(delegator).subrange(0, v.len() as int) =~= v);
                    assert(v.push(delegator)[v.len() as int] == delegator);
                } else {
                    assert(v.subrange(0, v.len() as int) =~= v);
                }
            }
        } else if cfg.store_delegators {
            assert(Seq::<CredentialView>::empty().push(delegator) =~= seq![delegator]);
        }
    }
}

} // verus!
