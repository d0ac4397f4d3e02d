//! The computing part of REST endpoints: reading their parameters and shaping
//! what they answer.

use crate::governance::{DRepInfo, GovernanceStateQueryResponse};
use crate::text::{
    decimal_digits, decimal_string, decimal_text, decimal_value, hex_bytes, hex_decode,
    hex_encode, hex_failure_of, hex_failure_text, hex_failure_text_of, hex_lower, int_error_text,
    int_failure_of, is_decimal_text, is_hex_text,
    parse_u64, parse_u8, split_at_colon, HexFailure, IntParseError,
};
use crate::messages::VotingProcedure;
use crate::types::{Credential, GovActionId, TxHash, Vote, Voter};
use vstd::prelude::*;

verus! {

/// Why the parameters of a governance action endpoint were refused.
#[derive(Debug)]
pub enum GovActionIdError {
    /// There were not exactly two parameters.
    WrongParameterCount,
    /// The transaction hash was not hexadecimal.
    InvalidTxHash(HexFailure),
    /// The action index was not a decimal `u8`.
    InvalidCertIndex(IntParseError),
}

/// The governance action named by the parameters `tx_hash` (hexadecimal) and
/// `cert_index` (decimal, below 256).
pub fn parse_gov_action_id(params: &[String]) -> (r: Result<GovActionId, GovActionIdError>)
    ensures
        params@.len() != 2 ==> r matches Err(GovActionIdError::WrongParameterCount),
        params@.len() == 2 ==> {
            let h = params@[0]@;
            let c = params@[1]@;
            if !is_hex_text(h) {
                r matches Err(GovActionIdError::InvalidTxHash(e)) && hex_failure_of(h, e)
            } else if !(is_decimal_text(c) && decimal_value(decimal_digits(c)) <= u8::MAX) {
                r matches Err(GovActionIdError::InvalidCertIndex(e)) && int_failure_of(
                    c,
                    u8::MAX as int,
                    e.kind,
                )
            } else {
                r matches Ok(id) && id.transaction_id@ == hex_bytes(h) && id.action_index
                    == decimal_value(decimal_digits(c))
            }
        },
{
    if params.len() != 2 {
        return Err(GovActionIdError::WrongParameterCount);
    }
    let tx_hash_hex = params[0].as_str();
    let cert_index_str = params[1].as_str();
    let transaction_id = match hex_decode(tx_hash_hex) {
        Ok(bytes) => bytes,
        Err(e) => {
            return Err(GovActionIdError::InvalidTxHash(e));
        },
    };
    let action_index = match parse_u8(cert_index_str) {
        Ok(i) => i,
        Err(e) => {
            return Err(GovActionIdError::InvalidCertIndex(e));
        },
    };
    Ok(GovActionId { transaction_id, action_index })
}

/// The role of a voter.
#[allow(non_camel_case_types)]
#[derive(Debug, Clone, Copy, PartialEq, Eq, Structural)]
pub enum VoterRoleREST {
    Constitutional_Committee,
    DRep,
    SPO,
}

/// The role of a voter: committee members, DReps and stake pools.
pub open spec fn voter_role_of(voter: Voter) -> VoterRoleREST {
    match voter {
        Voter::ConstitutionalCommitteeKey(_) | Voter::ConstitutionalCommitteeScript(_) => {
            VoterRoleREST::Constitutional_Committee
        },
        Voter::DRepKey(_) | Voter::DRepScript(_) => VoterRoleREST::DRep,
        Voter::StakePoolKey(_) => VoterRoleREST::SPO,
    }
}

/// The role of a voter: committee members, DReps and stake pools.
pub fn voter_role(voter: &Voter) -> (r: VoterRoleREST)
    ensures
        r == voter_role_of(*voter),
{
    match voter {
        Voter::ConstitutionalCommitteeKey(_) | Voter::ConstitutionalCommitteeScript(_) => {
            VoterRoleREST::Constitutional_Committee
        },
        Voter::DRepKey(_) | Voter::DRepScript(_) => VoterRoleREST::DRep,
        Voter::StakePoolKey(_) => VoterRoleREST::SPO,
    }
}

/// A REST answer made of a status code and a text.
#[derive(Debug)]
pub struct TextReply {
    pub code: u16,
    pub text: String,
}

fn plain_reply(code: u16, a: &str) -> (r: TextReply)
    ensures
        r.code == code,
        r.text@ == a@,
{
    TextReply { code, text: a.to_owned() }
}

fn text_reply(code: u16, a: &str, b: &str) -> (r: TextReply)
    ensures
        r.code == code,
        r.text@ == a@ + b@,
{
    let mut text = a.to_owned();
    text.append(b);
    TextReply { code, text }
}

/// The governance action named by the parameters of an endpoint, or the
/// answer that refuses them: status 400 with the reason.
pub fn gov_action_id_reply(params: &[String]) -> (r: Result<GovActionId, TextReply>)
    ensures
        params@.len() != 2 ==> (r matches Err(x) && x.code == 400 && x.text@
            == "Expected two parameters: tx_hash/cert_index"@),
        params@.len() == 2 ==> {
            let h = params@[0]@;
            let c = params@[1]@;
            if !is_hex_text(h) {
                r matches Err(x) && x.code == 400 && exists|e: HexFailure, t: Seq<char>|
                    hex_failure_of(h, e) && hex_failure_text_of(e, t) && x.text@
                        == "Invalid hex tx_hash: "@ + t
            } else if !(is_decimal_text(c) && decimal_value(decimal_digits(c)) <= u8::MAX) {
                r matches Err(x) && x.code == 400 && exists|t: Seq<char>|
                    x.text@ == "Invalid cert_index, expected u8: "@ + t
            } else {
                r matches Ok(id) && id.transaction_id@ == hex_bytes(h) && id.action_index
                    == decimal_value(decimal_digits(c))
            }
        },
{
    match parse_gov_action_id(params) {
        Ok(id) => Ok(id),
        Err(GovActionIdError::WrongParameterCount) => Err(plain_reply(400, "Expected two parameters: tx_hash/cert_index")),
        Err(GovActionIdError::InvalidTxHash(e)) => {
            let t = hex_failure_text(e);
            let r = text_reply(400, "Invalid hex tx_hash: ", t.as_str());
            assert(hex_failure_text_of(e, t@));
            Err(r)
        },
        Err(GovActionIdError::InvalidCertIndex(e)) => {
            let t = int_error_text(&e);
            let r = text_reply(400, "Invalid cert_index, expected u8: ", t.as_str());
            assert(r.text@ == "Invalid cert_index, expected u8: "@ + t@);
            Err(r)
        },
    }
}

/// The answer of an endpoint whose query to a state did not give what it
/// asked for: the state's error (status 500), not found (status 404, with
/// the endpoint's text), or any other answer (status 500).
pub fn query_failure_reply(response: &GovernanceStateQueryResponse, not_found: &str) -> (r:
    TextReply)
    ensures
        match response {
            GovernanceStateQueryResponse::Error(e) => r.code == 500 && r.text@ == "Query error: "@
                + e@,
            GovernanceStateQueryResponse::NotFound => r.code == 404 && r.text@ == not_found@,
            _ => r.code == 500 && r.text@ == "Unexpected message type"@,
        },
{
    match response {
        GovernanceStateQueryResponse::Error(e) => {
            let r = text_reply(500, "Query error: ", e.as_str());
            assert(r.text@ == "Query error: "@ + e@);
            r
        },
        GovernanceStateQueryResponse::NotFound => plain_reply(404, not_found),
        _ => plain_reply(500, "Unexpected message type"),
    }
}

/// One row of the votes on a governance action, but for the voter's text
/// form.
#[derive(Debug)]
pub struct ProposalVoteRow {
    pub tx_hash: String,
    pub cert_index: u8,
    pub voter_role: VoterRoleREST,
    pub vote: Vote,
}

/// The rows answering the votes on governance action `id`, one per vote and
/// in the order of the votes: the action's transaction in lower-case
/// hexadecimal, its index, the voter's role and the vote.
pub fn proposal_vote_rows(id: &GovActionId, votes: &Vec<(Voter, (TxHash, VotingProcedure))>) -> (r:
    Vec<ProposalVoteRow>)
    ensures
        r@.len() == votes@.len(),
        forall|i: int|
            0 <= i < r@.len() ==> (#[trigger] r@[i]).tx_hash@ == hex_lower(id.transaction_id@)
                && r@[i].cert_index == id.action_index && r@[i].voter_role == voter_role_of(
                votes@[i].0,
            ) && r@[i].vote == votes@[i].1.1.vote,
{
    let tx_hash = hex_encode(id.transaction_id.as_slice());
    let mut rows: Vec<ProposalVoteRow> = Vec::new();
    let mut i: usize = 0;
    while i < votes.len()
        invariant
            i <= votes@.len(),
            rows@.len() == i,
            tx_hash@ == hex_lower(id.transaction_id@),
            forall|j: int|
                0 <= j < i ==> (#[trigger] rows@[j]).tx_hash@ == hex_lower(id.transaction_id@)
                    && rows@[j].cert_index == id.action_index && rows@[j].voter_role
                    == voter_role_of(votes@[j].0) && rows@[j].vote == votes@[j].1.1.vote,
        decreases votes@.len() - i,
    {
        let (voter, (_, procedure)) = &votes[i];
        rows.push(
            ProposalVoteRow {
                tx_hash: tx_hash.clone(),
                cert_index: id.action_index,
                voter_role: voter_role(voter),
                vote: procedure.vote,
            },
        );
        i = i + 1;
    }
    rows
}

/// The identifier of a governance action as answered: its transaction in
/// lower-case hexadecimal and its index.
#[derive(Debug)]
pub struct ProposalIdRest {
    pub transaction_id: String,
    pub action_index: u8,
}

/// The answered form of a governance action identifier.
pub fn proposal_id_rest(id: &GovActionId) -> (r: ProposalIdRest)
    ensures
        r.transaction_id@ == hex_lower(id.transaction_id@),
        r.action_index == id.action_index,
{
    ProposalIdRest {
        transaction_id: hex_encode(id.transaction_id.as_slice()),
        action_index: id.action_index,
    }
}

/// The hexadecimal column of the DReps list: each DRep's credential hash in
/// lower-case hexadecimal, in the order of the list.
pub fn drep_list_hex(dreps: &Vec<Credential>) -> (r: Vec<String>)
    ensures
        r@.len() == dreps@.len(),
        forall|i: int| 0 <= i < r@.len() ==> (#[trigger] r@[i])@ == hex_lower(dreps@[i]@.hash()),
{
    let mut out: Vec<String> = Vec::new();
    let mut i: usize = 0;
    while i < dreps.len()
        invariant
            i <= dreps@.len(),
            out@.len() == i,
            forall|j: int| 0 <= j < i ==> (#[trigger] out@[j])@ == hex_lower(dreps@[j]@.hash()),
        decreases dreps@.len() - i,
    {
        let hash = dreps[i].get_hash();
        out.push(hex_encode(hash.as_slice()));
        i = i + 1;
    }
    out
}

/// REST answer for a single DRep.
#[derive(Debug)]
pub struct DRepInfoREST {
    pub drep_id: String,
    pub hex: String,
    pub amount: String,
    pub active: bool,
    pub active_epoch: u64,
    pub has_script: bool,
    pub last_active_epoch: u64,
    pub retired: bool,
    pub expired: bool,
}

/// The REST answer for a DRep with credential `credential` (whose bech32 form
/// is `drep_id`) and status `info`: none where the status has no active epoch.
/// The DRep is active where it is neither retired nor expired.
pub fn drep_info_rest(credential: &Credential, drep_id: String, info: &DRepInfo) -> (r: Option<
    DRepInfoREST,
>)
    ensures
        match info.active_epoch {
            None => r is None,
            Some(e) => r matches Some(x) && x.drep_id == drep_id && x.hex@ == hex_lower(
                credential@.hash(),
            ) && x.amount@ == decimal_text(info.deposit as nat) && x.active == (!info.retired
                && !info.expired) && x.active_epoch == e && x.has_script == (
            credential@ is ScriptHash) && x.last_active_epoch == info.last_active_epoch
                && x.retired == info.retired && x.expired == info.expired,
        },
{
    let active_epoch = match info.active_epoch {
        Some(e) => e,
        None => {
            return None;
        },
    };
    let hash = credential.get_hash();
    let hex = hex_encode(hash.as_slice());
    let has_script = match credential {
        Credential::ScriptHash(_) => true,
        Credential::AddrKeyHash(_) => false,
    };
    Some(
        DRepInfoREST {
            drep_id,
            hex,
            amount: decimal_string(info.deposit),
            active: !info.retired && !info.expired,
            active_epoch,
            has_script,
            last_active_epoch: info.last_active_epoch,
            retired: info.retired,
            expired: info.expired,
        },
    )
}

/// Why the parameter of the UTxO endpoint was refused.
#[derive(Debug)]
pub enum UtxoParamError {
    /// The parameter was not of the form `<tx_hash>:<index>`.
    NotTxHashColonIndex,
    /// The transaction hash was not hexadecimal.
    InvalidTxHash(HexFailure),
    /// The index was not a decimal `u64`.
    InvalidIndex(IntParseError),
}

/// The transaction hash and output index named by a parameter
/// `<tx_hash>:<index>`, split at its first `:`.
pub fn parse_utxo_param(param: &str) -> (r: Result<(Vec<u8>, u64), UtxoParamError>)
    ensures
        !param@.contains(':') ==> r matches Err(UtxoParamError::NotTxHashColonIndex),
        forall|a: Seq<char>, b: Seq<char>|
            a + seq![':'] + b == param@ && !a.contains(':') ==> {
                if !is_hex_text(a) {
                    r matches Err(UtxoParamError::InvalidTxHash(e)) && hex_failure_of(a, e)
                } else if !(is_decimal_text(b) && decimal_value(decimal_digits(b)) <= u64::MAX) {
                    r matches Err(UtxoParamError::InvalidIndex(e)) && int_failure_of(
                        b,
                        u64::MAX as int,
                        e.kind,
                    )
                } else {
                    r matches Ok((h, i)) && h@ == hex_bytes(a) && i == decimal_value(
                        decimal_digits(b),
                    )
                }
            },
{
    let (tx_hash_str, index_str) = match split_at_colon(param) {
        Some((tx, idx)) => (tx, idx),
        None => {
            proof {
                assert forall|a: Seq<char>, b: Seq<char>|
                    a + seq![':'] + b == param@ && !a.contains(':') implies false by {
                    assert(param@[a.len() as int] == ':');
                }
            }
            return Err(UtxoParamError::NotTxHashColonIndex);
        },
    };
    proof {
        assert(param@[tx_hash_str@.len() as int] == ':');
        assert forall|a: Seq<char>, b: Seq<char>|
            a + seq![':'] + b == param@ && !a.contains(':') implies a == tx_hash_str@ && b
            == index_str@ by {
            lemma_split_unique(a, b, tx_hash_str@, index_str@);
        }
    }
    let tx_hash_bytes = match hex_decode(tx_hash_str) {
        Ok(bytes) => bytes,
        Err(e) => {
            return Err(UtxoParamError::InvalidTxHash(e));
        },
    };
    let index = match parse_u64(index_str) {
        Ok(idx) => idx,
        Err(e) => {
            return Err(UtxoParamError::InvalidIndex(e));
        },
    };
    Ok((tx_hash_bytes, index))
}

/// The transaction hash and output index named by the parameter of the UTxO
/// endpoint, or the answer that refuses it: status 400 with the reason.
pub fn utxo_param_reply(param: &str) -> (r: Result<(Vec<u8>, u64), TextReply>)
    ensures
        !param@.contains(':') ==> (r matches Err(x) && x.code == 400 && x.text@
            == "Parameter must be in <tx_hash>:<index> format. Provided param: "@ + param@),
        forall|a: Seq<char>, b: Seq<char>|
            a + seq![':'] + b == param@ && !a.contains(':') ==> {
                if !is_hex_text(a) {
                    r matches Err(x) && x.code == 400 && exists|e: HexFailure, t: Seq<char>|
                        hex_failure_of(a, e) && hex_failure_text_of(e, t) && x.text@
                            == "Invalid tx_hash: "@ + t
                } else if !(is_decimal_text(b) && decimal_value(decimal_digits(b)) <= u64::MAX) {
                    r matches Err(x) && x.code == 400 && exists|t: Seq<char>|
                        x.text@ == "Invalid index: "@ + t
                } else {
                    r matches Ok((h, i)) && h@ == hex_bytes(a) && i == decimal_value(
                        decimal_digits(b),
                    )
                }
            },
{
    match parse_utxo_param(param) {
        Ok(parsed) => Ok(parsed),
        Err(UtxoParamError::NotTxHashColonIndex) => Err(text_reply(
            400,
            "Parameter must be in <tx_hash>:<index> format. Provided param: ",
            param,
        )),
        Err(UtxoParamError::InvalidTxHash(e)) => {
            let t = hex_failure_text(e);
            let r = text_reply(400, "Invalid tx_hash: ", t.as_str());
            assert(hex_failure_text_of(e, t@));
            Err(r)
        },
        Err(UtxoParamError::InvalidIndex(e)) => {
            let t = int_error_text(&e);
            let r = text_reply(400, "Invalid index: ", t.as_str());
            assert(r.text@ == "Invalid index: "@ + t@);
            Err(r)
        },
    }
}

/// A text splits at its first `:` in one way only.
proof fn lemma_split_unique(a: Seq<char>, b: Seq<char>, c: Seq<char>, d: Seq<char>)
    requires
        a + seq![':'] + b == c + seq![':'] + d,
        !a.contains(':'),
        !c.contains(':'),
    ensures
        a == c,
        b == d,
{
    let s = a + seq![':'] + b;
    assert(s[a.len() as int] == ':');
    assert(s[c.len() as int] == ':');
    if a.len() < c.len() {
        assert(c[a.len() as int] == ':');
    }
    if c.len() < a.len() {
        assert(a[c.len() as int] == ':');
    }
    assert(a =~= s.subrange(0, a.len() as int));
    assert(c =~= s.subrange(0, c.len() as int));
    assert(b =~= s.subrange(a.len() as int + 1, s.len() as int));
    assert(d =~= s.subrange(c.len() as int + 1, s.len() as int));
}

/// The value of an output: lovelace and, where there are any, native assets as
/// (policy, asset name, amount).
#[derive(Debug)]
pub struct Value {
    pub coin: u64,
    pub multiassets: Option<Vec<(Vec<u8>, Vec<u8>, u64)>>,
}

/// REST answer for a single UTxO.
#[derive(Debug)]
pub struct UTxOBalanceRest {
    pub address: String,
    pub value: UTxOValueRest,
}

/// REST form of a value: lovelace and native assets grouped by policy.
#[derive(Debug)]
pub struct UTxOValueRest {
    pub coin: u64,
    pub multiassets: Option<Vec<PolicyAssetsRest>>,
}

/// REST form of the assets of one policy.
#[derive(Debug)]
pub struct PolicyAssetsRest {
    /// Hex-encoded policy ID.
    pub policy_id: String,
    /// The assets under this policy.
    pub assets: Vec<AssetRest>,
}

/// REST form of one asset.
#[derive(Debug)]
pub struct AssetRest {
    /// Hex-encoded asset name.
    pub asset_name: String,
    /// Amount of this asset.
    pub amount: u64,
}

/// The assets of a value with policy and name in hexadecimal text.
pub open spec fn hex_assets(s: Seq<(Vec<u8>, Vec<u8>, u64)>) -> Seq<(Seq<char>, Seq<char>, u64)> {
    s.map_values(|e: (Vec<u8>, Vec<u8>, u64)| (hex_lower(e.0@), hex_lower(e.1@), e.2))
}

/// The distinct policies of a sequence of assets, in order of first appearance.
pub open spec fn policies_in_order(s: Seq<(Seq<char>, Seq<char>, u64)>) -> Seq<Seq<char>>
    decreases s.len(),
{
    if s.len() == 0 {
        Seq::empty()
    } else {
        let r = policies_in_order(s.drop_last());
        if r.contains(s.last().0) {
            r
        } else {
            r.push(s.last().0)
        }
    }
}

/// The (name, amount) of the assets under policy `p`, in order.
pub open spec fn assets_under(s: Seq<(Seq<char>, Seq<char>, u64)>, p: Seq<char>) -> Seq<
    (Seq<char>, u64),
>
    decreases s.len(),
{
    if s.len() == 0 {
        Seq::empty()
    } else {
        let r = assets_under(s.drop_last(), p);
        if s.last().0 == p {
            r.push((s.last().1, s.last().2))
        } else {
            r
        }
    }
}

/// The model of a policy group: its policy and its (name, amount) pairs.
pub open spec fn group_model(g: PolicyAssetsRest) -> (Seq<char>, Seq<(Seq<char>, u64)>) {
    (g.policy_id@, g.assets@.map_values(|a: AssetRest| (a.asset_name@, a.amount)))
}

/// The policy groups of a sequence of assets: one per policy, in order of first
/// appearance, each with its assets in order.
pub open spec fn grouped(s: Seq<(Seq<char>, Seq<char>, u64)>) -> Seq<(Seq<char>, Seq<(Seq<char>, u64)>)> {
    policies_in_order(s).map_values(|p: Seq<char>| (p, assets_under(s, p)))
}

/// The REST form of a value: its lovelace, and its assets grouped by policy
/// (one group per policy, in order of first appearance).
pub fn convert_value(value: &Value) -> (r: UTxOValueRest)
    ensures
        r.coin == value.coin,
        match value.multiassets {
            Some(a) => r.multiassets matches Some(g) && g@.map_values(
                |x: PolicyAssetsRest| group_model(x),
            ) == grouped(hex_assets(a@)),
            None => r.multiassets is None,
        },
{
    let multiassets = match &value.multiassets {
        Some(assets) => Some(group_assets(assets)),
        None => None,
    };
    UTxOValueRest { coin: value.coin, multiassets }
}

fn group_assets(assets: &Vec<(Vec<u8>, Vec<u8>, u64)>) -> (r: Vec<PolicyAssetsRest>)
    ensures
        r@.map_values(|x: PolicyAssetsRest| group_model(x)) == grouped(hex_assets(assets@)),
{
    let mut groups: Vec<PolicyAssetsRest> = Vec::new();
    let mut i: usize = 0;
    while i < assets.len()
        invariant
            i <= assets@.len(),
            groups@.map_values(|x: PolicyAssetsRest| group_model(x)) == grouped(
                hex_assets(assets@.subrange(0, i as int)),
            ),
        decreases assets@.len() - i,
    {
        let ghost pre = hex_assets(assets@.subrange(0, i as int));
        let ghost post = hex_assets(assets@.subrange(0, i + 1));
        let ghost old_models = groups@.map_values(|x: PolicyAssetsRest| group_model(x));
        assert(post.drop_last() =~= pre);
        let policy_id = hex_encode(assets[i].0.as_slice());
        let asset_name = hex_encode(assets[i].1.as_slice());
        let amount = assets[i].2;
        let ghost e = (policy_id@, asset_name@, amount);
        assert(post.last() == e);
        assert(post =~= pre.push(e));
        proof {
            lemma_grouped_shape(pre);
        }
        let mut j: usize = 0;
        while j < groups.len() && groups[j].policy_id != policy_id
            invariant
                j <= groups@.len(),
                old_models == groups@.map_values(|x: PolicyAssetsRest| group_model(x)),
                old_models == grouped(pre),
                post == pre.push(e),
                e.0 == policy_id@,
                grouped(pre).len() == policies_in_order(pre).len(),
                forall|k: int|
                    0 <= k < grouped(pre).len() ==> (#[trigger] grouped(pre)[k]).0
                        == policies_in_order(pre)[k],
                forall|k: int| 0 <= k < j ==> (#[trigger] groups@[k]).policy_id@ != policy_id@,
            decreases groups@.len() - j,
        {
            j = j + 1;
        }
        let ghost old_groups = groups@;
        if j < groups.len() {
            let g = groups.remove(j);
            let PolicyAssetsRest { policy_id: pid, assets: mut list } = g;
            let ghost old_list = list@;
            list.push(AssetRest { asset_name, amount });
            groups.insert(j, PolicyAssetsRest { policy_id: pid, assets: list });
            proof {
                assert(groups@ =~= old_groups.update(j as int, groups@[j as int]));
                assert(old_models[j as int] == group_model(old_groups[j as int]));
                assert(old_models[j as int].0 == policy_id@);
                assert(policies_in_order(pre)[j as int] == e.0);
                lemma_grouped_step_existing(pre, e, j as int);
                let new_models = groups@.map_values(|x: PolicyAssetsRest| group_model(x));
                assert(new_models[j as int].1 =~= old_models[j as int].1.push((e.1, e.2)));
                assert forall|k: int| 0 <= k < new_models.len() implies #[trigger] new_models[k]
                    == grouped(post)[k] by {
                    assert(old_models[k] == grouped(pre)[k]);
                    if k != j {
                        assert(new_models[k] == group_model(old_groups[k]));
                    } else {
                        assert(grouped(pre)[k].1 == assets_under(pre, e.0));
                        assert(new_models[k].0 == e.0);
                    }
                }
                assert(new_models =~= grouped(post));
            }
        } else {
            let mut list: Vec<AssetRest> = Vec::new();
            list.push(AssetRest { asset_name, amount });
            groups.push(PolicyAssetsRest { policy_id, assets: list });
            proof {
                assert(groups@ =~= old_groups.push(groups@.last()));
                assert forall|k: int| 0 <= k < old_models.len() implies old_models[k].0 != e.0 by {
                    assert(old_models[k].0 == groups@[k].policy_id@);
                }
                lemma_grouped_step_new(pre, e);
                assert(grouped(post).len() == old_models.len() + 1);
                let new_models = groups@.map_values(|x: PolicyAssetsRest| group_model(x));
                assert(new_models.last().1 =~= seq![(e.1, e.2)]);
                assert forall|k: int| 0 <= k < new_models.len() implies #[trigger] new_models[k]
                    == grouped(post)[k] by {
                    if k < old_groups.len() {
                        assert(old_models[k] == grouped(pre)[k]);
                        assert(new_models[k] == group_model(old_groups[k]));
                    } else {
                        assert(new_models[k] == (e.0, seq![(e.1, e.2)]));
                    }
                }
                assert(new_models =~= grouped(post));
            }
        }
        i = i + 1;
    }
    assert(assets@.subrange(0, assets@.len() as int) =~= assets@);
    groups
}

/// The groups' policies are those in order of first appearance.
proof fn lemma_grouped_shape(s: Seq<(Seq<char>, Seq<char>, u64)>)
    ensures
        grouped(s).len() == policies_in_order(s).len(),
        forall|k: int| 0 <= k < grouped(s).len() ==> (#[trigger] grouped(s)[k]).0 == policies_in_order(s)[k],
{
}

/// The policies in order of first appearance are distinct, and are exactly
/// the policies that appear.
pub proof fn lemma_policies_distinct(s: Seq<(Seq<char>, Seq<char>, u64)>)
    ensures
        policies_in_order(s).no_duplicates(),
    decreases s.len(),
{
    if s.len() > 0 {
        lemma_policies_distinct(s.drop_last());
    }
}

/// The assets of a sequence without policy `p` are none.
proof fn lemma_assets_under_absent(s: Seq<(Seq<char>, Seq<char>, u64)>, p: Seq<char>)
    requires
        !policies_in_order(s).contains(p),
    ensures
        assets_under(s, p) == Seq::<(Seq<char>, u64)>::empty(),
    decreases s.len(),
{
    if s.len() > 0 {
        let r = policies_in_order(s.drop_last());
        if r.contains(p) {
            assert(policies_in_order(s).contains(p)) by {
                if r.contains(s.last().0) {
                } else {
                    let k = choose|k: int| 0 <= k < r.len() && r[k] == p;
                    assert(r.push(s.last().0)[k] == p);
                }
            }
        }
        if s.last().0 == p {
            assert(policies_in_order(s).contains(p)) by {
                if r.contains(s.last().0) {
                } else {
                    assert(r.push(s.last().0)[r.len() as int] == p);
                }
            }
        }
        lemma_assets_under_absent(s.drop_last(), p);
    }
}

/// Appending an asset of a policy already seen extends that policy's group.
proof fn lemma_grouped_step_existing(
    s: Seq<(Seq<char>, Seq<char>, u64)>,
    e: (Seq<char>, Seq<char>, u64),
    j: int,
)
    requires
        0 <= j < policies_in_order(s).len(),
        policies_in_order(s)[j] == e.0,
    ensures
        grouped(s.push(e)) == grouped(s).update(j, (e.0, assets_under(s, e.0).push((e.1, e.2)))),
{
    let t = s.push(e);
    assert(t.drop_last() =~= s);
    assert(policies_in_order(s).contains(e.0));
    assert(policies_in_order(t) == policies_in_order(s));
    lemma_policies_distinct(s);
    assert forall|k: int| 0 <= k < grouped(t).len() implies #[trigger] grouped(t)[k] == grouped(
        s,
    ).update(j, (e.0, assets_under(s, e.0).push((e.1, e.2))))[k] by {
        if k != j {
            assert(policies_in_order(s)[k] != policies_in_order(s)[j]);
        }
    }
    assert forall|p: Seq<char>| p != e.0 implies assets_under(t, p) == assets_under(s, p) by {}
    assert(grouped(t) =~= grouped(s).update(j, (e.0, assets_under(s, e.0).push((e.1, e.2)))));
}

/// Appending an asset of a new policy adds a group for it.
proof fn lemma_grouped_step_new(s: Seq<(Seq<char>, Seq<char>, u64)>, e: (Seq<char>, Seq<char>, u64))
    requires
        forall|k: int| 0 <= k < grouped(s).len() ==> (#[trigger] grouped(s)[k]).0 != e.0,
    ensures
        grouped(s.push(e)) == grouped(s).push((e.0, seq![(e.1, e.2)])),
{
    let t = s.push(e);
    assert(t.drop_last() =~= s);
    lemma_grouped_shape(s);
    assert(!policies_in_order(s).contains(e.0)) by {
        if policies_in_order(s).contains(e.0) {
            let k = choose|k: int| 0 <= k < policies_in_order(s).len() && policies_in_order(s)[k] == e.0;
            assert(grouped(s)[k].0 == e.0);
        }
    }
    assert(policies_in_order(t) == policies_in_order(s).push(e.0));
    lemma_assets_under_absent(s, e.0);
    assert(assets_under(t, e.0) =~= seq![(e.1, e.2)]);
    assert forall|p: Seq<char>| p != e.0 implies assets_under(t, p) == assets_under(s, p) by {}
    assert(grouped(t) =~= grouped(s).push((e.0, seq![(e.1, e.2)])));
}

} // verus!
