use acropolis_state::governance::{DRepInfo, GovernanceStateQueryResponse, ProposalsList};
use acropolis_state::messages::VotingProcedure;
use acropolis_state::rest::{
    convert_value, drep_info_rest, drep_list_hex, gov_action_id_reply, parse_gov_action_id,
    parse_utxo_param, query_failure_reply, utxo_param_reply,
    proposal_id_rest, proposal_vote_rows, voter_role, GovActionIdError, UtxoParamError, Value,
    VoterRoleREST,
};
use acropolis_state::text::{decimal_string, split_at_colon, HexFailure, IntFailure};
use acropolis_state::types::{Credential, GovActionId, Vote, Voter};

fn params(a: &str, b: &str) -> Vec<String> {
    vec![a.to_string(), b.to_string()]
}

#[test]
fn parse_gov_action_id_reads_hash_and_index() {
    let id = parse_gov_action_id(&params("0aFF", "7")).unwrap();
    assert_eq!(id.transaction_id, vec![0x0a, 0xff]);
    assert_eq!(id.action_index, 7);
}

#[test]
fn parse_gov_action_id_accepts_plus_sign() {
    let id = parse_gov_action_id(&params("", "+255")).unwrap();
    assert_eq!(id.transaction_id, Vec::<u8>::new());
    assert_eq!(id.action_index, 255);
}

#[test]
fn parse_gov_action_id_needs_two_parameters() {
    let one = vec!["00".to_string()];
    assert!(matches!(
        parse_gov_action_id(&one),
        Err(GovActionIdError::WrongParameterCount)
    ));
    let three = vec!["00".to_string(), "1".to_string(), "2".to_string()];
    assert!(matches!(
        parse_gov_action_id(&three),
        Err(GovActionIdError::WrongParameterCount)
    ));
}

#[test]
fn parse_gov_action_id_refuses_bad_hash() {
    assert!(matches!(
        parse_gov_action_id(&params("0g", "1")),
        Err(GovActionIdError::InvalidTxHash(_))
    ));
    assert!(matches!(
        parse_gov_action_id(&params("abc", "1")),
        Err(GovActionIdError::InvalidTxHash(_))
    ));
}

#[test]
fn parse_gov_action_id_refuses_bad_index() {
    assert!(matches!(
        parse_gov_action_id(&params("ab", "256")),
        Err(GovActionIdError::InvalidCertIndex(_))
    ));
    assert!(matches!(
        parse_gov_action_id(&params("ab", "-1")),
        Err(GovActionIdError::InvalidCertIndex(_))
    ));
    assert!(matches!(
        parse_gov_action_id(&params("ab", "")),
        Err(GovActionIdError::InvalidCertIndex(_))
    ));
}

#[test]
fn parse_utxo_param_reads_hash_and_index() {
    let (hash, index) = parse_utxo_param("abcd:12").unwrap();
    assert_eq!(hash, vec![0xab, 0xcd]);
    assert_eq!(index, 12);
}

#[test]
fn parse_utxo_param_splits_at_first_colon() {
    assert!(matches!(
        parse_utxo_param("ab:1:2"),
        Err(UtxoParamError::InvalidIndex(_))
    ));
}

#[test]
fn parse_utxo_param_refuses_missing_colon() {
    assert!(matches!(
        parse_utxo_param("abcd"),
        Err(UtxoParamError::NotTxHashColonIndex)
    ));
}

#[test]
fn parse_utxo_param_refuses_bad_parts() {
    assert!(matches!(
        parse_utxo_param("xyz:1"),
        Err(UtxoParamError::InvalidTxHash(_))
    ));
    assert!(matches!(
        parse_utxo_param("ab:one"),
        Err(UtxoParamError::InvalidIndex(_))
    ));
}

#[test]
fn convert_value_groups_assets_by_policy() {
    let value = Value {
        coin: 42,
        multiassets: Some(vec![
            (vec![0xaa], vec![0x01], 5),
            (vec![0xbb], vec![0x02], 6),
            (vec![0xaa], vec![0x03], 7),
        ]),
    };
    let rest = convert_value(&value);
    assert_eq!(rest.coin, 42);
    let groups = rest.multiassets.unwrap();
    assert_eq!(groups.len(), 2);
    assert_eq!(groups[0].policy_id, "aa");
    assert_eq!(groups[0].assets.len(), 2);
    assert_eq!(groups[0].assets[0].asset_name, "01");
    assert_eq!(groups[0].assets[0].amount, 5);
    assert_eq!(groups[0].assets[1].asset_name, "03");
    assert_eq!(groups[0].assets[1].amount, 7);
    assert_eq!(groups[1].policy_id, "bb");
    assert_eq!(groups[1].assets.len(), 1);
    assert_eq!(groups[1].assets[0].asset_name, "02");
    assert_eq!(groups[1].assets[0].amount, 6);
}

#[test]
fn convert_value_without_assets() {
    let rest = convert_value(&Value {
        coin: 7,
        multiassets: None,
    });
    assert_eq!(rest.coin, 7);
    assert!(rest.multiassets.is_none());
    let rest = convert_value(&Value {
        coin: 0,
        multiassets: Some(vec![]),
    });
    assert_eq!(rest.multiassets.unwrap().len(), 0);
}

#[test]
fn voter_role_of_each_voter() {
    assert_eq!(
        voter_role(&Voter::ConstitutionalCommitteeKey(vec![1])),
        VoterRoleREST::Constitutional_Committee
    );
    assert_eq!(
        voter_role(&Voter::ConstitutionalCommitteeScript(vec![1])),
        VoterRoleREST::Constitutional_Committee
    );
    assert_eq!(voter_role(&Voter::DRepKey(vec![1])), VoterRoleREST::DRep);
    assert_eq!(voter_role(&Voter::DRepScript(vec![1])), VoterRoleREST::DRep);
    assert_eq!(voter_role(&Voter::StakePoolKey(vec![1])), VoterRoleREST::SPO);
}

#[test]
fn drep_info_rest_reports_activity() {
    let info = DRepInfo {
        deposit: 500000000,
        retired: false,
        expired: false,
        active_epoch: Some(3),
        last_active_epoch: 4,
    };
    let c = Credential::ScriptHash(vec![0xab, 0x01]);
    let r = drep_info_rest(&c, "drep1xyz".to_string(), &info).unwrap();
    assert_eq!(r.drep_id, "drep1xyz");
    assert_eq!(r.hex, "ab01");
    assert_eq!(r.amount, "500000000");
    assert!(r.active);
    assert!(r.has_script);
    assert_eq!(r.active_epoch, 3);
    assert_eq!(r.last_active_epoch, 4);

    let expired = DRepInfo { expired: true, ..info };
    let k = Credential::AddrKeyHash(vec![0x00, 0xff]);
    let r = drep_info_rest(&k, "d".to_string(), &expired).unwrap();
    assert!(!r.active);
    assert!(!r.has_script);
    assert_eq!(r.hex, "00ff");

    let retired = DRepInfo { retired: true, active_epoch: None, deposit: 0, ..info };
    assert!(drep_info_rest(&k, "d".to_string(), &retired).is_none());
}

fn procedure(vote: Vote) -> VotingProcedure {
    VotingProcedure { vote, anchor: None, vote_index: 0 }
}

#[test]
fn proposal_vote_rows_name_the_action_and_each_vote() {
    let id = GovActionId { transaction_id: vec![0xab, 0x01], action_index: 3 };
    let votes = vec![
        (Voter::DRepKey(vec![1; 4]), ([9u8; 32], procedure(Vote::Yes))),
        (Voter::StakePoolKey(vec![2; 4]), ([8u8; 32], procedure(Vote::Abstain))),
        (Voter::ConstitutionalCommitteeScript(vec![3; 4]), ([7u8; 32], procedure(Vote::No))),
    ];
    let rows = proposal_vote_rows(&id, &votes);
    assert_eq!(rows.len(), 3);
    for row in &rows {
        assert_eq!(row.tx_hash, "ab01");
        assert_eq!(row.cert_index, 3);
    }
    assert_eq!(rows[0].voter_role, VoterRoleREST::DRep);
    assert_eq!(rows[0].vote, Vote::Yes);
    assert_eq!(rows[1].voter_role, VoterRoleREST::SPO);
    assert_eq!(rows[1].vote, Vote::Abstain);
    assert_eq!(rows[2].voter_role, VoterRoleREST::Constitutional_Committee);
    assert_eq!(rows[2].vote, Vote::No);
    assert!(proposal_vote_rows(&id, &Vec::new()).is_empty());
}

#[test]
fn proposal_id_is_answered_in_hex() {
    let r = proposal_id_rest(&GovActionId { transaction_id: vec![0, 0xff, 0x10], action_index: 9 });
    assert_eq!(r.transaction_id, "00ff10");
    assert_eq!(r.action_index, 9);
}

#[test]
fn dreps_list_hex_column() {
    let dreps = vec![Credential::AddrKeyHash(vec![0x0f, 0xa0]), Credential::ScriptHash(vec![0x12])];
    assert_eq!(drep_list_hex(&dreps), vec!["0fa0".to_string(), "12".to_string()]);
}

#[test]
fn parse_errors_name_what_failed() {
    match parse_gov_action_id(&params("0g", "1")) {
        Err(GovActionIdError::InvalidTxHash(e)) => {
            assert_eq!(e, HexFailure::InvalidHexCharacter { c: 'g', index: 1 })
        }
        _ => panic!("expected a bad hash"),
    }
    match parse_gov_action_id(&params("abc", "1")) {
        Err(GovActionIdError::InvalidTxHash(e)) => assert_eq!(e, HexFailure::OddLength),
        _ => panic!("expected a bad hash"),
    }
    match parse_gov_action_id(&params("ab", "")) {
        Err(GovActionIdError::InvalidCertIndex(e)) => assert_eq!(e.kind, IntFailure::Empty),
        _ => panic!("expected a bad index"),
    }
    match parse_gov_action_id(&params("ab", "256")) {
        Err(GovActionIdError::InvalidCertIndex(e)) => assert_eq!(e.kind, IntFailure::PosOverflow),
        _ => panic!("expected a bad index"),
    }
    match parse_gov_action_id(&params("ab", "+")) {
        Err(GovActionIdError::InvalidCertIndex(e)) => {
            assert_eq!(e.kind, IntFailure::InvalidDigit)
        }
        _ => panic!("expected a bad index"),
    }
    match parse_utxo_param("zz00:1") {
        Err(UtxoParamError::InvalidTxHash(e)) => {
            assert_eq!(e, HexFailure::InvalidHexCharacter { c: 'z', index: 0 })
        }
        _ => panic!("expected a bad hash"),
    }
    match parse_utxo_param("00:18446744073709551616") {
        Err(UtxoParamError::InvalidIndex(e)) => assert_eq!(e.kind, IntFailure::PosOverflow),
        _ => panic!("expected a bad index"),
    }
}

#[test]
fn decimal_text_of_numbers() {
    assert_eq!(decimal_string(0), "0");
    assert_eq!(decimal_string(7), "7");
    assert_eq!(decimal_string(10), "10");
    assert_eq!(decimal_string(907), "907");
    assert_eq!(decimal_string(u64::MAX), u64::MAX.to_string());
}

#[test]
fn split_at_first_colon_by_characters() {
    assert_eq!(split_at_colon("é:ü:x"), Some(("é", "ü:x")));
    assert_eq!(split_at_colon(":"), Some(("", "")));
    assert_eq!(split_at_colon("abc"), None);
    assert_eq!(split_at_colon(""), None);
}

#[test]
fn refusals_of_parameters_are_answered_with_400() {
    match gov_action_id_reply(&params("0g", "1")) {
        Err(r) => {
            assert_eq!(r.code, 400);
            assert_eq!(r.text, "Invalid hex tx_hash: Invalid character 'g' at position 1");
        }
        Ok(_) => panic!("expected a refusal"),
    }
    match gov_action_id_reply(&params("abc", "1")) {
        Err(r) => assert_eq!(r.text, "Invalid hex tx_hash: Odd number of digits"),
        Ok(_) => panic!("expected a refusal"),
    }
    match gov_action_id_reply(&vec!["00".to_string()]) {
        Err(r) => assert_eq!(r.text, "Expected two parameters: tx_hash/cert_index"),
        Ok(_) => panic!("expected a refusal"),
    }
    match gov_action_id_reply(&params("00", "300")) {
        Err(r) => {
            assert_eq!(r.code, 400);
            assert!(r.text.starts_with("Invalid cert_index, expected u8: "));
        }
        Ok(_) => panic!("expected a refusal"),
    }
    assert_eq!(gov_action_id_reply(&params("0a", "5")).unwrap().action_index, 5);
    match utxo_param_reply("abcd") {
        Err(r) => assert_eq!(
            r.text,
            "Parameter must be in <tx_hash>:<index> format. Provided param: abcd"
        ),
        Ok(_) => panic!("expected a refusal"),
    }
    match utxo_param_reply("zz:1") {
        Err(r) => assert_eq!(r.text, "Invalid tx_hash: Invalid character 'z' at position 0"),
        Ok(_) => panic!("expected a refusal"),
    }
    match utxo_param_reply("00:x") {
        Err(r) => assert!(r.text.starts_with("Invalid index: ")),
        Ok(_) => panic!("expected a refusal"),
    }
}

#[test]
fn failed_queries_are_answered() {
    let r = query_failure_reply(&GovernanceStateQueryResponse::Error("boom".to_string()), "none");
    assert_eq!((r.code, r.text.as_str()), (500, "Query error: boom"));
    let r = query_failure_reply(&GovernanceStateQueryResponse::NotFound, "DRep not found");
    assert_eq!((r.code, r.text.as_str()), (404, "DRep not found"));
    let r = query_failure_reply(&GovernanceStateQueryResponse::ProposalsList(ProposalsList { proposals: vec![] }), "none");
    assert_eq!((r.code, r.text.as_str()), (500, "Unexpected message type"));
}
