use alloy::primitives::{Address as AlloyAddress, Bytes, FixedBytes, U256};
use alloy::sol_types::SolValue;
use upgrade_verifier::alias::apply_l2_to_l1_alias;
use upgrade_verifier::bytes::{address_from_u64, word_from_u64};
use upgrade_verifier::protocol_version::{get_expected_new_protocol_version, ProtocolVersion};
use upgrade_verifier::registry::{AddressBook, BytecodeRegistry, NameTable, Verifiers};
use upgrade_verifier::report::{Entry, EntryOf, IssueOf, NoteOf, VerificationResult};
use upgrade_verifier::factory_deps::{expected_bytecodes, record_publishing_block, FactoryDepsCheck};
use upgrade_verifier::upgrade_check::TransactionCheck;
use upgrade_verifier::upgrade::{
    encode_ntv_asset_id, encode_post_upgrade_calldata, L2CanonicalTransaction, ProposedUpgrade, VerifierParams, V29,
};

fn good_tx() -> L2CanonicalTransaction {
    L2CanonicalTransaction {
        tx_type: word_from_u64(254),
        from: word_from_u64(0x8007),
        to: word_from_u64(0x800f),
        gas_limit: word_from_u64(72_000_000),
        gas_per_pubdata_byte_limit: word_from_u64(800),
        max_fee_per_gas: [0u8; 32],
        max_priority_fee_per_gas: [0u8; 32],
        paymaster: [0u8; 32],
        nonce: word_from_u64(29),
        value: [0u8; 32],
        reserved: [[0u8; 32]; 4],
        data: Vec::new(),
        signature: Vec::new(),
        factory_deps: Vec::new(),
        paymaster_input: Vec::new(),
        reserved_dynamic: Vec::new(),
    }
}

fn hash(i: u8) -> [u8; 32] {
    let mut h = [0u8; 32];
    h[0] = 0x01;
    h[31] = i;
    h
}

fn verifiers() -> Verifiers {
    let mut registry = BytecodeRegistry::new();
    for (i, name) in expected_bytecodes().into_iter().enumerate() {
        registry.insert(hash(i as u8), name);
    }
    registry.insert(hash(200), "Unrelated".to_string());
    let mut book = AddressBook::new();
    book.insert(address_from_u64(0xbeef), "verifier".to_string());
    book.insert(address_from_u64(0xfeed), "gateway_verifier_addr".to_string());
    Verifiers { bytecode_verifier: registry, address_verifier: book }
}

fn index_of(name: &str) -> u8 {
    expected_bytecodes().iter().position(|n| n == name).unwrap() as u8
}

fn timelocks_hex(list: &[[u8; 20]]) -> String {
    let list: Vec<AlloyAddress> = list.iter().map(|a| AlloyAddress::from(*a)).collect();
    let bytes = list.abi_encode();
    format!("0x{}", bytes.iter().map(|b| format!("{:02x}", b)).collect::<String>())
}

fn v29() -> V29 {
    V29 {
        encoded_old_validator_timelocks: timelocks_hex(&[address_from_u64(0xa1)]),
        encoded_old_gateway_validator_timelocks: timelocks_hex(&[address_from_u64(0xa2), address_from_u64(0xa3)]),
    }
}

fn good_upgrade() -> ProposedUpgrade {
    let mut version = [0u8; 32];
    version[27] = 29;
    version[31] = 1;
    ProposedUpgrade {
        l2_protocol_upgrade_tx: good_tx(),
        bootloader_hash: hash(index_of("Bootloader")),
        default_account_hash: hash(index_of("system-contracts/DefaultAccount")),
        evm_emulator_hash: hash(index_of("EvmEmulator")),
        verifier: address_from_u64(0xbeef),
        verifier_params: VerifierParams {
            recursion_node_level_vk_hash: [0u8; 32],
            recursion_leaf_level_vk_hash: [0u8; 32],
            recursion_circuits_set_vks_hash: [0u8; 32],
        },
        l1_contracts_upgrade_calldata: Vec::new(),
        post_upgrade_calldata: encode_post_upgrade_calldata(vec![address_from_u64(0xa1)], address_from_u64(0x77)),
        upgrade_timestamp: [0u8; 32],
        new_protocol_version: version,
    }
}

fn errors(entries: &[Entry]) -> Vec<Entry> {
    entries.iter().filter(|e| matches!(e, EntryOf::Error(_))).cloned().collect()
}

/// The opening note and the transaction's plain fields, as the check of a
/// proposed upgrade starts, then the upgrade's own fields.
fn run_fields(p: &ProposedUpgrade, is_gateway: bool, timelock: [u8; 20]) -> Vec<Entry> {
    let mut result = VerificationResult::new();
    let initial = result.errors();
    result.print_info(NoteOf::CheckingChainUpgradeInitCalldata);
    p.l2_protocol_upgrade_tx.verify_fields(&mut result, get_expected_new_protocol_version());
    p.verify_fields(&verifiers(), &mut result, is_gateway, &v29(), timelock, initial);
    result.entries().clone()
}

#[test]
fn tx_fields_of_a_good_transaction() {
    let mut result = VerificationResult::new();
    good_tx().verify_fields(&mut result, get_expected_new_protocol_version());
    assert!(result.entries().is_empty());
}

#[test]
fn tx_fields_all_wrong() {
    let mut tx = good_tx();
    tx.tx_type = word_from_u64(255);
    tx.from = word_from_u64(1);
    tx.to = word_from_u64(2);
    tx.gas_limit = word_from_u64(1);
    tx.gas_per_pubdata_byte_limit = word_from_u64(1);
    tx.max_fee_per_gas[0] = 1;
    tx.max_priority_fee_per_gas[3] = 1;
    tx.paymaster[31] = 1;
    tx.nonce = word_from_u64(28);
    tx.value[10] = 1;
    tx.reserved[3][0] = 1;
    tx.signature = vec![1];
    tx.paymaster_input = vec![1];
    tx.reserved_dynamic = vec![1];
    let mut result = VerificationResult::new();
    tx.verify_fields(&mut result, get_expected_new_protocol_version());
    assert_eq!(
        result.entries().clone(),
        vec![
            EntryOf::Error(IssueOf::TxType),
            EntryOf::Error(IssueOf::TxFrom),
            EntryOf::Error(IssueOf::TxTo { got: word_from_u64(2) }),
            EntryOf::Error(IssueOf::TxGasLimit),
            EntryOf::Error(IssueOf::TxGasPerPubdataByteLimit),
            EntryOf::Error(IssueOf::TxMaxFeePerGas),
            EntryOf::Error(IssueOf::TxMaxPriorityFeePerGas),
            EntryOf::Error(IssueOf::TxPaymaster),
            EntryOf::Error(IssueOf::TxNonce { got: word_from_u64(28), expected_minor: 29 }),
            EntryOf::Error(IssueOf::TxValue),
            EntryOf::Error(IssueOf::TxReserved),
            EntryOf::Error(IssueOf::TxSignature),
            EntryOf::Error(IssueOf::TxPaymasterInput),
            EntryOf::Error(IssueOf::TxReservedDynamic),
        ]
    );
    assert_eq!(result.errors(), 14);
}

#[test]
fn factory_deps_all_expected_and_published() {
    let v = verifiers();
    let mut result = VerificationResult::new();
    let mut check = FactoryDepsCheck::new();
    assert_eq!(check.remaining().len(), 48);
    for i in 0..48u8 {
        let file = check.take_dependency(&v, &hash(i), &mut result).unwrap();
        record_publishing_block(&mut result, file, &word_from_u64(100 + i as u64));
    }
    assert!(check.remaining().is_empty());
    check.finish(&mut result);
    assert!(result.entries().is_empty());
}

#[test]
fn factory_deps_problems() {
    let v = verifiers();
    let mut result = VerificationResult::new();
    let mut check = FactoryDepsCheck::new();
    // Unknown hash.
    assert_eq!(check.take_dependency(&v, &[0xee; 32], &mut result), None);
    // Known but not expected.
    assert_eq!(check.take_dependency(&v, &hash(200), &mut result), None);
    // Expected, but never published.
    let file = check.take_dependency(&v, &hash(0), &mut result).unwrap();
    assert_eq!(file, "Bootloader");
    record_publishing_block(&mut result, file, &[0u8; 32]);
    // The same file a second time.
    assert_eq!(check.take_dependency(&v, &hash(0), &mut result), None);
    for i in 2..48u8 {
        let file = check.take_dependency(&v, &hash(i), &mut result).unwrap();
        record_publishing_block(&mut result, file, &word_from_u64(1));
    }
    check.finish(&mut result);
    assert_eq!(
        result.entries().clone(),
        vec![
            EntryOf::Error(IssueOf::UnknownFactoryDependency { hash: [0xee; 32] }),
            EntryOf::Error(IssueOf::UnexpectedFactoryDependency { file: "Unrelated".to_string() }),
            EntryOf::Error(IssueOf::UnpublishedBytecode { file: "Bootloader".to_string() }),
            EntryOf::Error(IssueOf::UnexpectedFactoryDependency { file: "Bootloader".to_string() }),
            EntryOf::Error(IssueOf::MissingFactoryDependencies { files: vec!["CodeOracle".to_string()] }),
        ]
    );
}

#[test]
fn proposed_upgrade_fields_clean() {
    let entries = run_fields(&good_upgrade(), false, address_from_u64(0x77));
    assert!(errors(&entries).is_empty());
    assert_eq!(entries[0], EntryOf::Info(NoteOf::CheckingChainUpgradeInitCalldata));
    assert_eq!(
        entries[1],
        EntryOf::Passed(NoteOf::BytecodeMatches { file: "Bootloader".to_string() })
    );
    assert_eq!(entries.last().unwrap(), &EntryOf::Passed(NoteOf::ProposedUpgradeInfoCorrect));
    assert_eq!(entries.len(), 5);
}

#[test]
fn proposed_upgrade_on_gateway_uses_gateway_names() {
    let mut p = good_upgrade();
    p.verifier = address_from_u64(0xfeed);
    p.post_upgrade_calldata =
        encode_post_upgrade_calldata(vec![address_from_u64(0xa2), address_from_u64(0xa3)], address_from_u64(0x78));
    let entries = run_fields(&p, true, address_from_u64(0x78));
    assert!(errors(&entries).is_empty());
    // The L1 verifier is not the gateway's.
    let entries = run_fields(&good_upgrade(), true, address_from_u64(0x77));
    assert!(errors(&entries).contains(&EntryOf::Error(IssueOf::Verifier {
        name: Some("verifier".to_string()),
        address: address_from_u64(0xbeef),
    })));
}

#[test]
fn proposed_upgrade_fields_wrong() {
    let mut p = good_upgrade();
    p.bootloader_hash = hash(index_of("EvmEmulator"));
    p.verifier = address_from_u64(0xdead);
    p.verifier_params.recursion_leaf_level_vk_hash[4] = 1;
    p.l1_contracts_upgrade_calldata = vec![0];
    p.upgrade_timestamp[31] = 1;
    p.new_protocol_version = word_from_u64(28u64 << 32);
    let entries = run_fields(&p, false, address_from_u64(0x99));
    let expected_post = encode_post_upgrade_calldata(vec![address_from_u64(0xa1)], address_from_u64(0x99));
    assert_eq!(
        errors(&entries),
        vec![
            EntryOf::Error(IssueOf::BytecodeFromWrongFile {
                expected: "Bootloader".to_string(),
                got: "EvmEmulator".to_string(),
            }),
            EntryOf::Error(IssueOf::Verifier { name: None, address: address_from_u64(0xdead) }),
            EntryOf::Error(IssueOf::VerifierParams),
            EntryOf::Error(IssueOf::L1ContractsUpgradeCalldata),
            EntryOf::Error(IssueOf::PostUpgradeCalldata {
                got: good_upgrade().post_upgrade_calldata,
                expected: expected_post,
            }),
            EntryOf::Error(IssueOf::UpgradeTimestamp),
            EntryOf::Error(IssueOf::ProtocolVersion {
                got: ProtocolVersion { major: 0, minor: 28, patch: 0 },
                expected: ProtocolVersion { major: 0, minor: 29, patch: 1 },
            }),
        ]
    );
    assert_ne!(entries.last().unwrap(), &EntryOf::Passed(NoteOf::ProposedUpgradeInfoCorrect));
}

#[test]
fn empty_post_upgrade_calldata_is_an_error() {
    let mut p = good_upgrade();
    p.post_upgrade_calldata = Vec::new();
    let entries = run_fields(&p, false, address_from_u64(0x77));
    assert_eq!(errors(&entries), vec![EntryOf::Error(IssueOf::MissingPostUpgradeCalldata)]);
}

#[test]
fn earlier_errors_since_the_start_withhold_the_final_note() {
    let mut result = VerificationResult::new();
    let initial = result.errors();
    result.print_info(NoteOf::CheckingChainUpgradeInitCalldata);
    result.report_error(IssueOf::TxType);
    good_upgrade().verify_fields(&verifiers(), &mut result, false, &v29(), address_from_u64(0x77), initial);
    assert_ne!(result.entries().last().unwrap(), &EntryOf::Passed(NoteOf::ProposedUpgradeInfoCorrect));
    assert_eq!(result.errors(), 1);
}

#[test]
fn name_table_later_entry_wins() {
    let mut t: NameTable<20> = NameTable::new();
    assert_eq!(t.get(&[1u8; 20]), None);
    t.insert([1u8; 20], "a".to_string());
    t.insert([2u8; 20], "b".to_string());
    t.insert([1u8; 20], "c".to_string());
    assert_eq!(t.get(&[1u8; 20]), Some("c".to_string()));
    assert_eq!(t.get(&[2u8; 20]), Some("b".to_string()));
    assert_eq!(t.get(&[3u8; 20]), None);
}

#[test]
fn expect_zk_bytecode_outcomes() {
    let v = verifiers();
    let mut result = VerificationResult::new();
    result.expect_zk_bytecode(&v.bytecode_verifier, &hash(200), "Unrelated");
    result.expect_zk_bytecode(&v.bytecode_verifier, &hash(200), "Bootloader");
    result.expect_zk_bytecode(&v.bytecode_verifier, &[9u8; 32], "Bootloader");
    assert_eq!(
        result.entries().clone(),
        vec![
            EntryOf::Passed(NoteOf::BytecodeMatches { file: "Unrelated".to_string() }),
            EntryOf::Error(IssueOf::BytecodeFromWrongFile {
                expected: "Bootloader".to_string(),
                got: "Unrelated".to_string(),
            }),
            EntryOf::Error(IssueOf::MissingBytecode { expected: "Bootloader".to_string(), hash: [9u8; 32] }),
        ]
    );
}

#[test]
fn begin_verify_opens_with_note_and_checks_nonce_against_29() {
    let mut p = good_upgrade();
    p.l2_protocol_upgrade_tx.nonce = word_from_u64(28);
    let v = verifiers();
    let mut result = VerificationResult::new();
    let check = p.begin_verify(&v, &mut result);
    assert!(check.is_done());
    assert_eq!(
        result.entries().clone(),
        vec![
            EntryOf::Info(NoteOf::CheckingChainUpgradeInitCalldata),
            EntryOf::Error(IssueOf::TxNonce { got: word_from_u64(28), expected_minor: 29 }),
        ]
    );
    let mut clean = VerificationResult::new();
    let good = good_upgrade();
    good.begin_verify(&v, &mut clean);
    assert_eq!(clean.entries().clone(), vec![EntryOf::Info(NoteOf::CheckingChainUpgradeInitCalldata)]);
}

const FORCE_DEPLOY_SELECTOR: [u8; 4] = [0x48, 0x0d, 0x11, 0x85];
const UPGRADE_SELECTOR: [u8; 4] = [0xa2, 0x36, 0x73, 0x05];

/// A `forceDeployAndUpgrade` call with no deployments that delegates the
/// upgrade of the chain owned by `owner` on chain 1.
fn complex_upgrade_data(owner: [u8; 20]) -> Vec<u8> {
    let mut calldata = UPGRADE_SELECTOR.to_vec();
    calldata.extend_from_slice(&[0u8; 12]);
    calldata.extend_from_slice(&apply_l2_to_l1_alias(owner));
    calldata.extend_from_slice(&encode_ntv_asset_id(1, address_from_u64(1)));
    let deployments: Vec<(FixedBytes<32>, AlloyAddress, bool, U256, Bytes)> = Vec::new();
    let mut data = FORCE_DEPLOY_SELECTOR.to_vec();
    data.extend((deployments, AlloyAddress::from(address_from_u64(0x10001)), Bytes::from(calldata)).abi_encode_params());
    data
}

/// Runs the whole check of `p`, answering each publication query with
/// block 7, or 0 for the hashes in `unpublished`.
fn run_check(p: &ProposedUpgrade, unpublished: &[[u8; 32]], owner: [u8; 20]) -> (bool, Vec<Entry>, Vec<[u8; 32]>) {
    let v = verifiers();
    let mut result = VerificationResult::new();
    let mut asked = Vec::new();
    let mut check = p.begin_verify(&v, &mut result);
    while !check.is_done() {
        let block = check.next_query().map(|h| {
            asked.push(h);
            if unpublished.contains(&h) { [0u8; 32] } else { word_from_u64(7) }
        });
        check.advance(&mut result, block);
    }
    let completed = check.finish(&mut result, 1, owner, false, &v29(), address_from_u64(0x77));
    (completed, result.entries().clone(), asked)
}

#[test]
fn whole_check_runs_in_order() {
    let owner = [3u8; 20];
    let mut p = good_upgrade();
    p.l2_protocol_upgrade_tx.data = complex_upgrade_data(owner);
    let mut deps: Vec<[u8; 32]> = (0..48u8).map(hash).collect();
    deps.insert(5, [0xee; 32]);
    deps.push(hash(0));
    p.l2_protocol_upgrade_tx.factory_deps = deps;
    let (completed, entries, asked) = run_check(&p, &[hash(2)], owner);
    assert!(completed);
    // Only the accepted dependencies are asked about, each once.
    assert_eq!(asked, (0..48u8).map(hash).collect::<Vec<_>>());
    assert_eq!(
        entries,
        vec![
            EntryOf::Info(NoteOf::CheckingChainUpgradeInitCalldata),
            EntryOf::Error(IssueOf::UnpublishedBytecode { file: "EcAdd".to_string() }),
            EntryOf::Error(IssueOf::UnknownFactoryDependency { hash: [0xee; 32] }),
            EntryOf::Error(IssueOf::UnexpectedFactoryDependency { file: "Bootloader".to_string() }),
            EntryOf::Error(IssueOf::ForceDeploymentCount { expected: 40, got: 0 }),
            EntryOf::Passed(NoteOf::ForceDeploymentsVerified),
            EntryOf::Passed(NoteOf::BytecodeMatches { file: "Bootloader".to_string() }),
            EntryOf::Passed(NoteOf::BytecodeMatches { file: "system-contracts/DefaultAccount".to_string() }),
            EntryOf::Passed(NoteOf::BytecodeMatches { file: "EvmEmulator".to_string() }),
        ]
    );
}

#[test]
fn whole_check_with_a_wrong_nonce_and_missing_dependencies() {
    let owner = [3u8; 20];
    let mut p = good_upgrade();
    p.l2_protocol_upgrade_tx.data = complex_upgrade_data(owner);
    p.l2_protocol_upgrade_tx.nonce = word_from_u64(30);
    p.l2_protocol_upgrade_tx.factory_deps = vec![hash(1)];
    let (completed, entries, asked) = run_check(&p, &[], owner);
    assert!(completed);
    assert_eq!(asked, vec![hash(1)]);
    assert_eq!(entries[0], EntryOf::Info(NoteOf::CheckingChainUpgradeInitCalldata));
    assert_eq!(entries[1], EntryOf::Error(IssueOf::TxNonce { got: word_from_u64(30), expected_minor: 29 }));
    match &entries[2] {
        EntryOf::Error(IssueOf::MissingFactoryDependencies { files }) => {
            assert_eq!(files.len(), 47);
            assert!(!files.contains(&"CodeOracle".to_string()));
            assert_eq!(files[0], "Bootloader");
        }
        other => panic!("unexpected entry {:?}", other),
    }
    assert_ne!(entries.last().unwrap(), &EntryOf::Passed(NoteOf::ProposedUpgradeInfoCorrect));
}

#[test]
fn whole_check_stops_on_data_that_is_no_complex_upgrade_call() {
    let p = good_upgrade();
    let (completed, entries, asked) = run_check(&p, &[], [3u8; 20]);
    assert!(!completed);
    assert!(asked.is_empty());
    assert_eq!(entries.len(), 2);
    assert_eq!(entries[0], EntryOf::Info(NoteOf::CheckingChainUpgradeInitCalldata));
    assert!(matches!(&entries[1], EntryOf::Error(IssueOf::MissingFactoryDependencies { files }) if files.len() == 48));
}

#[test]
fn transaction_check_takes_the_expected_version() {
    let v = verifiers();
    let mut tx = good_tx();
    tx.factory_deps = vec![hash(0)];
    let mut result = VerificationResult::new();
    let mut check = TransactionCheck::new(&tx, &v, &mut result, ProtocolVersion { major: 0, minor: 28, patch: 0 });
    assert_eq!(
        result.entries().clone(),
        vec![EntryOf::Error(IssueOf::TxNonce { got: word_from_u64(29), expected_minor: 28 })]
    );
    assert!(!check.is_done());
    assert_eq!(check.next_query(), Some(hash(0)));
    check.advance(&mut result, Some([0u8; 32]));
    assert!(check.is_done());
    assert_eq!(check.next_query(), None);
    assert!(!check.finish(&mut result, 1, [3u8; 20]));
    assert_eq!(result.entries()[1], EntryOf::Error(IssueOf::UnpublishedBytecode { file: "Bootloader".to_string() }));
    assert_eq!(result.errors(), 3);
}
