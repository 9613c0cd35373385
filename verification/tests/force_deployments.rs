use upgrade_verifier::alias::apply_l2_to_l1_alias;
use upgrade_verifier::bytes::address_from_u64;
use upgrade_verifier::force_deployment::{
    encode_chain_asset_handler_input, expected_force_deployments,
    verify_force_deployments_and_upgrade, ForceDeployAndUpgrade, ForceDeployment, UpgradeCall,
};
use upgrade_verifier::registry::{AddressBook, BytecodeRegistry, Verifiers};
use upgrade_verifier::report::{Entry, EntryOf, IssueOf, NoteOf, VerificationResult};
use upgrade_verifier::upgrade::encode_ntv_asset_id;

const L1_CHAIN_ID: u64 = 1;

fn owner() -> [u8; 20] {
    let mut a = [0u8; 20];
    a[0] = 0xab;
    a[19] = 0xcd;
    a
}

fn hash_for(i: usize) -> [u8; 32] {
    let mut h = [0u8; 32];
    h[0] = 0xbc;
    h[31] = i as u8;
    h
}

fn verifiers() -> Verifiers {
    let mut registry = BytecodeRegistry::new();
    for (i, (name, _, _)) in expected_force_deployments().into_iter().enumerate() {
        registry.insert(hash_for(i), name);
    }
    Verifiers { bytecode_verifier: registry, address_verifier: AddressBook::new() }
}

fn good_call() -> ForceDeployAndUpgrade {
    let force_deployments = expected_force_deployments()
        .into_iter()
        .enumerate()
        .map(|(i, (name, address, ctor))| ForceDeployment {
            bytecode_hash: hash_for(i),
            new_address: address,
            call_constructor: ctor,
            value: [0u8; 32],
            input: if name == "l1-contracts/ChainAssetHandler" {
                encode_chain_asset_handler_input(L1_CHAIN_ID, owner())
            } else {
                Vec::new()
            },
        })
        .collect();
    ForceDeployAndUpgrade {
        force_deployments,
        delegate_to: address_from_u64(0x10001),
        calldata: Vec::new(),
    }
}

fn good_upgrade() -> UpgradeCall {
    UpgradeCall {
        aliased_governance: apply_l2_to_l1_alias(owner()),
        bridged_eth_asset_id: encode_ntv_asset_id(L1_CHAIN_ID, address_from_u64(1)),
    }
}

fn run(call: &ForceDeployAndUpgrade, upgrade: UpgradeCall) -> Vec<Entry> {
    let expected = expected_force_deployments();
    let mut result = VerificationResult::new();
    verify_force_deployments_and_upgrade(
        call,
        upgrade,
        &expected,
        &verifiers(),
        &mut result,
        apply_l2_to_l1_alias(owner()),
        encode_ntv_asset_id(L1_CHAIN_ID, address_from_u64(1)),
        L1_CHAIN_ID,
        owner(),
    );
    result.entries().clone()
}

fn errors(entries: &[Entry]) -> Vec<Entry> {
    entries.iter().filter(|e| matches!(e, EntryOf::Error(_))).cloned().collect()
}

#[test]
fn expected_table_has_forty_contracts() {
    let table = expected_force_deployments();
    assert_eq!(table.len(), 40);
    assert_eq!(table[0].0, "system-contracts/EmptyContract");
    assert_eq!(table[0].1, [0u8; 20]);
    assert_eq!(table[8].1, address_from_u64(0x8001));
    let cah: Vec<_> = table.iter().filter(|e| e.2).collect();
    assert_eq!(cah.len(), 1);
    assert_eq!(cah[0].0, "l1-contracts/ChainAssetHandler");
    assert_eq!(cah[0].1, address_from_u64(0x1000a));
    assert_eq!(table[39].0, "system-contracts/L2V29Upgrade");
    assert_eq!(table[39].1, address_from_u64(0x10001));
}

#[test]
fn clean_upgrade_has_no_error() {
    let entries = run(&good_call(), good_upgrade());
    assert!(errors(&entries).is_empty());
    assert_eq!(entries.len(), 41);
    assert_eq!(
        entries[0],
        EntryOf::Passed(NoteOf::BytecodeMatches { file: "system-contracts/EmptyContract".to_string() })
    );
    assert_eq!(entries[40], EntryOf::Passed(NoteOf::ForceDeploymentsVerified));
}

#[test]
fn chain_asset_handler_input_is_the_expected_encoding() {
    let input = encode_chain_asset_handler_input(L1_CHAIN_ID, owner());
    assert_eq!(input.len(), 160);
    assert_eq!(input[31], 1);
    assert_eq!(&input[44..64], &apply_l2_to_l1_alias(owner()));
    assert_eq!(&input[76..96], &address_from_u64(0x10002));
    assert_eq!(&input[108..128], &address_from_u64(0x10003));
    assert_eq!(&input[140..160], &address_from_u64(0x10005));
}

#[test]
fn missing_deployment_is_counted() {
    let mut call = good_call();
    call.force_deployments.pop();
    let errs = errors(&run(&call, good_upgrade()));
    assert_eq!(errs, vec![EntryOf::Error(IssueOf::ForceDeploymentCount { expected: 40, got: 39 })]);
}

#[test]
fn extra_deployment_is_reported() {
    let mut call = good_call();
    let extra = ForceDeployment {
        bytecode_hash: [7u8; 32],
        new_address: address_from_u64(0x9999),
        call_constructor: false,
        value: [0u8; 32],
        input: Vec::new(),
    };
    call.force_deployments.push(extra);
    let errs = errors(&run(&call, good_upgrade()));
    assert_eq!(
        errs,
        vec![
            EntryOf::Error(IssueOf::ForceDeploymentCount { expected: 40, got: 41 }),
            EntryOf::Error(IssueOf::ExtraForceDeployment {
                address: address_from_u64(0x9999),
                bytecode_hash: [7u8; 32],
            }),
        ]
    );
}

#[test]
fn wrong_address_skips_the_other_checks() {
    let mut call = good_call();
    call.force_deployments[1].new_address = address_from_u64(3);
    call.force_deployments[1].value[0] = 1;
    let entries = run(&call, good_upgrade());
    assert_eq!(
        errors(&entries),
        vec![EntryOf::Error(IssueOf::ForceDeploymentAddress {
            contract: "Ecrecover".to_string(),
            expected: address_from_u64(1),
            got: address_from_u64(3),
        })]
    );
    assert_eq!(entries.len(), 41);
}

#[test]
fn constructor_value_and_input_are_checked() {
    let mut call = good_call();
    call.force_deployments[2].call_constructor = true;
    call.force_deployments[2].value[31] = 5;
    call.force_deployments[2].input = vec![1];
    let errs = errors(&run(&call, good_upgrade()));
    assert_eq!(
        errs,
        vec![
            EntryOf::Error(IssueOf::ForceDeploymentConstructor {
                contract: "SHA256".to_string(),
                expected: false,
                got: true,
            }),
            EntryOf::Error(IssueOf::ForceDeploymentValue { contract: "SHA256".to_string() }),
            EntryOf::Error(IssueOf::ForceDeploymentInput { contract: "SHA256".to_string() }),
        ]
    );
}

#[test]
fn wrong_chain_asset_handler_input_is_reported() {
    let mut call = good_call();
    let i = call.force_deployments.iter().position(|d| d.call_constructor).unwrap();
    call.force_deployments[i].input = vec![9, 9];
    let errs = errors(&run(&call, good_upgrade()));
    assert_eq!(
        errs,
        vec![EntryOf::Error(IssueOf::ChainAssetHandlerInput {
            expected: encode_chain_asset_handler_input(L1_CHAIN_ID, owner()),
            got: vec![9, 9],
        })]
    );
}

#[test]
fn wrong_bytecode_is_reported() {
    let mut call = good_call();
    call.force_deployments[3].bytecode_hash = hash_for(4);
    call.force_deployments[5].bytecode_hash = [0xee; 32];
    let errs = errors(&run(&call, good_upgrade()));
    assert_eq!(
        errs,
        vec![
            EntryOf::Error(IssueOf::BytecodeFromWrongFile {
                expected: "Identity".to_string(),
                got: "EcAdd".to_string(),
            }),
            EntryOf::Error(IssueOf::MissingBytecode {
                expected: "EcMul".to_string(),
                hash: [0xee; 32],
            }),
        ]
    );
}

#[test]
fn delegate_governance_and_asset_id_are_checked() {
    let mut call = good_call();
    call.delegate_to = address_from_u64(0x10002);
    let upgrade = UpgradeCall {
        aliased_governance: owner(),
        bridged_eth_asset_id: [1u8; 32],
    };
    let errs = errors(&run(&call, upgrade));
    assert_eq!(
        errs,
        vec![
            EntryOf::Error(IssueOf::DelegateTo { got: address_from_u64(0x10002) }),
            EntryOf::Error(IssueOf::AliasedGovernance {
                expected: apply_l2_to_l1_alias(owner()),
                got: owner(),
            }),
            EntryOf::Error(IssueOf::BridgedEthAssetId {
                expected: encode_ntv_asset_id(L1_CHAIN_ID, address_from_u64(1)),
                got: [1u8; 32],
            }),
        ]
    );
}
