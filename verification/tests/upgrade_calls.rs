use alloy::primitives::{Address as AlloyAddress, Bytes, FixedBytes, U256};
use alloy::sol_types::SolValue;
use upgrade_verifier::alias::apply_l2_to_l1_alias;
use upgrade_verifier::bytes::address_from_u64;
use upgrade_verifier::force_deployment::{expected_force_deployments, UpgradeCall};
use upgrade_verifier::registry::{AddressBook, BytecodeRegistry, Verifiers};
use upgrade_verifier::report::{EntryOf, IssueOf, NoteOf, VerificationResult};
use upgrade_verifier::upgrade::{
    decode_force_deploy_and_upgrade_call, decode_old_validator_timelocks, decode_post_upgrade_calldata,
    decode_upgrade_call,
    encode_ntv_asset_id, encode_post_upgrade_calldata, verify_complex_upgrade_call,
};

const UPGRADE_SELECTOR: [u8; 4] = [0xa2, 0x36, 0x73, 0x05];
const FORCE_DEPLOY_SELECTOR: [u8; 4] = [0x48, 0x0d, 0x11, 0x85];

fn hex(s: &str) -> Vec<u8> {
    (0..s.len() / 2).map(|i| u8::from_str_radix(&s[2 * i..2 * i + 2], 16).unwrap()).collect()
}

fn to_hex(b: &[u8]) -> String {
    b.iter().map(|x| format!("{:02x}", x)).collect()
}

fn upgrade_calldata(governance: [u8; 20], asset_id: [u8; 32]) -> Vec<u8> {
    let mut data = UPGRADE_SELECTOR.to_vec();
    data.extend_from_slice(&[0u8; 12]);
    data.extend_from_slice(&governance);
    data.extend_from_slice(&asset_id);
    data
}

#[test]
fn eth_asset_id_on_chain_one() {
    let id = encode_ntv_asset_id(1, address_from_u64(1));
    assert_eq!(
        to_hex(&id),
        "05e1c3ae4b9732444ae25217ac7666e46fa365fee1768de00c9fcb65532b7609"
    );
}

#[test]
fn eth_asset_id_depends_on_the_chain() {
    let id = encode_ntv_asset_id(11155111, address_from_u64(1));
    assert_eq!(
        to_hex(&id),
        "6337a96bd2cd359fa0bae3bbedfca736753213c95037ae158c5fa7c048ae2112"
    );
}

#[test]
fn post_upgrade_calldata_encoding() {
    let old = vec![address_from_u64(0xaa), address_from_u64(0xbb)];
    let encoded = encode_post_upgrade_calldata(old, address_from_u64(0xcc));
    let mut expected = Vec::new();
    for word in [0x20u64, 0x40, 0xcc, 2, 0xaa, 0xbb] {
        let mut w = [0u8; 32];
        w[24..].copy_from_slice(&word.to_be_bytes());
        expected.extend_from_slice(&w);
    }
    assert_eq!(encoded, expected);
}

#[test]
fn upgrade_call_decodes() {
    let data = upgrade_calldata(address_from_u64(0x1234), [5u8; 32]);
    assert_eq!(
        decode_upgrade_call(&data),
        Some(UpgradeCall { aliased_governance: address_from_u64(0x1234), bridged_eth_asset_id: [5u8; 32] })
    );
}

#[test]
fn upgrade_call_rejects_bad_data() {
    let good = upgrade_calldata(address_from_u64(0x1234), [5u8; 32]);
    let mut wrong_selector = good.clone();
    wrong_selector[0] ^= 1;
    assert_eq!(decode_upgrade_call(&wrong_selector), None);
    let mut dirty_padding = good.clone();
    dirty_padding[5] = 1;
    assert_eq!(decode_upgrade_call(&dirty_padding), None);
    let mut too_long = good.clone();
    too_long.push(0);
    assert_eq!(decode_upgrade_call(&too_long), None);
    assert_eq!(decode_upgrade_call(&good[..67]), None);
    assert_eq!(decode_upgrade_call(&[]), None);
}

fn force_deploy_calldata(
    deps: Vec<(FixedBytes<32>, AlloyAddress, bool, U256, Bytes)>,
    delegate: AlloyAddress,
    calldata: Vec<u8>,
) -> Vec<u8> {
    let mut data = FORCE_DEPLOY_SELECTOR.to_vec();
    data.extend((deps, delegate, Bytes::from(calldata)).abi_encode_params());
    data
}

#[test]
fn force_deploy_call_decodes() {
    let deps = vec![
        (FixedBytes::from([1u8; 32]), AlloyAddress::from([2u8; 20]), true, U256::from(7u64), Bytes::from(vec![1, 2, 3])),
        (FixedBytes::from([4u8; 32]), AlloyAddress::from([5u8; 20]), false, U256::ZERO, Bytes::new()),
    ];
    let data = force_deploy_calldata(deps, AlloyAddress::from([6u8; 20]), vec![9, 8]);
    let call = decode_force_deploy_and_upgrade_call(&data).unwrap();
    assert_eq!(call.force_deployments.len(), 2);
    assert_eq!(call.force_deployments[0].bytecode_hash, [1u8; 32]);
    assert_eq!(call.force_deployments[0].new_address, [2u8; 20]);
    assert!(call.force_deployments[0].call_constructor);
    assert_eq!(call.force_deployments[0].value[31], 7);
    assert_eq!(call.force_deployments[0].input, vec![1, 2, 3]);
    assert_eq!(call.force_deployments[1].new_address, [5u8; 20]);
    assert!(call.force_deployments[1].input.is_empty());
    assert_eq!(call.delegate_to, [6u8; 20]);
    assert_eq!(call.calldata, vec![9, 8]);
}

#[test]
fn force_deploy_call_rejects_bad_data() {
    let data = force_deploy_calldata(Vec::new(), AlloyAddress::from([6u8; 20]), vec![]);
    assert!(decode_force_deploy_and_upgrade_call(&data).is_some());
    let mut wrong_selector = data.clone();
    wrong_selector[3] ^= 0xff;
    assert!(decode_force_deploy_and_upgrade_call(&wrong_selector).is_none());
    assert!(decode_force_deploy_and_upgrade_call(&data[..data.len() - 1]).is_none());
    assert!(decode_force_deploy_and_upgrade_call(&data[..3]).is_none());
}

#[test]
fn old_validator_timelocks_decode() {
    let list = vec![AlloyAddress::from([0x11u8; 20]), AlloyAddress::from([0x22u8; 20])];
    let encoded = format!("0x{}", to_hex(&list.abi_encode()));
    assert_eq!(
        decode_old_validator_timelocks(&encoded),
        Some(vec![[0x11u8; 20], [0x22u8; 20]])
    );
    let doubly_prefixed = format!("0x0x{}", to_hex(&list.abi_encode()).to_uppercase());
    assert_eq!(
        decode_old_validator_timelocks(&doubly_prefixed),
        Some(vec![[0x11u8; 20], [0x22u8; 20]])
    );
    let empty = format!("0x{}", to_hex(&Vec::<AlloyAddress>::new().abi_encode()));
    assert_eq!(decode_old_validator_timelocks(&empty), Some(vec![]));
}

#[test]
fn old_validator_timelocks_reject_bad_text() {
    assert_eq!(decode_old_validator_timelocks("0xzz"), None);
    assert_eq!(decode_old_validator_timelocks("0x123"), None);
    assert_eq!(decode_old_validator_timelocks("0x1234"), None);
    let list = vec![AlloyAddress::from([0x11u8; 20])];
    let mut bytes = list.abi_encode();
    bytes[64] = 1;
    assert_eq!(decode_old_validator_timelocks(&to_hex(&bytes)), None);
    assert_eq!(hex("0aff"), vec![0x0a, 0xff]);
}

fn registry_with_expected() -> Verifiers {
    let mut registry = BytecodeRegistry::new();
    for (i, (name, _, _)) in expected_force_deployments().into_iter().enumerate() {
        let mut h = [0u8; 32];
        h[31] = i as u8;
        registry.insert(h, name);
    }
    Verifiers { bytecode_verifier: registry, address_verifier: AddressBook::new() }
}

#[test]
fn complex_upgrade_with_undecodable_calldata() {
    let call = upgrade_verifier::force_deployment::ForceDeployAndUpgrade {
        force_deployments: Vec::new(),
        delegate_to: address_from_u64(0x10001),
        calldata: vec![1, 2, 3],
    };
    let mut result = VerificationResult::new();
    verify_complex_upgrade_call(&call, &registry_with_expected(), &mut result, 1, [3u8; 20]);
    assert_eq!(result.entries().clone(), vec![EntryOf::Error(IssueOf::UndecodableDelegateCalldata)]);
}

#[test]
fn complex_upgrade_checks_the_delegated_call() {
    let owner = [3u8; 20];
    let call = upgrade_verifier::force_deployment::ForceDeployAndUpgrade {
        force_deployments: Vec::new(),
        delegate_to: address_from_u64(0x10001),
        calldata: upgrade_calldata(apply_l2_to_l1_alias(owner), encode_ntv_asset_id(1, address_from_u64(1))),
    };
    let mut result = VerificationResult::new();
    verify_complex_upgrade_call(&call, &registry_with_expected(), &mut result, 1, owner);
    assert_eq!(
        result.entries().clone(),
        vec![
            EntryOf::Error(IssueOf::ForceDeploymentCount { expected: 40, got: 0 }),
            EntryOf::Passed(NoteOf::ForceDeploymentsVerified),
        ]
    );
    assert_eq!(result.errors(), 1);
}

#[test]
fn post_upgrade_calldata_tells_inputs_apart() {
    let a = encode_post_upgrade_calldata(vec![address_from_u64(0xaa)], address_from_u64(0xcc));
    let b = encode_post_upgrade_calldata(vec![address_from_u64(0xab)], address_from_u64(0xcc));
    let c = encode_post_upgrade_calldata(vec![address_from_u64(0xaa)], address_from_u64(0xcd));
    let d = encode_post_upgrade_calldata(vec![address_from_u64(0xaa), address_from_u64(0xaa)], address_from_u64(0xcc));
    assert_ne!(a, b);
    assert_ne!(a, c);
    assert_ne!(a, d);
    assert_eq!(a, encode_post_upgrade_calldata(vec![address_from_u64(0xaa)], address_from_u64(0xcc)));
}

#[test]
fn post_upgrade_calldata_decodes_back() {
    let old = vec![address_from_u64(0xaa), address_from_u64(0xab)];
    let data = encode_post_upgrade_calldata(old.clone(), address_from_u64(0xcc));
    assert_eq!(decode_post_upgrade_calldata(&data), Some((old, address_from_u64(0xcc))));
    let none = encode_post_upgrade_calldata(Vec::new(), address_from_u64(0xcd));
    assert_eq!(decode_post_upgrade_calldata(&none), Some((Vec::new(), address_from_u64(0xcd))));
    assert_eq!(decode_post_upgrade_calldata(&data[..data.len() - 1]), None);
    let mut dirty = data.clone();
    dirty[64] = 1;
    assert_eq!(decode_post_upgrade_calldata(&dirty), None);
    assert_eq!(decode_post_upgrade_calldata(&[]), None);
}
