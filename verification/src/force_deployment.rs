//! The force deployments of the L2 upgrade transaction, and the check of
//! them against the expected system contracts.

use vstd::prelude::*;
use crate::abi::abi_encode_uint_and_four_addresses;
use crate::alias::{alias_offset, aliased, apply_l2_to_l1_alias};
use crate::bytes::{
    address_from_u64, address_of, address_word, all_zero, be_value, bytes_eq, is_all_zero,
    lemma_be_bytes_len, lemma_be_value_of_bytes, pow256, word_of, Address, Word,
};
use crate::registry::{bytecode_check, lookup, Verifiers};
use crate::report::{
    error_count, lemma_error_count_append, lemma_error_count_single, EntryOf, EntryView, IssueOf,
    NoteOf, VerificationResult,
};

verus! {

/// One contract that the upgrade deploys at a fixed address.
#[derive(Debug, Clone, PartialEq, Eq)]
pub struct ForceDeployment {
    pub bytecode_hash: Word,
    pub new_address: Address,
    pub call_constructor: bool,
    pub value: Word,
    pub input: Vec<u8>,
}

/// A force deployment with its input taken as a sequence.
pub struct ForceDeploymentView {
    pub bytecode_hash: Word,
    pub new_address: Address,
    pub call_constructor: bool,
    pub value: Word,
    pub input: Seq<u8>,
}

impl View for ForceDeployment {
    type V = ForceDeploymentView;

    open spec fn view(&self) -> ForceDeploymentView {
        ForceDeploymentView {
            bytecode_hash: self.bytecode_hash,
            new_address: self.new_address,
            call_constructor: self.call_constructor,
            value: self.value,
            input: self.input@,
        }
    }
}

/// The arguments of `forceDeployAndUpgrade(ForceDeployment[], address, bytes)`.
#[derive(Debug, Clone, PartialEq, Eq)]
pub struct ForceDeployAndUpgrade {
    pub force_deployments: Vec<ForceDeployment>,
    pub delegate_to: Address,
    pub calldata: Vec<u8>,
}

/// The arguments of a `forceDeployAndUpgrade` call, taken by their views.
pub struct ForceDeployAndUpgradeView {
    pub force_deployments: Seq<ForceDeploymentView>,
    pub delegate_to: Address,
    pub calldata: Seq<u8>,
}

impl View for ForceDeployAndUpgrade {
    type V = ForceDeployAndUpgradeView;

    open spec fn view(&self) -> ForceDeployAndUpgradeView {
        ForceDeployAndUpgradeView {
            force_deployments: self.force_deployments@.map_values(|d: ForceDeployment| d@),
            delegate_to: self.delegate_to,
            calldata: self.calldata@,
        }
    }
}


/// The contracts the upgrade must force-deploy, in order: the file each is
/// built from, the value of its address, and whether its constructor runs.
pub open spec fn expected_force_deployment_table() -> Seq<(Seq<char>, nat, bool)> {
    seq![
        ("system-contracts/EmptyContract"@, 0x0nat, false),
        ("Ecrecover"@, 0x1nat, false),
        ("SHA256"@, 0x2nat, false),
        ("Identity"@, 0x4nat, false),
        ("EcAdd"@, 0x6nat, false),
        ("EcMul"@, 0x7nat, false),
        ("EcPairing"@, 0x8nat, false),
        ("Modexp"@, 0x5nat, false),
        ("system-contracts/EmptyContract"@, 0x8001nat, false),
        ("system-contracts/AccountCodeStorage"@, 0x8002nat, false),
        ("system-contracts/NonceHolder"@, 0x8003nat, false),
        ("system-contracts/KnownCodesStorage"@, 0x8004nat, false),
        ("system-contracts/ImmutableSimulator"@, 0x8005nat, false),
        ("system-contracts/ContractDeployer"@, 0x8006nat, false),
        ("system-contracts/L1Messenger"@, 0x8008nat, false),
        ("system-contracts/MsgValueSimulator"@, 0x8009nat, false),
        ("system-contracts/L2BaseToken"@, 0x800anat, false),
        ("system-contracts/SystemContext"@, 0x800bnat, false),
        ("system-contracts/BootloaderUtilities"@, 0x800cnat, false),
        ("EventWriter"@, 0x800dnat, false),
        ("system-contracts/Compressor"@, 0x800enat, false),
        ("system-contracts/ComplexUpgrader"@, 0x800fnat, false),
        ("Keccak256"@, 0x8010nat, false),
        ("CodeOracle"@, 0x8012nat, false),
        ("EvmGasManager"@, 0x8013nat, false),
        ("system-contracts/EvmPredeploysManager"@, 0x8014nat, false),
        ("system-contracts/EvmHashesStorage"@, 0x8015nat, false),
        ("P256Verify"@, 0x100nat, false),
        ("system-contracts/PubdataChunkPublisher"@, 0x8011nat, false),
        ("system-contracts/Create2Factory"@, 0x10000nat, false),
        ("system-contracts/SloadContract"@, 0x10006nat, false),
        ("system-contracts/L2InteropRootStorage"@, 0x10008nat, false),
        ("l1-contracts/Bridgehub"@, 0x10002nat, false),
        ("l1-contracts/L2AssetRouter"@, 0x10003nat, false),
        ("l1-contracts/L2NativeTokenVault"@, 0x10004nat, false),
        ("l1-contracts/MessageRoot"@, 0x10005nat, false),
        ("l1-contracts/L2WrappedBaseToken"@, 0x10007nat, false),
        ("l1-contracts/L2MessageVerification"@, 0x10009nat, false),
        ("l1-contracts/ChainAssetHandler"@, 0x1000anat, true),
        ("system-contracts/L2V29Upgrade"@, 0x10001nat, false),
    ]
}

/// The expected force deployments, in order: the file, the value of the
/// address and whether the constructor runs, entry by entry; no two share an
/// address, and only the chain asset handler runs its constructor.
pub proof fn lemma_expected_force_deployment_entries()
    ensures
        ({
            let t = expected_force_deployment_table();
            &&& t.len() == 40
            &&& forall|i: int, j: int| 0 <= i < j < 40 ==> #[trigger] t[i].1 != #[trigger] t[j].1
            &&& forall|i: int| 0 <= i < 40 ==> (#[trigger] t[i].2 <==> i == 38)
            &&& t[38].0 == CHAIN_ASSET_HANDLER@
        }),
        expected_force_deployment_table()[0] == ("system-contracts/EmptyContract"@, 0x0nat, false),
        expected_force_deployment_table()[1] == ("Ecrecover"@, 0x1nat, false),
        expected_force_deployment_table()[2] == ("SHA256"@, 0x2nat, false),
        expected_force_deployment_table()[3] == ("Identity"@, 0x4nat, false),
        expected_force_deployment_table()[4] == ("EcAdd"@, 0x6nat, false),
        expected_force_deployment_table()[5] == ("EcMul"@, 0x7nat, false),
        expected_force_deployment_table()[6] == ("EcPairing"@, 0x8nat, false),
        expected_force_deployment_table()[7] == ("Modexp"@, 0x5nat, false),
        expected_force_deployment_table()[8] == ("system-contracts/EmptyContract"@, 0x8001nat, false),
        expected_force_deployment_table()[9] == ("system-contracts/AccountCodeStorage"@, 0x8002nat, false),
        expected_force_deployment_table()[10] == ("system-contracts/NonceHolder"@, 0x8003nat, false),
        expected_force_deployment_table()[11] == ("system-contracts/KnownCodesStorage"@, 0x8004nat, false),
        expected_force_deployment_table()[12] == ("system-contracts/ImmutableSimulator"@, 0x8005nat, false),
        expected_force_deployment_table()[13] == ("system-contracts/ContractDeployer"@, 0x8006nat, false),
        expected_force_deployment_table()[14] == ("system-contracts/L1Messenger"@, 0x8008nat, false),
        expected_force_deployment_table()[15] == ("system-contracts/MsgValueSimulator"@, 0x8009nat, false),
        expected_force_deployment_table()[16] == ("system-contracts/L2BaseToken"@, 0x800anat, false),
        expected_force_deployment_table()[17] == ("system-contracts/SystemContext"@, 0x800bnat, false),
        expected_force_deployment_table()[18] == ("system-contracts/BootloaderUtilities"@, 0x800cnat, false),
        expected_force_deployment_table()[19] == ("EventWriter"@, 0x800dnat, false),
        expected_force_deployment_table()[20] == ("system-contracts/Compressor"@, 0x800enat, false),
        expected_force_deployment_table()[21] == ("system-contracts/ComplexUpgrader"@, 0x800fnat, false),
        expected_force_deployment_table()[22] == ("Keccak256"@, 0x8010nat, false),
        expected_force_deployment_table()[23] == ("CodeOracle"@, 0x8012nat, false),
        expected_force_deployment_table()[24] == ("EvmGasManager"@, 0x8013nat, false),
        expected_force_deployment_table()[25] == ("system-contracts/EvmPredeploysManager"@, 0x8014nat, false),
        expected_force_deployment_table()[26] == ("system-contracts/EvmHashesStorage"@, 0x8015nat, false),
        expected_force_deployment_table()[27] == ("P256Verify"@, 0x100nat, false),
        expected_force_deployment_table()[28] == ("system-contracts/PubdataChunkPublisher"@, 0x8011nat, false),
        expected_force_deployment_table()[29] == ("system-contracts/Create2Factory"@, 0x10000nat, false),
        expected_force_deployment_table()[30] == ("system-contracts/SloadContract"@, 0x10006nat, false),
        expected_force_deployment_table()[31] == ("system-contracts/L2InteropRootStorage"@, 0x10008nat, false),
        expected_force_deployment_table()[32] == ("l1-contracts/Bridgehub"@, 0x10002nat, false),
        expected_force_deployment_table()[33] == ("l1-contracts/L2AssetRouter"@, 0x10003nat, false),
        expected_force_deployment_table()[34] == ("l1-contracts/L2NativeTokenVault"@, 0x10004nat, false),
        expected_force_deployment_table()[35] == ("l1-contracts/MessageRoot"@, 0x10005nat, false),
        expected_force_deployment_table()[36] == ("l1-contracts/L2WrappedBaseToken"@, 0x10007nat, false),
        expected_force_deployment_table()[37] == ("l1-contracts/L2MessageVerification"@, 0x10009nat, false),
        expected_force_deployment_table()[38] == ("l1-contracts/ChainAssetHandler"@, 0x1000anat, true),
        expected_force_deployment_table()[39] == ("system-contracts/L2V29Upgrade"@, 0x10001nat, false),
{
    let t = expected_force_deployment_table();
    assert forall|i: int| 0 <= i < 40 implies (#[trigger] t[i].2 <==> i == 38) by {
        assert(i == 0 || i == 1 || i == 2 || i == 3 || i == 4 || i == 5 || i == 6 || i == 7 || i == 8 || i == 9
            || i == 10 || i == 11 || i == 12 || i == 13 || i == 14 || i == 15 || i == 16 || i == 17 || i == 18 || i == 19
            || i == 20 || i == 21 || i == 22 || i == 23 || i == 24 || i == 25 || i == 26 || i == 27 || i == 28 || i == 29
            || i == 30 || i == 31 || i == 32 || i == 33 || i == 34 || i == 35 || i == 36 || i == 37 || i == 38 || i == 39);
    }
    assert forall|i: int, j: int| 0 <= i < j < 40 implies #[trigger] t[i].1 != #[trigger] t[j].1 by {
        assert(i == 0 || i == 1 || i == 2 || i == 3 || i == 4 || i == 5 || i == 6 || i == 7 || i == 8 || i == 9
            || i == 10 || i == 11 || i == 12 || i == 13 || i == 14 || i == 15 || i == 16 || i == 17 || i == 18 || i == 19
            || i == 20 || i == 21 || i == 22 || i == 23 || i == 24 || i == 25 || i == 26 || i == 27 || i == 28 || i == 29
            || i == 30 || i == 31 || i == 32 || i == 33 || i == 34 || i == 35 || i == 36 || i == 37 || i == 38 || i == 39);
        assert(j == 0 || j == 1 || j == 2 || j == 3 || j == 4 || j == 5 || j == 6 || j == 7 || j == 8 || j == 9
            || j == 10 || j == 11 || j == 12 || j == 13 || j == 14 || j == 15 || j == 16 || j == 17 || j == 18 || j == 19
            || j == 20 || j == 21 || j == 22 || j == 23 || j == 24 || j == 25 || j == 26 || j == 27 || j == 28 || j == 29
            || j == 30 || j == 31 || j == 32 || j == 33 || j == 34 || j == 35 || j == 36 || j == 37 || j == 38 || j == 39);
    }
}

/// An expected deployment taken by its views.
pub open spec fn expected_view(e: (String, Address, bool)) -> (Seq<char>, Address, bool) {
    (e.0@, e.1, e.2)
}

/// The contracts the upgrade must force-deploy, in order: the file each is
/// built from, its address, and whether its constructor runs.
#[verifier::rlimit(50)]
pub fn expected_force_deployments() -> (v: Vec<(String, Address, bool)>)
    ensures
        v@.len() == 40,
        v@[0].0@ == "system-contracts/EmptyContract"@ && v@[0].1@ == address_of(0x0) && !v@[0].2,
        v@[1].0@ == "Ecrecover"@ && v@[1].1@ == address_of(0x1) && !v@[1].2,
        v@[2].0@ == "SHA256"@ && v@[2].1@ == address_of(0x2) && !v@[2].2,
        v@[3].0@ == "Identity"@ && v@[3].1@ == address_of(0x4) && !v@[3].2,
        v@[4].0@ == "EcAdd"@ && v@[4].1@ == address_of(0x6) && !v@[4].2,
        v@[5].0@ == "EcMul"@ && v@[5].1@ == address_of(0x7) && !v@[5].2,
        v@[6].0@ == "EcPairing"@ && v@[6].1@ == address_of(0x8) && !v@[6].2,
        v@[7].0@ == "Modexp"@ && v@[7].1@ == address_of(0x5) && !v@[7].2,
        v@[8].0@ == "system-contracts/EmptyContract"@ && v@[8].1@ == address_of(0x8001) && !v@[8].2,
        v@[9].0@ == "system-contracts/AccountCodeStorage"@ && v@[9].1@ == address_of(0x8002) && !v@[9].2,
        v@[10].0@ == "system-contracts/NonceHolder"@ && v@[10].1@ == address_of(0x8003) && !v@[10].2,
        v@[11].0@ == "system-contracts/KnownCodesStorage"@ && v@[11].1@ == address_of(0x8004) && !v@[11].2,
        v@[12].0@ == "system-contracts/ImmutableSimulator"@ && v@[12].1@ == address_of(0x8005) && !v@[12].2,
        v@[13].0@ == "system-contracts/ContractDeployer"@ && v@[13].1@ == address_of(0x8006) && !v@[13].2,
        v@[14].0@ == "system-contracts/L1Messenger"@ && v@[14].1@ == address_of(0x8008) && !v@[14].2,
        v@[15].0@ == "system-contracts/MsgValueSimulator"@ && v@[15].1@ == address_of(0x8009) && !v@[15].2,
        v@[16].0@ == "system-contracts/L2BaseToken"@ && v@[16].1@ == address_of(0x800a) && !v@[16].2,
        v@[17].0@ == "system-contracts/SystemContext"@ && v@[17].1@ == address_of(0x800b) && !v@[17].2,
        v@[18].0@ == "system-contracts/BootloaderUtilities"@ && v@[18].1@ == address_of(0x800c) && !v@[18].2,
        v@[19].0@ == "EventWriter"@ && v@[19].1@ == address_of(0x800d) && !v@[19].2,
        v@[20].0@ == "system-contracts/Compressor"@ && v@[20].1@ == address_of(0x800e) && !v@[20].2,
        v@[21].0@ == "system-contracts/ComplexUpgrader"@ && v@[21].1@ == address_of(0x800f) && !v@[21].2,
        v@[22].0@ == "Keccak256"@ && v@[22].1@ == address_of(0x8010) && !v@[22].2,
        v@[23].0@ == "CodeOracle"@ && v@[23].1@ == address_of(0x8012) && !v@[23].2,
        v@[24].0@ == "EvmGasManager"@ && v@[24].1@ == address_of(0x8013) && !v@[24].2,
        v@[25].0@ == "system-contracts/EvmPredeploysManager"@ && v@[25].1@ == address_of(0x8014) && !v@[25].2,
        v@[26].0@ == "system-contracts/EvmHashesStorage"@ && v@[26].1@ == address_of(0x8015) && !v@[26].2,
        v@[27].0@ == "P256Verify"@ && v@[27].1@ == address_of(0x100) && !v@[27].2,
        v@[28].0@ == "system-contracts/PubdataChunkPublisher"@ && v@[28].1@ == address_of(0x8011) && !v@[28].2,
        v@[29].0@ == "system-contracts/Create2Factory"@ && v@[29].1@ == address_of(0x10000) && !v@[29].2,
        v@[30].0@ == "system-contracts/SloadContract"@ && v@[30].1@ == address_of(0x10006) && !v@[30].2,
        v@[31].0@ == "system-contracts/L2InteropRootStorage"@ && v@[31].1@ == address_of(0x10008) && !v@[31].2,
        v@[32].0@ == "l1-contracts/Bridgehub"@ && v@[32].1@ == address_of(0x10002) && !v@[32].2,
        v@[33].0@ == "l1-contracts/L2AssetRouter"@ && v@[33].1@ == address_of(0x10003) && !v@[33].2,
        v@[34].0@ == "l1-contracts/L2NativeTokenVault"@ && v@[34].1@ == address_of(0x10004) && !v@[34].2,
        v@[35].0@ == "l1-contracts/MessageRoot"@ && v@[35].1@ == address_of(0x10005) && !v@[35].2,
        v@[36].0@ == "l1-contracts/L2WrappedBaseToken"@ && v@[36].1@ == address_of(0x10007) && !v@[36].2,
        v@[37].0@ == "l1-contracts/L2MessageVerification"@ && v@[37].1@ == address_of(0x10009) && !v@[37].2,
        v@[38].0@ == "l1-contracts/ChainAssetHandler"@ && v@[38].1@ == address_of(0x1000a) && v@[38].2,
        v@[39].0@ == "system-contracts/L2V29Upgrade"@ && v@[39].1@ == address_of(0x10001) && !v@[39].2,
        v@.len() == expected_force_deployment_table().len(),
        forall|i: int|
            0 <= i < v@.len() ==> {
                let t = #[trigger] expected_force_deployment_table()[i];
                &&& v@[i].0@ == t.0
                &&& v@[i].1@ == address_of(t.1)
                &&& v@[i].2 == t.2
            },
{
    let mut v: Vec<(String, Address, bool)> = Vec::new();
    v.push((String::from_str("system-contracts/EmptyContract"), address_from_u64(0x0), false));
    v.push((String::from_str("Ecrecover"), address_from_u64(0x1), false));
    v.push((String::from_str("SHA256"), address_from_u64(0x2), false));
    v.push((String::from_str("Identity"), address_from_u64(0x4), false));
    v.push((String::from_str("EcAdd"), address_from_u64(0x6), false));
    v.push((String::from_str("EcMul"), address_from_u64(0x7), false));
    v.push((String::from_str("EcPairing"), address_from_u64(0x8), false));
    v.push((String::from_str("Modexp"), address_from_u64(0x5), false));
    v.push((String::from_str("system-contracts/EmptyContract"), address_from_u64(0x8001), false));
    v.push((String::from_str("system-contracts/AccountCodeStorage"), address_from_u64(0x8002), false));
    v.push((String::from_str("system-contracts/NonceHolder"), address_from_u64(0x8003), false));
    v.push((String::from_str("system-contracts/KnownCodesStorage"), address_from_u64(0x8004), false));
    v.push((String::from_str("system-contracts/ImmutableSimulator"), address_from_u64(0x8005), false));
    v.push((String::from_str("system-contracts/ContractDeployer"), address_from_u64(0x8006), false));
    v.push((String::from_str("system-contracts/L1Messenger"), address_from_u64(0x8008), false));
    v.push((String::from_str("system-contracts/MsgValueSimulator"), address_from_u64(0x8009), false));
    v.push((String::from_str("system-contracts/L2BaseToken"), address_from_u64(0x800a), false));
    v.push((String::from_str("system-contracts/SystemContext"), address_from_u64(0x800b), false));
    v.push((String::from_str("system-contracts/BootloaderUtilities"), address_from_u64(0x800c), false));
    v.push((String::from_str("EventWriter"), address_from_u64(0x800d), false));
    v.push((String::from_str("system-contracts/Compressor"), address_from_u64(0x800e), false));
    v.push((String::from_str("system-contracts/ComplexUpgrader"), address_from_u64(0x800f), false));
    v.push((String::from_str("Keccak256"), address_from_u64(0x8010), false));
    v.push((String::from_str("CodeOracle"), address_from_u64(0x8012), false));
    v.push((String::from_str("EvmGasManager"), address_from_u64(0x8013), false));
    v.push((String::from_str("system-contracts/EvmPredeploysManager"), address_from_u64(0x8014), false));
    v.push((String::from_str("system-contracts/EvmHashesStorage"), address_from_u64(0x8015), false));
    v.push((String::from_str("P256Verify"), address_from_u64(0x100), false));
    v.push((String::from_str("system-contracts/PubdataChunkPublisher"), address_from_u64(0x8011), false));
    v.push((String::from_str("system-contracts/Create2Factory"), address_from_u64(0x10000), false));
    v.push((String::from_str("system-contracts/SloadContract"), address_from_u64(0x10006), false));
    v.push((String::from_str("system-contracts/L2InteropRootStorage"), address_from_u64(0x10008), false));
    v.push((String::from_str("l1-contracts/Bridgehub"), address_from_u64(0x10002), false));
    v.push((String::from_str("l1-contracts/L2AssetRouter"), address_from_u64(0x10003), false));
    v.push((String::from_str("l1-contracts/L2NativeTokenVault"), address_from_u64(0x10004), false));
    v.push((String::from_str("l1-contracts/MessageRoot"), address_from_u64(0x10005), false));
    v.push((String::from_str("l1-contracts/L2WrappedBaseToken"), address_from_u64(0x10007), false));
    v.push((String::from_str("l1-contracts/L2MessageVerification"), address_from_u64(0x10009), false));
    v.push((String::from_str("l1-contracts/ChainAssetHandler"), address_from_u64(0x1000a), true));
    v.push((String::from_str("system-contracts/L2V29Upgrade"), address_from_u64(0x10001), false));
    assert(v@.map_values(|e: (String, Address, bool)| (e.0@, e.1@, e.2)) =~= expected_force_deployment_table().map_values(
        |t: (Seq<char>, nat, bool)| (t.0, address_of(t.1), t.2),
    ));
    assert forall|i: int|
        0 <= i < v@.len() implies {
            let t = #[trigger] expected_force_deployment_table()[i];
            &&& v@[i].0@ == t.0
            &&& v@[i].1@ == address_of(t.1)
            &&& v@[i].2 == t.2
        } by {
        assert(v@.map_values(|e: (String, Address, bool)| (e.0@, e.1@, e.2))[i] == (v@[i].0@, v@[i].1@, v@[i].2));
    }
    v
}


/// Where the genesis upgrade contract lives on L2; the complex upgrader
/// delegates to it.
pub const L2_GENESIS_UPGRADE_ADDR: u64 = 0x10001;

/// The only force-deployed contract that takes constructor input.
pub const CHAIN_ASSET_HANDLER: &'static str = "l1-contracts/ChainAssetHandler";

/// The arguments of `IL2V29Upgrade.upgrade(address, bytes32)`.
#[derive(Debug, Clone, Copy, PartialEq, Eq)]
pub struct UpgradeCall {
    pub aliased_governance: Address,
    pub bridged_eth_asset_id: Word,
}

/// The constructor input of the chain asset handler: the ABI encoding of
/// `(uint256 chainId, address owner, address bridgehub, address assetRouter,
/// address messageRoot)` with the L1 chain id, the aliased owner and the
/// L2 bridgehub, asset router and message root.
pub open spec fn chain_asset_handler_input(l1_chain_id: u64, owner: Address) -> Seq<u8> {
    word_of(l1_chain_id as nat) + address_word(aliased(owner@)) + address_word(address_of(0x10002))
        + address_word(address_of(0x10003)) + address_word(address_of(0x10005))
}

/// The constructor input the chain asset handler must get.
pub fn encode_chain_asset_handler_input(l1_chain_id: u64, owner_address: Address) -> (r: Vec<u8>)
    ensures
        r@ == chain_asset_handler_input(l1_chain_id, owner_address),
        r@.len() == 160,
        r@.take(32) == word_of(l1_chain_id as nat),
        be_value(r@.take(32)) == l1_chain_id as nat,
        r@.subrange(44, 64) == aliased(owner_address@),
{
    proof {
        lemma_chain_asset_handler_input_words(l1_chain_id, owner_address);
    }
    abi_encode_uint_and_four_addresses(
        l1_chain_id,
        &apply_l2_to_l1_alias(owner_address),
        &address_from_u64(0x10002),
        &address_from_u64(0x10003),
        &address_from_u64(0x10005),
    )
}

/// The constructor input of the chain asset handler is five ABI words. The
/// first reads back as the L1 chain id; the other four hold, each behind
/// twelve zero bytes, the aliased owner and the addresses whose values are
/// 0x10002 (bridgehub), 0x10003 (asset router) and 0x10005 (message root).
pub proof fn lemma_chain_asset_handler_input_words(l1_chain_id: u64, owner: Address)
    ensures
        ({
            let s = chain_asset_handler_input(l1_chain_id, owner);
            &&& s.len() == 160
            &&& s.take(32) == word_of(l1_chain_id as nat)
            &&& be_value(s.take(32)) == l1_chain_id as nat
            &&& all_zero(s.subrange(32, 44))
            &&& s.subrange(44, 64) == aliased(owner@)
            &&& all_zero(s.subrange(64, 76))
            &&& be_value(s.subrange(76, 96)) == 0x10002
            &&& all_zero(s.subrange(96, 108))
            &&& be_value(s.subrange(108, 128)) == 0x10003
            &&& all_zero(s.subrange(128, 140))
            &&& be_value(s.subrange(140, 160)) == 0x10005
        }),
{
    let s = chain_asset_handler_input(l1_chain_id, owner);
    let w = word_of(l1_chain_id as nat);
    let o = address_word(aliased(owner@));
    let b = address_word(address_of(0x10002));
    let r = address_word(address_of(0x10003));
    let m = address_word(address_of(0x10005));
    lemma_be_bytes_len(l1_chain_id as nat, 32);
    lemma_be_bytes_len((be_value(owner@) + alias_offset()) % pow256(20), 20);
    lemma_be_bytes_len(0x10002, 20);
    lemma_be_bytes_len(0x10003, 20);
    lemma_be_bytes_len(0x10005, 20);
    assert(s == w + o + b + r + m);
    assert(s.take(32) =~= w);
    assert(s.subrange(32, 44) =~= o.take(12));
    assert(s.subrange(44, 64) =~= aliased(owner@));
    assert(s.subrange(64, 76) =~= b.take(12));
    assert(s.subrange(76, 96) =~= address_of(0x10002));
    assert(s.subrange(96, 108) =~= r.take(12));
    assert(s.subrange(108, 128) =~= address_of(0x10003));
    assert(s.subrange(128, 140) =~= m.take(12));
    assert(s.subrange(140, 160) =~= address_of(0x10005));
    reveal_with_fuel(pow256, 33);
    lemma_be_value_of_bytes(l1_chain_id as nat, 32);
    lemma_be_value_of_bytes(0x10002, 20);
    lemma_be_value_of_bytes(0x10003, 20);
    lemma_be_value_of_bytes(0x10005, 20);
    vstd::arithmetic::div_mod::lemma_small_mod(l1_chain_id as nat, pow256(32));
    vstd::arithmetic::div_mod::lemma_small_mod(0x10002, pow256(20));
    vstd::arithmetic::div_mod::lemma_small_mod(0x10003, pow256(20));
    vstd::arithmetic::div_mod::lemma_small_mod(0x10005, pow256(20));
}

/// Inputs for different L1 chains differ, whoever the owners are.
pub proof fn lemma_chain_asset_handler_input_tells_chains_apart(
    chain1: u64,
    owner1: Address,
    chain2: u64,
    owner2: Address,
)
    requires
        chain1 != chain2,
    ensures
        chain_asset_handler_input(chain1, owner1) != chain_asset_handler_input(chain2, owner2),
{
    lemma_chain_asset_handler_input_words(chain1, owner1);
    lemma_chain_asset_handler_input_words(chain2, owner2);
}

/// What checking one force deployment against its expected contract
/// (file `name`, address `addr`, constructor flag `ctor`) records.
pub open spec fn deployment_report(
    d: ForceDeploymentView,
    name: Seq<char>,
    addr: Address,
    ctor: bool,
    registry: Seq<(Seq<u8>, Seq<char>)>,
    cah_input: Seq<u8>,
) -> Seq<EntryView> {
    if d.new_address@ != addr@ {
        seq![EntryOf::Error(IssueOf::ForceDeploymentAddress { contract: name, expected: addr, got: d.new_address })]
    } else {
        seq![bytecode_check(registry, d.bytecode_hash, name)]
        + (if d.call_constructor != ctor {
            seq![EntryOf::Error(IssueOf::ForceDeploymentConstructor { contract: name, expected: ctor, got: d.call_constructor })]
        } else {
            Seq::empty()
        })
        + (if !all_zero(d.value@) {
            seq![EntryOf::Error(IssueOf::ForceDeploymentValue { contract: name })]
        } else {
            Seq::empty()
        })
        + (if d.input.len() != 0 {
            if name != CHAIN_ASSET_HANDLER@ {
                seq![EntryOf::Error(IssueOf::ForceDeploymentInput { contract: name })]
            } else if d.input != cah_input {
                seq![EntryOf::Error(IssueOf::ChainAssetHandlerInput { expected: cah_input, got: d.input })]
            } else {
                Seq::empty()
            }
        } else {
            Seq::empty()
        })
    }
}

/// What checking the first `n` force deployments against the first `n`
/// expected ones records.
pub open spec fn deployments_report(
    ds: Seq<ForceDeploymentView>,
    expected: Seq<(Seq<char>, Address, bool)>,
    registry: Seq<(Seq<u8>, Seq<char>)>,
    cah_input: Seq<u8>,
    n: nat,
) -> Seq<EntryView>
    decreases n,
{
    if n == 0 {
        Seq::empty()
    } else {
        deployments_report(ds, expected, registry, cah_input, (n - 1) as nat) + deployment_report(
            ds[n - 1],
            expected[n - 1].0,
            expected[n - 1].1,
            expected[n - 1].2,
            registry,
            cah_input,
        )
    }
}

/// The errors for the force deployments from index `from` up to `n`, which
/// have no expected counterpart.
pub open spec fn extra_deployments_report(ds: Seq<ForceDeploymentView>, from: nat, n: nat) -> Seq<EntryView>
    decreases n,
{
    if n <= from {
        Seq::empty()
    } else {
        extra_deployments_report(ds, from, (n - 1) as nat) + seq![
            EntryOf::Error(IssueOf::ExtraForceDeployment {
                address: ds[n - 1].new_address,
                bytecode_hash: ds[n - 1].bytecode_hash,
            }),
        ]
    }
}

/// The smaller of two lengths.
pub open spec fn min_len(a: nat, b: nat) -> nat {
    if a <= b { a } else { b }
}

/// Everything that checking a `forceDeployAndUpgrade` call and its delegated
/// upgrade call records.
pub open spec fn force_deployments_and_upgrade_report(
    call: ForceDeployAndUpgradeView,
    upgrade: UpgradeCall,
    expected: Seq<(Seq<char>, Address, bool)>,
    registry: Seq<(Seq<u8>, Seq<char>)>,
    expected_governance: Address,
    expected_asset_id: Word,
    l1_chain_id: u64,
    owner_address: Address,
) -> Seq<EntryView> {
    let ds = call.force_deployments;
    let cah = chain_asset_handler_input(l1_chain_id, owner_address);
    (if ds.len() != expected.len() {
        seq![EntryOf::Error(IssueOf::ForceDeploymentCount { expected: expected.len() as usize, got: ds.len() as usize })]
    } else {
        Seq::empty()
    })
    + deployments_report(ds, expected, registry, cah, min_len(ds.len(), expected.len()))
    + extra_deployments_report(ds, expected.len(), ds.len())
    + seq![EntryOf::Passed(NoteOf::ForceDeploymentsVerified)]
    + (if call.delegate_to@ != address_of(L2_GENESIS_UPGRADE_ADDR as nat) {
        seq![EntryOf::Error(IssueOf::DelegateTo { got: call.delegate_to })]
    } else {
        Seq::empty()
    })
    + (if upgrade.aliased_governance@ != expected_governance@ {
        seq![EntryOf::Error(IssueOf::AliasedGovernance { expected: expected_governance, got: upgrade.aliased_governance })]
    } else {
        Seq::empty()
    })
    + (if upgrade.bridged_eth_asset_id@ != expected_asset_id@ {
        seq![EntryOf::Error(IssueOf::BridgedEthAssetId { expected: expected_asset_id, got: upgrade.bridged_eth_asset_id })]
    } else {
        Seq::empty()
    })
}

/// Checks one force deployment against its expected contract.
fn verify_force_deployment(
    d: &ForceDeployment,
    expected: &(String, Address, bool),
    verifiers: &Verifiers,
    result: &mut VerificationResult,
    l1_chain_id: u64,
    owner_address: Address,
)
    ensures
        final(result)@ == old(result)@ + deployment_report(
            d@,
            expected.0@,
            expected.1,
            expected.2,
            verifiers.bytecode_verifier@,
            chain_asset_handler_input(l1_chain_id, owner_address),
        ),
{
    let ghost start = result@;
    let ghost cah = chain_asset_handler_input(l1_chain_id, owner_address);
    let contract = &expected.0;
    if !bytes_eq(d.new_address.as_slice(), expected.1.as_slice()) {
        result.report_error(
            IssueOf::ForceDeploymentAddress { contract: contract.clone(), expected: expected.1, got: d.new_address },
        );
        return;
    }
    result.expect_zk_bytecode(&verifiers.bytecode_verifier, &d.bytecode_hash, contract.as_str());
    let ghost after_bytecode = result@;
    if d.call_constructor != expected.2 {
        result.report_error(
            IssueOf::ForceDeploymentConstructor {
                contract: contract.clone(),
                expected: expected.2,
                got: d.call_constructor,
            },
        );
    }
    let ghost after_ctor = result@;
    if !is_all_zero(d.value.as_slice()) {
        result.report_error(IssueOf::ForceDeploymentValue { contract: contract.clone() });
    }
    let ghost after_value = result@;
    if d.input.len() != 0 {
        let cah_name = String::from_str(CHAIN_ASSET_HANDLER);
        if *contract != cah_name {
            result.report_error(IssueOf::ForceDeploymentInput { contract: contract.clone() });
        } else {
            let encoded = encode_chain_asset_handler_input(l1_chain_id, owner_address);
            if !bytes_eq(d.input.as_slice(), encoded.as_slice()) {
                result.report_error(
                    IssueOf::ChainAssetHandlerInput { expected: encoded, got: d.input.clone() },
                );
            }
        }
    }
    assert(result@ =~= start + deployment_report(
        d@,
        expected.0@,
        expected.1,
        expected.2,
        verifiers.bytecode_verifier@,
        cah,
    ));
}


/// Checks the force deployments of a `forceDeployAndUpgrade` call against
/// the expected contracts, and the arguments of the upgrade it delegates to.
#[verifier::rlimit(60)]
pub fn verify_force_deployments_and_upgrade(
    complex_upgrade_call: &ForceDeployAndUpgrade,
    upgrade_calldata: UpgradeCall,
    expected_deployments: &[(String, Address, bool)],
    verifiers: &Verifiers,
    result: &mut VerificationResult,
    expected_governance: Address,
    expected_asset_id: Word,
    l1_chain_id: u64,
    owner_address: Address,
)
    ensures
        final(result)@ == old(result)@ + force_deployments_and_upgrade_report(
            complex_upgrade_call@,
            upgrade_calldata,
            expected_deployments@.map_values(|e: (String, Address, bool)| expected_view(e)),
            verifiers.bytecode_verifier@,
            expected_governance,
            expected_asset_id,
            l1_chain_id,
            owner_address,
        ),
{
    let ghost start = result@;
    let ghost call = complex_upgrade_call@;
    let ghost ds = call.force_deployments;
    let ghost expected = expected_deployments@.map_values(|e: (String, Address, bool)| expected_view(e));
    let ghost registry = verifiers.bytecode_verifier@;
    let ghost cah = chain_asset_handler_input(l1_chain_id, owner_address);
    let deployments = &complex_upgrade_call.force_deployments;
    let got = deployments.len();
    let want = expected_deployments.len();
    if got != want {
        result.report_error(IssueOf::ForceDeploymentCount { expected: want, got });
    }
    let ghost after_count = result@;
    let n = if got <= want { got } else { want };
    let mut i: usize = 0;
    while i < n
        invariant
            i <= n,
            n == min_len(ds.len(), expected.len()),
            ds == deployments@.map_values(|d: ForceDeployment| d@),
            expected == expected_deployments@.map_values(|e: (String, Address, bool)| expected_view(e)),
            ds.len() == deployments@.len(),
            expected.len() == expected_deployments@.len(),
            registry == verifiers.bytecode_verifier@,
            cah == chain_asset_handler_input(l1_chain_id, owner_address),
            result@ == after_count + deployments_report(ds, expected, registry, cah, i as nat),
        decreases n - i,
    {
        verify_force_deployment(
            &deployments[i],
            &expected_deployments[i],
            verifiers,
            result,
            l1_chain_id,
            owner_address,
        );
        assert(ds[i as int] == deployments@[i as int]@);
        assert(expected[i as int] == expected_view(expected_deployments@[i as int]));
        assert(result@ =~= after_count + deployments_report(ds, expected, registry, cah, (i + 1) as nat));
        i = i + 1;
    }
    let ghost after_pairs = result@;
    let mut j: usize = want;
    assert(extra_deployments_report(ds, want as nat, want as nat) =~= Seq::<EntryView>::empty());
    while j < got
        invariant
            want <= j,
            j <= got || j == want,
            got == ds.len(),
            ds == deployments@.map_values(|d: ForceDeployment| d@),
            result@ == after_pairs + extra_deployments_report(ds, want as nat, j as nat),
        decreases got - j,
    {
        let extra = &deployments[j];
        result.report_error(
            IssueOf::ExtraForceDeployment { address: extra.new_address, bytecode_hash: extra.bytecode_hash },
        );
        assert(ds[j as int] == deployments@[j as int]@);
        assert(result@ =~= after_pairs + extra_deployments_report(ds, want as nat, (j + 1) as nat));
        j = j + 1;
    }
    proof {
        if got < want {
            assert(extra_deployments_report(ds, want as nat, got as nat) =~= Seq::<EntryView>::empty());
        } else {
            assert(j == got);
        }
    }
    let ghost after_extras = result@;
    assert(after_extras == start + (if ds.len() != expected.len() {
        seq![EntryOf::Error(IssueOf::ForceDeploymentCount { expected: expected.len() as usize, got: ds.len() as usize })]
    } else {
        Seq::empty()
    }) + deployments_report(ds, expected, registry, cah, min_len(ds.len(), expected.len()))
        + extra_deployments_report(ds, expected.len(), ds.len()));
    result.report_ok(NoteOf::ForceDeploymentsVerified);
    let genesis_upgrade = address_from_u64(L2_GENESIS_UPGRADE_ADDR);
    if !bytes_eq(complex_upgrade_call.delegate_to.as_slice(), genesis_upgrade.as_slice()) {
        result.report_error(IssueOf::DelegateTo { got: complex_upgrade_call.delegate_to });
    }
    if !bytes_eq(upgrade_calldata.aliased_governance.as_slice(), expected_governance.as_slice()) {
        result.report_error(
            IssueOf::AliasedGovernance { expected: expected_governance, got: upgrade_calldata.aliased_governance },
        );
    }
    if !bytes_eq(upgrade_calldata.bridged_eth_asset_id.as_slice(), expected_asset_id.as_slice()) {
        result.report_error(
            IssueOf::BridgedEthAssetId { expected: expected_asset_id, got: upgrade_calldata.bridged_eth_asset_id },
        );
    }
    assert(result@ =~= start + force_deployments_and_upgrade_report(
        call,
        upgrade_calldata,
        expected,
        registry,
        expected_governance,
        expected_asset_id,
        l1_chain_id,
        owner_address,
    ));
}


/// A force deployment is what the expected contract `name` at `addr` needs:
/// right address, bytecode of that file, constructor flag as expected, no
/// value, and no input unless it is the chain asset handler's exact input.
pub open spec fn deployment_ok(
    d: ForceDeploymentView,
    name: Seq<char>,
    addr: Address,
    ctor: bool,
    registry: Seq<(Seq<u8>, Seq<char>)>,
    cah_input: Seq<u8>,
) -> bool {
    &&& d.new_address@ == addr@
    &&& lookup(registry, d.bytecode_hash@) == Some(name)
    &&& d.call_constructor == ctor
    &&& all_zero(d.value@)
    &&& (d.input.len() == 0 || (name == CHAIN_ASSET_HANDLER@ && d.input == cah_input))
}

proof fn lemma_deployment_report_errors(
    d: ForceDeploymentView,
    name: Seq<char>,
    addr: Address,
    ctor: bool,
    registry: Seq<(Seq<u8>, Seq<char>)>,
    cah_input: Seq<u8>,
)
    ensures
        (error_count(deployment_report(d, name, addr, ctor, registry, cah_input)) == 0)
            <==> deployment_ok(d, name, addr, ctor, registry, cah_input),
{
    let r = deployment_report(d, name, addr, ctor, registry, cah_input);
    if d.new_address@ != addr@ {
        lemma_error_count_single(r[0]);
        assert(r =~= seq![r[0]]);
    } else {
        let b = bytecode_check(registry, d.bytecode_hash, name);
        let c = if d.call_constructor != ctor {
            seq![EntryOf::Error(IssueOf::ForceDeploymentConstructor { contract: name, expected: ctor, got: d.call_constructor })]
        } else {
            Seq::<EntryView>::empty()
        };
        let v = if !all_zero(d.value@) {
            seq![EntryOf::Error(IssueOf::ForceDeploymentValue { contract: name })]
        } else {
            Seq::<EntryView>::empty()
        };
        let i = if d.input.len() != 0 {
            if name != CHAIN_ASSET_HANDLER@ {
                seq![EntryOf::Error(IssueOf::ForceDeploymentInput { contract: name })]
            } else if d.input != cah_input {
                seq![EntryOf::Error(IssueOf::ChainAssetHandlerInput { expected: cah_input, got: d.input })]
            } else {
                Seq::<EntryView>::empty()
            }
        } else {
            Seq::<EntryView>::empty()
        };
        assert(r == seq![b] + c + v + i);
        lemma_error_count_append(seq![b] + c + v, i);
        lemma_error_count_append(seq![b] + c, v);
        lemma_error_count_append(seq![b], c);
        lemma_error_count_single(b);
        assert(error_count(Seq::<EntryView>::empty()) == 0);
        if c.len() > 0 {
            lemma_error_count_single(c[0]);
            assert(c =~= seq![c[0]]);
        }
        if v.len() > 0 {
            lemma_error_count_single(v[0]);
            assert(v =~= seq![v[0]]);
        }
        if i.len() > 0 {
            lemma_error_count_single(i[0]);
            assert(i =~= seq![i[0]]);
        }
    }
}

proof fn lemma_deployments_report_errors(
    ds: Seq<ForceDeploymentView>,
    expected: Seq<(Seq<char>, Address, bool)>,
    registry: Seq<(Seq<u8>, Seq<char>)>,
    cah_input: Seq<u8>,
    n: nat,
)
    ensures
        (error_count(deployments_report(ds, expected, registry, cah_input, n)) == 0) <==> (forall|i: int|
            0 <= i < n ==> #[trigger] deployment_ok(
                ds[i],
                expected[i].0,
                expected[i].1,
                expected[i].2,
                registry,
                cah_input,
            )),
    decreases n,
{
    if n == 0 {
        assert(error_count(Seq::<EntryView>::empty()) == 0);
    } else {
        let k = (n - 1) as int;
        lemma_deployments_report_errors(ds, expected, registry, cah_input, (n - 1) as nat);
        lemma_deployment_report_errors(ds[k], expected[k].0, expected[k].1, expected[k].2, registry, cah_input);
        lemma_error_count_append(
            deployments_report(ds, expected, registry, cah_input, (n - 1) as nat),
            deployment_report(ds[k], expected[k].0, expected[k].1, expected[k].2, registry, cah_input),
        );
    }
}

proof fn lemma_extra_deployments_errors(ds: Seq<ForceDeploymentView>, from: nat, n: nat)
    ensures
        error_count(extra_deployments_report(ds, from, n)) == if n > from {
            (n - from) as nat
        } else {
            0nat
        },
    decreases n,
{
    if n <= from {
        assert(error_count(Seq::<EntryView>::empty()) == 0);
    } else {
        lemma_extra_deployments_errors(ds, from, (n - 1) as nat);
        let e = EntryOf::Error(IssueOf::ExtraForceDeployment {
            address: ds[n - 1].new_address,
            bytecode_hash: ds[n - 1].bytecode_hash,
        });
        lemma_error_count_append(extra_deployments_report(ds, from, (n - 1) as nat), seq![e]);
        lemma_error_count_single(e);
    }
}

/// The check of a `forceDeployAndUpgrade` call records no error exactly
/// when the call force-deploys the expected contracts, one for one and in
/// order, each as `deployment_ok` says, delegates to the genesis upgrade
/// contract, and passes the expected governance and ETH asset id.
pub proof fn lemma_force_deployments_pass_iff(
    call: ForceDeployAndUpgradeView,
    upgrade: UpgradeCall,
    expected: Seq<(Seq<char>, Address, bool)>,
    registry: Seq<(Seq<u8>, Seq<char>)>,
    expected_governance: Address,
    expected_asset_id: Word,
    l1_chain_id: u64,
    owner_address: Address,
)
    ensures
        (error_count(
            force_deployments_and_upgrade_report(
                call,
                upgrade,
                expected,
                registry,
                expected_governance,
                expected_asset_id,
                l1_chain_id,
                owner_address,
            ),
        ) == 0) <==> {
            &&& call.force_deployments.len() == expected.len()
            &&& forall|i: int|
                0 <= i < expected.len() ==> #[trigger] deployment_ok(
                    call.force_deployments[i],
                    expected[i].0,
                    expected[i].1,
                    expected[i].2,
                    registry,
                    chain_asset_handler_input(l1_chain_id, owner_address),
                )
            &&& call.delegate_to@ == address_of(L2_GENESIS_UPGRADE_ADDR as nat)
            &&& upgrade.aliased_governance@ == expected_governance@
            &&& upgrade.bridged_eth_asset_id@ == expected_asset_id@
        },
{
    let ds = call.force_deployments;
    let cah = chain_asset_handler_input(l1_chain_id, owner_address);
    let count = if ds.len() != expected.len() {
        seq![EntryOf::Error(IssueOf::ForceDeploymentCount { expected: expected.len() as usize, got: ds.len() as usize })]
    } else {
        Seq::<EntryView>::empty()
    };
    let pairs = deployments_report(ds, expected, registry, cah, min_len(ds.len(), expected.len()));
    let extras = extra_deployments_report(ds, expected.len(), ds.len());
    let ok = seq![EntryOf::<Seq<char>, Seq<Seq<char>>, Seq<u8>>::Passed(NoteOf::ForceDeploymentsVerified)];
    let del = if call.delegate_to@ != address_of(L2_GENESIS_UPGRADE_ADDR as nat) {
        seq![EntryOf::Error(IssueOf::DelegateTo { got: call.delegate_to })]
    } else {
        Seq::<EntryView>::empty()
    };
    let gov = if upgrade.aliased_governance@ != expected_governance@ {
        seq![EntryOf::Error(IssueOf::AliasedGovernance { expected: expected_governance, got: upgrade.aliased_governance })]
    } else {
        Seq::<EntryView>::empty()
    };
    let asset = if upgrade.bridged_eth_asset_id@ != expected_asset_id@ {
        seq![EntryOf::Error(IssueOf::BridgedEthAssetId { expected: expected_asset_id, got: upgrade.bridged_eth_asset_id })]
    } else {
        Seq::<EntryView>::empty()
    };
    let all = force_deployments_and_upgrade_report(
        call,
        upgrade,
        expected,
        registry,
        expected_governance,
        expected_asset_id,
        l1_chain_id,
        owner_address,
    );
    assert(all == count + pairs + extras + ok + del + gov + asset);
    lemma_error_count_append(count + pairs + extras + ok + del + gov, asset);
    lemma_error_count_append(count + pairs + extras + ok + del, gov);
    lemma_error_count_append(count + pairs + extras + ok, del);
    lemma_error_count_append(count + pairs + extras, ok);
    lemma_error_count_append(count + pairs, extras);
    lemma_error_count_append(count, pairs);
    lemma_error_count_single(ok[0]);
    assert(error_count(Seq::<EntryView>::empty()) == 0);
    lemma_error_count_at_most_one(count);
    lemma_error_count_at_most_one(del);
    lemma_error_count_at_most_one(gov);
    lemma_error_count_at_most_one(asset);
    lemma_deployments_report_errors(ds, expected, registry, cah, min_len(ds.len(), expected.len()));
    lemma_extra_deployments_errors(ds, expected.len(), ds.len());
}

/// A list of at most one entry has one error for each error entry in it.
proof fn lemma_error_count_at_most_one(s: Seq<EntryView>)
    requires
        s.len() <= 1,
    ensures
        error_count(s) == if s.len() == 1 && s[0] is Error {
            1nat
        } else {
            0nat
        },
{
    if s.len() == 1 {
        lemma_error_count_single(s[0]);
        assert(s =~= seq![s[0]]);
    } else {
        assert(s =~= Seq::<EntryView>::empty());
    }
}

} // verus!
