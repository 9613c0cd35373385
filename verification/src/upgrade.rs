//! The proposed upgrade of `setNewVersionUpgrade`: its L2 upgrade
//! transaction and the rest of its fields, checked against what version
//! 0.29 must contain.

use vstd::prelude::*;
use vstd::string::StringSliceAdditionalSpecFns;
use crate::abi::{
    abi_decode_address_and_word, abi_decode_address_list, abi_decode_force_deploy_params,
    abi_decode_address_list_and_address, abi_encode_address_list_and_address, abi_encode_uint_and_two_addresses, address_list_and_address_encoding,
    address_list_encoding, address_words, decoded_force_deploy_params, function_selector, hex_decode,
    hex_decoded, keccak256, keccak256_of, selector_of,
};
use crate::alias::{aliased, apply_l2_to_l1_alias};
use crate::bytes::{
    be_bytes, be_value, lemma_be_bytes_of_value, lemma_be_value_of_bytes, pow256, address_from_seq, address_from_u64, address_of, address_word, all_zero, bytes_eq, is_all_zero,
    lemma_address_from_seq, lemma_be_bytes_len, lemma_word_from_seq, word_from_seq, word_is, word_of,
    Address, Word,
};
use crate::force_deployment::{
    chain_asset_handler_input, deployment_ok, lemma_force_deployments_pass_iff,
    L2_GENESIS_UPGRADE_ADDR, expected_force_deployment_table, expected_force_deployments, expected_view,
    force_deployments_and_upgrade_report, verify_force_deployments_and_upgrade, ForceDeployAndUpgrade,
    ForceDeployAndUpgradeView, UpgradeCall,
};
use crate::protocol_version::{get_expected_new_protocol_version, unpacked, ProtocolVersion};
use crate::registry::{bytecode_check, lookup, Verifiers};
use crate::report::{
    error_count, error_if, lemma_error_count_append, lemma_error_count_single, lemma_error_if_count,
    report_if, EntryOf, EntryView, IssueOf, IssueView, NoteOf, VerificationResult,
};

verus! {

/// The signature of the complex upgrader's entry point.
pub const FORCE_DEPLOY_AND_UPGRADE_SIGNATURE: &'static str =
    "forceDeployAndUpgrade((bytes32,address,bool,uint256,bytes)[],address,bytes)";

/// The signature of the L2 upgrade contract's entry point.
pub const L2_UPGRADE_SIGNATURE: &'static str = "upgrade(address,bytes32)";

/// The `forceDeployAndUpgrade` call in `data`: its selector, then its
/// parameters as the ABI decoder reads them.
pub open spec fn decoded_force_deploy_and_upgrade_call(data: Seq<u8>) -> Option<ForceDeployAndUpgradeView> {
    if data.len() >= 4 && data.take(4) == selector_of(FORCE_DEPLOY_AND_UPGRADE_SIGNATURE.spec_bytes()) {
        decoded_force_deploy_params(data.skip(4))
    } else {
        None
    }
}

/// The `upgrade(address, bytes32)` call in `data`: its selector, then a zero
/// padded address word and a word, and nothing more.
pub open spec fn decoded_upgrade_call(data: Seq<u8>) -> Option<UpgradeCall> {
    if data.len() == 68 && data.take(4) == selector_of(L2_UPGRADE_SIGNATURE.spec_bytes())
        && forall|i: int| 4 <= i < 16 ==> data[i] == 0 {
        Some(
            UpgradeCall {
                aliased_governance: address_from_seq(data.subrange(16, 36)),
                bridged_eth_asset_id: word_from_seq(data.subrange(36, 68)),
            },
        )
    } else {
        None
    }
}

/// Decodes a call of `forceDeployAndUpgrade`.
pub fn decode_force_deploy_and_upgrade_call(data: &[u8]) -> (r: Option<ForceDeployAndUpgrade>)
    ensures
        match r {
            Some(c) => decoded_force_deploy_and_upgrade_call(data@) == Some(c@),
            None => decoded_force_deploy_and_upgrade_call(data@) is None,
        },
{
    if data.len() < 4 {
        return None;
    }
    let selector = function_selector(FORCE_DEPLOY_AND_UPGRADE_SIGNATURE);
    let head = vstd::slice::slice_subrange(data, 0, 4);
    assert(head@ =~= data@.take(4));
    if !bytes_eq(head, selector.as_slice()) {
        return None;
    }
    let params = vstd::slice::slice_subrange(data, 4, data.len());
    assert(params@ =~= data@.skip(4));
    abi_decode_force_deploy_params(params)
}

/// Decodes a call of `upgrade(address, bytes32)`.
pub fn decode_upgrade_call(data: &[u8]) -> (r: Option<UpgradeCall>)
    ensures
        r == decoded_upgrade_call(data@),
{
    if data.len() < 4 {
        return None;
    }
    let selector = function_selector(L2_UPGRADE_SIGNATURE);
    let head = vstd::slice::slice_subrange(data, 0, 4);
    assert(head@ =~= data@.take(4));
    if !bytes_eq(head, selector.as_slice()) {
        return None;
    }
    let params = vstd::slice::slice_subrange(data, 4, data.len());
    assert(params@ =~= data@.skip(4));
    match abi_decode_address_and_word(params) {
        Some((a, w)) => {
            proof {
                crate::bytes::lemma_address_from_seq(a);
                crate::bytes::lemma_word_from_seq(w);
                assert(a@ =~= data@.subrange(16, 36));
                assert(w@ =~= data@.subrange(36, 68));
                assert forall|i: int| 4 <= i < 16 implies data@[i] == 0 by {
                    assert(data@[i] == params@[i - 4]);
                }
            }
            Some(UpgradeCall { aliased_governance: a, bridged_eth_asset_id: w })
        },
        None => {
            proof {
                if data@.len() == 68 {
                    assert(params@.len() == 64);
                    if forall|i: int| 4 <= i < 16 ==> data@[i] == 0 {
                        assert forall|i: int| 0 <= i < 12 implies params@[i] == 0 by {
                            assert(params@[i] == data@[i + 4]);
                        }
                    }
                }
            }
            None
        },
    }
}

/// The id of a token bridged through the native token vault: the hash of
/// the encoding of `(chain id, vault address, token address)`.
pub open spec fn ntv_asset_id(chain_id: u64, token_address: Address) -> Seq<u8> {
    keccak256_of(word_of(chain_id as nat) + address_word(address_of(0x10004)) + address_word(token_address@))
}

/// The asset id of `token_address` from chain `chain_id` in the L2 native
/// token vault (at its fixed address).
pub fn encode_ntv_asset_id(chain_id: u64, token_address: Address) -> (r: Word)
    ensures
        r@ == ntv_asset_id(chain_id, token_address),
{
    let l2_native_token_vault_addr = address_from_u64(0x10004);
    let encoded = abi_encode_uint_and_two_addresses(chain_id, &l2_native_token_vault_addr, &token_address);
    keccak256(encoded.as_slice())
}

/// The calldata that the upgrade runs after itself: the encoding of the
/// `V29UpgradeParams` with the old validator timelocks and the new one.
pub fn encode_post_upgrade_calldata(old_validator_timelocks: Vec<Address>, new_validator_timelock: Address) -> (r: Vec<u8>)
    ensures
        r@ == address_list_and_address_encoding(old_validator_timelocks@, new_validator_timelock),
{
    abi_encode_address_list_and_address(&old_validator_timelocks, &new_validator_timelock)
}


/// Reads the old validator timelocks and the new one back from post upgrade
/// calldata; it gives back exactly what `encode_post_upgrade_calldata` was
/// given.
pub fn decode_post_upgrade_calldata(data: &[u8]) -> (r: Option<(Vec<Address>, Address)>)
    ensures
        match r {
            Some((old_timelocks, new_timelock)) => data@ == address_list_and_address_encoding(
                old_timelocks@,
                new_timelock,
            ),
            None => forall|old_timelocks: Seq<Address>, new_timelock: Address|
                data@ != #[trigger] address_list_and_address_encoding(old_timelocks, new_timelock),
        },
        forall|old_timelocks: Seq<Address>, new_timelock: Address|
            data@ == #[trigger] address_list_and_address_encoding(old_timelocks, new_timelock) ==> (
            r matches Some((o, n)) && o@ == old_timelocks && n == new_timelock),
{
    let r = abi_decode_address_list_and_address(data);
    proof {
        assert forall|old_timelocks: Seq<Address>, new_timelock: Address|
            data@ == #[trigger] address_list_and_address_encoding(old_timelocks, new_timelock) implies (
            r matches Some((o, n)) && o@ == old_timelocks && n == new_timelock) by {
            if let Some((o, n)) = r {
                lemma_post_upgrade_calldata_injective(o@, n, old_timelocks, new_timelock);
            }
        }
    }
    r
}


/// The address of the force deployer, the sender of upgrade transactions.
pub const FORCE_DEPLOYER_ADDRESS: u64 = 0x8007;

/// The address of the complex upgrader, the receiver of upgrade transactions.
pub const COMPLEX_UPGRADER_ADDRESS: u64 = 0x800F;

/// The transaction type of protocol upgrade transactions.
pub const PROTOCOL_UPGRADE_TX_TYPE: u64 = 254;

/// The gas limit of the upgrade transaction.
pub const UPGRADE_TX_GAS_LIMIT: u64 = 72_000_000;

/// The gas per pubdata byte limit of the upgrade transaction.
pub const UPGRADE_TX_GAS_PER_PUBDATA_BYTE_LIMIT: u64 = 800;

/// An L2 transaction as the L1 contracts describe it.
#[derive(Debug, Clone, PartialEq, Eq)]
pub struct L2CanonicalTransaction {
    pub tx_type: Word,
    pub from: Word,
    pub to: Word,
    pub gas_limit: Word,
    pub gas_per_pubdata_byte_limit: Word,
    pub max_fee_per_gas: Word,
    pub max_priority_fee_per_gas: Word,
    pub paymaster: Word,
    pub nonce: Word,
    pub value: Word,
    pub reserved: [Word; 4],
    pub data: Vec<u8>,
    pub signature: Vec<u8>,
    pub factory_deps: Vec<Word>,
    pub paymaster_input: Vec<u8>,
    pub reserved_dynamic: Vec<u8>,
}

/// What checking the addressing and gas fields of the upgrade transaction records.
pub open spec fn tx_head_report(tx: L2CanonicalTransaction) -> Seq<EntryView> {
    error_if(tx.tx_type@ != word_of(PROTOCOL_UPGRADE_TX_TYPE as nat), IssueOf::TxType)
    + error_if(tx.from@ != word_of(FORCE_DEPLOYER_ADDRESS as nat), IssueOf::TxFrom)
    + error_if(tx.to@ != word_of(COMPLEX_UPGRADER_ADDRESS as nat), IssueOf::TxTo { got: tx.to })
    + error_if(tx.gas_limit@ != word_of(UPGRADE_TX_GAS_LIMIT as nat), IssueOf::TxGasLimit)
    + error_if(
        tx.gas_per_pubdata_byte_limit@ != word_of(UPGRADE_TX_GAS_PER_PUBDATA_BYTE_LIMIT as nat),
        IssueOf::TxGasPerPubdataByteLimit,
    )
}

/// What checking the fee, nonce and value fields of the upgrade transaction records.
pub open spec fn tx_fees_report(tx: L2CanonicalTransaction, expected_minor: u64) -> Seq<EntryView> {
    error_if(!all_zero(tx.max_fee_per_gas@), IssueOf::TxMaxFeePerGas)
    + error_if(!all_zero(tx.max_priority_fee_per_gas@), IssueOf::TxMaxPriorityFeePerGas)
    + error_if(!all_zero(tx.paymaster@), IssueOf::TxPaymaster)
    + error_if(tx.nonce@ != word_of(expected_minor as nat), IssueOf::TxNonce { got: tx.nonce, expected_minor })
    + error_if(!all_zero(tx.value@), IssueOf::TxValue)
}

/// What checking the reserved and byte fields of the upgrade transaction records.
pub open spec fn tx_tail_report(tx: L2CanonicalTransaction) -> Seq<EntryView> {
    error_if(!(forall|k: int| 0 <= k < 4 ==> all_zero(#[trigger] tx.reserved@[k]@)), IssueOf::TxReserved)
    + error_if(tx.signature@.len() != 0, IssueOf::TxSignature)
    + error_if(tx.paymaster_input@.len() != 0, IssueOf::TxPaymasterInput)
    + error_if(tx.reserved_dynamic@.len() != 0, IssueOf::TxReservedDynamic)
}

/// What checking the plain fields of the upgrade transaction records.
pub open spec fn tx_fields_report(tx: L2CanonicalTransaction, expected_minor: u64) -> Seq<EntryView> {
    tx_head_report(tx) + tx_fees_report(tx, expected_minor) + tx_tail_report(tx)
}

impl L2CanonicalTransaction {
    /// Checks the fields of the upgrade transaction that must hold fixed
    /// values; its nonce must be the new minor version.
    #[verifier::spinoff_prover]
    pub fn verify_fields(&self, result: &mut VerificationResult, expected_version: ProtocolVersion)
        ensures
            final(result)@ == old(result)@ + tx_fields_report(*self, expected_version.minor),
    {
        let ghost start = result@;
        self.verify_head(result);
        let ghost after_head = result@;
        self.verify_fees(result, expected_version.minor);
        let ghost after_fees = result@;
        self.verify_tail(result);
        let ghost h = tx_head_report(*self);
        let ghost f = tx_fees_report(*self, expected_version.minor);
        let ghost t = tx_tail_report(*self);
        assert(result@ == start + h + f + t);
        assert(start + h + f + t =~= start + (h + f + t));
    }

    fn verify_head(&self, result: &mut VerificationResult)
        ensures
            final(result)@ == old(result)@ + tx_head_report(*self),
    {
        let ghost start = result@;
        report_if(result, !word_is(&self.tx_type, PROTOCOL_UPGRADE_TX_TYPE), IssueOf::TxType);
        report_if(result, !word_is(&self.from, FORCE_DEPLOYER_ADDRESS), IssueOf::TxFrom);
        report_if(result, !word_is(&self.to, COMPLEX_UPGRADER_ADDRESS), IssueOf::TxTo { got: self.to });
        report_if(result, !word_is(&self.gas_limit, UPGRADE_TX_GAS_LIMIT), IssueOf::TxGasLimit);
        report_if(
            result,
            !word_is(&self.gas_per_pubdata_byte_limit, UPGRADE_TX_GAS_PER_PUBDATA_BYTE_LIMIT),
            IssueOf::TxGasPerPubdataByteLimit,
        );
        assert(result@ =~= start + tx_head_report(*self));
    }

    fn verify_fees(&self, result: &mut VerificationResult, expected_minor: u64)
        ensures
            final(result)@ == old(result)@ + tx_fees_report(*self, expected_minor),
    {
        let ghost start = result@;
        report_if(result, !is_all_zero(self.max_fee_per_gas.as_slice()), IssueOf::TxMaxFeePerGas);
        report_if(
            result,
            !is_all_zero(self.max_priority_fee_per_gas.as_slice()),
            IssueOf::TxMaxPriorityFeePerGas,
        );
        report_if(result, !is_all_zero(self.paymaster.as_slice()), IssueOf::TxPaymaster);
        report_if(
            result,
            !word_is(&self.nonce, expected_minor),
            IssueOf::TxNonce { got: self.nonce, expected_minor },
        );
        report_if(result, !is_all_zero(self.value.as_slice()), IssueOf::TxValue);
        assert(result@ =~= start + tx_fees_report(*self, expected_minor));
    }

    fn verify_tail(&self, result: &mut VerificationResult)
        ensures
            final(result)@ == old(result)@ + tx_tail_report(*self),
    {
        let ghost start = result@;
        let reserved_zero = is_all_zero(self.reserved[0].as_slice()) && is_all_zero(
            self.reserved[1].as_slice(),
        ) && is_all_zero(self.reserved[2].as_slice()) && is_all_zero(self.reserved[3].as_slice());
        assert(reserved_zero == (forall|k: int| 0 <= k < 4 ==> all_zero(#[trigger] self.reserved@[k]@))) by {
            if !reserved_zero {
                assert(!all_zero(self.reserved@[0]@) || !all_zero(self.reserved@[1]@) || !all_zero(
                    self.reserved@[2]@,
                ) || !all_zero(self.reserved@[3]@));
            }
        }
        report_if(result, !reserved_zero, IssueOf::TxReserved);
        report_if(result, self.signature.len() != 0, IssueOf::TxSignature);
        report_if(result, self.paymaster_input.len() != 0, IssueOf::TxPaymasterInput);
        report_if(result, self.reserved_dynamic.len() != 0, IssueOf::TxReservedDynamic);
        assert(result@ =~= start + tx_tail_report(*self));
    }
}


/// The expected force deployments, each taken by its views.
pub open spec fn expected_deployments_view() -> Seq<(Seq<char>, Address, bool)> {
    expected_force_deployment_table().map_values(
        |t: (Seq<char>, nat, bool)| (t.0, address_from_seq(address_of(t.1)), t.2),
    )
}

/// The address that stands for ETH in the native token vault.
pub open spec fn eth_token_address() -> Address {
    address_from_seq(address_of(1))
}

/// What checking the decoded `forceDeployAndUpgrade` call of the upgrade
/// transaction records: the upgrade call it delegates must decode, and then
/// the force deployments and that call are checked against the expected
/// contracts, the aliased owner and the ETH asset id of the L1 chain.
pub open spec fn complex_upgrade_report(
    call: ForceDeployAndUpgradeView,
    registry: Seq<(Seq<u8>, Seq<char>)>,
    l1_chain_id: u64,
    owner_address: Address,
) -> Seq<EntryView> {
    match decoded_upgrade_call(call.calldata) {
        None => seq![EntryOf::Error(IssueOf::UndecodableDelegateCalldata)],
        Some(u) => force_deployments_and_upgrade_report(
            call,
            u,
            expected_deployments_view(),
            registry,
            address_from_seq(aliased(owner_address@)),
            word_from_seq(ntv_asset_id(l1_chain_id, eth_token_address())),
            l1_chain_id,
            owner_address,
        ),
    }
}

/// Checks the complex upgrade call that the upgrade transaction carries.
pub fn verify_complex_upgrade_call(
    complex_upgrade_call: &ForceDeployAndUpgrade,
    verifiers: &Verifiers,
    result: &mut VerificationResult,
    l1_chain_id: u64,
    owner_address: Address,
)
    ensures
        final(result)@ == old(result)@ + complex_upgrade_report(
            complex_upgrade_call@,
            verifiers.bytecode_verifier@,
            l1_chain_id,
            owner_address,
        ),
{
    let upgrade_calldata = match decode_upgrade_call(complex_upgrade_call.calldata.as_slice()) {
        Some(u) => u,
        None => {
            result.report_error(IssueOf::UndecodableDelegateCalldata);
            return ;
        },
    };
    let expected_deployments = expected_force_deployments();
    let expected_governance = apply_l2_to_l1_alias(owner_address);
    let eth_token = address_from_u64(1);
    let expected_asset_id = encode_ntv_asset_id(l1_chain_id, eth_token);
    proof {
        lemma_address_from_seq(expected_governance);
        lemma_word_from_seq(expected_asset_id);
        lemma_address_from_seq(eth_token);
        let exp = expected_deployments@.map_values(|e: (String, Address, bool)| expected_view(e));
        assert forall|i: int| 0 <= i < exp.len() implies exp[i] == expected_deployments_view()[i] by {
            let t = expected_force_deployment_table()[i];
            lemma_address_from_seq(expected_deployments@[i].1);
        }
        assert(exp =~= expected_deployments_view());
    }
    verify_force_deployments_and_upgrade(
        complex_upgrade_call,
        upgrade_calldata,
        expected_deployments.as_slice(),
        verifiers,
        result,
        expected_governance,
        expected_asset_id,
        l1_chain_id,
        owner_address,
    );
}


/// `s` without the `0x` pairs at its start (what `trim_start_matches("0x")`
/// leaves).
pub open spec fn trim_0x_prefixes(s: Seq<char>) -> Seq<char>
    decreases s.len(),
{
    if s.len() >= 2 && s[0] == '0' && s[1] == 'x' {
        trim_0x_prefixes(s.skip(2))
    } else {
        s
    }
}

/// The bytes of a hex-encoded list of timelocks, if it is hex.
pub open spec fn timelocks_bytes(encoded: Seq<char>) -> Option<Seq<u8>> {
    hex_decoded(trim_0x_prefixes(encoded))
}

/// The text is hex for the ABI encoding of an address list.
pub open spec fn timelocks_decodable(encoded: Seq<char>) -> bool {
    &&& timelocks_bytes(encoded) is Some
    &&& exists|v: Seq<Address>| timelocks_bytes(encoded) == Some(#[trigger] address_list_encoding(v))
}

/// The address list that the text encodes.
pub open spec fn decoded_timelocks(encoded: Seq<char>) -> Seq<Address> {
    choose|v: Seq<Address>| timelocks_bytes(encoded) == Some(#[trigger] address_list_encoding(v))
}

/// `s` without the `0x` pairs at its start.
fn trim_0x(s: &str) -> (r: &str)
    ensures
        r@ == trim_0x_prefixes(s@),
{
    let n = s.unicode_len();
    let mut i: usize = 0;
    assert(s@.skip(0) =~= s@);
    while n - i >= 2 && s.get_char(i) == '0' && s.get_char(i + 1) == 'x'
        invariant
            i <= n,
            n == s@.len(),
            trim_0x_prefixes(s@) == trim_0x_prefixes(s@.skip(i as int)),
        decreases n - i,
    {
        assert(s@.skip(i as int).skip(2) =~= s@.skip(i + 2));
        i = i + 2;
    }
    let r = s.substring_char(i, n);
    assert(r@ =~= s@.skip(i as int));
    r
}

proof fn lemma_address_words_len(v: Seq<Address>)
    ensures
        address_words(v).len() == 32 * v.len(),
    decreases v.len(),
{
    if v.len() > 0 {
        lemma_address_words_len(v.drop_last());
    }
}

proof fn lemma_address_words_injective(a: Seq<Address>, b: Seq<Address>)
    requires
        a.len() == b.len(),
        address_words(a) == address_words(b),
    ensures
        a == b,
    decreases a.len(),
{
    if a.len() > 0 {
        let a1 = a.drop_last();
        let b1 = b.drop_last();
        lemma_address_words_len(a1);
        lemma_address_words_len(b1);
        let wa = address_words(a);
        let n = address_words(a1).len();
        assert(address_words(a1) =~= wa.take(n as int));
        assert(address_words(b1) =~= wa.take(n as int));
        assert(address_word(a.last()@) =~= wa.skip(n as int));
        assert(address_word(b.last()@) =~= wa.skip(n as int));
        assert(a.last()@ =~= address_word(a.last()@).skip(12));
        assert(b.last()@ =~= address_word(b.last()@).skip(12));
        lemma_address_from_seq(a.last());
        lemma_address_from_seq(b.last());
        lemma_address_words_injective(a1, b1);
        assert(a =~= b) by {
            assert forall|i: int| 0 <= i < a.len() implies a[i] == b[i] by {
                if i < a.len() - 1 {
                    assert(a[i] == a1[i]);
                    assert(b[i] == b1[i]);
                }
            }
        }
    }
}

/// Different address lists have different encodings.
proof fn lemma_address_list_encoding_injective(a: Seq<Address>, b: Seq<Address>)
    requires
        address_list_encoding(a) == address_list_encoding(b),
    ensures
        a == b,
{
    lemma_address_words_len(a);
    lemma_address_words_len(b);
    lemma_be_bytes_len(32, 32);
    lemma_be_bytes_len(a.len(), 32);
    lemma_be_bytes_len(b.len(), 32);
    let e = address_list_encoding(a);
    assert(e.len() == 64 + 32 * a.len());
    assert(address_list_encoding(b).len() == 64 + 32 * b.len());
    assert(address_words(a) =~= e.skip(64));
    assert(address_words(b) =~= e.skip(64));
    lemma_address_words_injective(a, b);
}

/// Decodes the old validator timelocks from their hex-encoded ABI form, as
/// the upgrade configuration holds them.
pub fn decode_old_validator_timelocks(encoded: &str) -> (r: Option<Vec<Address>>)
    ensures
        r is Some <==> timelocks_decodable(encoded@),
        r matches Some(v) ==> v@ == decoded_timelocks(encoded@),
{
    let trimmed = trim_0x(encoded);
    let bytes = match hex_decode(trimmed) {
        Some(b) => b,
        None => {
            return None;
        },
    };
    match abi_decode_address_list(bytes.as_slice()) {
        Some(v) => {
            proof {
                let w = decoded_timelocks(encoded@);
                assert(timelocks_bytes(encoded@) == Some(address_list_encoding(v@)));
                lemma_address_list_encoding_injective(w, v@);
            }
            Some(v)
        },
        None => None,
    }
}


/// The verification keys' hashes passed to the verifier.
#[derive(Debug, Clone, Copy, PartialEq, Eq)]
pub struct VerifierParams {
    pub recursion_node_level_vk_hash: Word,
    pub recursion_leaf_level_vk_hash: Word,
    pub recursion_circuits_set_vks_hash: Word,
}

/// The upgrade that `setNewVersionUpgrade` proposes to chains.
#[derive(Debug, Clone, PartialEq, Eq)]
pub struct ProposedUpgrade {
    pub l2_protocol_upgrade_tx: L2CanonicalTransaction,
    pub bootloader_hash: Word,
    pub default_account_hash: Word,
    pub evm_emulator_hash: Word,
    pub verifier: Address,
    pub verifier_params: VerifierParams,
    pub l1_contracts_upgrade_calldata: Vec<u8>,
    pub post_upgrade_calldata: Vec<u8>,
    pub upgrade_timestamp: Word,
    pub new_protocol_version: Word,
}

/// The parts of the upgrade configuration that concern version 0.29: the
/// hex-encoded ABI lists of the validator timelocks the upgrade replaces.
#[derive(Debug, Clone, PartialEq, Eq)]
pub struct V29 {
    pub encoded_old_validator_timelocks: String,
    pub encoded_old_gateway_validator_timelocks: String,
}

/// The timelocks the upgrade replaces, on the gateway or on L1.
pub open spec fn selected_timelocks(v29: V29, is_gateway: bool) -> Seq<char> {
    if is_gateway {
        v29.encoded_old_gateway_validator_timelocks@
    } else {
        v29.encoded_old_validator_timelocks@
    }
}

/// The name the address book must give the verifier.
pub open spec fn expected_verifier_name(is_gateway: bool) -> Seq<char> {
    if is_gateway {
        "gateway_verifier_addr"@
    } else {
        "verifier"@
    }
}

/// What checking the bytecode hashes of the proposed upgrade records.
pub open spec fn upgrade_bytecodes_report(p: ProposedUpgrade, registry: Seq<(Seq<u8>, Seq<char>)>) -> Seq<EntryView> {
    seq![
        bytecode_check(registry, p.bootloader_hash, "Bootloader"@),
        bytecode_check(registry, p.default_account_hash, "system-contracts/DefaultAccount"@),
        bytecode_check(registry, p.evm_emulator_hash, "EvmEmulator"@),
    ]
}

/// What checking the verifier and its parameters records.
pub open spec fn upgrade_verifier_report(
    p: ProposedUpgrade,
    address_book: Seq<(Seq<u8>, Seq<char>)>,
    is_gateway: bool,
) -> Seq<EntryView> {
    error_if(
        lookup(address_book, p.verifier@) != Some(expected_verifier_name(is_gateway)),
        IssueOf::Verifier { name: lookup(address_book, p.verifier@), address: p.verifier },
    ) + error_if(
        !(all_zero(p.verifier_params.recursion_node_level_vk_hash@) && all_zero(
            p.verifier_params.recursion_leaf_level_vk_hash@,
        ) && all_zero(p.verifier_params.recursion_circuits_set_vks_hash@)),
        IssueOf::VerifierParams,
    )
}

/// What checking the calldata fields records: no L1 contracts upgrade
/// calldata, and post upgrade calldata that replaces the old timelocks by
/// `validator_timelock`.
pub open spec fn upgrade_calldata_report(p: ProposedUpgrade, timelocks: Seq<char>, validator_timelock: Address) -> Seq<
    EntryView,
> {
    error_if(p.l1_contracts_upgrade_calldata@.len() != 0, IssueOf::L1ContractsUpgradeCalldata) + if p.post_upgrade_calldata@.len()
        == 0 {
        seq![EntryOf::Error(IssueOf::MissingPostUpgradeCalldata)]
    } else {
        let expected = address_list_and_address_encoding(decoded_timelocks(timelocks), validator_timelock);
        error_if(
            p.post_upgrade_calldata@ != expected,
            IssueOf::PostUpgradeCalldata { got: p.post_upgrade_calldata@, expected },
        )
    }
}

/// What checking the timestamp and the new version records.
pub open spec fn upgrade_version_report(p: ProposedUpgrade) -> Seq<EntryView> {
    error_if(!all_zero(p.upgrade_timestamp@), IssueOf::UpgradeTimestamp) + error_if(
        unpacked(p.new_protocol_version@) != expected_new_version(),
        IssueOf::ProtocolVersion { got: unpacked(p.new_protocol_version@), expected: expected_new_version() },
    )
}

/// Version 0.29.1.
pub open spec fn expected_new_version() -> ProtocolVersion {
    ProtocolVersion { major: 0, minor: 29, patch: 1 }
}

/// Everything the checks of the proposed upgrade's own fields record,
/// before the final note.
pub open spec fn upgrade_fields_report(
    p: ProposedUpgrade,
    verifiers_registry: Seq<(Seq<u8>, Seq<char>)>,
    address_book: Seq<(Seq<u8>, Seq<char>)>,
    is_gateway: bool,
    timelocks: Seq<char>,
    validator_timelock: Address,
) -> Seq<EntryView> {
    upgrade_bytecodes_report(p, verifiers_registry) + upgrade_verifier_report(p, address_book, is_gateway)
        + upgrade_calldata_report(p, timelocks, validator_timelock) + upgrade_version_report(p)
}

/// The note that ends a clean check: present when the report holds no more
/// errors than it did at the start of the upgrade's checks.
pub open spec fn final_note(entries: Seq<EntryView>, initial_error_count: nat) -> Seq<EntryView> {
    if error_count(entries) == initial_error_count {
        seq![EntryOf::Passed(NoteOf::ProposedUpgradeInfoCorrect)]
    } else {
        Seq::empty()
    }
}

impl ProposedUpgrade {
    fn verify_bytecodes(&self, verifiers: &Verifiers, result: &mut VerificationResult)
        ensures
            final(result)@ == old(result)@ + upgrade_bytecodes_report(*self, verifiers.bytecode_verifier@),
    {
        result.expect_zk_bytecode(&verifiers.bytecode_verifier, &self.bootloader_hash, "Bootloader");
        result.expect_zk_bytecode(
            &verifiers.bytecode_verifier,
            &self.default_account_hash,
            "system-contracts/DefaultAccount",
        );
        result.expect_zk_bytecode(&verifiers.bytecode_verifier, &self.evm_emulator_hash, "EvmEmulator");
        assert(result@ =~= old(result)@ + upgrade_bytecodes_report(*self, verifiers.bytecode_verifier@));
    }

    fn verify_verifier(&self, verifiers: &Verifiers, result: &mut VerificationResult, is_gateway: bool)
        ensures
            final(result)@ == old(result)@ + upgrade_verifier_report(
                *self,
                verifiers.address_verifier@,
                is_gateway,
            ),
    {
        let ghost start = result@;
        let verifier_name = verifiers.address_verifier.get(&self.verifier);
        let expected_name = if is_gateway {
            String::from_str("gateway_verifier_addr")
        } else {
            String::from_str("verifier")
        };
        let matches = match &verifier_name {
            Some(n) => *n == expected_name,
            None => false,
        };
        let ghost name_view = match &verifier_name {
            Some(n) => Some(n@),
            None => None::<Seq<char>>,
        };
        assert(name_view == lookup(verifiers.address_verifier@, self.verifier@));
        report_if(result, !matches, IssueOf::Verifier { name: verifier_name, address: self.verifier });
        let params = &self.verifier_params;
        let params_zero = is_all_zero(params.recursion_node_level_vk_hash.as_slice()) && is_all_zero(
            params.recursion_leaf_level_vk_hash.as_slice(),
        ) && is_all_zero(params.recursion_circuits_set_vks_hash.as_slice());
        report_if(result, !params_zero, IssueOf::VerifierParams);
        assert(result@ =~= start + upgrade_verifier_report(*self, verifiers.address_verifier@, is_gateway));
    }

    fn verify_calldata(&self, result: &mut VerificationResult, timelocks: &str, validator_timelock: Address)
        requires
            self.post_upgrade_calldata@.len() > 0 ==> timelocks_decodable(timelocks@),
        ensures
            final(result)@ == old(result)@ + upgrade_calldata_report(*self, timelocks@, validator_timelock),
    {
        let ghost start = result@;
        report_if(result, self.l1_contracts_upgrade_calldata.len() != 0, IssueOf::L1ContractsUpgradeCalldata);
        let ghost mid = result@;
        if self.post_upgrade_calldata.len() == 0 {
            result.report_error(IssueOf::MissingPostUpgradeCalldata);
        } else {
            match decode_old_validator_timelocks(timelocks) {
                Some(old_validator_timelocks) => {
                    let expected = encode_post_upgrade_calldata(old_validator_timelocks, validator_timelock);
                    let ghost expected_view = expected@;
                    let differs = !bytes_eq(self.post_upgrade_calldata.as_slice(), expected.as_slice());
                    report_if(
                        result,
                        differs,
                        IssueOf::PostUpgradeCalldata { got: self.post_upgrade_calldata.clone(), expected },
                    );
                },
                None => {},
            }
        }
        assert(result@ =~= start + upgrade_calldata_report(*self, timelocks@, validator_timelock));
    }

    fn verify_version(&self, result: &mut VerificationResult)
        ensures
            final(result)@ == old(result)@ + upgrade_version_report(*self),
    {
        let ghost start = result@;
        report_if(result, !is_all_zero(self.upgrade_timestamp.as_slice()), IssueOf::UpgradeTimestamp);
        let expected_version = get_expected_new_protocol_version();
        let protocol_version = ProtocolVersion::from_word(&self.new_protocol_version);
        report_if(
            result,
            protocol_version != expected_version,
            IssueOf::ProtocolVersion { got: protocol_version, expected: expected_version },
        );
        assert(result@ =~= start + upgrade_version_report(*self));
    }

    /// Checks the proposed upgrade's own fields (what follows the check of
    /// its transaction): the bootloader, default account and EVM emulator
    /// bytecodes, the verifier and its parameters, the calldata fields, the
    /// timestamp and the new version; then, if no error was recorded since
    /// `initial_error_count`, a note that the upgrade is correct.
    pub fn verify_fields(
        &self,
        verifiers: &Verifiers,
        result: &mut VerificationResult,
        is_gateway: bool,
        v29: &V29,
        validator_timelock: Address,
        initial_error_count: usize,
    )
        requires
            self.post_upgrade_calldata@.len() > 0 ==> timelocks_decodable(
                selected_timelocks(*v29, is_gateway),
            ),
        ensures
            final(result)@ == old(result)@ + upgrade_fields_report(
                *self,
                verifiers.bytecode_verifier@,
                verifiers.address_verifier@,
                is_gateway,
                selected_timelocks(*v29, is_gateway),
                validator_timelock,
            ) + final_note(
                old(result)@ + upgrade_fields_report(
                    *self,
                    verifiers.bytecode_verifier@,
                    verifiers.address_verifier@,
                    is_gateway,
                    selected_timelocks(*v29, is_gateway),
                    validator_timelock,
                ),
                initial_error_count as nat,
            ),
    {
        let ghost start = result@;
        self.verify_bytecodes(verifiers, result);
        self.verify_verifier(verifiers, result, is_gateway);
        let timelocks = if is_gateway {
            v29.encoded_old_gateway_validator_timelocks.as_str()
        } else {
            v29.encoded_old_validator_timelocks.as_str()
        };
        self.verify_calldata(result, timelocks, validator_timelock);
        self.verify_version(result);
        let ghost body = upgrade_fields_report(
            *self,
            verifiers.bytecode_verifier@,
            verifiers.address_verifier@,
            is_gateway,
            selected_timelocks(*v29, is_gateway),
            validator_timelock,
        );
        assert(result@ =~= start + body);
        if result.errors() == initial_error_count {
            result.report_ok(NoteOf::ProposedUpgradeInfoCorrect);
        }
        assert(result@ =~= start + body + final_note(start + body, initial_error_count as nat));
    }
}


/// The upgrade transaction's plain fields hold what an upgrade to a
/// version with minor `expected_minor` needs.
pub open spec fn tx_fields_ok(tx: L2CanonicalTransaction, expected_minor: u64) -> bool {
    &&& tx.tx_type@ == word_of(PROTOCOL_UPGRADE_TX_TYPE as nat)
    &&& tx.from@ == word_of(FORCE_DEPLOYER_ADDRESS as nat)
    &&& tx.to@ == word_of(COMPLEX_UPGRADER_ADDRESS as nat)
    &&& tx.gas_limit@ == word_of(UPGRADE_TX_GAS_LIMIT as nat)
    &&& tx.gas_per_pubdata_byte_limit@ == word_of(UPGRADE_TX_GAS_PER_PUBDATA_BYTE_LIMIT as nat)
    &&& all_zero(tx.max_fee_per_gas@)
    &&& all_zero(tx.max_priority_fee_per_gas@)
    &&& all_zero(tx.paymaster@)
    &&& tx.nonce@ == word_of(expected_minor as nat)
    &&& all_zero(tx.value@)
    &&& forall|k: int| 0 <= k < 4 ==> all_zero(#[trigger] tx.reserved@[k]@)
    &&& tx.signature@.len() == 0
    &&& tx.paymaster_input@.len() == 0
    &&& tx.reserved_dynamic@.len() == 0
}

proof fn lemma_tx_head_errors(tx: L2CanonicalTransaction)
    ensures
        (error_count(tx_head_report(tx)) == 0) <==> {
            &&& tx.tx_type@ == word_of(PROTOCOL_UPGRADE_TX_TYPE as nat)
            &&& tx.from@ == word_of(FORCE_DEPLOYER_ADDRESS as nat)
            &&& tx.to@ == word_of(COMPLEX_UPGRADER_ADDRESS as nat)
            &&& tx.gas_limit@ == word_of(UPGRADE_TX_GAS_LIMIT as nat)
            &&& tx.gas_per_pubdata_byte_limit@ == word_of(UPGRADE_TX_GAS_PER_PUBDATA_BYTE_LIMIT as nat)
        },
{
    let a1 = error_if(tx.tx_type@ != word_of(PROTOCOL_UPGRADE_TX_TYPE as nat), IssueOf::TxType);
    let a2 = error_if(tx.from@ != word_of(FORCE_DEPLOYER_ADDRESS as nat), IssueOf::TxFrom);
    let a3 = error_if(tx.to@ != word_of(COMPLEX_UPGRADER_ADDRESS as nat), IssueOf::TxTo { got: tx.to });
    let a4 = error_if(tx.gas_limit@ != word_of(UPGRADE_TX_GAS_LIMIT as nat), IssueOf::TxGasLimit);
    let a5 = error_if(
        tx.gas_per_pubdata_byte_limit@ != word_of(UPGRADE_TX_GAS_PER_PUBDATA_BYTE_LIMIT as nat),
        IssueOf::TxGasPerPubdataByteLimit,
    );
    lemma_error_if_count(tx.tx_type@ != word_of(PROTOCOL_UPGRADE_TX_TYPE as nat), IssueOf::TxType);
    lemma_error_if_count(tx.from@ != word_of(FORCE_DEPLOYER_ADDRESS as nat), IssueOf::TxFrom);
    lemma_error_if_count(tx.to@ != word_of(COMPLEX_UPGRADER_ADDRESS as nat), IssueOf::TxTo { got: tx.to });
    lemma_error_if_count(tx.gas_limit@ != word_of(UPGRADE_TX_GAS_LIMIT as nat), IssueOf::TxGasLimit);
    lemma_error_if_count(
        tx.gas_per_pubdata_byte_limit@ != word_of(UPGRADE_TX_GAS_PER_PUBDATA_BYTE_LIMIT as nat),
        IssueOf::TxGasPerPubdataByteLimit,
    );
    lemma_error_count_append(a1, a2);
    lemma_error_count_append(a1 + a2, a3);
    lemma_error_count_append(a1 + a2 + a3, a4);
    lemma_error_count_append(a1 + a2 + a3 + a4, a5);
}

proof fn lemma_tx_fees_errors(tx: L2CanonicalTransaction, expected_minor: u64)
    ensures
        (error_count(tx_fees_report(tx, expected_minor)) == 0) <==> {
            &&& all_zero(tx.max_fee_per_gas@)
            &&& all_zero(tx.max_priority_fee_per_gas@)
            &&& all_zero(tx.paymaster@)
            &&& tx.nonce@ == word_of(expected_minor as nat)
            &&& all_zero(tx.value@)
        },
{
    let b1 = error_if(!all_zero(tx.max_fee_per_gas@), IssueOf::TxMaxFeePerGas);
    let b2 = error_if(!all_zero(tx.max_priority_fee_per_gas@), IssueOf::TxMaxPriorityFeePerGas);
    let b3 = error_if(!all_zero(tx.paymaster@), IssueOf::TxPaymaster);
    let b4 = error_if(
        tx.nonce@ != word_of(expected_minor as nat),
        IssueOf::TxNonce { got: tx.nonce, expected_minor },
    );
    let b5 = error_if(!all_zero(tx.value@), IssueOf::TxValue);
    lemma_error_if_count(!all_zero(tx.max_fee_per_gas@), IssueOf::TxMaxFeePerGas);
    lemma_error_if_count(!all_zero(tx.max_priority_fee_per_gas@), IssueOf::TxMaxPriorityFeePerGas);
    lemma_error_if_count(!all_zero(tx.paymaster@), IssueOf::TxPaymaster);
    lemma_error_if_count(
        tx.nonce@ != word_of(expected_minor as nat),
        IssueOf::TxNonce { got: tx.nonce, expected_minor },
    );
    lemma_error_if_count(!all_zero(tx.value@), IssueOf::TxValue);
    lemma_error_count_append(b1, b2);
    lemma_error_count_append(b1 + b2, b3);
    lemma_error_count_append(b1 + b2 + b3, b4);
    lemma_error_count_append(b1 + b2 + b3 + b4, b5);
}

proof fn lemma_tx_tail_errors(tx: L2CanonicalTransaction)
    ensures
        (error_count(tx_tail_report(tx)) == 0) <==> {
            &&& forall|k: int| 0 <= k < 4 ==> all_zero(#[trigger] tx.reserved@[k]@)
            &&& tx.signature@.len() == 0
            &&& tx.paymaster_input@.len() == 0
            &&& tx.reserved_dynamic@.len() == 0
        },
{
    let reserved_zero = forall|k: int| 0 <= k < 4 ==> all_zero(#[trigger] tx.reserved@[k]@);
    let c1 = error_if(!reserved_zero, IssueOf::TxReserved);
    let c2 = error_if(tx.signature@.len() != 0, IssueOf::TxSignature);
    let c3 = error_if(tx.paymaster_input@.len() != 0, IssueOf::TxPaymasterInput);
    let c4 = error_if(tx.reserved_dynamic@.len() != 0, IssueOf::TxReservedDynamic);
    lemma_error_if_count(!reserved_zero, IssueOf::TxReserved);
    lemma_error_if_count(tx.signature@.len() != 0, IssueOf::TxSignature);
    lemma_error_if_count(tx.paymaster_input@.len() != 0, IssueOf::TxPaymasterInput);
    lemma_error_if_count(tx.reserved_dynamic@.len() != 0, IssueOf::TxReservedDynamic);
    lemma_error_count_append(c1, c2);
    lemma_error_count_append(c1 + c2, c3);
    lemma_error_count_append(c1 + c2 + c3, c4);
}

/// The check of the upgrade transaction's plain fields records no error
/// exactly when every field holds its required value.
pub proof fn lemma_tx_fields_pass_iff(tx: L2CanonicalTransaction, expected_minor: u64)
    ensures
        (error_count(tx_fields_report(tx, expected_minor)) == 0) <==> tx_fields_ok(tx, expected_minor),
{
    lemma_tx_head_errors(tx);
    lemma_tx_fees_errors(tx, expected_minor);
    lemma_tx_tail_errors(tx);
    lemma_error_count_append(tx_head_report(tx), tx_fees_report(tx, expected_minor));
    lemma_error_count_append(tx_head_report(tx) + tx_fees_report(tx, expected_minor), tx_tail_report(tx));
}


/// The plain fields of the upgrade transaction record no error exactly when
/// its type is 254, it is sent from 0x8007 (the force deployer) to 0x800f
/// (the complex upgrader), its gas limit is 72,000,000 and its gas per
/// pubdata byte limit 800, its nonce is the expected minor version, its
/// fees, paymaster, value and reserved words are zero, and its signature,
/// paymaster input and reserved bytes are empty.
pub proof fn lemma_tx_fields_pass_iff_values(tx: L2CanonicalTransaction, expected_minor: u64)
    ensures
        (error_count(tx_fields_report(tx, expected_minor)) == 0) <==> {
            &&& be_value(tx.tx_type@) == 254
            &&& be_value(tx.from@) == 0x8007
            &&& be_value(tx.to@) == 0x800f
            &&& be_value(tx.gas_limit@) == 72_000_000
            &&& be_value(tx.gas_per_pubdata_byte_limit@) == 800
            &&& be_value(tx.nonce@) == expected_minor as nat
            &&& all_zero(tx.max_fee_per_gas@)
            &&& all_zero(tx.max_priority_fee_per_gas@)
            &&& all_zero(tx.paymaster@)
            &&& all_zero(tx.value@)
            &&& forall|k: int| 0 <= k < 4 ==> all_zero(#[trigger] tx.reserved@[k]@)
            &&& tx.signature@.len() == 0
            &&& tx.paymaster_input@.len() == 0
            &&& tx.reserved_dynamic@.len() == 0
        },
{
    lemma_tx_fields_pass_iff(tx, expected_minor);
    lemma_word_is_value(tx.tx_type, 254);
    lemma_word_is_value(tx.from, 0x8007);
    lemma_word_is_value(tx.to, 0x800f);
    lemma_word_is_value(tx.gas_limit, 72_000_000);
    lemma_word_is_value(tx.gas_per_pubdata_byte_limit, 800);
    lemma_word_is_value(tx.nonce, expected_minor);
}

/// A word is the word of `n` exactly when it reads back as `n`.
proof fn lemma_word_is_value(w: Word, n: u64)
    ensures
        (w@ == word_of(n as nat)) <==> (be_value(w@) == n as nat),
{
    reveal_with_fuel(pow256, 33);
    lemma_be_value_of_bytes(n as nat, 32);
    vstd::arithmetic::div_mod::lemma_small_mod(n as nat, pow256(32));
    lemma_be_bytes_of_value(w@);
}

/// The asset id of a token bridged through the native token vault is the
/// Keccak-256 hash of three ABI words: the first reads back as the chain
/// id, the second holds, behind twelve zero bytes, the vault's address
/// 0x10004, and the third the token's address.
pub proof fn lemma_ntv_asset_id_preimage(chain_id: u64, token_address: Address)
    ensures
        exists|s: Seq<u8>|
            {
                &&& ntv_asset_id(chain_id, token_address) == #[trigger] keccak256_of(s)
                &&& s.len() == 96
                &&& be_value(s.take(32)) == chain_id as nat
                &&& all_zero(s.subrange(32, 44))
                &&& be_value(s.subrange(44, 64)) == 0x10004
                &&& all_zero(s.subrange(64, 76))
                &&& s.subrange(76, 96) == token_address@
            },
{
    let w = word_of(chain_id as nat);
    let v = address_word(address_of(0x10004));
    let t = address_word(token_address@);
    let s = w + v + t;
    lemma_be_bytes_len(chain_id as nat, 32);
    lemma_be_bytes_len(0x10004, 20);
    assert(s.take(32) =~= w);
    assert(s.subrange(32, 44) =~= v.take(12));
    assert(s.subrange(44, 64) =~= address_of(0x10004));
    assert(s.subrange(64, 76) =~= t.take(12));
    assert(s.subrange(76, 96) =~= token_address@);
    reveal_with_fuel(pow256, 33);
    lemma_be_value_of_bytes(chain_id as nat, 32);
    lemma_be_value_of_bytes(0x10004, 20);
    vstd::arithmetic::div_mod::lemma_small_mod(chain_id as nat, pow256(32));
    vstd::arithmetic::div_mod::lemma_small_mod(0x10004, pow256(20));
    assert(ntv_asset_id(chain_id, token_address) == keccak256_of(s));
    assert(s.len() == 96);
    assert(be_value(s.take(32)) == chain_id as nat);
    assert(all_zero(s.subrange(32, 44)));
    assert(be_value(s.subrange(44, 64)) == 0x10004);
    assert(all_zero(s.subrange(64, 76)));
}

/// A complex upgrade call records no error only if it delegates to the
/// address 0x10001; the ETH whose asset id it must pass is the token at
/// address 1.
pub proof fn lemma_complex_upgrade_pass_values(
    call: ForceDeployAndUpgradeView,
    registry: Seq<(Seq<u8>, Seq<char>)>,
    l1_chain_id: u64,
    owner_address: Address,
)
    requires
        error_count(complex_upgrade_report(call, registry, l1_chain_id, owner_address)) == 0,
    ensures
        be_value(call.delegate_to@) == 0x10001,
        be_value(eth_token_address()@) == 1,
{
    lemma_complex_upgrade_pass_iff(call, registry, l1_chain_id, owner_address);
    let one: Address = [0u8, 0u8, 0u8, 0u8, 0u8, 0u8, 0u8, 0u8, 0u8, 0u8, 0u8, 0u8, 0u8, 0u8, 0u8, 0u8, 0u8, 0u8, 0u8, 1u8];
    assert(one@ =~= address_of(1)) by {
        reveal_with_fuel(be_bytes, 21);
    }
    reveal_with_fuel(pow256, 21);
    lemma_be_bytes_len(1, 20);
    lemma_be_bytes_len(0x10001, 20);
    lemma_be_value_of_bytes(1, 20);
    lemma_be_value_of_bytes(0x10001, 20);
    vstd::arithmetic::div_mod::lemma_small_mod(1, pow256(20));
    vstd::arithmetic::div_mod::lemma_small_mod(0x10001, pow256(20));
    assert(eth_token_address()@ == address_of(1));
}

/// On the gateway the check replaces the gateway's old validator timelocks,
/// on L1 those of L1.
pub proof fn lemma_selected_timelocks(v29: V29)
    ensures
        selected_timelocks(v29, true) == v29.encoded_old_gateway_validator_timelocks@,
        selected_timelocks(v29, false) == v29.encoded_old_validator_timelocks@,
{
}

proof fn lemma_bytecode_check_errors(registry: Seq<(Seq<u8>, Seq<char>)>, hash: Word, expected: Seq<char>)
    ensures
        (error_count(seq![bytecode_check(registry, hash, expected)]) == 0) <==> lookup(registry, hash@)
            == Some(expected),
{
    lemma_error_count_single(bytecode_check(registry, hash, expected));
}

/// The proposed upgrade's own fields hold what version 0.29.1 needs.
pub open spec fn upgrade_fields_ok(
    p: ProposedUpgrade,
    registry: Seq<(Seq<u8>, Seq<char>)>,
    address_book: Seq<(Seq<u8>, Seq<char>)>,
    is_gateway: bool,
    timelocks: Seq<char>,
    validator_timelock: Address,
) -> bool {
    &&& lookup(registry, p.bootloader_hash@) == Some("Bootloader"@)
    &&& lookup(registry, p.default_account_hash@) == Some("system-contracts/DefaultAccount"@)
    &&& lookup(registry, p.evm_emulator_hash@) == Some("EvmEmulator"@)
    &&& lookup(address_book, p.verifier@) == Some(
        if is_gateway {
            "gateway_verifier_addr"@
        } else {
            "verifier"@
        },
    )
    &&& all_zero(p.verifier_params.recursion_node_level_vk_hash@)
    &&& all_zero(p.verifier_params.recursion_leaf_level_vk_hash@)
    &&& all_zero(p.verifier_params.recursion_circuits_set_vks_hash@)
    &&& p.l1_contracts_upgrade_calldata@.len() == 0
    &&& p.post_upgrade_calldata@ == address_list_and_address_encoding(
        decoded_timelocks(timelocks),
        validator_timelock,
    )
    &&& all_zero(p.upgrade_timestamp@)
    &&& unpacked(p.new_protocol_version@) == expected_new_version()
}

/// The checks of the proposed upgrade's own fields record no error exactly
/// when every field holds what version 0.29.1 needs; the post upgrade
/// calldata must then be the encoding of the old timelocks and the new one.
pub proof fn lemma_upgrade_fields_pass_iff(
    p: ProposedUpgrade,
    registry: Seq<(Seq<u8>, Seq<char>)>,
    address_book: Seq<(Seq<u8>, Seq<char>)>,
    is_gateway: bool,
    timelocks: Seq<char>,
    validator_timelock: Address,
)
    ensures
        (error_count(upgrade_fields_report(p, registry, address_book, is_gateway, timelocks, validator_timelock))
            == 0) <==> upgrade_fields_ok(p, registry, address_book, is_gateway, timelocks, validator_timelock),
{
    let b1 = bytecode_check(registry, p.bootloader_hash, "Bootloader"@);
    let b2 = bytecode_check(registry, p.default_account_hash, "system-contracts/DefaultAccount"@);
    let b3 = bytecode_check(registry, p.evm_emulator_hash, "EvmEmulator"@);
    lemma_bytecode_check_errors(registry, p.bootloader_hash, "Bootloader"@);
    lemma_bytecode_check_errors(registry, p.default_account_hash, "system-contracts/DefaultAccount"@);
    lemma_bytecode_check_errors(registry, p.evm_emulator_hash, "EvmEmulator"@);
    assert(upgrade_bytecodes_report(p, registry) == seq![b1] + seq![b2] + seq![b3]);
    lemma_error_count_append(seq![b1], seq![b2]);
    lemma_error_count_append(seq![b1] + seq![b2], seq![b3]);
    let name = lookup(address_book, p.verifier@);
    let params_zero = all_zero(p.verifier_params.recursion_node_level_vk_hash@) && all_zero(
        p.verifier_params.recursion_leaf_level_vk_hash@,
    ) && all_zero(p.verifier_params.recursion_circuits_set_vks_hash@);
    lemma_error_if_count(
        name != Some(expected_verifier_name(is_gateway)),
        IssueOf::Verifier { name, address: p.verifier },
    );
    lemma_error_if_count(!params_zero, IssueOf::VerifierParams);
    lemma_error_count_append(
        error_if(name != Some(expected_verifier_name(is_gateway)), IssueOf::Verifier { name, address: p.verifier }),
        error_if(!params_zero, IssueOf::VerifierParams),
    );
    let l1 = error_if(p.l1_contracts_upgrade_calldata@.len() != 0, IssueOf::L1ContractsUpgradeCalldata);
    lemma_error_if_count(p.l1_contracts_upgrade_calldata@.len() != 0, IssueOf::L1ContractsUpgradeCalldata);
    let expected = address_list_and_address_encoding(decoded_timelocks(timelocks), validator_timelock);
    let post = if p.post_upgrade_calldata@.len() == 0 {
        seq![EntryOf::Error(IssueOf::MissingPostUpgradeCalldata)]
    } else {
        error_if(
            p.post_upgrade_calldata@ != expected,
            IssueOf::PostUpgradeCalldata { got: p.post_upgrade_calldata@, expected },
        )
    };
    if p.post_upgrade_calldata@.len() == 0 {
        lemma_error_count_single(EntryOf::Error(IssueOf::MissingPostUpgradeCalldata));
        crate::bytes::lemma_be_bytes_len(32, 32);
        assert(expected.len() > 0);
    } else {
        lemma_error_if_count(
            p.post_upgrade_calldata@ != expected,
            IssueOf::PostUpgradeCalldata { got: p.post_upgrade_calldata@, expected },
        );
    }
    lemma_error_count_append(l1, post);
    let ts = error_if(!all_zero(p.upgrade_timestamp@), IssueOf::UpgradeTimestamp);
    let ver = error_if(
        unpacked(p.new_protocol_version@) != expected_new_version(),
        IssueOf::ProtocolVersion { got: unpacked(p.new_protocol_version@), expected: expected_new_version() },
    );
    lemma_error_if_count(!all_zero(p.upgrade_timestamp@), IssueOf::UpgradeTimestamp);
    lemma_error_if_count(
        unpacked(p.new_protocol_version@) != expected_new_version(),
        IssueOf::ProtocolVersion { got: unpacked(p.new_protocol_version@), expected: expected_new_version() },
    );
    lemma_error_count_append(ts, ver);
    let a = upgrade_bytecodes_report(p, registry);
    let b = upgrade_verifier_report(p, address_book, is_gateway);
    let c = upgrade_calldata_report(p, timelocks, validator_timelock);
    let d = upgrade_version_report(p);
    lemma_error_count_append(a, b);
    lemma_error_count_append(a + b, c);
    lemma_error_count_append(a + b + c, d);
}

/// The check of the upgrade transaction's `forceDeployAndUpgrade` call
/// records no error exactly when the upgrade call it delegates decodes, the
/// call force-deploys the expected contracts one for one (each as
/// `deployment_ok` says, with the chain asset handler input of the L1 chain
/// and owner), delegates to the genesis upgrade contract, and passes the
/// aliased owner and the ETH asset id of the L1 chain.
pub proof fn lemma_complex_upgrade_pass_iff(
    call: ForceDeployAndUpgradeView,
    registry: Seq<(Seq<u8>, Seq<char>)>,
    l1_chain_id: u64,
    owner_address: Address,
)
    ensures
        (error_count(complex_upgrade_report(call, registry, l1_chain_id, owner_address)) == 0) <==> {
            &&& decoded_upgrade_call(call.calldata) is Some
            &&& call.force_deployments.len() == expected_deployments_view().len()
            &&& forall|i: int|
                0 <= i < expected_deployments_view().len() ==> #[trigger] deployment_ok(
                    call.force_deployments[i],
                    expected_deployments_view()[i].0,
                    expected_deployments_view()[i].1,
                    expected_deployments_view()[i].2,
                    registry,
                    chain_asset_handler_input(l1_chain_id, owner_address),
                )
            &&& call.delegate_to@ == address_of(L2_GENESIS_UPGRADE_ADDR as nat)
            &&& decoded_upgrade_call(call.calldata)->0.aliased_governance == address_from_seq(
                aliased(owner_address@),
            )
            &&& decoded_upgrade_call(call.calldata)->0.bridged_eth_asset_id == word_from_seq(
                ntv_asset_id(l1_chain_id, eth_token_address()),
            )
        },
{
    match decoded_upgrade_call(call.calldata) {
        None => {
            lemma_error_count_single(EntryOf::Error(IssueOf::UndecodableDelegateCalldata));
        },
        Some(u) => {
            let gov = address_from_seq(aliased(owner_address@));
            let asset = word_from_seq(ntv_asset_id(l1_chain_id, eth_token_address()));
            lemma_force_deployments_pass_iff(
                call,
                u,
                expected_deployments_view(),
                registry,
                gov,
                asset,
                l1_chain_id,
                owner_address,
            );
            lemma_address_from_seq(u.aliased_governance);
            lemma_address_from_seq(gov);
            lemma_word_from_seq(u.bridged_eth_asset_id);
            lemma_word_from_seq(asset);
        },
    }
}

proof fn lemma_contains_concat<A>(a: Seq<A>, b: Seq<A>, x: A)
    ensures
        (a + b).contains(x) <==> (a.contains(x) || b.contains(x)),
{
    if (a + b).contains(x) {
        let k = choose|k: int| 0 <= k < (a + b).len() && (a + b)[k] == x;
        if k < a.len() {
            assert(a[k] == x);
        } else {
            assert(b[k - a.len()] == x);
        }
    }
    if a.contains(x) {
        let k = choose|k: int| 0 <= k < a.len() && a[k] == x;
        assert((a + b)[k] == x);
    }
    if b.contains(x) {
        let k = choose|k: int| 0 <= k < b.len() && b[k] == x;
        assert((a + b)[k + a.len()] == x);
    }
}

proof fn lemma_error_if_contains(cond: bool, issue: IssueView, e: EntryView)
    ensures
        error_if(cond, issue).contains(e) <==> (cond && e == EntryOf::<Seq<char>, Seq<Seq<char>>, Seq<u8>>::Error(issue)),
{
    if cond {
        assert(error_if(cond, issue)[0] == EntryOf::<Seq<char>, Seq<Seq<char>>, Seq<u8>>::Error(issue));
    }
}

/// The check of the upgrade transaction's plain fields reports the nonce
/// exactly when the nonce is not the expected minor version.
pub proof fn lemma_nonce_reported_iff(tx: L2CanonicalTransaction, expected_minor: u64)
    ensures
        tx_fields_report(tx, expected_minor).contains(
            EntryOf::Error(IssueOf::TxNonce { got: tx.nonce, expected_minor }),
        ) <==> tx.nonce@ != word_of(expected_minor as nat),
{
    let e = EntryOf::Error(IssueOf::TxNonce { got: tx.nonce, expected_minor });
    let a1 = error_if(tx.tx_type@ != word_of(PROTOCOL_UPGRADE_TX_TYPE as nat), IssueOf::TxType);
    let a2 = error_if(tx.from@ != word_of(FORCE_DEPLOYER_ADDRESS as nat), IssueOf::TxFrom);
    let a3 = error_if(tx.to@ != word_of(COMPLEX_UPGRADER_ADDRESS as nat), IssueOf::TxTo { got: tx.to });
    let a4 = error_if(tx.gas_limit@ != word_of(UPGRADE_TX_GAS_LIMIT as nat), IssueOf::TxGasLimit);
    let a5 = error_if(
        tx.gas_per_pubdata_byte_limit@ != word_of(UPGRADE_TX_GAS_PER_PUBDATA_BYTE_LIMIT as nat),
        IssueOf::TxGasPerPubdataByteLimit,
    );
    lemma_error_if_contains(tx.tx_type@ != word_of(PROTOCOL_UPGRADE_TX_TYPE as nat), IssueOf::TxType, e);
    lemma_error_if_contains(tx.from@ != word_of(FORCE_DEPLOYER_ADDRESS as nat), IssueOf::TxFrom, e);
    lemma_error_if_contains(tx.to@ != word_of(COMPLEX_UPGRADER_ADDRESS as nat), IssueOf::TxTo { got: tx.to }, e);
    lemma_error_if_contains(tx.gas_limit@ != word_of(UPGRADE_TX_GAS_LIMIT as nat), IssueOf::TxGasLimit, e);
    lemma_error_if_contains(
        tx.gas_per_pubdata_byte_limit@ != word_of(UPGRADE_TX_GAS_PER_PUBDATA_BYTE_LIMIT as nat),
        IssueOf::TxGasPerPubdataByteLimit,
        e,
    );
    lemma_contains_concat(a1, a2, e);
    lemma_contains_concat(a1 + a2, a3, e);
    lemma_contains_concat(a1 + a2 + a3, a4, e);
    lemma_contains_concat(a1 + a2 + a3 + a4, a5, e);
    let b1 = error_if(!all_zero(tx.max_fee_per_gas@), IssueOf::TxMaxFeePerGas);
    let b2 = error_if(!all_zero(tx.max_priority_fee_per_gas@), IssueOf::TxMaxPriorityFeePerGas);
    let b3 = error_if(!all_zero(tx.paymaster@), IssueOf::TxPaymaster);
    let b4 = error_if(tx.nonce@ != word_of(expected_minor as nat), IssueOf::TxNonce { got: tx.nonce, expected_minor });
    let b5 = error_if(!all_zero(tx.value@), IssueOf::TxValue);
    lemma_error_if_contains(!all_zero(tx.max_fee_per_gas@), IssueOf::TxMaxFeePerGas, e);
    lemma_error_if_contains(!all_zero(tx.max_priority_fee_per_gas@), IssueOf::TxMaxPriorityFeePerGas, e);
    lemma_error_if_contains(!all_zero(tx.paymaster@), IssueOf::TxPaymaster, e);
    lemma_error_if_contains(
        tx.nonce@ != word_of(expected_minor as nat),
        IssueOf::TxNonce { got: tx.nonce, expected_minor },
        e,
    );
    lemma_error_if_contains(!all_zero(tx.value@), IssueOf::TxValue, e);
    lemma_contains_concat(b1, b2, e);
    lemma_contains_concat(b1 + b2, b3, e);
    lemma_contains_concat(b1 + b2 + b3, b4, e);
    lemma_contains_concat(b1 + b2 + b3 + b4, b5, e);
    let reserved_zero = forall|k: int| 0 <= k < 4 ==> all_zero(#[trigger] tx.reserved@[k]@);
    let c1 = error_if(!reserved_zero, IssueOf::TxReserved);
    let c2 = error_if(tx.signature@.len() != 0, IssueOf::TxSignature);
    let c3 = error_if(tx.paymaster_input@.len() != 0, IssueOf::TxPaymasterInput);
    let c4 = error_if(tx.reserved_dynamic@.len() != 0, IssueOf::TxReservedDynamic);
    lemma_error_if_contains(!reserved_zero, IssueOf::TxReserved, e);
    lemma_error_if_contains(tx.signature@.len() != 0, IssueOf::TxSignature, e);
    lemma_error_if_contains(tx.paymaster_input@.len() != 0, IssueOf::TxPaymasterInput, e);
    lemma_error_if_contains(tx.reserved_dynamic@.len() != 0, IssueOf::TxReservedDynamic, e);
    lemma_contains_concat(c1, c2, e);
    lemma_contains_concat(c1 + c2, c3, e);
    lemma_contains_concat(c1 + c2 + c3, c4, e);
    assert(tx_head_report(tx) == a1 + a2 + a3 + a4 + a5);
    assert(tx_fees_report(tx, expected_minor) == b1 + b2 + b3 + b4 + b5);
    assert(tx_tail_report(tx) == c1 + c2 + c3 + c4);
    lemma_contains_concat(tx_head_report(tx), tx_fees_report(tx, expected_minor), e);
    lemma_contains_concat(tx_head_report(tx) + tx_fees_report(tx, expected_minor), tx_tail_report(tx), e);
}

/// Different old timelocks or a different new timelock give different post
/// upgrade calldata: the calldata determines both.
pub proof fn lemma_post_upgrade_calldata_injective(
    old1: Seq<Address>,
    new1: Address,
    old2: Seq<Address>,
    new2: Address,
)
    requires
        address_list_and_address_encoding(old1, new1) == address_list_and_address_encoding(old2, new2),
    ensures
        old1 == old2,
        new1 == new2,
{
    let e = address_list_and_address_encoding(old1, new1);
    lemma_address_words_len(old1);
    lemma_address_words_len(old2);
    lemma_be_bytes_len(32, 32);
    lemma_be_bytes_len(64, 32);
    lemma_be_bytes_len(old1.len(), 32);
    lemma_be_bytes_len(old2.len(), 32);
    assert(e.len() == 128 + 32 * old1.len());
    assert(address_list_and_address_encoding(old2, new2).len() == 128 + 32 * old2.len());
    assert(address_word(new1@) =~= e.subrange(64, 96));
    assert(address_word(new2@) =~= e.subrange(64, 96));
    assert(new1@ =~= address_word(new1@).skip(12));
    assert(new2@ =~= address_word(new2@).skip(12));
    lemma_address_from_seq(new1);
    lemma_address_from_seq(new2);
    assert(address_words(old1) =~= e.skip(128));
    assert(address_words(old2) =~= e.skip(128));
    lemma_address_words_injective(old1, old2);
}

} // verus!
