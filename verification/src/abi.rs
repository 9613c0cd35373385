//! Solidity ABI encoding and decoding, and hashing, by the `alloy` crate.

use vstd::prelude::*;
use vstd::string::StringSliceAdditionalSpecFns;
use alloy::primitives::U256;
use alloy::primitives::Address as AlloyAddress;
use alloy::sol_types::sol_data::{Array, Bool, FixedBytes, Uint};
use alloy::sol_types::{sol_data, SolType, SolValue};
use crate::bytes::{address_word, word_of, Address, Word};
use crate::force_deployment::{ForceDeployAndUpgrade, ForceDeployAndUpgradeView, ForceDeployment};

verus! {

/// The Keccak-256 hash of `data`.
pub uninterp spec fn keccak256_of(data: Seq<u8>) -> Seq<u8>;

/// What `alloy`'s ABI decoder makes of the parameters of
/// `forceDeployAndUpgrade((bytes32,address,bool,uint256,bytes)[],address,bytes)`
/// (the calldata without its selector), with validation on.
pub uninterp spec fn decoded_force_deploy_params(params: Seq<u8>) -> Option<ForceDeployAndUpgradeView>;

/// The ABI words of a list of addresses, one after another.
pub open spec fn address_words(v: Seq<Address>) -> Seq<u8>
    decreases v.len(),
{
    if v.len() == 0 {
        Seq::empty()
    } else {
        address_words(v.drop_last()) + address_word(v.last()@)
    }
}

/// The ABI encoding of an `address[]` value on its own: the offset of the
/// array (32), its length, then its elements.
pub open spec fn address_list_encoding(v: Seq<Address>) -> Seq<u8> {
    word_of(32) + word_of(v.len()) + address_words(v)
}

/// The ABI encoding of an `(address[], address)` tuple on its own.
pub open spec fn address_list_and_address_encoding(list: Seq<Address>, last: Address) -> Seq<u8> {
    word_of(32) + word_of(64) + address_word(last@) + word_of(list.len()) + address_words(list)
}

/// A hex digit of either case.
pub open spec fn is_hex_digit(c: char) -> bool {
    ('0' <= c <= '9') || ('a' <= c <= 'f') || ('A' <= c <= 'F')
}

/// The value of a hex digit.
pub open spec fn hex_digit_value(c: char) -> int {
    if '0' <= c <= '9' {
        c as int - '0' as int
    } else if 'a' <= c <= 'f' {
        c as int - 'a' as int + 10
    } else {
        c as int - 'A' as int + 10
    }
}

/// `s` without a leading `0x` or `0X`.
pub open spec fn without_hex_prefix(s: Seq<char>) -> Seq<char> {
    if s.len() >= 2 && s[0] == '0' && (s[1] == 'x' || s[1] == 'X') {
        s.skip(2)
    } else {
        s
    }
}

/// The bytes that a hex string denotes: after an optional `0x`, an even
/// number of hex digits of either case, two per byte.
pub open spec fn hex_decoded(s: Seq<char>) -> Option<Seq<u8>> {
    let t = without_hex_prefix(s);
    if t.len() % 2 == 0 && forall|i: int| 0 <= i < t.len() ==> is_hex_digit(#[trigger] t[i]) {
        Some(
            Seq::new(
                t.len() / 2,
                |i: int| (hex_digit_value(t[2 * i]) * 16 + hex_digit_value(t[2 * i + 1])) as u8,
            ),
        )
    } else {
        None
    }
}

/// The selector of the function with the given signature: the first four
/// bytes of the signature's Keccak-256 hash.
pub open spec fn selector_of(signature: Seq<u8>) -> Seq<u8> {
    keccak256_of(signature).take(4)
}

/// The selector of the function with the given signature.
pub fn function_selector(signature: &str) -> (r: [u8; 4])
    ensures
        r@ == selector_of(signature.spec_bytes()),
{
    let h = keccak256(signature.as_bytes());
    let r = [h[0], h[1], h[2], h[3]];
    assert(r@ =~= keccak256_of(signature.spec_bytes()).take(4));
    r
}

/// `alloy::primitives::keccak256`: the Keccak-256 hash of `data`.
#[verifier::external_body]
pub(crate) fn keccak256(data: &[u8]) -> (h: Word)
    ensures
        h@ == keccak256_of(data@),
{
    alloy::primitives::keccak256(data).0
}

/// `SolValue::abi_encode` of a `(uint256, address, address)` tuple: three
/// words, the number and the two addresses left-padded to 32 bytes.
#[verifier::external_body]
pub(crate) fn abi_encode_uint_and_two_addresses(n: u64, a: &Address, b: &Address) -> (r: Vec<u8>)
    ensures
        r@ == word_of(n as nat) + address_word(a@) + address_word(b@),
{
    (U256::from(n), AlloyAddress::from(*a), AlloyAddress::from(*b))
        .abi_encode()
}

/// `SolValue::abi_encode` of a `(uint256, address, address, address, address)`
/// tuple: five words, the number and the addresses left-padded to 32 bytes.
#[verifier::external_body]
pub(crate) fn abi_encode_uint_and_four_addresses(
    n: u64,
    a: &Address,
    b: &Address,
    c: &Address,
    d: &Address,
) -> (r: Vec<u8>)
    ensures
        r@ == word_of(n as nat) + address_word(a@) + address_word(b@) + address_word(c@)
            + address_word(d@),
{
    let (a, b) = (AlloyAddress::from(*a), AlloyAddress::from(*b));
    let (c, d) = (AlloyAddress::from(*c), AlloyAddress::from(*d));
    (U256::from(n), a, b, c, d).abi_encode()
}

/// `SolValue::abi_encode` of an `(address[], address)` tuple: the offset of
/// the tuple, the offset of the array within it, the address, the array's
/// length and its elements, each a word.
#[verifier::external_body]
pub(crate) fn abi_encode_address_list_and_address(list: &Vec<Address>, last: &Address) -> (r: Vec<u8>)
    ensures
        r@ == address_list_and_address_encoding(list@, *last),
{
    let list: Vec<AlloyAddress> = list.iter().map(|a| (*a).into()).collect();
    (list, AlloyAddress::from(*last)).abi_encode()
}

/// `<(address[], address) as SolType>::abi_decode(data, true)`: succeeds
/// exactly on the encoding of an address list and an address (the decoder
/// re-encodes what it read and refuses a mismatch, and refuses an address
/// word whose first twelve bytes are not zero).
#[verifier::external_body]
pub(crate) fn abi_decode_address_list_and_address(data: &[u8]) -> (r: Option<(Vec<Address>, Address)>)
    ensures
        match r {
            Some((list, last)) => data@ == address_list_and_address_encoding(list@, last),
            None => forall|list: Seq<Address>, last: Address|
                data@ != #[trigger] address_list_and_address_encoding(list, last),
        },
{
    let (list, last) =
        <(Array<sol_data::Address>, sol_data::Address) as SolType>::abi_decode(data, true).ok()?;
    Some((list.into_iter().map(|a| a.into_array()).collect(), last.into_array()))
}

/// `<address[] as SolType>::abi_decode(data, true)`: succeeds exactly on the
/// encoding of an address list (the decoder re-encodes what it read and
/// refuses a mismatch, and refuses an address word whose first twelve bytes
/// are not zero).
#[verifier::external_body]
pub(crate) fn abi_decode_address_list(data: &[u8]) -> (r: Option<Vec<Address>>)
    ensures
        match r {
            Some(v) => data@ == address_list_encoding(v@),
            None => forall|v: Seq<Address>| data@ != address_list_encoding(v),
        },
{
    let decoded = <sol_data::Array<sol_data::Address> as SolType>::abi_decode(data, true).ok()?;
    Some(decoded.into_iter().map(|a| a.into_array()).collect())
}

/// `<(address, bytes32) as SolType>::abi_decode_sequence(data, true)`:
/// succeeds exactly on 64 bytes whose first twelve are zero; the address is
/// the rest of the first word, the `bytes32` the second word.
#[verifier::external_body]
pub(crate) fn abi_decode_address_and_word(data: &[u8]) -> (r: Option<(Address, Word)>)
    ensures
        match r {
            Some((a, w)) => {
                &&& data@.len() == 64
                &&& forall|i: int| 0 <= i < 12 ==> data@[i] == 0
                &&& a@ == data@.subrange(12, 32)
                &&& w@ == data@.subrange(32, 64)
            },
            None => !(data@.len() == 64 && forall|i: int| 0 <= i < 12 ==> data@[i] == 0),
        },
{
    let (a, w) =
        <(sol_data::Address, FixedBytes<32>) as SolType>::abi_decode_sequence(data, true).ok()?;
    Some((a.into_array(), w.0))
}

/// `<((bytes32,address,bool,uint256,bytes)[], address, bytes) as SolType>::abi_decode_sequence(data, true)`,
/// the parameters of `forceDeployAndUpgrade`; its result is named, not stated.
#[verifier::external_body]
pub(crate) fn abi_decode_force_deploy_params(data: &[u8]) -> (r: Option<ForceDeployAndUpgrade>)
    ensures
        match r {
            Some(c) => decoded_force_deploy_params(data@) == Some(c@),
            None => decoded_force_deploy_params(data@) is None,
        },
{
    let (list, delegate_to, calldata) = <(
        Array<(FixedBytes<32>, sol_data::Address, Bool, Uint<256>, sol_data::Bytes)>,
        sol_data::Address,
        sol_data::Bytes,
    ) as SolType>::abi_decode_sequence(data, true).ok()?;
    let force_deployments = list.into_iter().map(|(h, a, c, v, i)| ForceDeployment {
        bytecode_hash: h.0, new_address: a.into_array(), call_constructor: c, value: v.to_be_bytes::<32>(), input: i.to_vec(),
    }).collect();
    Some(ForceDeployAndUpgrade { force_deployments, delegate_to: delegate_to.into_array(), calldata: calldata.to_vec() })
}

/// `alloy::hex::decode`: the bytes a hex string denotes, if it is one.
#[verifier::external_body]
pub(crate) fn hex_decode(s: &str) -> (r: Option<Vec<u8>>)
    ensures
        match r {
            Some(v) => hex_decoded(s@) == Some(v@),
            None => hex_decoded(s@) is None,
        },
{
    alloy::hex::decode(s).ok()
}

} // verus!
