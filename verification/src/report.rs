//! The report that the checks fill: notes, and the errors that were found.

use vstd::prelude::*;
use crate::bytes::{Address, Word};
use crate::protocol_version::ProtocolVersion;

verus! {

/// Something a check found wrong with the upgrade; `S` holds names, `L`
/// lists of names and `B` byte strings.
#[derive(Debug, Clone, PartialEq, Eq)]
pub enum IssueOf<S, L, B> {
    /// The number of force deployments differs from the expected one.
    ForceDeploymentCount { expected: usize, got: usize },
    /// A force deployment targets another address than expected.
    ForceDeploymentAddress { contract: S, expected: Address, got: Address },
    /// A force deployment calls (or skips) the constructor unexpectedly.
    ForceDeploymentConstructor { contract: S, expected: bool, got: bool },
    /// A force deployment carries value.
    ForceDeploymentValue { contract: S },
    /// A force deployment carries constructor input it should not have.
    ForceDeploymentInput { contract: S },
    /// The chain asset handler's constructor input is not the expected one.
    ChainAssetHandlerInput { expected: B, got: B },
    /// A force deployment beyond the expected ones.
    ExtraForceDeployment { address: Address, bytecode_hash: Word },
    /// The complex upgrade delegates to another contract than the genesis upgrade.
    DelegateTo { got: Address },
    /// The aliased governance passed to the L2 upgrade is wrong.
    AliasedGovernance { expected: Address, got: Address },
    /// The bridged ETH asset id passed to the L2 upgrade is wrong.
    BridgedEthAssetId { expected: Word, got: Word },
    /// A bytecode hash belongs to another file than expected.
    BytecodeFromWrongFile { expected: S, got: S },
    /// A bytecode hash belongs to no known file.
    MissingBytecode { expected: S, hash: Word },
    /// The upgrade transaction's type is wrong.
    TxType,
    /// The upgrade transaction's sender is wrong.
    TxFrom,
    /// The upgrade transaction's receiver is wrong.
    TxTo { got: Word },
    /// The upgrade transaction's gas limit is wrong.
    TxGasLimit,
    /// The upgrade transaction's gas per pubdata byte limit is wrong.
    TxGasPerPubdataByteLimit,
    /// The upgrade transaction's max fee per gas is not zero.
    TxMaxFeePerGas,
    /// The upgrade transaction's max priority fee per gas is not zero.
    TxMaxPriorityFeePerGas,
    /// The upgrade transaction has a paymaster.
    TxPaymaster,
    /// The upgrade transaction's nonce is not the new minor version.
    TxNonce { got: Word, expected_minor: u64 },
    /// The upgrade transaction carries value.
    TxValue,
    /// The upgrade transaction's reserved words are not zero.
    TxReserved,
    /// The upgrade transaction has a signature.
    TxSignature,
    /// The upgrade transaction has paymaster input.
    TxPaymasterInput,
    /// The upgrade transaction's reserved dynamic field is not empty.
    TxReservedDynamic,
    /// A factory dependency whose hash belongs to no known file.
    UnknownFactoryDependency { hash: Word },
    /// A factory dependency that is not expected (or comes twice).
    UnexpectedFactoryDependency { file: S },
    /// A factory dependency that was never published.
    UnpublishedBytecode { file: S },
    /// Expected factory dependencies that are missing.
    MissingFactoryDependencies { files: L },
    /// The calldata of the delegated upgrade cannot be decoded.
    UndecodableDelegateCalldata,
    /// The verifier is not the expected contract.
    Verifier { name: Option<S>, address: Address },
    /// The verifier parameters are not all zero.
    VerifierParams,
    /// The L1 contracts upgrade calldata is not empty.
    L1ContractsUpgradeCalldata,
    /// The post upgrade calldata is empty.
    MissingPostUpgradeCalldata,
    /// The post upgrade calldata is not the expected one.
    PostUpgradeCalldata { got: B, expected: B },
    /// The upgrade timestamp is not zero.
    UpgradeTimestamp,
    /// The new protocol version is not the expected one.
    ProtocolVersion { got: ProtocolVersion, expected: ProtocolVersion },
}

/// A note the checks leave beside the errors.
#[derive(Debug, Clone, PartialEq, Eq)]
pub enum NoteOf<S> {
    /// The checks of the chain upgrade's init calldata begin.
    CheckingChainUpgradeInitCalldata,
    /// The force deployments were gone through.
    ForceDeploymentsVerified,
    /// The proposed upgrade had no error.
    ProposedUpgradeInfoCorrect,
    /// A bytecode hash belongs to the expected file.
    BytecodeMatches { file: S },
}

/// One line of the report.
#[derive(Debug, Clone, PartialEq, Eq)]
pub enum EntryOf<S, L, B> {
    Info(NoteOf<S>),
    Passed(NoteOf<S>),
    Error(IssueOf<S, L, B>),
}

/// An issue as the checks record it.
pub type Issue = IssueOf<String, Vec<String>, Vec<u8>>;

/// A note as the checks record it.
pub type Note = NoteOf<String>;

/// A report entry as the checks record it.
pub type Entry = EntryOf<String, Vec<String>, Vec<u8>>;

/// An issue with names and bytes taken by their views.
pub type IssueView = IssueOf<Seq<char>, Seq<Seq<char>>, Seq<u8>>;

/// A note with names taken by their views.
pub type NoteView = NoteOf<Seq<char>>;

/// A report entry with names and bytes taken by their views.
pub type EntryView = EntryOf<Seq<char>, Seq<Seq<char>>, Seq<u8>>;

/// The views of a list of names.
pub open spec fn names_view(names: Seq<String>) -> Seq<Seq<char>> {
    names.map_values(|n: String| n@)
}

impl View for IssueOf<String, Vec<String>, Vec<u8>> {
    type V = IssueView;

    open spec fn view(&self) -> IssueView {
        match self {
            IssueOf::ForceDeploymentCount { expected, got } => IssueOf::ForceDeploymentCount {
                expected: *expected,
                got: *got,
            },
            IssueOf::ForceDeploymentAddress { contract, expected, got } =>
                IssueOf::ForceDeploymentAddress { contract: contract@, expected: *expected, got: *got },
            IssueOf::ForceDeploymentConstructor { contract, expected, got } =>
                IssueOf::ForceDeploymentConstructor {
                    contract: contract@,
                    expected: *expected,
                    got: *got,
                },
            IssueOf::ForceDeploymentValue { contract } => IssueOf::ForceDeploymentValue {
                contract: contract@,
            },
            IssueOf::ForceDeploymentInput { contract } => IssueOf::ForceDeploymentInput {
                contract: contract@,
            },
            IssueOf::ChainAssetHandlerInput { expected, got } => IssueOf::ChainAssetHandlerInput {
                expected: expected@,
                got: got@,
            },
            IssueOf::ExtraForceDeployment { address, bytecode_hash } =>
                IssueOf::ExtraForceDeployment { address: *address, bytecode_hash: *bytecode_hash },
            IssueOf::DelegateTo { got } => IssueOf::DelegateTo { got: *got },
            IssueOf::AliasedGovernance { expected, got } => IssueOf::AliasedGovernance {
                expected: *expected,
                got: *got,
            },
            IssueOf::BridgedEthAssetId { expected, got } => IssueOf::BridgedEthAssetId {
                expected: *expected,
                got: *got,
            },
            IssueOf::BytecodeFromWrongFile { expected, got } => IssueOf::BytecodeFromWrongFile {
                expected: expected@,
                got: got@,
            },
            IssueOf::MissingBytecode { expected, hash } => IssueOf::MissingBytecode {
                expected: expected@,
                hash: *hash,
            },
            IssueOf::TxType => IssueOf::TxType,
            IssueOf::TxFrom => IssueOf::TxFrom,
            IssueOf::TxTo { got } => IssueOf::TxTo { got: *got },
            IssueOf::TxGasLimit => IssueOf::TxGasLimit,
            IssueOf::TxGasPerPubdataByteLimit => IssueOf::TxGasPerPubdataByteLimit,
            IssueOf::TxMaxFeePerGas => IssueOf::TxMaxFeePerGas,
            IssueOf::TxMaxPriorityFeePerGas => IssueOf::TxMaxPriorityFeePerGas,
            IssueOf::TxPaymaster => IssueOf::TxPaymaster,
            IssueOf::TxNonce { got, expected_minor } => IssueOf::TxNonce {
                got: *got,
                expected_minor: *expected_minor,
            },
            IssueOf::TxValue => IssueOf::TxValue,
            IssueOf::TxReserved => IssueOf::TxReserved,
            IssueOf::TxSignature => IssueOf::TxSignature,
            IssueOf::TxPaymasterInput => IssueOf::TxPaymasterInput,
            IssueOf::TxReservedDynamic => IssueOf::TxReservedDynamic,
            IssueOf::UnknownFactoryDependency { hash } => IssueOf::UnknownFactoryDependency {
                hash: *hash,
            },
            IssueOf::UnexpectedFactoryDependency { file } => IssueOf::UnexpectedFactoryDependency {
                file: file@,
            },
            IssueOf::UnpublishedBytecode { file } => IssueOf::UnpublishedBytecode { file: file@ },
            IssueOf::MissingFactoryDependencies { files } =>
                IssueOf::MissingFactoryDependencies { files: names_view(files@) },
            IssueOf::UndecodableDelegateCalldata => IssueOf::UndecodableDelegateCalldata,
            IssueOf::Verifier { name, address } => IssueOf::Verifier {
                name: match name {
                    Some(n) => Some(n@),
                    None => None,
                },
                address: *address,
            },
            IssueOf::VerifierParams => IssueOf::VerifierParams,
            IssueOf::L1ContractsUpgradeCalldata => IssueOf::L1ContractsUpgradeCalldata,
            IssueOf::MissingPostUpgradeCalldata => IssueOf::MissingPostUpgradeCalldata,
            IssueOf::PostUpgradeCalldata { got, expected } => IssueOf::PostUpgradeCalldata {
                got: got@,
                expected: expected@,
            },
            IssueOf::UpgradeTimestamp => IssueOf::UpgradeTimestamp,
            IssueOf::ProtocolVersion { got, expected } => IssueOf::ProtocolVersion {
                got: *got,
                expected: *expected,
            },
        }
    }
}

impl View for NoteOf<String> {
    type V = NoteView;

    open spec fn view(&self) -> NoteView {
        match self {
            NoteOf::CheckingChainUpgradeInitCalldata => NoteOf::CheckingChainUpgradeInitCalldata,
            NoteOf::ForceDeploymentsVerified => NoteOf::ForceDeploymentsVerified,
            NoteOf::ProposedUpgradeInfoCorrect => NoteOf::ProposedUpgradeInfoCorrect,
            NoteOf::BytecodeMatches { file } => NoteOf::BytecodeMatches { file: file@ },
        }
    }
}

impl View for EntryOf<String, Vec<String>, Vec<u8>> {
    type V = EntryView;

    open spec fn view(&self) -> EntryView {
        match self {
            EntryOf::Info(n) => EntryOf::Info(n@),
            EntryOf::Passed(n) => EntryOf::Passed(n@),
            EntryOf::Error(i) => EntryOf::Error(i@),
        }
    }
}

/// The number of errors among the entries.
pub open spec fn error_count(entries: Seq<EntryView>) -> nat
    decreases entries.len(),
{
    if entries.len() == 0 {
        0
    } else {
        error_count(entries.drop_last()) + if entries.last() is Error {
            1nat
        } else {
            0nat
        }
    }
}

/// Errors of a concatenation add up.
pub proof fn lemma_error_count_append(a: Seq<EntryView>, b: Seq<EntryView>)
    ensures
        error_count(a + b) == error_count(a) + error_count(b),
    decreases b.len(),
{
    if b.len() == 0 {
        assert(a + b =~= a);
    } else {
        assert((a + b).drop_last() =~= a + b.drop_last());
        lemma_error_count_append(a, b.drop_last());
    }
}

/// A single entry holds one error if it is one.
pub proof fn lemma_error_count_single(e: EntryView)
    ensures
        error_count(seq![e]) == if e is Error {
            1nat
        } else {
            0nat
        },
{
    assert(seq![e].drop_last() =~= Seq::<EntryView>::empty());
    assert(error_count(Seq::<EntryView>::empty()) == 0);
    assert(seq![e].last() == e);
}

/// What the checks found, in the order they found it.
pub struct VerificationResult {
    entries: Vec<Entry>,
}

impl View for VerificationResult {
    type V = Seq<EntryView>;

    closed spec fn view(&self) -> Seq<EntryView> {
        self.entries@.map_values(|e: Entry| e@)
    }
}

impl Default for VerificationResult {
    fn default() -> (r: Self)
        ensures
            r@ == Seq::<EntryView>::empty(),
    {
        VerificationResult::new()
    }
}

impl VerificationResult {
    /// An empty report.
    pub fn new() -> (r: Self)
        ensures
            r@ == Seq::<EntryView>::empty(),
    {
        let r = VerificationResult { entries: Vec::new() };
        assert(r@ =~= Seq::<EntryView>::empty());
        r
    }

    /// Records an error.
    pub fn report_error(&mut self, issue: Issue)
        ensures
            final(self)@ == old(self)@.push(EntryOf::Error(issue@)),
    {
        self.entries.push(EntryOf::Error(issue));
        assert(self@ =~= old(self)@.push(EntryOf::Error(issue@)));
    }

    /// Records that a check passed.
    pub fn report_ok(&mut self, note: Note)
        ensures
            final(self)@ == old(self)@.push(EntryOf::Passed(note@)),
    {
        self.entries.push(EntryOf::Passed(note));
        assert(self@ =~= old(self)@.push(EntryOf::Passed(note@)));
    }

    /// Records a note.
    pub fn print_info(&mut self, note: Note)
        ensures
            final(self)@ == old(self)@.push(EntryOf::Info(note@)),
    {
        self.entries.push(EntryOf::Info(note));
        assert(self@ =~= old(self)@.push(EntryOf::Info(note@)));
    }

    /// The entries so far.
    pub fn entries(&self) -> (r: &Vec<Entry>)
        ensures
            r@.map_values(|e: Entry| e@) == self@,
    {
        &self.entries
    }

    /// The number of errors so far.
    pub fn errors(&self) -> (n: usize)
        ensures
            n == error_count(self@),
    {
        let mut n: usize = 0;
        let mut i: usize = 0;
        let ghost v = self@;
        while i < self.entries.len()
            invariant
                i <= self.entries@.len(),
                v == self.entries@.map_values(|e: Entry| e@),
                n == error_count(v.take(i as int)),
                n <= i,
            decreases self.entries@.len() - i,
        {
            assert(v.take(i + 1).drop_last() =~= v.take(i as int));
            assert(v.take(i + 1).last() == self.entries@[i as int]@);
            if let EntryOf::Error(_) = &self.entries[i] {
                n = n + 1;
            }
            i = i + 1;
        }
        assert(v.take(i as int) =~= v);
        n
    }
}

/// One error entry when `cond` holds, none otherwise.
pub open spec fn error_if(cond: bool, issue: IssueView) -> Seq<EntryView> {
    if cond {
        seq![EntryOf::Error(issue)]
    } else {
        Seq::empty()
    }
}

/// A conditional entry holds one error when its condition holds.
pub proof fn lemma_error_if_count(cond: bool, issue: IssueView)
    ensures
        error_count(error_if(cond, issue)) == if cond {
            1nat
        } else {
            0nat
        },
{
    if cond {
        lemma_error_count_single(EntryOf::Error(issue));
    } else {
        assert(error_count(Seq::<EntryView>::empty()) == 0);
    }
}

/// Records `issue` when `cond` holds.
pub fn report_if(result: &mut VerificationResult, cond: bool, issue: Issue)
    ensures
        final(result)@ == old(result)@ + error_if(cond, issue@),
{
    if cond {
        result.report_error(issue);
    }
    assert(result@ =~= old(result)@ + error_if(cond, issue@));
}

} // verus!
