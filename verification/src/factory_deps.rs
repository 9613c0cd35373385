//! The check of the upgrade transaction's factory dependencies: each must
//! be the bytecode of an expected file, each file once, and published.

use vstd::prelude::*;
use crate::bytes::{all_zero, is_all_zero, Word};
use crate::registry::{lookup, Verifiers};
use crate::report::{
    error_count, error_if, lemma_error_count_append, lemma_error_count_single, names_view, report_if,
    EntryOf, EntryView, IssueOf, VerificationResult,
};

verus! {

/// The files whose bytecodes the upgrade transaction must carry as factory
/// dependencies, each once.
pub open spec fn expected_bytecode_names() -> Seq<Seq<char>> {
    seq![
        "Bootloader"@,
        "CodeOracle"@,
        "EcAdd"@,
        "EcMul"@,
        "EcPairing"@,
        "Modexp"@,
        "Ecrecover"@,
        "EventWriter"@,
        "Keccak256"@,
        "P256Verify"@,
        "SHA256"@,
        "EvmEmulator"@,
        "Identity"@,
        "EvmGasManager"@,
        "l1-contracts/BridgedStandardERC20"@,
        "l1-contracts/Bridgehub"@,
        "l1-contracts/L2AssetRouter"@,
        "l1-contracts/L2NativeTokenVault"@,
        "l1-contracts/L2SharedBridgeLegacy"@,
        "l1-contracts/L2WrappedBaseToken"@,
        "l1-contracts/MessageRoot"@,
        "l1-contracts/DiamondProxy"@,
        "l1-contracts/L2MessageVerification"@,
        "l1-contracts/ChainAssetHandler"@,
        "l2-contracts/RollupL2DAValidator"@,
        "l2-contracts/ValidiumL2DAValidator"@,
        "system-contracts/AccountCodeStorage"@,
        "system-contracts/BootloaderUtilities"@,
        "system-contracts/ComplexUpgrader"@,
        "system-contracts/Compressor"@,
        "system-contracts/ContractDeployer"@,
        "system-contracts/Create2Factory"@,
        "system-contracts/DefaultAccount"@,
        "system-contracts/EmptyContract"@,
        "system-contracts/EvmPredeploysManager"@,
        "system-contracts/EvmHashesStorage"@,
        "system-contracts/ImmutableSimulator"@,
        "system-contracts/KnownCodesStorage"@,
        "system-contracts/L1Messenger"@,
        "system-contracts/L2BaseToken"@,
        "system-contracts/L2V29Upgrade"@,
        "system-contracts/MsgValueSimulator"@,
        "system-contracts/NonceHolder"@,
        "system-contracts/ProxyAdmin"@,
        "system-contracts/PubdataChunkPublisher"@,
        "system-contracts/SloadContract"@,
        "system-contracts/SystemContext"@,
        "system-contracts/L2InteropRootStorage"@,
    ]
}

/// The files whose bytecodes the upgrade transaction must carry, entry by
/// entry; among them the L2 upgrade contract of version 0.29.
pub proof fn lemma_expected_bytecode_names_entries()
    ensures
        expected_bytecode_names().len() == 48,
        expected_bytecode_names().contains("system-contracts/L2V29Upgrade"@),
        expected_bytecode_names()[0] == "Bootloader"@,
        expected_bytecode_names()[1] == "CodeOracle"@,
        expected_bytecode_names()[2] == "EcAdd"@,
        expected_bytecode_names()[3] == "EcMul"@,
        expected_bytecode_names()[4] == "EcPairing"@,
        expected_bytecode_names()[5] == "Modexp"@,
        expected_bytecode_names()[6] == "Ecrecover"@,
        expected_bytecode_names()[7] == "EventWriter"@,
        expected_bytecode_names()[8] == "Keccak256"@,
        expected_bytecode_names()[9] == "P256Verify"@,
        expected_bytecode_names()[10] == "SHA256"@,
        expected_bytecode_names()[11] == "EvmEmulator"@,
        expected_bytecode_names()[12] == "Identity"@,
        expected_bytecode_names()[13] == "EvmGasManager"@,
        expected_bytecode_names()[14] == "l1-contracts/BridgedStandardERC20"@,
        expected_bytecode_names()[15] == "l1-contracts/Bridgehub"@,
        expected_bytecode_names()[16] == "l1-contracts/L2AssetRouter"@,
        expected_bytecode_names()[17] == "l1-contracts/L2NativeTokenVault"@,
        expected_bytecode_names()[18] == "l1-contracts/L2SharedBridgeLegacy"@,
        expected_bytecode_names()[19] == "l1-contracts/L2WrappedBaseToken"@,
        expected_bytecode_names()[20] == "l1-contracts/MessageRoot"@,
        expected_bytecode_names()[21] == "l1-contracts/DiamondProxy"@,
        expected_bytecode_names()[22] == "l1-contracts/L2MessageVerification"@,
        expected_bytecode_names()[23] == "l1-contracts/ChainAssetHandler"@,
        expected_bytecode_names()[24] == "l2-contracts/RollupL2DAValidator"@,
        expected_bytecode_names()[25] == "l2-contracts/ValidiumL2DAValidator"@,
        expected_bytecode_names()[26] == "system-contracts/AccountCodeStorage"@,
        expected_bytecode_names()[27] == "system-contracts/BootloaderUtilities"@,
        expected_bytecode_names()[28] == "system-contracts/ComplexUpgrader"@,
        expected_bytecode_names()[29] == "system-contracts/Compressor"@,
        expected_bytecode_names()[30] == "system-contracts/ContractDeployer"@,
        expected_bytecode_names()[31] == "system-contracts/Create2Factory"@,
        expected_bytecode_names()[32] == "system-contracts/DefaultAccount"@,
        expected_bytecode_names()[33] == "system-contracts/EmptyContract"@,
        expected_bytecode_names()[34] == "system-contracts/EvmPredeploysManager"@,
        expected_bytecode_names()[35] == "system-contracts/EvmHashesStorage"@,
        expected_bytecode_names()[36] == "system-contracts/ImmutableSimulator"@,
        expected_bytecode_names()[37] == "system-contracts/KnownCodesStorage"@,
        expected_bytecode_names()[38] == "system-contracts/L1Messenger"@,
        expected_bytecode_names()[39] == "system-contracts/L2BaseToken"@,
        expected_bytecode_names()[40] == "system-contracts/L2V29Upgrade"@,
        expected_bytecode_names()[41] == "system-contracts/MsgValueSimulator"@,
        expected_bytecode_names()[42] == "system-contracts/NonceHolder"@,
        expected_bytecode_names()[43] == "system-contracts/ProxyAdmin"@,
        expected_bytecode_names()[44] == "system-contracts/PubdataChunkPublisher"@,
        expected_bytecode_names()[45] == "system-contracts/SloadContract"@,
        expected_bytecode_names()[46] == "system-contracts/SystemContext"@,
        expected_bytecode_names()[47] == "system-contracts/L2InteropRootStorage"@,
{
    assert(expected_bytecode_names()[40] == "system-contracts/L2V29Upgrade"@);
}

/// The files whose bytecodes the upgrade transaction must carry.
#[verifier::rlimit(50)]
pub fn expected_bytecodes() -> (v: Vec<String>)
    ensures
        names_view(v@) == expected_bytecode_names(),
        names_view(v@) == seq![
            "Bootloader"@,
            "CodeOracle"@,
            "EcAdd"@,
            "EcMul"@,
            "EcPairing"@,
            "Modexp"@,
            "Ecrecover"@,
            "EventWriter"@,
            "Keccak256"@,
            "P256Verify"@,
            "SHA256"@,
            "EvmEmulator"@,
            "Identity"@,
            "EvmGasManager"@,
            "l1-contracts/BridgedStandardERC20"@,
            "l1-contracts/Bridgehub"@,
            "l1-contracts/L2AssetRouter"@,
            "l1-contracts/L2NativeTokenVault"@,
            "l1-contracts/L2SharedBridgeLegacy"@,
            "l1-contracts/L2WrappedBaseToken"@,
            "l1-contracts/MessageRoot"@,
            "l1-contracts/DiamondProxy"@,
            "l1-contracts/L2MessageVerification"@,
            "l1-contracts/ChainAssetHandler"@,
            "l2-contracts/RollupL2DAValidator"@,
            "l2-contracts/ValidiumL2DAValidator"@,
            "system-contracts/AccountCodeStorage"@,
            "system-contracts/BootloaderUtilities"@,
            "system-contracts/ComplexUpgrader"@,
            "system-contracts/Compressor"@,
            "system-contracts/ContractDeployer"@,
            "system-contracts/Create2Factory"@,
            "system-contracts/DefaultAccount"@,
            "system-contracts/EmptyContract"@,
            "system-contracts/EvmPredeploysManager"@,
            "system-contracts/EvmHashesStorage"@,
            "system-contracts/ImmutableSimulator"@,
            "system-contracts/KnownCodesStorage"@,
            "system-contracts/L1Messenger"@,
            "system-contracts/L2BaseToken"@,
            "system-contracts/L2V29Upgrade"@,
            "system-contracts/MsgValueSimulator"@,
            "system-contracts/NonceHolder"@,
            "system-contracts/ProxyAdmin"@,
            "system-contracts/PubdataChunkPublisher"@,
            "system-contracts/SloadContract"@,
            "system-contracts/SystemContext"@,
            "system-contracts/L2InteropRootStorage"@,
        ],
{
    let mut v: Vec<String> = Vec::new();
    v.push(String::from_str("Bootloader"));
    v.push(String::from_str("CodeOracle"));
    v.push(String::from_str("EcAdd"));
    v.push(String::from_str("EcMul"));
    v.push(String::from_str("EcPairing"));
    v.push(String::from_str("Modexp"));
    v.push(String::from_str("Ecrecover"));
    v.push(String::from_str("EventWriter"));
    v.push(String::from_str("Keccak256"));
    v.push(String::from_str("P256Verify"));
    v.push(String::from_str("SHA256"));
    v.push(String::from_str("EvmEmulator"));
    v.push(String::from_str("Identity"));
    v.push(String::from_str("EvmGasManager"));
    v.push(String::from_str("l1-contracts/BridgedStandardERC20"));
    v.push(String::from_str("l1-contracts/Bridgehub"));
    v.push(String::from_str("l1-contracts/L2AssetRouter"));
    v.push(String::from_str("l1-contracts/L2NativeTokenVault"));
    v.push(String::from_str("l1-contracts/L2SharedBridgeLegacy"));
    v.push(String::from_str("l1-contracts/L2WrappedBaseToken"));
    v.push(String::from_str("l1-contracts/MessageRoot"));
    v.push(String::from_str("l1-contracts/DiamondProxy"));
    v.push(String::from_str("l1-contracts/L2MessageVerification"));
    v.push(String::from_str("l1-contracts/ChainAssetHandler"));
    v.push(String::from_str("l2-contracts/RollupL2DAValidator"));
    v.push(String::from_str("l2-contracts/ValidiumL2DAValidator"));
    v.push(String::from_str("system-contracts/AccountCodeStorage"));
    v.push(String::from_str("system-contracts/BootloaderUtilities"));
    v.push(String::from_str("system-contracts/ComplexUpgrader"));
    v.push(String::from_str("system-contracts/Compressor"));
    v.push(String::from_str("system-contracts/ContractDeployer"));
    v.push(String::from_str("system-contracts/Create2Factory"));
    v.push(String::from_str("system-contracts/DefaultAccount"));
    v.push(String::from_str("system-contracts/EmptyContract"));
    v.push(String::from_str("system-contracts/EvmPredeploysManager"));
    v.push(String::from_str("system-contracts/EvmHashesStorage"));
    v.push(String::from_str("system-contracts/ImmutableSimulator"));
    v.push(String::from_str("system-contracts/KnownCodesStorage"));
    v.push(String::from_str("system-contracts/L1Messenger"));
    v.push(String::from_str("system-contracts/L2BaseToken"));
    v.push(String::from_str("system-contracts/L2V29Upgrade"));
    v.push(String::from_str("system-contracts/MsgValueSimulator"));
    v.push(String::from_str("system-contracts/NonceHolder"));
    v.push(String::from_str("system-contracts/ProxyAdmin"));
    v.push(String::from_str("system-contracts/PubdataChunkPublisher"));
    v.push(String::from_str("system-contracts/SloadContract"));
    v.push(String::from_str("system-contracts/SystemContext"));
    v.push(String::from_str("system-contracts/L2InteropRootStorage"));
    assert(names_view(v@) =~= expected_bytecode_names());
    v
}


/// `names` without the copies of `name`.
pub open spec fn without(names: Seq<Seq<char>>, name: Seq<char>) -> Seq<Seq<char>>
    decreases names.len(),
{
    if names.len() == 0 {
        Seq::empty()
    } else {
        let w = without(names.drop_last(), name);
        if names.last() == name {
            w
        } else {
            w.push(names.last())
        }
    }
}

/// The check of the factory dependencies, one dependency at a time: it
/// holds the expected files not seen yet.
pub struct FactoryDepsCheck {
    remaining: Vec<String>,
}

impl View for FactoryDepsCheck {
    type V = Seq<Seq<char>>;

    closed spec fn view(&self) -> Seq<Seq<char>> {
        names_view(self.remaining@)
    }
}

/// What taking the dependency `dep` does, from the expected files not
/// seen yet: the files still expected after it, what it records, and the
/// file whose publication must then be checked, if any.
pub open spec fn dependency_step(
    remaining: Seq<Seq<char>>,
    registry: Seq<(Seq<u8>, Seq<char>)>,
    dep: Word,
) -> (Seq<Seq<char>>, Seq<EntryView>, Option<Seq<char>>) {
    match lookup(registry, dep@) {
        None => (remaining, seq![EntryOf::Error(IssueOf::UnknownFactoryDependency { hash: dep })], None),
        Some(file) => if !remaining.contains(file) {
            (remaining, seq![EntryOf::Error(IssueOf::UnexpectedFactoryDependency { file })], None)
        } else {
            (without(remaining, file), Seq::empty(), Some(file))
        },
    }
}

impl FactoryDepsCheck {
    /// Starts the check: every expected file is still to be seen.
    pub fn new() -> (c: Self)
        ensures
            c@ == expected_bytecode_names(),
    {
        FactoryDepsCheck { remaining: expected_bytecodes() }
    }

    /// The expected files not seen yet.
    pub fn remaining(&self) -> (r: &Vec<String>)
        ensures
            names_view(r@) == self@,
    {
        &self.remaining
    }

    /// Whether `file` is still expected.
    pub fn expects(&self, file: &String) -> (r: bool)
        ensures
            r == self@.contains(file@),
    {
        let ghost names = self@;
        let mut i: usize = 0;
        while i < self.remaining.len()
            invariant
                i <= self.remaining@.len(),
                names == names_view(self.remaining@),
                !names.take(i as int).contains(file@),
            decreases self.remaining@.len() - i,
        {
            if self.remaining[i] == *file {
                assert(names[i as int] == file@);
                return true;
            }
            assert(names.take(i + 1) =~= names.take(i as int).push(names[i as int]));
            i = i + 1;
        }
        assert(names.take(i as int) =~= names);
        false
    }

    /// Takes the next factory dependency: records an error if its file is
    /// unknown or not (or no longer) expected; otherwise marks the file as
    /// seen and returns it, for its publication to be checked.
    pub fn take_dependency(&mut self, verifiers: &Verifiers, dep: &Word, result: &mut VerificationResult) -> (r:
        Option<String>)
        ensures
            final(self)@ == dependency_step(old(self)@, verifiers.bytecode_verifier@, *dep).0,
            final(result)@ == old(result)@ + dependency_step(old(self)@, verifiers.bytecode_verifier@, *dep).1,
            match r {
                Some(f) => dependency_step(old(self)@, verifiers.bytecode_verifier@, *dep).2 == Some(f@),
                None => dependency_step(old(self)@, verifiers.bytecode_verifier@, *dep).2 is None,
            },
    {
        let file = match verifiers.bytecode_verifier.get(dep) {
            Some(f) => f,
            None => {
                result.report_error(IssueOf::UnknownFactoryDependency { hash: *dep });
                return None;
            },
        };
        let ghost names = self@;
        let mut found = false;
        let mut kept: Vec<String> = Vec::new();
        let mut i: usize = 0;
        while i < self.remaining.len()
            invariant
                i <= self.remaining@.len(),
                names == names_view(self.remaining@),
                names_view(kept@) == without(names.take(i as int), file@),
                found == names.take(i as int).contains(file@),
            decreases self.remaining@.len() - i,
        {
            let name = &self.remaining[i];
            let ghost prefix = names.take(i as int);
            assert(names.take(i + 1).drop_last() =~= prefix);
            assert(names.take(i + 1).last() == name@);
            if *name == file {
                found = true;
            } else {
                kept.push(name.clone());
                assert(names_view(kept@) =~= without(prefix, file@).push(name@));
            }
            assert(found == names.take(i + 1).contains(file@)) by {
                if names.take(i + 1).contains(file@) && !prefix.contains(file@) {
                    let k = choose|k: int| 0 <= k < i + 1 && #[trigger] names.take(i + 1)[k] == file@;
                    if k < i {
                        assert(prefix[k] == file@);
                    }
                }
                if prefix.contains(file@) {
                    let k = choose|k: int| 0 <= k < i && #[trigger] prefix[k] == file@;
                    assert(names.take(i + 1)[k] == file@);
                }
            }
            i = i + 1;
        }
        assert(names.take(i as int) =~= names);
        if !found {
            result.report_error(IssueOf::UnexpectedFactoryDependency { file });
            return None;
        }
        self.remaining = kept;
        Some(file)
    }

    /// Finishes the check: records the expected files never seen.
    pub fn finish(self, result: &mut VerificationResult)
        ensures
            final(result)@ == old(result)@ + error_if(
                self@.len() != 0,
                IssueOf::MissingFactoryDependencies { files: self@ },
            ),
    {
        let ghost names = self@;
        if self.remaining.len() != 0 {
            result.report_error(IssueOf::MissingFactoryDependencies { files: self.remaining });
        }
        assert(result@ =~= old(result)@ + error_if(
            names.len() != 0,
            IssueOf::MissingFactoryDependencies { files: names },
        ));
    }
}

/// Records an error if the block in which a factory dependency's bytecode
/// was published is zero, that is, if it was never published.
pub fn record_publishing_block(result: &mut VerificationResult, file: String, block_number: &Word)
    ensures
        final(result)@ == old(result)@ + error_if(
            all_zero(block_number@),
            IssueOf::UnpublishedBytecode { file: file@ },
        ),
{
    let ghost file_view = file@;
    report_if(result, is_all_zero(block_number.as_slice()), IssueOf::UnpublishedBytecode { file });
}


/// Taking the dependencies `deps` one after another, starting from the
/// expected files `remaining`: the files still expected at the end, and what
/// was recorded.
pub open spec fn dependencies_run(
    remaining: Seq<Seq<char>>,
    registry: Seq<(Seq<u8>, Seq<char>)>,
    deps: Seq<Word>,
) -> (Seq<Seq<char>>, Seq<EntryView>)
    decreases deps.len(),
{
    if deps.len() == 0 {
        (remaining, Seq::empty())
    } else {
        let before = dependencies_run(remaining, registry, deps.drop_last());
        let step = dependency_step(before.0, registry, deps.last());
        (step.0, before.1 + step.1)
    }
}

proof fn lemma_without_contains(s: Seq<Seq<char>>, f: Seq<char>, x: Seq<char>)
    ensures
        without(s, f).contains(x) <==> (s.contains(x) && x != f),
    decreases s.len(),
{
    if s.len() > 0 {
        let p = s.drop_last();
        lemma_without_contains(p, f, x);
        let w = without(p, f);
        if s.contains(x) && x != f {
            let k = choose|k: int| 0 <= k < s.len() && s[k] == x;
            if k < s.len() - 1 {
                assert(p[k] == x);
            }
            if s.last() != f {
                assert(w.push(s.last())[w.len() as int] == s.last());
                if p.contains(x) {
                    let j = choose|j: int| 0 <= j < w.len() && w[j] == x;
                    assert(w.push(s.last())[j] == x);
                }
            }
        }
        if without(s, f).contains(x) {
            if s.last() != f {
                let j = choose|j: int| 0 <= j < w.len() + 1 && w.push(s.last())[j] == x;
                if j < w.len() {
                    assert(w[j] == x);
                }
            }
            if p.contains(x) {
                let k = choose|k: int| 0 <= k < p.len() && p[k] == x;
                assert(s[k] == x);
            }
        }
    }
}

/// When taking the factory dependencies one by one records no error, every
/// dependency is the bytecode of an expected file, no two dependencies
/// are of the same file, and every expected file is either still expected at
/// the end or is the file of some dependency; in particular, when nothing
/// is expected at the end, the dependencies are the expected files, each
/// exactly once.
pub proof fn lemma_clean_dependencies_run(
    remaining: Seq<Seq<char>>,
    registry: Seq<(Seq<u8>, Seq<char>)>,
    deps: Seq<Word>,
)
    requires
        error_count(dependencies_run(remaining, registry, deps).1) == 0,
    ensures
        forall|x: Seq<char>|
            dependencies_run(remaining, registry, deps).0.contains(x) ==> remaining.contains(x),
        forall|i: int|
            0 <= i < deps.len() ==> (lookup(registry, #[trigger] deps[i]@) matches Some(f) && remaining.contains(f)
                && !dependencies_run(remaining, registry, deps).0.contains(f)),
        forall|i: int, j: int|
            0 <= i < j < deps.len() ==> lookup(registry, #[trigger] deps[i]@) != lookup(
                registry,
                #[trigger] deps[j]@,
            ),
        forall|x: Seq<char>|
            remaining.contains(x) ==> dependencies_run(remaining, registry, deps).0.contains(x)
                || exists|i: int| 0 <= i < deps.len() && lookup(registry, #[trigger] deps[i]@) == Some(x),
    decreases deps.len(),
{
    if deps.len() > 0 {
        let p = deps.drop_last();
        let before = dependencies_run(remaining, registry, p);
        let step = dependency_step(before.0, registry, deps.last());
        lemma_error_count_append(before.1, step.1);
        lemma_clean_dependencies_run(remaining, registry, p);
        let r0 = before.0;
        let last = deps.last();
        match lookup(registry, last@) {
            None => {
                lemma_error_count_single(EntryOf::Error(IssueOf::UnknownFactoryDependency { hash: last }));
            },
            Some(f) => {
                if !r0.contains(f) {
                    lemma_error_count_single(
                        EntryOf::Error(IssueOf::UnexpectedFactoryDependency { file: f }),
                    );
                } else {
                    let r1 = without(r0, f);
                    assert(dependencies_run(remaining, registry, deps).0 == r1);
                    assert forall|x: Seq<char>| r1.contains(x) implies remaining.contains(x) by {
                        lemma_without_contains(r0, f, x);
                    }
                    assert forall|i: int| 0 <= i < deps.len() implies (lookup(
                        registry,
                        #[trigger] deps[i]@,
                    ) matches Some(g) && remaining.contains(g) && !r1.contains(g)) by {
                        if i < deps.len() - 1 {
                            assert(deps[i] == p[i]);
                            let g = lookup(registry, p[i]@)->0;
                            lemma_without_contains(r0, f, g);
                        } else {
                            lemma_without_contains(r0, f, f);
                        }
                    }
                    assert forall|i: int, j: int| 0 <= i < j < deps.len() implies lookup(
                        registry,
                        #[trigger] deps[i]@,
                    ) != lookup(registry, #[trigger] deps[j]@) by {
                        assert(deps[i] == p[i]);
                        if j < deps.len() - 1 {
                            assert(deps[j] == p[j]);
                        }
                    }
                    assert forall|x: Seq<char>| remaining.contains(x) implies r1.contains(x) || exists|
                        i: int,
                    | 0 <= i < deps.len() && lookup(registry, #[trigger] deps[i]@) == Some(x) by {
                        lemma_without_contains(r0, f, x);
                        if !r0.contains(x) {
                            let i = choose|i: int| 0 <= i < p.len() && lookup(registry, #[trigger] p[i]@) == Some(x);
                            assert(deps[i] == p[i]);
                        } else if x == f {
                            assert(lookup(registry, deps[deps.len() - 1]@) == Some(x));
                        }
                    }
                }
            },
        }
    }
}


/// When every factory dependency is the bytecode of an expected file and no
/// two are of the same file, taking them one by one records no error, and
/// the files still expected at the end are the expected files that no
/// dependency is of.
pub proof fn lemma_dependencies_run_of_distinct_expected_files(
    remaining: Seq<Seq<char>>,
    registry: Seq<(Seq<u8>, Seq<char>)>,
    deps: Seq<Word>,
)
    requires
        forall|i: int|
            0 <= i < deps.len() ==> (lookup(registry, #[trigger] deps[i]@) matches Some(f) && remaining.contains(f)),
        forall|i: int, j: int|
            0 <= i < j < deps.len() ==> lookup(registry, #[trigger] deps[i]@) != lookup(
                registry,
                #[trigger] deps[j]@,
            ),
    ensures
        error_count(dependencies_run(remaining, registry, deps).1) == 0,
        forall|x: Seq<char>|
            dependencies_run(remaining, registry, deps).0.contains(x) <==> (remaining.contains(x) && !exists|
                i: int,
            | 0 <= i < deps.len() && lookup(registry, #[trigger] deps[i]@) == Some(x)),
    decreases deps.len(),
{
    if deps.len() == 0 {
        assert(error_count(Seq::<EntryView>::empty()) == 0);
    } else {
        let p = deps.drop_last();
        assert forall|i: int| 0 <= i < p.len() implies (lookup(registry, #[trigger] p[i]@) matches Some(f)
            && remaining.contains(f)) by {
            assert(p[i] == deps[i]);
        }
        assert forall|i: int, j: int| 0 <= i < j < p.len() implies lookup(registry, #[trigger] p[i]@)
            != lookup(registry, #[trigger] p[j]@) by {
            assert(p[i] == deps[i]);
            assert(p[j] == deps[j]);
        }
        lemma_dependencies_run_of_distinct_expected_files(remaining, registry, p);
        let before = dependencies_run(remaining, registry, p);
        let r0 = before.0;
        let last = deps.last();
        let n = deps.len() - 1;
        assert(deps[n] == last);
        let f = lookup(registry, last@)->0;
        assert(remaining.contains(f));
        assert(!exists|i: int| 0 <= i < p.len() && lookup(registry, #[trigger] p[i]@) == Some(f)) by {
            if exists|i: int| 0 <= i < p.len() && lookup(registry, #[trigger] p[i]@) == Some(f) {
                let i = choose|i: int| 0 <= i < p.len() && lookup(registry, #[trigger] p[i]@) == Some(f);
                assert(p[i] == deps[i]);
                assert(lookup(registry, deps[i]@) != lookup(registry, deps[n]@));
            }
        }
        assert(r0.contains(f));
        let step = dependency_step(r0, registry, last);
        assert(step.1 =~= Seq::<EntryView>::empty());
        assert(before.1 + step.1 =~= before.1);
        assert forall|x: Seq<char>| dependencies_run(remaining, registry, deps).0.contains(x) <==> (
        remaining.contains(x) && !exists|i: int|
            0 <= i < deps.len() && lookup(registry, #[trigger] deps[i]@) == Some(x)) by {
            lemma_without_contains(r0, f, x);
            if exists|i: int| 0 <= i < deps.len() && lookup(registry, #[trigger] deps[i]@) == Some(x) {
                let i = choose|i: int| 0 <= i < deps.len() && lookup(registry, #[trigger] deps[i]@) == Some(x);
                if i < n {
                    assert(p[i] == deps[i]);
                }
            }
            if exists|i: int| 0 <= i < p.len() && lookup(registry, #[trigger] p[i]@) == Some(x) {
                let i = choose|i: int| 0 <= i < p.len() && lookup(registry, #[trigger] p[i]@) == Some(x);
                assert(p[i] == deps[i]);
            }
        }
    }
}

/// Taking the dependencies `deps` one after another, starting from the
/// expected files `remaining`, where each dependency that is accepted is
/// followed by the check of its publication, the block of the first
/// unused entry of `blocks`: the files still expected at the end, what was
/// recorded, and how many blocks were used.
pub open spec fn published_run(
    remaining: Seq<Seq<char>>,
    registry: Seq<(Seq<u8>, Seq<char>)>,
    deps: Seq<Word>,
    blocks: Seq<Word>,
) -> (Seq<Seq<char>>, Seq<EntryView>, nat)
    decreases deps.len(),
{
    if deps.len() == 0 {
        (remaining, Seq::empty(), 0)
    } else {
        let before = published_run(remaining, registry, deps.drop_last(), blocks);
        let step = dependency_step(before.0, registry, deps.last());
        match step.2 {
            Some(file) => (
                step.0,
                before.1 + step.1 + error_if(
                    all_zero(blocks[before.2 as int]@),
                    IssueOf::UnpublishedBytecode { file },
                ),
                before.2 + 1,
            ),
            None => (step.0, before.1 + step.1, before.2),
        }
    }
}

/// A run uses only the blocks it was given: more blocks after them change
/// nothing.
pub proof fn lemma_published_run_more_blocks(
    remaining: Seq<Seq<char>>,
    registry: Seq<(Seq<u8>, Seq<char>)>,
    deps: Seq<Word>,
    blocks: Seq<Word>,
    more: Seq<Word>,
)
    requires
        published_run(remaining, registry, deps, blocks).2 <= blocks.len(),
    ensures
        published_run(remaining, registry, deps, blocks + more) == published_run(remaining, registry, deps, blocks),
    decreases deps.len(),
{
    if deps.len() > 0 {
        let before = published_run(remaining, registry, deps.drop_last(), blocks);
        lemma_published_run_more_blocks(remaining, registry, deps.drop_last(), blocks, more);
        if dependency_step(before.0, registry, deps.last()).2 is Some {
            assert((blocks + more)[before.2 as int] == blocks[before.2 as int]);
        }
    }
}

/// The files left expected by a run that checks publications are those
/// left by the plain run, and it records at least as many errors.
pub proof fn lemma_published_run_files(
    remaining: Seq<Seq<char>>,
    registry: Seq<(Seq<u8>, Seq<char>)>,
    deps: Seq<Word>,
    blocks: Seq<Word>,
)
    ensures
        published_run(remaining, registry, deps, blocks).0 == dependencies_run(remaining, registry, deps).0,
        error_count(published_run(remaining, registry, deps, blocks).1) >= error_count(
            dependencies_run(remaining, registry, deps).1,
        ),
    decreases deps.len(),
{
    if deps.len() > 0 {
        let p = deps.drop_last();
        lemma_published_run_files(remaining, registry, p, blocks);
        let before = published_run(remaining, registry, p, blocks);
        let plain = dependencies_run(remaining, registry, p);
        let step = dependency_step(before.0, registry, deps.last());
        lemma_error_count_append(before.1, step.1);
        lemma_error_count_append(plain.1, step.1);
        if let Some(file) = step.2 {
            let published = error_if(
                all_zero(blocks[before.2 as int]@),
                IssueOf::UnpublishedBytecode { file },
            );
            lemma_error_count_append(before.1 + step.1, published);
        }
    }
}

} // verus!
