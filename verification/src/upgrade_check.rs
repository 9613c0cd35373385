//! The checks of the upgrade transaction and of the proposed upgrade, run
//! step by step: the caller asks, for each factory dependency that is
//! accepted, the block in which its bytecode was published, and hands the
//! answer back.

use vstd::prelude::*;
use crate::bytes::{word_of, Address, Word};
use crate::factory_deps::{
    dependency_step, expected_bytecode_names, lemma_published_run_more_blocks, published_run,
    record_publishing_block, FactoryDepsCheck,
};
use crate::protocol_version::{get_expected_new_protocol_version, ProtocolVersion};
use crate::registry::Verifiers;
use crate::report::{
    error_count, error_if, EntryOf, EntryView, IssueOf, NoteOf, VerificationResult,
};
use crate::upgrade::{
    complex_upgrade_report, decode_force_deploy_and_upgrade_call, decoded_force_deploy_and_upgrade_call,
    expected_new_version, final_note, lemma_nonce_reported_iff, selected_timelocks, timelocks_decodable,
    tx_fields_report, upgrade_fields_report, verify_complex_upgrade_call, L2CanonicalTransaction,
    ProposedUpgrade, V29,
};

verus! {

/// Everything the check of the upgrade transaction `tx` records, when the
/// publishing blocks of its accepted factory dependencies are `blocks`, in
/// order: its plain fields against the minor version `expected_minor`, each
/// factory dependency with its publication, the expected files never seen,
/// and the complex upgrade call that its data carries.
pub open spec fn transaction_report(
    tx: L2CanonicalTransaction,
    registry: Seq<(Seq<u8>, Seq<char>)>,
    expected_minor: u64,
    blocks: Seq<Word>,
    l1_chain_id: u64,
    owner_address: Address,
) -> Seq<EntryView> {
    let run = published_run(expected_bytecode_names(), registry, tx.factory_deps@, blocks);
    tx_fields_report(tx, expected_minor) + run.1 + error_if(
        run.0.len() != 0,
        IssueOf::MissingFactoryDependencies { files: run.0 },
    ) + complex_upgrade_report(
        decoded_force_deploy_and_upgrade_call(tx.data@)->0,
        registry,
        l1_chain_id,
        owner_address,
    )
}

/// The check of an upgrade transaction, part way through its factory
/// dependencies.
pub struct TransactionCheck<'a> {
    tx: &'a L2CanonicalTransaction,
    verifiers: &'a Verifiers,
    deps: FactoryDepsCheck,
    taken: usize,
    expected_minor: u64,
    start: Ghost<Seq<EntryView>>,
    blocks: Ghost<Seq<Word>>,
}

impl<'a> TransactionCheck<'a> {
    /// The transaction under check.
    pub closed spec fn tx(&self) -> L2CanonicalTransaction {
        *self.tx
    }

    /// The bytecode registry the check consults.
    pub closed spec fn registry(&self) -> Seq<(Seq<u8>, Seq<char>)> {
        self.verifiers.bytecode_verifier@
    }

    /// How many factory dependencies have been taken.
    pub closed spec fn taken(&self) -> nat {
        self.taken as nat
    }

    /// The minor version the nonce must be.
    pub closed spec fn expected_minor(&self) -> u64 {
        self.expected_minor
    }

    /// What the report held before the check began.
    pub closed spec fn start(&self) -> Seq<EntryView> {
        self.start@
    }

    /// The publishing blocks handed in so far.
    pub closed spec fn blocks(&self) -> Seq<Word> {
        self.blocks@
    }

    /// The factory dependencies taken so far, and what they recorded.
    pub open spec fn run(&self) -> (Seq<Seq<char>>, Seq<EntryView>, nat) {
        published_run(
            expected_bytecode_names(),
            self.registry(),
            self.tx().factory_deps@.take(self.taken() as int),
            self.blocks(),
        )
    }

    /// What the report holds at this point of the check.
    pub open spec fn report(&self) -> Seq<EntryView> {
        self.start() + tx_fields_report(self.tx(), self.expected_minor()) + self.run().1
    }

    /// Every factory dependency has been taken.
    pub open spec fn done(&self) -> bool {
        self.taken() == self.tx().factory_deps@.len()
    }

    /// The hash of the next factory dependency, when it is accepted and so
    /// its publishing block is needed.
    pub open spec fn pending_query(&self) -> Option<Word> {
        if self.taken() < self.tx().factory_deps@.len() && dependency_step(
            self.run().0,
            self.registry(),
            self.tx().factory_deps@[self.taken() as int],
        ).2 is Some {
            Some(self.tx().factory_deps@[self.taken() as int])
        } else {
            None
        }
    }

    /// The check's own state agrees with the dependencies taken and the
    /// blocks handed in.
    pub closed spec fn wf(&self) -> bool {
        &&& self.taken <= self.tx.factory_deps@.len()
        &&& self.deps@ == self.run().0
        &&& self.run().2 == self.blocks@.len()
    }

    /// Starts the check of `tx`: checks its plain fields, its nonce against
    /// the minor of `expected_version`.
    pub fn new(
        tx: &'a L2CanonicalTransaction,
        verifiers: &'a Verifiers,
        result: &mut VerificationResult,
        expected_version: ProtocolVersion,
    ) -> (c: Self)
        ensures
            c.wf(),
            c.tx() == *tx,
            c.registry() == verifiers.bytecode_verifier@,
            c.taken() == 0,
            c.expected_minor() == expected_version.minor,
            c.start() == old(result)@,
            c.blocks() == Seq::<Word>::empty(),
            final(result)@ == c.report(),
            final(result)@ == old(result)@ + tx_fields_report(*tx, expected_version.minor),
    {
        let ghost start = result@;
        tx.verify_fields(result, expected_version);
        let c = TransactionCheck {
            tx,
            verifiers,
            deps: FactoryDepsCheck::new(),
            taken: 0,
            expected_minor: expected_version.minor,
            start: Ghost(start),
            blocks: Ghost(Seq::empty()),
        };
        assert(tx.factory_deps@.take(0) =~= Seq::<Word>::empty());
        assert(c.report() =~= result@);
        c
    }

    /// The hash of the next factory dependency whose publishing block is
    /// needed before the check can go on, if it needs one.
    pub fn next_query(&self) -> (q: Option<Word>)
        requires
            self.wf(),
        ensures
            q == self.pending_query(),
    {
        if self.taken >= self.tx.factory_deps.len() {
            return None;
        }
        let dep = self.tx.factory_deps[self.taken];
        match self.verifiers.bytecode_verifier.get(&dep) {
            Some(file) => if self.deps.expects(&file) {
                Some(dep)
            } else {
                None
            },
            None => None,
        }
    }

    /// Whether every factory dependency has been taken.
    pub fn is_done(&self) -> (r: bool)
        requires
            self.wf(),
        ensures
            r == self.done(),
    {
        self.taken == self.tx.factory_deps.len()
    }

    /// Takes the next factory dependency, with the block in which its
    /// bytecode was published where it is accepted.
    pub fn advance(&mut self, result: &mut VerificationResult, block: Option<Word>)
        requires
            old(self).wf(),
            !old(self).done(),
            old(result)@ == old(self).report(),
            block is Some <==> old(self).pending_query() is Some,
        ensures
            final(self).wf(),
            final(self).tx() == old(self).tx(),
            final(self).registry() == old(self).registry(),
            final(self).expected_minor() == old(self).expected_minor(),
            final(self).start() == old(self).start(),
            final(self).taken() == old(self).taken() + 1,
            final(self).blocks() == match block {
                Some(b) => old(self).blocks().push(b),
                None => old(self).blocks(),
            },
            final(result)@ == final(self).report(),
    {
        let ghost deps_all = self.tx.factory_deps@;
        let ghost old_run = self.run();
        let ghost old_blocks = self.blocks@;
        let ghost n = self.taken as int;
        let k = self.taken;
        let len = self.tx.factory_deps.len();
        assert(k < len);
        let dep = self.tx.factory_deps[k];
        assert(deps_all.take(n + 1).drop_last() =~= deps_all.take(n));
        assert(deps_all.take(n + 1).last() == dep);
        let taken = self.deps.take_dependency(self.verifiers, &dep, result);
        match taken {
            Some(file) => {
                if let Some(b) = block {
                    record_publishing_block(result, file, &b);
                    self.blocks = Ghost(old_blocks.push(b));
                    proof {
                        lemma_published_run_more_blocks(
                            expected_bytecode_names(),
                            self.verifiers.bytecode_verifier@,
                            deps_all.take(n),
                            old_blocks,
                            seq![b],
                        );
                        assert(old_blocks + seq![b] =~= old_blocks.push(b));
                    }
                }
            },
            None => {},
        }
        self.taken = k + 1;
        assert(self.report() =~= result@);
    }

    /// Ends the check: records the expected files never seen, then decodes
    /// the complex upgrade call from the transaction's data and checks it.
    /// Returns whether the data held such a call; where it does not, the
    /// check cannot go on and nothing more is recorded.
    pub fn finish(self, result: &mut VerificationResult, l1_chain_id: u64, owner_address: Address) -> (decoded:
        bool)
        requires
            self.wf(),
            self.done(),
            old(result)@ == self.report(),
        ensures
            decoded == decoded_force_deploy_and_upgrade_call(self.tx().data@) is Some,
            decoded ==> final(result)@ == self.start() + transaction_report(
                self.tx(),
                self.registry(),
                self.expected_minor(),
                self.blocks(),
                l1_chain_id,
                owner_address,
            ),
            !decoded ==> final(result)@ == self.report() + error_if(
                self.run().0.len() != 0,
                IssueOf::MissingFactoryDependencies { files: self.run().0 },
            ),
    {
        let ghost start = self.start();
        let ghost blocks = self.blocks();
        let ghost minor = self.expected_minor();
        assert(self.tx.factory_deps@.take(self.taken as int) =~= self.tx.factory_deps@);
        let tx = self.tx;
        let verifiers = self.verifiers;
        self.deps.finish(result);
        match decode_force_deploy_and_upgrade_call(tx.data.as_slice()) {
            Some(call) => {
                verify_complex_upgrade_call(&call, verifiers, result, l1_chain_id, owner_address);
                assert(result@ =~= start + transaction_report(
                    *tx,
                    verifiers.bytecode_verifier@,
                    minor,
                    blocks,
                    l1_chain_id,
                    owner_address,
                ));
                true
            },
            None => false,
        }
    }
}

/// The note that opens the check of a proposed upgrade.
pub open spec fn opening_note() -> EntryView {
    EntryOf::Info(NoteOf::CheckingChainUpgradeInitCalldata)
}

/// Everything the check of the proposed upgrade `p` records after the
/// entries `before`, when the publishing blocks of its transaction's
/// accepted factory dependencies are `blocks`: the opening note; the check
/// of its transaction against version 0.29.1; the checks of its own fields;
/// and, when none of these recorded an error, the note that it is correct.
pub open spec fn proposed_upgrade_report(
    p: ProposedUpgrade,
    registry: Seq<(Seq<u8>, Seq<char>)>,
    address_book: Seq<(Seq<u8>, Seq<char>)>,
    blocks: Seq<Word>,
    l1_chain_id: u64,
    owner_address: Address,
    is_gateway: bool,
    timelocks: Seq<char>,
    validator_timelock: Address,
    before: Seq<EntryView>,
) -> Seq<EntryView> {
    let opened = before.push(opening_note()) + transaction_report(
        p.l2_protocol_upgrade_tx,
        registry,
        expected_new_version().minor,
        blocks,
        l1_chain_id,
        owner_address,
    );
    let fields = upgrade_fields_report(p, registry, address_book, is_gateway, timelocks, validator_timelock);
    opened + fields + final_note(opened + fields, error_count(before))
}

/// The check of a proposed upgrade, part way through the factory
/// dependencies of its transaction.
pub struct UpgradeCheck<'a> {
    upgrade: &'a ProposedUpgrade,
    verifiers: &'a Verifiers,
    transaction: TransactionCheck<'a>,
    initial_error_count: usize,
    start: Ghost<Seq<EntryView>>,
}

impl<'a> UpgradeCheck<'a> {
    /// The proposed upgrade under check.
    pub closed spec fn upgrade(&self) -> ProposedUpgrade {
        *self.upgrade
    }

    /// The bytecode registry the check consults.
    pub closed spec fn registry(&self) -> Seq<(Seq<u8>, Seq<char>)> {
        self.verifiers.bytecode_verifier@
    }

    /// The address book the check consults.
    pub closed spec fn address_book(&self) -> Seq<(Seq<u8>, Seq<char>)> {
        self.verifiers.address_verifier@
    }

    /// What the report held before the check began.
    pub closed spec fn start(&self) -> Seq<EntryView> {
        self.start@
    }

    /// The check of the upgrade transaction.
    pub closed spec fn transaction(&self) -> TransactionCheck<'a> {
        self.transaction
    }

    /// The check's own state agrees with its transaction's check.
    pub closed spec fn wf(&self) -> bool {
        &&& self.transaction.wf()
        &&& self.transaction.tx() == self.upgrade.l2_protocol_upgrade_tx
        &&& self.transaction.registry() == self.verifiers.bytecode_verifier@
        &&& self.transaction.expected_minor() == expected_new_version().minor
        &&& self.transaction.start() == self.start@.push(opening_note())
        &&& self.initial_error_count == error_count(self.start@)
    }

    /// The hash of the next factory dependency whose publishing block is
    /// needed before the check can go on, if it needs one.
    pub fn next_query(&self) -> (q: Option<Word>)
        requires
            self.wf(),
        ensures
            q == self.transaction().pending_query(),
    {
        self.transaction.next_query()
    }

    /// Whether every factory dependency has been taken.
    pub fn is_done(&self) -> (r: bool)
        requires
            self.wf(),
        ensures
            r == self.transaction().done(),
    {
        self.transaction.is_done()
    }

    /// Takes the next factory dependency of the upgrade transaction, with
    /// the block in which its bytecode was published where it is accepted.
    pub fn advance(&mut self, result: &mut VerificationResult, block: Option<Word>)
        requires
            old(self).wf(),
            !old(self).transaction().done(),
            old(result)@ == old(self).transaction().report(),
            block is Some <==> old(self).transaction().pending_query() is Some,
        ensures
            final(self).wf(),
            final(self).upgrade() == old(self).upgrade(),
            final(self).registry() == old(self).registry(),
            final(self).address_book() == old(self).address_book(),
            final(self).start() == old(self).start(),
            final(self).transaction().taken() == old(self).transaction().taken() + 1,
            final(self).transaction().blocks() == match block {
                Some(b) => old(self).transaction().blocks().push(b),
                None => old(self).transaction().blocks(),
            },
            final(result)@ == final(self).transaction().report(),
    {
        self.transaction.advance(result, block);
    }

    /// Ends the check: ends the check of the upgrade transaction, then
    /// checks the upgrade's own fields, with the timelocks of `v29` that
    /// `is_gateway` selects and the new `validator_timelock`, and, when no
    /// error was recorded since the check began, records that the upgrade
    /// is correct. Returns whether the transaction's data held a complex
    /// upgrade call; where it does not, the check cannot go on and records
    /// only the expected files never seen.
    pub fn finish(
        self,
        result: &mut VerificationResult,
        l1_chain_id: u64,
        owner_address: Address,
        is_gateway: bool,
        v29: &V29,
        validator_timelock: Address,
    ) -> (completed: bool)
        requires
            self.wf(),
            self.transaction().done(),
            old(result)@ == self.transaction().report(),
            self.upgrade().post_upgrade_calldata@.len() > 0 ==> timelocks_decodable(
                selected_timelocks(*v29, is_gateway),
            ),
        ensures
            completed == decoded_force_deploy_and_upgrade_call(self.upgrade().l2_protocol_upgrade_tx.data@) is Some,
            completed ==> final(result)@ == proposed_upgrade_report(
                self.upgrade(),
                self.registry(),
                self.address_book(),
                self.transaction().blocks(),
                l1_chain_id,
                owner_address,
                is_gateway,
                selected_timelocks(*v29, is_gateway),
                validator_timelock,
                self.start(),
            ),
            !completed ==> final(result)@ == self.transaction().report() + error_if(
                self.transaction().run().0.len() != 0,
                IssueOf::MissingFactoryDependencies { files: self.transaction().run().0 },
            ),
    {
        let upgrade = self.upgrade;
        let verifiers = self.verifiers;
        let initial_error_count = self.initial_error_count;
        if !self.transaction.finish(result, l1_chain_id, owner_address) {
            return false;
        }
        upgrade.verify_fields(verifiers, result, is_gateway, v29, validator_timelock, initial_error_count);
        true
    }
}

impl ProposedUpgrade {
    /// Starts the check of the proposed upgrade: records the opening note,
    /// takes the number of errors so far (against which the end of the
    /// check compares), and starts the check of the upgrade transaction
    /// against the new version 0.29.1 with its plain fields.
    pub fn begin_verify<'a>(&'a self, verifiers: &'a Verifiers, result: &mut VerificationResult) -> (c:
        UpgradeCheck<'a>)
        ensures
            c.wf(),
            c.upgrade() == *self,
            c.registry() == verifiers.bytecode_verifier@,
            c.address_book() == verifiers.address_verifier@,
            c.start() == old(result)@,
            c.transaction().taken() == 0,
            c.transaction().blocks() == Seq::<Word>::empty(),
            final(result)@ == c.transaction().report(),
            final(result)@ == old(result)@.push(opening_note()) + tx_fields_report(
                self.l2_protocol_upgrade_tx,
                expected_new_version().minor,
            ),
    {
        let ghost start = result@;
        let initial_error_count = result.errors();
        result.print_info(NoteOf::CheckingChainUpgradeInitCalldata);
        let transaction = TransactionCheck::new(
            &self.l2_protocol_upgrade_tx,
            verifiers,
            result,
            get_expected_new_protocol_version(),
        );
        UpgradeCheck { upgrade: self, verifiers, transaction, initial_error_count, start: Ghost(start) }
    }
}

/// The check of a proposed upgrade records what came before it unchanged,
/// then its opening note, then the check of the upgrade transaction's plain
/// fields against version 0.29.1, in which the nonce is reported exactly
/// when it is not 29; a nonce other than 29 is therefore always reported.
pub proof fn lemma_proposed_upgrade_report_order(
    p: ProposedUpgrade,
    registry: Seq<(Seq<u8>, Seq<char>)>,
    address_book: Seq<(Seq<u8>, Seq<char>)>,
    blocks: Seq<Word>,
    l1_chain_id: u64,
    owner_address: Address,
    is_gateway: bool,
    timelocks: Seq<char>,
    validator_timelock: Address,
    before: Seq<EntryView>,
)
    ensures
        ({
            let report = proposed_upgrade_report(
                p,
                registry,
                address_book,
                blocks,
                l1_chain_id,
                owner_address,
                is_gateway,
                timelocks,
                validator_timelock,
                before,
            );
            let fields = tx_fields_report(p.l2_protocol_upgrade_tx, 29);
            let nonce_error = EntryOf::Error(IssueOf::TxNonce { got: p.l2_protocol_upgrade_tx.nonce, expected_minor: 29 });
            &&& report.take(before.len() as int) == before
            &&& report[before.len() as int] == opening_note()
            &&& report.subrange(before.len() + 1 as int, before.len() + 1 + fields.len() as int) == fields
            &&& (fields.contains(nonce_error) <==> p.l2_protocol_upgrade_tx.nonce@ != word_of(29))
            &&& (p.l2_protocol_upgrade_tx.nonce@ != word_of(29) ==> report.contains(nonce_error))
        }),
{
    let report = proposed_upgrade_report(
        p,
        registry,
        address_book,
        blocks,
        l1_chain_id,
        owner_address,
        is_gateway,
        timelocks,
        validator_timelock,
        before,
    );
    let tx = p.l2_protocol_upgrade_tx;
    let fields = tx_fields_report(tx, 29);
    let nonce_error = EntryOf::Error(IssueOf::TxNonce { got: tx.nonce, expected_minor: 29 });
    let run = published_run(expected_bytecode_names(), registry, tx.factory_deps@, blocks);
    let opened = before.push(opening_note()) + transaction_report(
        tx,
        registry,
        expected_new_version().minor,
        blocks,
        l1_chain_id,
        owner_address,
    );
    let others = upgrade_fields_report(p, registry, address_book, is_gateway, timelocks, validator_timelock);
    let closing = final_note(opened + others, error_count(before));
    let a = run.1;
    let b = error_if(run.0.len() != 0, IssueOf::MissingFactoryDependencies { files: run.0 });
    let c = complex_upgrade_report(decoded_force_deploy_and_upgrade_call(tx.data@)->0, registry, l1_chain_id, owner_address);
    assert(transaction_report(tx, registry, 29, blocks, l1_chain_id, owner_address) == fields + a + b + c);
    assert(report == before.push(opening_note()) + (fields + a + b + c) + others + closing);
    lemma_nonce_reported_iff(tx, 29);
    lemma_report_shape(before, opening_note(), fields, a, b, c, others, closing, nonce_error);
}

/// Where a report is `before`, then `note`, then `fields` and more: the
/// positions of `before`, `note` and `fields` in it.
proof fn lemma_report_shape<A>(
    before: Seq<A>,
    note: A,
    fields: Seq<A>,
    a: Seq<A>,
    b: Seq<A>,
    c: Seq<A>,
    d: Seq<A>,
    e: Seq<A>,
    x: A,
)
    ensures
        ({
            let r = before.push(note) + (fields + a + b + c) + d + e;
            &&& r.take(before.len() as int) == before
            &&& r[before.len() as int] == note
            &&& r.subrange(before.len() + 1 as int, before.len() + 1 + fields.len() as int) == fields
            &&& (fields.contains(x) ==> r.contains(x))
        }),
{
    let r = before.push(note) + (fields + a + b + c) + d + e;
    assert(r.take(before.len() as int) =~= before);
    assert(r.subrange(before.len() + 1 as int, before.len() + 1 + fields.len() as int) =~= fields);
    if fields.contains(x) {
        let k = choose|k: int| 0 <= k < fields.len() && fields[k] == x;
        assert(r[before.len() + 1 + k] == x);
    }
}

} // verus!
