//! Tables that name things: bytecode hashes to the files they were built
//! from, addresses to the contracts deployed there.

use vstd::prelude::*;
use crate::bytes::{bytes_eq, Word};
use crate::report::{EntryOf, EntryView, IssueOf, NoteOf, VerificationResult};

verus! {

/// The value of the last entry whose key is `k`, if any.
pub open spec fn lookup(entries: Seq<(Seq<u8>, Seq<char>)>, k: Seq<u8>) -> Option<Seq<char>>
    decreases entries.len(),
{
    if entries.len() == 0 {
        None
    } else if entries.last().0 == k {
        Some(entries.last().1)
    } else {
        lookup(entries.drop_last(), k)
    }
}

/// A map from `N`-byte keys to names; a later entry for a key replaces an
/// earlier one.
pub struct NameTable<const N: usize> {
    entries: Vec<([u8; N], String)>,
}

/// Bytecode hashes and the files they were compiled from.
pub type BytecodeRegistry = NameTable<32>;

/// Addresses and the names of the contracts deployed there.
pub type AddressBook = NameTable<20>;

impl<const N: usize> View for NameTable<N> {
    type V = Seq<(Seq<u8>, Seq<char>)>;

    closed spec fn view(&self) -> Seq<(Seq<u8>, Seq<char>)> {
        self.entries@.map_values(|e: ([u8; N], String)| (e.0@, e.1@))
    }
}

impl<const N: usize> NameTable<N> {
    /// An empty table.
    pub fn new() -> (t: Self)
        ensures
            t@ == Seq::<(Seq<u8>, Seq<char>)>::empty(),
    {
        let t = NameTable { entries: Vec::new() };
        assert(t@ =~= Seq::<(Seq<u8>, Seq<char>)>::empty());
        t
    }

    /// Names `key` by `name`, replacing any earlier name.
    pub fn insert(&mut self, key: [u8; N], name: String)
        ensures
            final(self)@ == old(self)@.push((key@, name@)),
            forall|k: Seq<u8>|
                lookup(final(self)@, k) == if k == key@ {
                    Some(name@)
                } else {
                    lookup(old(self)@, k)
                },
    {
        let ghost key_view = key@;
        let ghost name_view = name@;
        self.entries.push((key, name));
        assert(self@ =~= old(self)@.push((key_view, name_view)));
        assert forall|k: Seq<u8>|
            lookup(self@, k) == if k == key_view {
                Some(name_view)
            } else {
                lookup(old(self)@, k)
            } by {
            assert(self@.drop_last() =~= old(self)@);
        }
    }

    /// The name of `key`.
    pub fn get(&self, key: &[u8; N]) -> (r: Option<String>)
        ensures
            match r {
                Some(n) => lookup(self@, key@) == Some(n@),
                None => lookup(self@, key@) is None,
            },
    {
        let ghost v = self@;
        let mut i: usize = self.entries.len();
        assert(v.take(i as int) =~= v);
        while i > 0
            invariant
                i <= self.entries@.len(),
                v == self.entries@.map_values(|e: ([u8; N], String)| (e.0@, e.1@)),
                lookup(v, key@) == lookup(v.take(i as int), key@),
            decreases i,
        {
            let entry = &self.entries[i - 1];
            assert(v.take(i as int).drop_last() =~= v.take(i - 1));
            assert(v.take(i as int).last() == (entry.0@, entry.1@));
            if bytes_eq(entry.0.as_slice(), key.as_slice()) {
                return Some(entry.1.clone());
            }
            i = i - 1;
        }
        None
    }
}

/// The tables the checks consult.
pub struct Verifiers {
    /// Which file each known bytecode hash was built from.
    pub bytecode_verifier: BytecodeRegistry,
    /// Which contract each known address holds.
    pub address_verifier: AddressBook,
}

/// What checking that `hash` is the bytecode of `expected` records.
pub open spec fn bytecode_check(
    registry: Seq<(Seq<u8>, Seq<char>)>,
    hash: Word,
    expected: Seq<char>,
) -> EntryView {
    match lookup(registry, hash@) {
        Some(file) => if file == expected {
            EntryOf::Passed(NoteOf::BytecodeMatches { file })
        } else {
            EntryOf::Error(IssueOf::BytecodeFromWrongFile { expected, got: file })
        },
        None => EntryOf::Error(IssueOf::MissingBytecode { expected, hash }),
    }
}

impl VerificationResult {
    /// Checks that `hash` is the bytecode hash of the file `expected`.
    pub fn expect_zk_bytecode(&mut self, registry: &BytecodeRegistry, hash: &Word, expected: &str)
        ensures
            final(self)@ == old(self)@.push(bytecode_check(registry@, *hash, expected@)),
    {
        match registry.get(hash) {
            Some(file) => {
                let expected_name = String::from_str(expected);
                if file == expected_name {
                    self.report_ok(NoteOf::BytecodeMatches { file });
                } else {
                    self.report_error(IssueOf::BytecodeFromWrongFile { expected: expected_name, got: file });
                }
            },
            None => {
                self.report_error(
                    IssueOf::MissingBytecode { expected: String::from_str(expected), hash: *hash },
                );
            },
        }
    }
}

} // verus!
