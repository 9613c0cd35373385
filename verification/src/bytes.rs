//! Fixed-size byte strings (addresses, EVM words) and their big-endian values.

use vstd::prelude::*;

verus! {

/// A 20-byte account address.
pub type Address = [u8; 20];

/// A 32-byte EVM word (`uint256` or `bytes32`), most significant byte first.
pub type Word = [u8; 32];

/// `256` to the power `n`.
pub open spec fn pow256(n: nat) -> nat
    decreases n,
{
    if n == 0 {
        1
    } else {
        256 * pow256((n - 1) as nat)
    }
}

/// The number a byte string denotes when read most significant byte first.
pub open spec fn be_value(s: Seq<u8>) -> nat
    decreases s.len(),
{
    if s.len() == 0 {
        0
    } else {
        be_value(s.drop_last()) * 256 + (s.last() as nat)
    }
}

/// The `len` lowest bytes of `n`, most significant byte first.
pub open spec fn be_bytes(n: nat, len: nat) -> Seq<u8>
    decreases len,
{
    if len == 0 {
        Seq::empty()
    } else {
        be_bytes(n / 256, (len - 1) as nat).push((n % 256) as u8)
    }
}

/// `n` as a 32-byte word (what `U256::from(n)` holds).
pub open spec fn word_of(n: nat) -> Seq<u8> {
    be_bytes(n, 32)
}

/// The address whose value is `n` (`n` below `2^160`).
pub open spec fn address_of(n: nat) -> Seq<u8> {
    be_bytes(n, 20)
}

/// An address as an ABI word: twelve zero bytes, then the address.
pub open spec fn address_word(a: Seq<u8>) -> Seq<u8> {
    Seq::new(12, |i: int| 0u8) + a
}

/// Every byte is zero.
pub open spec fn all_zero(s: Seq<u8>) -> bool {
    forall|i: int| 0 <= i < s.len() ==> s[i] == 0
}

pub proof fn lemma_be_bytes_len(n: nat, len: nat)
    ensures
        be_bytes(n, len).len() == len,
    decreases len,
{
    if len > 0 {
        lemma_be_bytes_len(n / 256, (len - 1) as nat);
    }
}

pub proof fn lemma_pow256_positive(n: nat)
    ensures
        pow256(n) >= 1,
    decreases n,
{
    if n > 0 {
        lemma_pow256_positive((n - 1) as nat);
    }
}

/// A byte string of length `n` denotes a number below `256^n`.
pub proof fn lemma_be_value_bound(s: Seq<u8>)
    ensures
        be_value(s) < pow256(s.len()),
    decreases s.len(),
{
    if s.len() > 0 {
        let p = s.drop_last();
        lemma_be_value_bound(p);
        let x = be_value(p);
        let q = pow256(p.len());
        let b = s.last() as int;
        assert(x * 256 + b < q * 256) by (nonlinear_arith)
            requires
                x < q,
                0 <= b < 256,
        ;
    }
}

/// Reading a concatenation: the front part is worth `256^(back length)` per unit.
pub proof fn lemma_be_value_concat(a: Seq<u8>, b: Seq<u8>)
    ensures
        be_value(a + b) == be_value(a) * pow256(b.len()) + be_value(b),
    decreases b.len(),
{
    if b.len() == 0 {
        assert(a + b =~= a);
        assert(be_value(a) * 1 == be_value(a)) by (nonlinear_arith);
    } else {
        let b1 = b.drop_last();
        assert((a + b).drop_last() =~= a + b1);
        assert((a + b).last() == b.last());
        lemma_be_value_concat(a, b1);
        let va = be_value(a);
        let p = pow256(b1.len());
        let v1 = be_value(b1);
        let l = b.last() as int;
        assert((va * p + v1) * 256 + l == va * (256 * p) + (v1 * 256 + l)) by (nonlinear_arith);
        assert(pow256(b.len()) == 256 * p);
        assert(be_value(b) == v1 * 256 + l);
        assert(be_value(a + b) == be_value(a + b1) * 256 + l);
    }
}

/// Writing `n` in `len` bytes and reading it back gives `n` modulo `256^len`.
pub proof fn lemma_be_value_of_bytes(n: nat, len: nat)
    ensures
        be_value(be_bytes(n, len)) == n % pow256(len),
    decreases len,
{
    if len > 0 {
        let s = be_bytes(n, len);
        lemma_be_bytes_len(n, len);
        assert(s.drop_last() =~= be_bytes(n / 256, (len - 1) as nat));
        lemma_be_value_of_bytes(n / 256, (len - 1) as nat);
        let p = pow256((len - 1) as nat);
        lemma_pow256_positive((len - 1) as nat);
        assert(((n / 256) % p) * 256 + n % 256 == n % (256 * p)) by (nonlinear_arith)
            requires
                p >= 1,
        {
            vstd::arithmetic::div_mod::lemma_breakdown(n as int, 256, p as int);
        }
    }
}

/// A byte string is the bytes of its own value.
pub proof fn lemma_be_bytes_of_value(s: Seq<u8>)
    ensures
        be_bytes(be_value(s), s.len()) == s,
    decreases s.len(),
{
    if s.len() > 0 {
        let p = s.drop_last();
        lemma_be_bytes_of_value(p);
        let v = be_value(s);
        assert(v / 256 == be_value(p) && v % 256 == s.last()) by (nonlinear_arith)
            requires
                v == be_value(p) * 256 + s.last(),
                0 <= s.last() < 256,
        ;
        assert(be_bytes(v, s.len()) =~= p.push(s.last()));
        assert(p.push(s.last()) =~= s);
    }
}

/// `n` as a 32-byte word.
pub fn word_from_u64(n: u64) -> (w: Word)
    ensures
        w@ == word_of(n as nat),
{
    let mut w: Word = [0u8; 32];
    let mut v: u64 = n;
    let mut i: usize = 32;
    while i > 0
        invariant
            i <= 32,
            w@.len() == 32,
            word_of(n as nat) == be_bytes(v as nat, i as nat) + w@.subrange(i as int, 32),
        decreases i,
    {
        let ghost prev = w@;
        assert(be_bytes(v as nat, i as nat) == be_bytes((v / 256) as nat, (i - 1) as nat).push(
            (v % 256) as u8,
        ));
        w[i - 1] = (v % 256) as u8;
        assert(w@.subrange(i - 1, 32) =~= seq![(v % 256) as u8] + prev.subrange(i as int, 32));
        assert(be_bytes((v / 256) as nat, (i - 1) as nat) + w@.subrange(i - 1, 32) =~= be_bytes(
            v as nat,
            i as nat,
        ) + prev.subrange(i as int, 32));
        v = v / 256;
        i = i - 1;
    }
    assert(w@.subrange(0, 32) =~= w@);
    assert(be_bytes(v as nat, 0) =~= Seq::<u8>::empty());
    w
}

/// The address whose value is `n`.
pub fn address_from_u64(n: u64) -> (a: Address)
    ensures
        a@ == address_of(n as nat),
{
    let mut a: Address = [0u8; 20];
    let mut v: u64 = n;
    let mut i: usize = 20;
    while i > 0
        invariant
            i <= 20,
            a@.len() == 20,
            address_of(n as nat) == be_bytes(v as nat, i as nat) + a@.subrange(i as int, 20),
        decreases i,
    {
        let ghost prev = a@;
        assert(be_bytes(v as nat, i as nat) == be_bytes((v / 256) as nat, (i - 1) as nat).push(
            (v % 256) as u8,
        ));
        a[i - 1] = (v % 256) as u8;
        assert(a@.subrange(i - 1, 20) =~= seq![(v % 256) as u8] + prev.subrange(i as int, 20));
        assert(be_bytes((v / 256) as nat, (i - 1) as nat) + a@.subrange(i - 1, 20) =~= be_bytes(
            v as nat,
            i as nat,
        ) + prev.subrange(i as int, 20));
        v = v / 256;
        i = i - 1;
    }
    assert(a@.subrange(0, 20) =~= a@);
    assert(be_bytes(v as nat, 0) =~= Seq::<u8>::empty());
    a
}

/// Byte-wise equality.
pub fn bytes_eq(a: &[u8], b: &[u8]) -> (r: bool)
    ensures
        r == (a@ == b@),
{
    if a.len() != b.len() {
        return false;
    }
    let mut i: usize = 0;
    while i < a.len()
        invariant
            a@.len() == b@.len(),
            i <= a@.len(),
            forall|j: int| 0 <= j < i ==> a@[j] == b@[j],
        decreases a@.len() - i,
    {
        if a[i] != b[i] {
            return false;
        }
        i = i + 1;
    }
    assert(a@ =~= b@);
    true
}

/// Whether every byte is zero.
pub fn is_all_zero(a: &[u8]) -> (r: bool)
    ensures
        r == all_zero(a@),
{
    let mut i: usize = 0;
    while i < a.len()
        invariant
            i <= a@.len(),
            forall|j: int| 0 <= j < i ==> a@[j] == 0,
        decreases a@.len() - i,
    {
        if a[i] != 0 {
            return false;
        }
        i = i + 1;
    }
    true
}

/// Whether a word holds the number `n`.
pub fn word_is(w: &Word, n: u64) -> (r: bool)
    ensures
        r == (w@ == word_of(n as nat)),
{
    let expected = word_from_u64(n);
    bytes_eq(w.as_slice(), expected.as_slice())
}


/// The address whose bytes are `s` (`s` of length 20).
pub open spec fn address_from_seq(s: Seq<u8>) -> Address {
    choose|a: Address| a@ == s
}

/// The word whose bytes are `s` (`s` of length 32).
pub open spec fn word_from_seq(s: Seq<u8>) -> Word {
    choose|w: Word| w@ == s
}

/// An address is the one its bytes name.
pub proof fn lemma_address_from_seq(a: Address)
    ensures
        address_from_seq(a@) == a,
{
    let c = address_from_seq(a@);
    assert(c@ == a@);
    assert(c =~= a);
}

/// A word is the one its bytes name.
pub proof fn lemma_word_from_seq(w: Word)
    ensures
        word_from_seq(w@) == w,
{
    let c = word_from_seq(w@);
    assert(c@ == w@);
    assert(c =~= w);
}

} // verus!
