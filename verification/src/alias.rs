//! Address aliasing between L1 and L2.

use vstd::prelude::*;
use crate::bytes::{
    address_of, be_bytes, be_value, lemma_be_bytes_of_value, lemma_be_value_bound,
    lemma_be_value_concat, lemma_be_value_of_bytes, pow256, Address,
};

verus! {

/// The offset that the bridge adds to an L1 contract address when that
/// contract sends a message to L2.
pub open spec fn alias_offset() -> nat {
    0x1111000000000000000000000000000000001111nat
}

/// `addr` as the L2 side sees it: `addr + offset`, modulo `2^160`.
pub open spec fn aliased(addr: Seq<u8>) -> Seq<u8> {
    address_of((be_value(addr) + alias_offset()) % pow256(20))
}

proof fn lemma_pow256_20()
    ensures
        pow256(20) == 0x10000000000000000000000000000000000000000nat,
{
    reveal_with_fuel(pow256, 21);
}

proof fn lemma_offset_bytes(off: Seq<u8>)
    requires
        off == seq![
            0x11u8, 0x11u8, 0u8, 0u8, 0u8, 0u8, 0u8, 0u8, 0u8, 0u8,
            0u8, 0u8, 0u8, 0u8, 0u8, 0u8, 0u8, 0u8, 0x11u8, 0x11u8,
        ],
    ensures
        be_value(off) == alias_offset(),
{
    assert(off =~= be_bytes(alias_offset(), 20)) by {
        reveal_with_fuel(be_bytes, 21);
    }
    lemma_be_value_of_bytes(alias_offset(), 20);
    lemma_pow256_20();
}

proof fn lemma_be_value_single(x: u8)
    ensures
        be_value(seq![x]) == x,
{
    assert(seq![x].drop_last() =~= Seq::<u8>::empty());
    assert(be_value(Seq::<u8>::empty()) == 0);
}

/// One step of the carry chain: prepending a byte to both operands and to
/// the sum.
proof fn lemma_carry_step(x: u8, y: u8, c: nat, s: Seq<u8>, t: Seq<u8>, r: Seq<u8>, d: nat)
    requires
        s.len() == t.len(),
        t.len() == r.len(),
        be_value(s) + be_value(t) == c * pow256(s.len()) + be_value(r),
        c <= 1,
        d == (x + y + c) / 256,
    ensures
        be_value(seq![x] + s) + be_value(seq![y] + t) == d * pow256(s.len() + 1) + be_value(
            seq![((x + y + c) % 256) as u8] + r,
        ),
{
    lemma_be_value_concat(seq![x], s);
    lemma_be_value_concat(seq![y], t);
    lemma_be_value_concat(seq![((x + y + c) % 256) as u8], r);
    lemma_be_value_single(x);
    lemma_be_value_single(y);
    let z = ((x + y + c) % 256) as u8;
    lemma_be_value_single(z);
    let p = pow256(s.len());
    let vs = be_value(s);
    let vt = be_value(t);
    let vr = be_value(r);
    let xi = x as int;
    let yi = y as int;
    let ci = c as int;
    assert(xi * p + vs + (yi * p + vt) == d * (256 * p) + (((xi + yi + ci) % 256) * p + vr))
        by (nonlinear_arith)
        requires
            vs + vt == ci * p + vr,
            d == (xi + yi + ci) / 256,
            0 <= xi + yi + ci,
    ;
}

/// The L2 alias of an L1 address: the address plus
/// `0x1111000000000000000000000000000000001111`, wrapping at `2^160`.
pub fn apply_l2_to_l1_alias(addr: Address) -> (r: Address)
    ensures
        r@ == aliased(addr@),
        be_value(r@) == (be_value(addr@) + 0x1111000000000000000000000000000000001111nat)
            % 0x10000000000000000000000000000000000000000nat,
{
    let off: Address = [
        0x11, 0x11, 0, 0, 0, 0, 0, 0, 0, 0, 0, 0, 0, 0, 0, 0, 0, 0, 0x11, 0x11,
    ];
    proof {
        lemma_offset_bytes(off@);
    }
    let mut r: Address = [0u8; 20];
    let mut carry: u16 = 0;
    let mut i: usize = 20;
    assert(addr@.subrange(20, 20) =~= Seq::<u8>::empty());
    assert(off@.subrange(20, 20) =~= Seq::<u8>::empty());
    assert(r@.subrange(20, 20) =~= Seq::<u8>::empty());
    while i > 0
        invariant
            i <= 20,
            carry <= 1,
            be_value(addr@.subrange(i as int, 20)) + be_value(off@.subrange(i as int, 20))
                == carry * pow256((20 - i) as nat) + be_value(r@.subrange(i as int, 20)),
        decreases i,
    {
        let ghost prev = r@;
        let sum: u16 = addr[i - 1] as u16 + off[i - 1] as u16 + carry;
        proof {
            lemma_carry_step(
                addr[i - 1 as int],
                off[i - 1 as int],
                carry as nat,
                addr@.subrange(i as int, 20),
                off@.subrange(i as int, 20),
                prev.subrange(i as int, 20),
                (sum / 256) as nat,
            );
            assert(seq![addr[i - 1 as int]] + addr@.subrange(i as int, 20) =~= addr@.subrange(
                i - 1,
                20,
            ));
            assert(seq![off[i - 1 as int]] + off@.subrange(i as int, 20) =~= off@.subrange(
                i - 1,
                20,
            ));
        }
        r[i - 1] = (sum % 256) as u8;
        assert(seq![(sum % 256) as u8] + prev.subrange(i as int, 20) =~= r@.subrange(i - 1, 20));
        carry = sum / 256;
        i = i - 1;
    }
    proof {
        assert(addr@.subrange(0, 20) =~= addr@);
        assert(off@.subrange(0, 20) =~= off@);
        assert(r@.subrange(0, 20) =~= r@);
        lemma_pow256_20();
        lemma_be_value_bound(r@);
        let total = be_value(addr@) + alias_offset();
        vstd::arithmetic::div_mod::lemma_fundamental_div_mod_converse(
            total as int,
            pow256(20) as int,
            carry as int,
            be_value(r@) as int,
        );
        lemma_be_bytes_of_value(r@);
    }
    r
}

} // verus!
