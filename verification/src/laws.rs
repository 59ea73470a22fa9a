//! Laws of the relay-mask encoding: what each bit of the data byte means,
//! that encoding depends only on the set of selected relays, that mask
//! union matches selector union, and that a duplicate-free selector sets
//! exactly one bit per relay.

use vstd::prelude::*;
use crate::codec::{
    Relay8xCmdSet, valid_relays, relay_in_range, relay_mask, mask_bit, encoded_frame,
};

verus! {

/// Whether bit `k` of a byte is set.
pub open spec fn bit_set(m: u8, k: u8) -> bool {
    m & (1u8 << k) != 0
}

/// The number of set bits in a byte.
pub open spec fn count_ones(m: u8) -> u8 {
    (((m >> 0u8) & 1) + ((m >> 1u8) & 1) + ((m >> 2u8) & 1) + ((m >> 3u8) & 1) + ((m >> 4u8) & 1)
        + ((m >> 5u8) & 1) + ((m >> 6u8) & 1) + ((m >> 7u8) & 1)) as u8
}

/// Law: each bit of the relay mask stands for one relay: for a valid
/// selector, bit `k` of its mask is set exactly when relay `k + 1` is
/// selected.
pub proof fn lemma_relay_mask_bits(s: Seq<u8>, k: u8)
    requires
        valid_relays(s),
        k < 8,
    ensures
        bit_set(relay_mask(s), k) <==> s.contains((k + 1) as u8),
    decreases s.len(),
{
    if s.len() == 0 {
        assert(0u8 & (1u8 << k) == 0) by (bit_vector);
    } else {
        let s0 = s.drop_last();
        let x = s.last();
        assert(relay_in_range(s[s.len() - 1]));
        assert forall|i: int| 0 <= i < s0.len() implies relay_in_range(s0[i]) by {
            assert(s0[i] == s[i]);
        }
        lemma_relay_mask_bits(s0, k);
        let m0 = relay_mask(s0);
        let xk = ((x - 1) as u8);
        assert(relay_mask(s) == m0 | (1u8 << xk));
        assert((m0 | (1u8 << xk)) & (1u8 << k) != 0 <==> (m0 & (1u8 << k) != 0 || xk == k))
            by (bit_vector)
            requires
                xk < 8,
                k < 8,
        ;
        assert(x == (k + 1) as u8 <==> xk == k);
        assert(s =~= s0.push(x));
        vstd::seq_lib::lemma_seq_contains_after_push(s0, x, (k + 1) as u8);
    }
}

/// Law: the relay mask, and with it the encoded frame, depends only on
/// the set of selected relays, not on the order or repetition in which
/// the selector lists them.
pub proof fn lemma_relay_mask_order_independent(s1: Seq<u8>, s2: Seq<u8>)
    requires
        valid_relays(s1),
        valid_relays(s2),
        s1.to_set() == s2.to_set(),
    ensures
        relay_mask(s1) == relay_mask(s2),
{
    let m1 = relay_mask(s1);
    let m2 = relay_mask(s2);
    assert forall|k: u8| k < 8 implies (bit_set(m1, k) == bit_set(m2, k)) by {
        lemma_relay_mask_bits(s1, k);
        lemma_relay_mask_bits(s2, k);
        assert(s1.contains((k + 1) as u8) == s1.to_set().contains((k + 1) as u8));
        assert(s2.contains((k + 1) as u8) == s2.to_set().contains((k + 1) as u8));
    }
    assert(bit_set(m1, 0) == bit_set(m2, 0));
    assert(bit_set(m1, 1) == bit_set(m2, 1));
    assert(bit_set(m1, 2) == bit_set(m2, 2));
    assert(bit_set(m1, 3) == bit_set(m2, 3));
    assert(bit_set(m1, 4) == bit_set(m2, 4));
    assert(bit_set(m1, 5) == bit_set(m2, 5));
    assert(bit_set(m1, 6) == bit_set(m2, 6));
    assert(bit_set(m1, 7) == bit_set(m2, 7));
    assert(m1 == m2) by (bit_vector)
        requires
            bit_set(m1, 0) == bit_set(m2, 0),
            bit_set(m1, 1) == bit_set(m2, 1),
            bit_set(m1, 2) == bit_set(m2, 2),
            bit_set(m1, 3) == bit_set(m2, 3),
            bit_set(m1, 4) == bit_set(m2, 4),
            bit_set(m1, 5) == bit_set(m2, 5),
            bit_set(m1, 6) == bit_set(m2, 6),
            bit_set(m1, 7) == bit_set(m2, 7),
    ;
}

/// Law: encoding is selector-order-independent: two valid selectors with
/// the same set of relays encode, for any command, base address and card
/// offset, to the same frame.
pub proof fn lemma_encode_order_independent(
    c: Relay8xCmdSet,
    start_address: u8,
    card: Option<u8>,
    s1: Seq<u8>,
    s2: Seq<u8>,
)
    requires
        valid_relays(s1),
        valid_relays(s2),
        s1.to_set() == s2.to_set(),
    ensures
        encoded_frame(c, start_address, card, Some(s1)) == encoded_frame(
            c,
            start_address,
            card,
            Some(s2),
        ),
{
    lemma_relay_mask_order_independent(s1, s2);
}

/// Law: the mask of a concatenation of two selectors is the OR of their
/// masks.
pub proof fn lemma_relay_mask_concat(s: Seq<u8>, t: Seq<u8>)
    ensures
        relay_mask(s + t) == relay_mask(s) | relay_mask(t),
    decreases t.len(),
{
    let ms = relay_mask(s);
    if t.len() == 0 {
        assert(s + t =~= s);
        assert(ms | 0u8 == ms) by (bit_vector);
    } else {
        let t0 = t.drop_last();
        lemma_relay_mask_concat(s, t0);
        assert((s + t).drop_last() =~= s + t0);
        assert((s + t).last() == t.last());
        let mt0 = relay_mask(t0);
        let bx = mask_bit(t.last());
        assert((ms | mt0) | bx == ms | (mt0 | bx)) by (bit_vector);
        assert(relay_mask(s + t) == (ms | mt0) | bx);
        assert(relay_mask(t) == mt0 | bx);
    }
}

/// Law: mask union matches selector union: a valid selector whose set of
/// relays is the union of two valid selectors' sets has the OR of their
/// masks as its mask.
pub proof fn lemma_relay_mask_union(s1: Seq<u8>, s2: Seq<u8>, u: Seq<u8>)
    requires
        valid_relays(s1),
        valid_relays(s2),
        valid_relays(u),
        u.to_set() == s1.to_set().union(s2.to_set()),
    ensures
        relay_mask(u) == relay_mask(s1) | relay_mask(s2),
{
    let cat = s1 + s2;
    assert forall|i: int| 0 <= i < cat.len() implies relay_in_range(cat[i]) by {
        if i < s1.len() {
            assert(cat[i] == s1[i]);
        } else {
            assert(cat[i] == s2[i - s1.len()]);
        }
    }
    assert(cat.to_set() =~= s1.to_set().union(s2.to_set())) by {
        assert forall|v: u8| #[trigger] cat.to_set().contains(v) == (s1.to_set().contains(v)
            || s2.to_set().contains(v)) by {
            vstd::seq_lib::lemma_seq_concat_contains_all_elements(s1, s2, v);
        }
    }
    lemma_relay_mask_order_independent(u, cat);
    lemma_relay_mask_concat(s1, s2);
}

/// Law: a valid selector without repeated relays sets exactly one bit per
/// entry: its mask has as many set bits as the selector has entries, which
/// is the size of the set of selected relays.
pub proof fn lemma_relay_mask_count(s: Seq<u8>)
    requires
        valid_relays(s),
        s.no_duplicates(),
    ensures
        count_ones(relay_mask(s)) == s.len(),
        count_ones(relay_mask(s)) == s.to_set().len(),
    decreases s.len(),
{
    s.unique_seq_to_set();
    if s.len() == 0 {
        assert(count_ones(0u8) == 0) by (bit_vector);
    } else {
        let s0 = s.drop_last();
        let x = s.last();
        assert(relay_in_range(s[s.len() - 1]));
        assert forall|i: int| 0 <= i < s0.len() implies relay_in_range(s0[i]) by {
            assert(s0[i] == s[i]);
        }
        assert(!s0.contains(x)) by {
            if s0.contains(x) {
                let i = choose|i: int| 0 <= i < s0.len() && s0[i] == x;
                assert(s[i] == s[s.len() - 1]);
            }
        }
        lemma_relay_mask_count(s0);
        let k = ((x - 1) as u8);
        lemma_relay_mask_bits(s0, k);
        let m0 = relay_mask(s0);
        assert(m0 & (1u8 << k) == 0);
        assert(relay_mask(s) == m0 | (1u8 << k));
        assert(count_ones(m0 | (1u8 << k)) == count_ones(m0) + 1) by (bit_vector)
            requires
                k < 8,
                m0 & (1u8 << k) == 0,
        ;
    }
}

} // verus!
