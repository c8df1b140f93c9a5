//! What holds between packing and unpacking.

use crate::num::digits::{
    byte_at, digits_of, le_value, lemma_byte_at_bound, lemma_byte_at_le_value,
    lemma_div_mod_by_product, lemma_le_value_bound, lemma_le_value_digits_of, lemma_pow256_add,
    lemma_pow256_positive, pow256,
};
use crate::num::pack::{
    buffer_value, pack_pattern, packed, slot, stored_bits, unpacked, word_bits, word_value, Order,
    Word,
};
use vstd::arithmetic::div_mod::{
    lemma_fundamental_div_mod_converse, lemma_mod_bound, lemma_small_mod,
};
use vstd::prelude::*;

verus! {

/// The digits of the number that a string stands for are the string.
pub proof fn lemma_digits_of_le_value(s: Seq<u8>)
    ensures
        digits_of(le_value(s), 0, s.len()) == s,
{
    assert forall|j: int| 0 <= j < s.len() implies #[trigger] digits_of(le_value(s), 0, s.len())[j]
        == s[j] by {
        lemma_byte_at_le_value(s, j as nat);
    }
    assert(digits_of(le_value(s), 0, s.len()) =~= s);
}

/// A word's bytes, written in some order and read in the same order, give
/// the digits that were written.
pub proof fn lemma_stored_bits_twice(p: int, i: nat, width: nat, swap: bool)
    ensures
        0 <= stored_bits(p, i, width, swap) < pow256(width),
        stored_bits(stored_bits(p, i, width, swap), 0, width, swap) == (p / pow256(i * width))
            % pow256(width),
{
    let d = digits_of(p, i * width, width);
    let written = if swap {
        d.reverse()
    } else {
        d
    };
    lemma_le_value_bound(written);
    lemma_digits_of_le_value(written);
    assert(0 * width == 0);
    assert(written.len() == width);
    assert(d.reverse().reverse() =~= d);
    lemma_le_value_digits_of(p, i * width, width);
}

/// The bit pattern of the number that a word with some bit pattern holds is
/// that bit pattern.
pub proof fn lemma_word_bits_of_value(bits: int, signed: bool, width: nat)
    requires
        0 <= bits < pow256(width),
    ensures
        word_bits(word_value(bits, signed, width), width) == bits,
{
    let p = pow256(width);
    if signed && 2 * bits >= p {
        lemma_fundamental_div_mod_converse(bits - p, p, -1, bits);
    } else {
        lemma_small_mod(bits as nat, p as nat);
    }
}

/// The words of a packed buffer, put side by side, are the digits of the
/// packed pattern as far as the words go.
pub proof fn lemma_buffer_value_of_packed<W: Word>(
    v: int,
    order: Order,
    swap: bool,
    buf: Seq<W>,
    w: W,
    count: nat,
)
    requires
        packed(v, order, swap, buf),
        count <= buf.len(),
    ensures
        buffer_value(buf, order, swap, count) == pack_pattern(v, W::signed()) % pow256(
            count * W::width(),
        ),
    decreases count,
{
    let width = W::width();
    let p = pack_pattern(v, W::signed());
    w.lemma_word();
    if count == 0 {
        assert(0 * width == 0);
        assert(pow256(0) == 1);
    } else {
        let i = (count - 1) as nat;
        lemma_buffer_value_of_packed(v, order, swap, buf, w, i);
        let k = slot(i as int, buf.len() as int, order);
        assert(slot(k, buf.len() as int, order) == i);
        let stored = stored_bits(p, i, width, swap);
        lemma_stored_bits_twice(p, i, width, swap);
        assert(buf[k].value() == word_value(stored, W::signed(), width));
        lemma_word_bits_of_value(stored, W::signed(), width);
        lemma_pow256_positive(i * width);
        lemma_pow256_positive(width);
        lemma_div_mod_by_product(p, pow256(i * width), pow256(width));
        lemma_pow256_add(i * width, width);
        assert(i * width + width == count * width) by (nonlinear_arith)
            requires
                count == i + 1,
        ;
        let low = p % pow256(i * width);
        let digit = (p / pow256(i * width)) % pow256(width);
        assert(pow256(i * width) * digit == digit * pow256(i * width)) by (nonlinear_arith);
    }
}

/// What was packed without overflow comes back when the buffer is
/// unpacked the same way: through signed words an integer that the buffer's
/// bits hold in two's complement, through unsigned words an integer that is
/// not negative. The magnitude of a negative integer comes back through
/// unsigned words when the unpacking is asked for a negative integer.
pub proof fn lemma_unpack_packed<W: Word>(v: int, order: Order, swap: bool, buf: Seq<W>, w: W)
    requires
        packed(v, order, swap, buf),
        W::signed() ==> -pow256(buf.len() * W::width()) <= 2 * v < pow256(buf.len() * W::width()),
        !W::signed() ==> -pow256(buf.len() * W::width()) < v < pow256(buf.len() * W::width()),
    ensures
        unpacked(buf, order, swap, !W::signed() && v < 0) == v,
{
    let n = buf.len() * W::width();
    let p = pack_pattern(v, W::signed());
    let big = pow256(n);
    lemma_buffer_value_of_packed(v, order, swap, buf, w, buf.len());
    lemma_pow256_positive(n);
    if p >= 0 {
        lemma_small_mod(p as nat, big as nat);
    } else {
        lemma_fundamental_div_mod_converse(p, big, -1, p + big);
    }
}

} // verus!
