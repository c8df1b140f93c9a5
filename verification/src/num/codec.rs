//! The codec between integers and buffers of host words.

use crate::num::digits::{
    byte_at, digits_of, le_value, lemma_byte_at_add_multiple, lemma_byte_at_bound,
    lemma_byte_at_high_ones, lemma_byte_at_le_value, lemma_le_value_bound, lemma_le_value_concat,
    lemma_le_value_digits_of, lemma_le_value_push, lemma_normalized_lower_bound,
    lemma_pow256_monotonic, lemma_pow256_positive, lemma_top_bit, normalized, pow256,
};
use crate::num::integer::Integer;
use crate::num::laws::lemma_stored_bits_twice;
use crate::num::magnitude::{append, assemble, lower_all_zero, negate, split, trim, window};
use crate::num::pack::{
    buffer_value, pack_pattern, pack_sign, packed, slot, stored_bits, unpacked, word_bits,
    word_value, Options, Order, Sign, Word,
};
use vstd::arithmetic::div_mod::{lemma_fundamental_div_mod_converse, lemma_small_mod};
use vstd::prelude::*;

verus! {

/// The digits that a pack writes, as one string that goes on without end:
/// `ext` and then `fill`, where `ext` is the magnitude itself or, for a
/// negative integer in two's complement, its complement.
pub proof fn lemma_pattern_digit(v: int, twos: bool, mag: Seq<u8>, ext: Seq<u8>, k: nat)
    requires
        v == le_value(mag) || (v == -le_value(mag) && v < 0),
        twos && v < 0 ==> ext.len() == mag.len() && le_value(ext) == pow256(mag.len()) - le_value(
            mag,
        ),
        !(twos && v < 0) ==> ext == mag,
    ensures
        byte_at(pack_pattern(v, twos), k) == if k < ext.len() {
            ext[k as int] as int
        } else if twos && v < 0 {
            255
        } else {
            0
        },
{
    lemma_le_value_bound(mag);
    lemma_byte_at_le_value(ext, k);
    if twos && v < 0 {
        let l = ext.len();
        assert(v == le_value(ext) + (-1) * pow256(l));
        if k < l {
            lemma_byte_at_add_multiple(le_value(ext), -1, l, k);
        } else {
            lemma_byte_at_high_ones(v, l, k);
        }
    }
}

/// What a pack into `words` words of `size` bytes reports of an integer
/// given by sign and magnitude.
fn report(negative: bool, mag: &Vec<u8>, twos: bool, words: usize, size: usize) -> (sign: Sign)
    requires
        normalized(mag@),
        1 <= size <= 16,
        negative ==> le_value(mag@) > 0,
    ensures
        sign == pack_sign(
            if negative {
                -le_value(mag@)
            } else {
                le_value(mag@)
            },
            twos,
            (words * size) as nat,
        ),
{
    assert(words as u128 * size as u128 <= u128::MAX) by (nonlinear_arith)
        requires
            words <= u64::MAX,
            size <= 16,
    ;
    let total: u128 = words as u128 * size as u128;
    let len: u128 = mag.len() as u128;
    proof {
        lemma_le_value_bound(mag@);
        if len > 0 {
            lemma_normalized_lower_bound(mag@);
            lemma_pow256_positive((len - 1) as nat);
            if len > total {
                lemma_pow256_monotonic(total as nat, (len - 1) as nat);
            } else {
                lemma_pow256_monotonic(len as nat, total as nat);
            }
        }
    }
    if len == 0 {
        Sign::Zero
    } else if !negative {
        Sign::Positive { did_overflow: len > total }
    } else if !twos || len <= total {
        Sign::Negative { did_overflow: len > total }
    } else if len > total + 1 {
        proof {
            lemma_pow256_monotonic((total + 1) as nat, (len - 1) as nat);
            lemma_pow256_positive(total as nat);
            assert(pow256((total + 1) as nat) == 256 * pow256(total as nat));
        }
        Sign::Negative { did_overflow: true }
    } else {
        let top: u8 = mag[mag.len() - 1];
        let rest_zero: bool = lower_all_zero(mag);
        proof {
            let p = pow256(total as nat);
            let t = top as int;
            lemma_le_value_bound(mag@.drop_last());
            lemma_pow256_positive(total as nat);
            assert(t >= 2 ==> t * p >= 2 * p) by (nonlinear_arith)
                requires
                    p >= 1,
            ;
            assert(t == 1 ==> t * p == p) by (nonlinear_arith);
        }
        Sign::Negative { did_overflow: !(top == 1 && rest_zero) }
    }
}

impl Integer {
    /// Packs the integer into `buf` on a host of the given byte order: each
    /// word gets the digits of its place, cut off at the buffer's end, and
    /// the report says whether anything was cut off.
    pub fn pack_on_host<W: Word>(
        &self,
        options: Options,
        little_host: bool,
        buf: &mut [W],
    ) -> (sign: Sign)
        ensures
            final(buf)@.len() == old(buf)@.len(),
            packed(self@, options.word_order, options.swaps(little_host), final(buf)@),
            sign == pack_sign(self@, W::signed(), old(buf)@.len() * W::width()),
    {
        let n: usize = buf.len();
        let size: usize = W::size();
        let twos: bool = W::is_signed();
        let swap: bool = options.swaps_on(little_host);
        let (negative, mag) = self.parts();
        let sign: Sign = report(negative, &mag, twos, n, size);
        let complement: bool = twos && negative;
        let fill: u8 = if complement {
            255
        } else {
            0
        };
        let ext: Vec<u8> = if complement {
            negate(&mag).0
        } else {
            mag
        };
        let ghost p: int = pack_pattern(self@, twos);
        let ghost m: Seq<u8> = mag@;
        let mut i: usize = 0;
        while i < n
            invariant
                n == buf@.len(),
                i <= n,
                size == W::width(),
                1 <= size <= 16,
                twos == W::signed(),
                swap == options.swaps(little_host),
                p == pack_pattern(self@, twos),
                fill == if twos && self@ < 0 {
                    255u8
                } else {
                    0u8
                },
                self@ == le_value(m) || (self@ == -le_value(m) && self@ < 0),
                twos && self@ < 0 ==> ext@.len() == m.len() && le_value(ext@) == pow256(m.len())
                    - le_value(m),
                !(twos && self@ < 0) ==> ext@ == m,
                forall|k: int|
                    0 <= k < n && slot(k, n as int, options.word_order) < i ==> (
                    #[trigger] buf@[k]).value() == word_value_at::<W>(
                        p,
                        slot(k, n as int, options.word_order),
                        swap,
                    ),
            decreases n - i,
        {
            let digits: Vec<u8> = window(&ext, fill, i, size);
            proof {
                assert forall|j: int| 0 <= j < size implies digits@[j] == #[trigger] digits_of(
                    p,
                    (i * size) as nat,
                    size as nat,
                )[j] by {
                    lemma_pattern_digit(self@, twos, m, ext@, (i * size + j) as nat);
                    lemma_byte_at_bound(p, (i * size + j) as nat);
                }
                assert(digits@ =~= digits_of(p, (i * size) as nat, size as nat));
                lemma_le_value_bound(digits@);
                lemma_le_value_bound(digits@.reverse());
            }
            let bits: u128 = assemble(&digits, swap);
            let w: W = W::from_bits(bits);
            let at: usize = match options.word_order {
                Order::Least => i,
                Order::Most => n - 1 - i,
            };
            buf[at] = w;
            i += 1;
        }
        sign
    }

    /// The integer that `buf` stands for on a host of the given byte order.
    pub fn unpack_on_host<W: Word>(buf: &[W], options: Options, little_host: bool) -> (r: Integer)
        ensures
            r@ == unpacked(
                buf@,
                options.word_order,
                options.swaps(little_host),
                options.is_negative,
            ),
    {
        let n: usize = buf.len();
        let size: usize = W::size();
        let twos: bool = W::is_signed();
        let swap: bool = options.swaps_on(little_host);
        let mut all: Vec<u8> = Vec::new();
        let mut i: usize = 0;
        while i < n
            invariant
                n == buf@.len(),
                i <= n,
                size == W::width(),
                1 <= size <= 16,
                swap == options.swaps(little_host),
                all@.len() == i * size,
                le_value(all@) == buffer_value(buf@, options.word_order, swap, i as nat),
            decreases n - i,
        {
            let at: usize = match options.word_order {
                Order::Least => i,
                Order::Most => n - 1 - i,
            };
            let bits: u128 = buf[at].to_bits();
            let digits: Vec<u8> = split(bits, size);
            proof {
                let piece = if swap {
                    digits@.reverse()
                } else {
                    digits@
                };
                lemma_le_value_concat(all@, piece);
                assert(0 * size == 0);
                assert((i + 1) * size == i * size + size) by (nonlinear_arith);
            }
            append(&mut all, &digits, swap);
            i += 1;
        }
        let ghost u: int = le_value(all@);
        proof {
            lemma_top_bit(all@);
            lemma_le_value_bound(all@);
        }
        if twos && (options.is_negative || (all.len() > 0 && all[all.len() - 1] >= 128)) {
            let (mut mag, zero) = negate(&all);
            if zero {
                proof {
                    lemma_le_value_push(mag@, 1u8);
                }
                mag.push(1);
            }
            Integer::from_parts(true, trim(mag))
        } else {
            Integer::from_parts(!twos && options.is_negative, trim(all))
        }
    }
}

/// The number in the word of significance `i` after a pack of the
/// pattern `p`.
pub open spec fn word_value_at<W: Word>(p: int, i: int, swap: bool) -> int {
    word_value(stored_bits(p, i as nat, W::width(), swap), W::signed(), W::width())
}

/// Whether a word of `width` bytes can hold `v` without loss. A signed word
/// needs a byte for its sign bit; a negative power of two needs no bit
/// beyond its own.
pub open spec fn spec_can_represent(v: int, signed: bool, width: nat) -> bool {
    if signed {
        width >= 1 && -pow256(width) <= 2 * v < pow256(width)
    } else {
        0 <= v < pow256(width)
    }
}

/// In the host's byte order a word holds the digits of its place as one
/// number: the pattern divided by the power of what lies below the word,
/// cut off at the word's width.
pub proof fn lemma_stored_bits_native(p: int, i: nat, width: nat)
    ensures
        stored_bits(p, i, width, false) == (p / pow256(i * width)) % pow256(width),
        stored_bits(p, 0, width, false) == word_bits(p, width),
{
    lemma_le_value_digits_of(p, i * width, width);
    lemma_le_value_digits_of(p, 0, width);
    assert(0 * width == 0);
    assert(pow256(0) == 1);
}

/// The bit pattern of a number of a word's range gives the number back.
pub proof fn lemma_word_value_of_bits(v: int, signed: bool, width: nat)
    requires
        spec_can_represent(v, signed, width),
    ensures
        0 <= word_bits(v, width) < pow256(width),
        word_value(word_bits(v, width), signed, width) == v,
{
    let p = pow256(width);
    lemma_pow256_positive(width);
    if v >= 0 {
        lemma_small_mod(v as nat, p as nat);
    } else {
        lemma_fundamental_div_mod_converse(v, p, -1, v + p);
    }
}

/// The number that the host reads from two bytes in its own order, by
/// `u16::from_ne_bytes`: the first byte counts once and the second 256 times
/// on a little-endian host, the other way round on a big-endian one.
#[verifier::external_body]
fn native_u16(bytes: [u8; 2]) -> (r: u16)
    ensures
        r == bytes[0] + 256 * bytes[1] || r == 256 * bytes[0] + bytes[1],
{
    u16::from_ne_bytes(bytes)
}

/// Whether this host keeps the least significant byte of a word first.
pub fn host_is_little_endian() -> bool {
    reads_least_first(native_u16([1u8, 0u8]))
}

/// Whether a host that reads `probe` from the bytes 1 and 0 keeps the least
/// significant byte of a word first: such a host reads 1, any other 256.
pub fn reads_least_first(probe: u16) -> (b: bool)
    ensures
        b == (probe == 1),
{
    probe == 1
}

impl Integer {
    /// The integer that a host word holds.
    pub fn from_word<W: Word>(w: W) -> (r: Integer)
        ensures
            r@ == w.value(),
    {
        let mut buf: Vec<W> = Vec::new();
        buf.push(w);
        proof {
            lemma_round_trip(w, Order::Least, false, false);
            assert(buf@ =~= seq![w]);
        }
        Integer::unpack_on_host(buf.as_slice(), Options::new(), true)
    }

    /// The integer that `buf` stands for: the least significant word first,
    /// each word in the host's byte order.
    pub fn unpack<W: Word>(buf: &[W]) -> (r: Integer)
        ensures
            r@ == unpacked(buf@, Order::Least, false, false),
    {
        Integer::unpack_on_host(buf, Options::new(), true)
    }

    /// The integer that `buf` stands for under `options`. What an explicit
    /// byte order means for the words depends on the host's own.
    pub fn unpack_using<W: Word>(buf: &[W], options: Options) -> (r: Integer)
        ensures
            r@ == unpacked(buf@, options.word_order, options.swaps(true), options.is_negative)
                || r@ == unpacked(
                buf@,
                options.word_order,
                options.swaps(false),
                options.is_negative,
            ),
    {
        Integer::unpack_on_host(buf, options, host_is_little_endian())
    }

    /// Packs the integer into `buf`, the least significant word first, each
    /// word in the host's byte order.
    pub fn pack<W: Word>(&self, buf: &mut [W]) -> (sign: Sign)
        ensures
            final(buf)@.len() == old(buf)@.len(),
            packed(self@, Order::Least, false, final(buf)@),
            sign == pack_sign(self@, W::signed(), old(buf)@.len() * W::width()),
    {
        self.pack_on_host(Options::new(), true, buf)
    }

    /// Packs the integer into `buf` under `options`. What an explicit byte
    /// order means for the words depends on the host's own.
    pub fn pack_using<W: Word>(&self, options: Options, buf: &mut [W]) -> (sign: Sign)
        ensures
            final(buf)@.len() == old(buf)@.len(),
            packed(self@, options.word_order, options.swaps(true), final(buf)@) || packed(
                self@,
                options.word_order,
                options.swaps(false),
                final(buf)@,
            ),
            sign == pack_sign(self@, W::signed(), old(buf)@.len() * W::width()),
    {
        self.pack_on_host(options, host_is_little_endian(), buf)
    }

    /// Whether a word of `word_size` bytes, signed or not, can hold the
    /// integer, and whether the integer is negative.
    pub fn _can_represent_raw(&self, signed: bool, word_size: usize) -> (r: (bool, bool))
        ensures
            r.0 == spec_can_represent(self@, signed, word_size as nat),
            r.1 == (self@ < 0),
    {
        let (negative, mag) = self.parts();
        let size: usize = mag.len();
        let ghost w: nat = word_size as nat;
        proof {
            lemma_le_value_bound(mag@);
            lemma_top_bit(mag@);
            lemma_pow256_positive(w);
            if size > 0 {
                lemma_normalized_lower_bound(mag@);
                lemma_pow256_positive((size - 1) as nat);
                assert(pow256(size as nat) == 256 * pow256((size - 1) as nat));
                if size <= w {
                    lemma_pow256_monotonic(size as nat, w);
                } else {
                    lemma_pow256_monotonic(w, (size - 1) as nat);
                }
                if size + 1 <= w {
                    lemma_pow256_monotonic(size as nat, (w - 1) as nat);
                    assert(pow256(w) == 256 * pow256((w - 1) as nat));
                }
            }
            if w >= 1 {
                assert(pow256(w) == 256 * pow256((w - 1) as nat));
                lemma_pow256_positive((w - 1) as nat);
            }
        }
        let can: bool = if signed {
            if size == 0 {
                word_size >= 1
            } else if mag[size - 1] < 128 {
                size <= word_size
            } else if negative && mag[size - 1] == 128 && lower_all_zero(&mag) {
                proof {
                    let p = pow256((size - 1) as nat);
                    assert(128 * p + 128 * p == 256 * p);
                }
                size <= word_size
            } else {
                proof {
                    let p = pow256((size - 1) as nat);
                    let t = mag@.last() as int;
                    lemma_le_value_bound(mag@.drop_last());
                    assert(t > 128 ==> 2 * (t * p) > 256 * p) by (nonlinear_arith)
                        requires
                            p >= 1,
                    ;
                    assert(t == 128 ==> 2 * (t * p) == 256 * p) by (nonlinear_arith);
                }
                size < word_size
            }
        } else if negative {
            false
        } else {
            size <= word_size
        };
        (can, negative)
    }

    /// Whether a word of type `W` can hold the integer, and whether the
    /// integer is negative.
    pub fn _can_represent<W: Word>(&self) -> (r: (bool, bool))
        ensures
            r.0 == spec_can_represent(self@, W::signed(), W::width()),
            r.1 == (self@ < 0),
    {
        self._can_represent_raw(W::is_signed(), W::size())
    }

    /// Whether a word of type `W` can hold the integer.
    pub fn can_represent<W: Word>(&self) -> (b: bool)
        ensures
            b == spec_can_represent(self@, W::signed(), W::width()),
    {
        self._can_represent::<W>().0
    }

    /// The integer as a word of type `W`, if such a word can hold it.
    pub fn to_value<W: Word>(&self) -> (r: Option<W>)
        ensures
            r is Some <==> spec_can_represent(self@, W::signed(), W::width()),
            r is Some ==> r->Some_0.value() == self@,
    {
        if !self.can_represent::<W>() {
            return None;
        }
        let val: W = self.to_truncated::<W>();
        proof {
            lemma_word_value_of_bits(self@, W::signed(), W::width());
        }
        Some(val)
    }

    /// The integer cut down to a word of type `W`: for a signed type the low
    /// bits of its two's complement, as a narrowing cast gives them; for an
    /// unsigned type the low bits of its magnitude.
    pub fn to_truncated<W: Word>(&self) -> (w: W)
        ensures
            w.value() == word_value(
                word_bits(pack_pattern(self@, W::signed()), W::width()),
                W::signed(),
                W::width(),
            ),
    {
        let mut buf: Vec<W> = Vec::new();
        buf.push(W::zero());
        let _ = self.pack(buf.as_mut_slice());
        proof {
            lemma_stored_bits_native(pack_pattern(self@, W::signed()), 0, W::width());
        }
        buf[0]
    }
}

/// One word, unpacked and packed again into a word of its type, comes back
/// as it was, without overflow, whatever the order of words, the order of
/// bytes and the sign that the unpacking was asked for.
pub proof fn lemma_round_trip<W: Word>(w: W, order: Order, swap: bool, negative: bool)
    ensures
        !negative && !swap ==> unpacked(seq![w], order, swap, negative) == w.value(),
        !pack_sign(
            unpacked(seq![w], order, swap, negative),
            W::signed(),
            W::width(),
        ).spec_did_overflow(),
        forall|buf: Seq<W>|
            buf.len() == 1 && #[trigger] packed(
                unpacked(seq![w], order, swap, negative),
                order,
                swap,
                buf,
            ) ==> buf[0].value() == w.value(),
{
    let width = W::width();
    let signed = W::signed();
    let p = pow256(width);
    let n = w.value();
    let bits = word_bits(n, width);
    w.lemma_word();
    lemma_pow256_positive(width);
    assert(spec_can_represent(n, signed, width));
    lemma_word_value_of_bits(n, signed, width);
    lemma_small_mod(bits as nat, p as nat);
    // what the unpacking reads: the word's bytes in the order asked for
    let u = stored_bits(bits, 0, width, swap);
    lemma_stored_bits_twice(bits, 0, width, swap);
    lemma_stored_bits_native(bits, 0, width);
    assert(0 * width == 0);
    assert(pow256(0) == 1);
    assert(stored_bits(u, 0, width, swap) == bits);
    let one = seq![w];
    assert(slot(0, 1, order) == 0);
    assert(one[0] == w);
    assert(buffer_value(one, order, swap, 0) == 0);
    assert(buffer_value(one, order, swap, 1) == u) by {
        reveal_with_fuel(buffer_value, 2);
    }
    assert(1 * width == width);
    let v = unpacked(one, order, swap, negative);
    let q = pack_pattern(v, signed);
    // the pattern that is packed has the digits that were read
    assert(q == u || q == u - p);
    assert(digits_of(q, 0, width) =~= digits_of(u, 0, width)) by {
        assert forall|j: int| 0 <= j < width implies #[trigger] digits_of(q, 0, width)[j]
            == digits_of(u, 0, width)[j] by {
            if q != u {
                assert(q == u + (-1) * p);
                lemma_byte_at_add_multiple(u, -1, width, j as nat);
            }
        }
    }
    assert(stored_bits(q, 0, width, swap) == bits);
    assert forall|buf: Seq<W>|
        buf.len() == 1 && #[trigger] packed(v, order, swap, buf) implies buf[0].value() == n by {
        assert(slot(0, 1, order) == 0);
    }
}

/// Where a word can hold an integer, a pack into one such word does not
/// overflow.
pub proof fn lemma_can_represent_packs(v: int, signed: bool, width: nat)
    requires
        spec_can_represent(v, signed, width),
    ensures
        !pack_sign(v, signed, width).spec_did_overflow(),
{
    lemma_pow256_positive(width);
}

/// A word can hold an integer just where a pack into one such word does
/// not overflow, for every integer but those whose loss a pack does not
/// report: a negative magnitude that fits an unsigned word, and an integer
/// outside a signed word's range whose two's complement still fits the
/// word's bits.
pub proof fn lemma_can_represent_iff_no_overflow(v: int, signed: bool, width: nat)
    requires
        width >= 1,
        !signed ==> !(-pow256(width) < v < 0),
        signed ==> !(pow256(width) <= 2 * v < 2 * pow256(width)),
        signed ==> !(-2 * pow256(width) <= 2 * v < -pow256(width)),
    ensures
        spec_can_represent(v, signed, width) <==> !pack_sign(
            v,
            signed,
            width,
        ).spec_did_overflow(),
{
    lemma_pow256_positive(width);
}

} // verus!
