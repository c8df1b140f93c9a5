//! Integers as strings of base-256 digits: the arithmetic behind the codec.

use vstd::arithmetic::div_mod::*;
use vstd::prelude::*;

verus! {

/// 256 to the power `n`.
pub open spec fn pow256(n: nat) -> int
    decreases n,
{
    if n == 0 {
        1
    } else {
        256 * pow256((n - 1) as nat)
    }
}

/// Digit `k` of `p` in base 256. For a negative `p` these are the digits of
/// its two's-complement pattern, extended by 255 without end.
pub open spec fn byte_at(p: int, k: nat) -> int {
    (p / pow256(k)) % 256
}

/// The number whose base-256 digits, least significant first, are `s`.
pub open spec fn le_value(s: Seq<u8>) -> int
    decreases s.len(),
{
    if s.len() == 0 {
        0
    } else {
        le_value(s.drop_last()) + s.last() as int * pow256((s.len() - 1) as nat)
    }
}

/// The `len` digits of `p` from digit `start` on, least significant first.
pub open spec fn digits_of(p: int, start: nat, len: nat) -> Seq<u8> {
    Seq::new(len, |j: int| byte_at(p, (start + j) as nat) as u8)
}

/// Whether `s` is the shortest string of digits for its number.
pub open spec fn normalized(s: Seq<u8>) -> bool {
    s.len() == 0 || s.last() != 0
}

/// Every power of 256 is at least 1.
pub proof fn lemma_pow256_positive(n: nat)
    ensures
        pow256(n) >= 1,
    decreases n,
{
    if n > 0 {
        lemma_pow256_positive((n - 1) as nat);
    }
}

/// The power of a sum is the product of the powers.
pub proof fn lemma_pow256_add(a: nat, b: nat)
    ensures
        pow256(a + b) == pow256(a) * pow256(b),
    decreases a,
{
    if a == 0 {
        assert(pow256(0) == 1);
    } else {
        lemma_pow256_add((a - 1) as nat, b);
        assert((a - 1) as nat + b == (a + b - 1) as nat);
        let low = pow256((a - 1) as nat);
        assert(256 * (low * pow256(b)) == (256 * low) * pow256(b)) by (nonlinear_arith);
    }
}

/// A higher power is not less.
pub proof fn lemma_pow256_monotonic(a: nat, b: nat)
    requires
        a <= b,
    ensures
        pow256(a) <= pow256(b),
{
    lemma_pow256_add(a, (b - a) as nat);
    lemma_pow256_positive(a);
    lemma_pow256_positive((b - a) as nat);
    assert(pow256(a) * 1 <= pow256(a) * pow256((b - a) as nat)) by (nonlinear_arith)
        requires
            pow256(a) >= 1,
            pow256((b - a) as nat) >= 1,
    ;
    assert(a + (b - a) as nat == b);
}

/// The values of the powers that the fixed-width words reach.
pub proof fn lemma_pow256_values()
    ensures
        pow256(0) == 1,
        pow256(1) == 0x100,
        pow256(2) == 0x1_0000,
        pow256(4) == 0x1_0000_0000,
        pow256(8) == 0x1_0000_0000_0000_0000,
        pow256(15) == 0x1_0000_0000_0000_0000_0000_0000_0000_00,
        pow256(16) == 0x1_0000_0000_0000_0000_0000_0000_0000_0000,
{
    reveal_with_fuel(pow256, 17);
}

/// Division and remainder by a product, for any dividend: divide by the
/// first factor, then by the second.
pub proof fn lemma_div_mod_by_product(x: int, c: int, d: int)
    requires
        0 < c,
        0 < d,
    ensures
        0 < c * d,
        (x / c) / d == x / (c * d),
        x % (c * d) == c * ((x / c) % d) + x % c,
{
    let q1 = x / c;
    let r1 = x % c;
    let q2 = q1 / d;
    let r2 = q1 % d;
    lemma_fundamental_div_mod(x, c);
    lemma_fundamental_div_mod(q1, d);
    lemma_mod_bound(x, c);
    lemma_mod_bound(q1, d);
    assert(0 < c * d) by (nonlinear_arith)
        requires
            0 < c,
            0 < d,
    ;
    assert(x == q2 * (c * d) + (c * r2 + r1)) by (nonlinear_arith)
        requires
            x == c * q1 + r1,
            q1 == d * q2 + r2,
    ;
    assert(0 <= c * r2 + r1 < c * d) by (nonlinear_arith)
        requires
            0 <= r1 < c,
            0 <= r2 < d,
    ;
    lemma_fundamental_div_mod_converse(x, c * d, q2, c * r2 + r1);
}

/// Dividing by a power and then by 256 divides by the next power.
pub proof fn lemma_div_pow256_step(p: int, k: nat)
    ensures
        (p / pow256(k)) / 256 == p / pow256(k + 1),
{
    lemma_pow256_positive(k);
    lemma_div_mod_by_product(p, pow256(k), 256);
    lemma_pow256_add(1, k);
    reveal_with_fuel(pow256, 2);
    assert(pow256(k) * 256 == pow256(k + 1)) by (nonlinear_arith)
        requires
            pow256(1 + k) == pow256(1) * pow256(k),
            pow256(1) == 256,
    ;
}

/// Dividing by two powers in turn divides by the power of the sum.
pub proof fn lemma_div_pow256_add(p: int, a: nat, b: nat)
    ensures
        (p / pow256(a)) / pow256(b) == p / pow256(a + b),
{
    lemma_pow256_positive(a);
    lemma_pow256_positive(b);
    lemma_div_mod_by_product(p, pow256(a), pow256(b));
    lemma_pow256_add(a, b);
}

/// A remainder by a power splits into the lower digits and its top digit.
pub proof fn lemma_mod_pow256_high(x: int, m: nat)
    ensures
        x % pow256(m + 1) == x % pow256(m) + pow256(m) * byte_at(x, m),
{
    lemma_pow256_positive(m);
    lemma_div_mod_by_product(x, pow256(m), 256);
    assert(pow256(m + 1) == 256 * pow256(m));
    assert(pow256(m) * 256 == 256 * pow256(m)) by (nonlinear_arith);
}

/// A string of digits stands for a number below the power of its length.
pub proof fn lemma_le_value_bound(s: Seq<u8>)
    ensures
        0 <= le_value(s) < pow256(s.len()),
    decreases s.len(),
{
    if s.len() > 0 {
        lemma_le_value_bound(s.drop_last());
        let m = (s.len() - 1) as nat;
        lemma_pow256_positive(m);
        assert(pow256(s.len()) == 256 * pow256(m));
        assert(0 <= s.last() as int * pow256(m) <= 255 * pow256(m)) by (nonlinear_arith)
            requires
                0 <= s.last() as int <= 255,
                pow256(m) >= 1,
        ;
    }
}

/// One more digit at the top counts by the power of the length so far.
pub proof fn lemma_le_value_push(s: Seq<u8>, b: u8)
    ensures
        le_value(s.push(b)) == le_value(s) + b as int * pow256(s.len()),
{
    assert(s.push(b).drop_last() =~= s);
}

/// Every digit is from 0 to 255.
pub proof fn lemma_byte_at_bound(p: int, k: nat)
    ensures
        0 <= byte_at(p, k) < 256,
{
    lemma_mod_bound(p / pow256(k), 256);
}

/// Adding a multiple of a higher power leaves a digit as it is.
pub proof fn lemma_byte_at_add_multiple(x: int, c: int, l: nat, k: nat)
    requires
        k < l,
    ensures
        byte_at(x + c * pow256(l), k) == byte_at(x, k),
{
    let d = (l - k - 1) as nat;
    lemma_pow256_positive(k);
    lemma_pow256_add(k, d + 1);
    assert(k + (d + 1) == l);
    assert(pow256(d + 1) == 256 * pow256(d));
    let m = c * 256 * pow256(d);
    assert(c * pow256(l) == m * pow256(k)) by (nonlinear_arith)
        requires
            pow256(l) == pow256(k) * (256 * pow256(d)),
            m == c * 256 * pow256(d),
    ;
    let q = x / pow256(k);
    let r = x % pow256(k);
    lemma_fundamental_div_mod(x, pow256(k));
    lemma_mod_bound(x, pow256(k));
    assert(x + c * pow256(l) == (q + m) * pow256(k) + r) by (nonlinear_arith)
        requires
            x == pow256(k) * q + r,
            c * pow256(l) == m * pow256(k),
    ;
    lemma_fundamental_div_mod_converse(x + c * pow256(l), pow256(k), q + m, r);
    assert(m == 256 * (c * pow256(d))) by (nonlinear_arith)
        requires
            m == c * 256 * pow256(d),
    ;
    lemma_mod_multiples_vanish(c * pow256(d), q, 256);
}

/// Below a power, all digits from that power on are 0.
pub proof fn lemma_byte_at_high_zero(p: int, l: nat, k: nat)
    requires
        0 <= p < pow256(l),
        l <= k,
    ensures
        byte_at(p, k) == 0,
{
    lemma_pow256_monotonic(l, k);
    lemma_small_div_converse(p, pow256(k));
    lemma_fundamental_div_mod_converse(p, pow256(k), 0, p);
}

/// From minus a power up to -1, all digits from that power on are 255.
pub proof fn lemma_byte_at_high_ones(p: int, l: nat, k: nat)
    requires
        -pow256(l) <= p < 0,
        l <= k,
    ensures
        byte_at(p, k) == 255,
{
    lemma_pow256_monotonic(l, k);
    lemma_fundamental_div_mod_converse(p, pow256(k), -1, p + pow256(k));
}

/// The digits of the number that a string stands for are the string's own.
pub proof fn lemma_byte_at_le_value(s: Seq<u8>, k: nat)
    ensures
        byte_at(le_value(s), k) == if k < s.len() {
            s[k as int] as int
        } else {
            0
        },
    decreases s.len(),
{
    lemma_le_value_bound(s);
    if k >= s.len() {
        lemma_byte_at_high_zero(le_value(s), s.len(), k);
    } else {
        let m = (s.len() - 1) as nat;
        let low = s.drop_last();
        lemma_le_value_bound(low);
        if k < m {
            lemma_byte_at_le_value(low, k);
            lemma_byte_at_add_multiple(le_value(low), s.last() as int, m, k);
        } else {
            lemma_pow256_positive(m);
            lemma_fundamental_div_mod_converse(
                le_value(s),
                pow256(m),
                s.last() as int,
                le_value(low),
            );
        }
    }
}

/// A digit of a quotient by a power is a higher digit of the number itself.
pub proof fn lemma_byte_at_div(x: int, a: nat, k: nat)
    ensures
        byte_at(x / pow256(a), k) == byte_at(x, a + k),
{
    lemma_div_pow256_add(x, a, k);
}

/// The number that a string stands for, from its first digit on.
pub proof fn lemma_le_value_first(s: Seq<u8>)
    requires
        s.len() > 0,
    ensures
        le_value(s) == s[0] as int + 256 * le_value(s.drop_first()),
    decreases s.len(),
{
    if s.len() == 1 {
        assert(s.drop_first() =~= Seq::<u8>::empty());
        assert(s.drop_last() =~= Seq::<u8>::empty());
        assert(le_value(s.drop_last()) == 0);
        assert(pow256(0) == 1);
    } else {
        let m = (s.len() - 1) as nat;
        lemma_le_value_first(s.drop_last());
        assert(s.drop_last().drop_first() =~= s.drop_first().drop_last());
        assert(s.drop_first().last() == s.last());
        assert(pow256(m) == 256 * pow256((m - 1) as nat));
        assert(s.last() as int * pow256(m) == 256 * (s.last() as int * pow256((m - 1) as nat)))
            by (nonlinear_arith)
            requires
                pow256(m) == 256 * pow256((m - 1) as nat),
        ;
    }
}

/// The digits of a number, put together again, give its remainder by the
/// power of their count, taken from the first of them on.
pub proof fn lemma_le_value_digits_of(p: int, start: nat, len: nat)
    ensures
        le_value(digits_of(p, start, len)) == (p / pow256(start)) % pow256(len),
    decreases len,
{
    let s = digits_of(p, start, len);
    if len == 0 {
        assert(pow256(0) == 1);
    } else {
        let m = (len - 1) as nat;
        assert(s.drop_last() =~= digits_of(p, start, m));
        lemma_le_value_digits_of(p, start, m);
        let x = p / pow256(start);
        lemma_mod_pow256_high(x, m);
        lemma_byte_at_div(p, start, m);
        lemma_byte_at_bound(p, start + m);
        assert(s.last() as int == byte_at(p, start + m));
        assert(pow256(m) * byte_at(x, m) == byte_at(x, m) * pow256(m)) by (nonlinear_arith);
    }
}

/// A string with a last digit other than 0 stands for a number that reaches
/// the power of its length less one.
pub proof fn lemma_normalized_lower_bound(s: Seq<u8>)
    requires
        s.len() > 0,
        s.last() != 0,
    ensures
        le_value(s) >= pow256((s.len() - 1) as nat),
{
    let m = (s.len() - 1) as nat;
    lemma_le_value_bound(s.drop_last());
    lemma_pow256_positive(m);
    assert(s.last() as int * pow256(m) >= pow256(m)) by (nonlinear_arith)
        requires
            s.last() as int >= 1,
            pow256(m) >= 1,
    ;
}

/// Two strings put one behind the other: the second counts from the power
/// of the first one's length.
pub proof fn lemma_le_value_concat(a: Seq<u8>, b: Seq<u8>)
    ensures
        le_value(a + b) == le_value(a) + le_value(b) * pow256(a.len()),
    decreases b.len(),
{
    if b.len() == 0 {
        assert(a + b =~= a);
    } else {
        let m = (b.len() - 1) as nat;
        assert((a + b).drop_last() =~= a + b.drop_last());
        assert((a + b).last() == b.last());
        lemma_le_value_concat(a, b.drop_last());
        lemma_pow256_add(a.len(), m);
        assert((le_value(b.drop_last()) + b.last() as int * pow256(m)) * pow256(a.len())
            == le_value(b.drop_last()) * pow256(a.len()) + b.last() as int * (pow256(a.len())
            * pow256(m))) by (nonlinear_arith);
    }
}

/// The top digit of a string is 128 or more just where the string stands
/// for half the power of its length or more.
pub proof fn lemma_top_bit(s: Seq<u8>)
    ensures
        2 * le_value(s) >= pow256(s.len()) <==> s.len() > 0 && s.last() >= 128,
{
    lemma_le_value_bound(s);
    if s.len() == 0 {
        assert(pow256(0) == 1);
    } else {
        let m = (s.len() - 1) as nat;
        lemma_le_value_bound(s.drop_last());
        lemma_pow256_positive(m);
        assert(pow256(s.len()) == 256 * pow256(m));
        let t = s.last() as int;
        let p = pow256(m);
        assert(t >= 128 ==> 2 * (t * p) >= 256 * p) by (nonlinear_arith)
            requires
                p >= 1,
        ;
        assert(t <= 127 ==> 2 * (t * p) <= 254 * p) by (nonlinear_arith)
            requires
                p >= 1,
        ;
    }
}

} // verus!
