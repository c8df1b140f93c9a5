//! Strings of base-256 digits in memory: the operations that the codec is
//! built from.

use crate::num::digits::{
    byte_at, digits_of, le_value, lemma_byte_at_bound, lemma_div_pow256_step,
    lemma_le_value_bound, lemma_le_value_concat, lemma_le_value_first, lemma_le_value_push,
    lemma_normalized_lower_bound, lemma_pow256_monotonic, lemma_pow256_positive,
    lemma_pow256_values, normalized, pow256,
};
use vstd::prelude::*;

verus! {

/// Drops the zero digits at the top of `v`.
pub fn trim(v: Vec<u8>) -> (r: Vec<u8>)
    ensures
        le_value(r@) == le_value(v@),
        normalized(r@),
        r.len() <= v.len(),
{
    let mut r = v;
    while r.len() > 0 && r[r.len() - 1] == 0
        invariant
            le_value(r@) == le_value(v@),
            r.len() <= v.len(),
        decreases r.len(),
    {
        r.pop();
    }
    r
}

/// The digits of `x`, least significant first, without zeros at the top.
pub fn bytes_of_u128(x: u128) -> (v: Vec<u8>)
    ensures
        le_value(v@) == x,
        normalized(v@),
        v.len() <= 16,
{
    let mut v: Vec<u8> = Vec::new();
    let mut rest: u128 = x;
    proof {
        lemma_pow256_values();
    }
    while rest > 0
        invariant
            le_value(v@) + rest * pow256(v.len() as nat) == x,
            rest > 0 || normalized(v@),
            v.len() <= 16,
            rest > 0 ==> v.len() < 16,
        decreases rest,
    {
        let b: u8 = (rest % 256) as u8;
        let next: u128 = rest / 256;
        proof {
            let n = v.len() as nat;
            lemma_le_value_push(v@, b);
            lemma_pow256_positive(n);
            assert(pow256(n + 1) == 256 * pow256(n));
            assert(rest * pow256(n) == b * pow256(n) + next * pow256(n + 1)) by (nonlinear_arith)
                requires
                    rest == 256 * next + b,
                    pow256(n + 1) == 256 * pow256(n),
            ;
            if next > 0 {
                lemma_le_value_bound(v@.push(b));
                if n + 1 >= 16 {
                    lemma_pow256_values();
                    lemma_pow256_monotonic(16, n + 1);
                    assert(next * pow256(n + 1) >= pow256(n + 1)) by (nonlinear_arith)
                        requires
                            next >= 1,
                            pow256(n + 1) >= 0,
                    ;
                }
            }
        }
        v.push(b);
        rest = next;
    }
    v
}

/// The number that at most 16 digits stand for, read in the given order:
/// least significant first, or, reversed, most significant first.
pub fn assemble(digits: &Vec<u8>, reverse: bool) -> (x: u128)
    requires
        digits.len() <= 16,
    ensures
        x == le_value(
            if reverse {
                digits@.reverse()
            } else {
                digits@
            },
        ),
{
    let n: usize = digits.len();
    let ghost source: Seq<u8> = if reverse {
        digits@.reverse()
    } else {
        digits@
    };
    let mut acc: u128 = 0;
    let mut left: usize = n;
    proof {
        assert(source.subrange(n as int, n as int) =~= Seq::<u8>::empty());
    }
    while left > 0
        invariant
            n == digits.len(),
            n <= 16,
            left <= n,
            source.len() == n,
            source == if reverse {
                digits@.reverse()
            } else {
                digits@
            },
            acc == le_value(source.subrange(left as int, n as int)),
        decreases left,
    {
        let at: usize = if reverse {
            n - left
        } else {
            left - 1
        };
        let b: u8 = digits[at];
        proof {
            let tail = source.subrange(left as int, n as int);
            let more = source.subrange(left - 1, n as int);
            assert(more.drop_first() =~= tail);
            assert(more[0] == b);
            lemma_le_value_first(more);
            lemma_le_value_bound(tail);
            lemma_pow256_monotonic(tail.len(), 15);
            lemma_pow256_values();
        }
        acc = acc * 256 + b as u128;
        left = left - 1;
    }
    proof {
        assert(source.subrange(0, n as int) =~= source);
    }
    acc
}

/// The `count` low digits of `bits`, least significant first.
pub fn split(bits: u128, count: usize) -> (v: Vec<u8>)
    ensures
        v@ == digits_of(bits as int, 0, count as nat),
{
    let mut v: Vec<u8> = Vec::new();
    let mut rest: u128 = bits;
    let mut i: usize = 0;
    proof {
        assert(pow256(0) == 1);
    }
    while i < count
        invariant
            i <= count,
            v.len() == i,
            rest == bits as int / pow256(i as nat),
            forall|j: int| 0 <= j < i ==> v[j] == byte_at(bits as int, j as nat),
        decreases count - i,
    {
        let b: u8 = (rest % 256) as u8;
        proof {
            lemma_div_pow256_step(bits as int, i as nat);
        }
        v.push(b);
        rest = rest / 256;
        i += 1;
    }
    proof {
        assert forall|j: int| 0 <= j < count implies #[trigger] v@[j] == digits_of(
            bits as int,
            0,
            count as nat,
        )[j] by {
            lemma_byte_at_bound(bits as int, j as nat);
        }
        assert(v@ =~= digits_of(bits as int, 0, count as nat));
    }
    v
}

/// The two's complement of `src` on its own length: what must be added to
/// it to reach the power of its length, or 0 where `src` stands for 0.
pub fn negate(src: &Vec<u8>) -> (r: (Vec<u8>, bool))
    ensures
        r.0.len() == src.len(),
        r.1 == (le_value(src@) == 0),
        r.1 ==> le_value(r.0@) == 0,
        !r.1 ==> le_value(r.0@) == pow256(src.len() as nat) - le_value(src@),
{
    let n: usize = src.len();
    let mut out: Vec<u8> = Vec::new();
    let mut carry: bool = true;
    let mut i: usize = 0;
    proof {
        assert(src@.subrange(0, 0) =~= Seq::<u8>::empty());
        assert(pow256(0) == 1);
    }
    while i < n
        invariant
            n == src.len(),
            i <= n,
            out.len() == i,
            carry ==> le_value(src@.subrange(0, i as int)) == 0 && le_value(out@) == 0,
            !carry ==> le_value(src@.subrange(0, i as int)) != 0 && le_value(out@) + le_value(
                src@.subrange(0, i as int),
            ) == pow256(i as nat),
        decreases n - i,
    {
        let s: u8 = src[i];
        let b: u8 = if carry {
            if s == 0 {
                0
            } else {
                (255 - s) + 1
            }
        } else {
            255 - s
        };
        proof {
            let low = src@.subrange(0, i as int);
            let more = src@.subrange(0, i + 1);
            assert(more.drop_last() =~= low);
            assert(more.last() == s);
            lemma_le_value_push(out@, b);
            lemma_le_value_bound(low);
            lemma_pow256_positive(i as nat);
            assert(pow256((i + 1) as nat) == 256 * pow256(i as nat));
            let p = pow256(i as nat);
            assert(s as int * p + b as int * p == (s as int + b as int) * p) by (nonlinear_arith);
            assert(s > 0 ==> s as int * p > 0) by (nonlinear_arith)
                requires
                    p >= 1,
                    s >= 0,
            ;
            assert(s == 0 ==> s as int * p == 0);
            assert(b == 0 ==> b as int * p == 0);
            assert(255 * p + p == 256 * p);
        }
        out.push(b);
        carry = carry && s == 0;
        i += 1;
    }
    proof {
        assert(src@.subrange(0, n as int) =~= src@);
    }
    (out, carry)
}

/// Puts the digits of `src` behind those of `dst`, in their own order or in
/// reverse.
pub fn append(dst: &mut Vec<u8>, src: &Vec<u8>, reverse: bool)
    ensures
        final(dst)@ == old(dst)@ + if reverse {
            src@.reverse()
        } else {
            src@
        },
{
    let n: usize = src.len();
    let ghost before: Seq<u8> = dst@;
    let ghost source: Seq<u8> = if reverse {
        src@.reverse()
    } else {
        src@
    };
    let mut i: usize = 0;
    while i < n
        invariant
            n == src.len(),
            i <= n,
            source.len() == n,
            source == if reverse {
                src@.reverse()
            } else {
                src@
            },
            dst@ == before + source.subrange(0, i as int),
        decreases n - i,
    {
        let at: usize = if reverse {
            n - 1 - i
        } else {
            i
        };
        let b: u8 = src[at];
        proof {
            assert(source[i as int] == b);
            assert((before + source.subrange(0, i as int)).push(b) =~= before + source.subrange(
                0,
                i + 1,
            ));
        }
        dst.push(b);
        i += 1;
    }
    proof {
        assert(source.subrange(0, n as int) =~= source);
    }
}

/// The `size` digits of word `word` out of a string that goes on without
/// end: the digits of `ext`, then `fill` for ever.
pub fn window(ext: &Vec<u8>, fill: u8, word: usize, size: usize) -> (digits: Vec<u8>)
    requires
        1 <= size <= 16,
    ensures
        digits.len() == size,
        forall|j: int|
            0 <= j < size ==> #[trigger] digits[j] == if word * size + j < ext.len() {
                ext[word * size + j]
            } else {
                fill
            },
{
    let mut digits: Vec<u8> = Vec::new();
    let len: u128 = ext.len() as u128;
    let mut j: usize = 0;
    while j < size
        invariant
            1 <= size <= 16,
            j <= size,
            len == ext.len(),
            digits.len() == j,
            forall|t: int|
                0 <= t < j ==> #[trigger] digits[t] == if word * size + t < ext.len() {
                    ext[word * size + t]
                } else {
                    fill
                },
        decreases size - j,
    {
        assert(word as u128 * size as u128 + j as u128 <= u128::MAX) by (nonlinear_arith)
            requires
                word <= u64::MAX,
                size <= 16,
                j <= 16,
        ;
        let k: u128 = word as u128 * size as u128 + j as u128;
        let b: u8 = if k < len {
            ext[k as usize]
        } else {
            fill
        };
        digits.push(b);
        j += 1;
    }
    digits
}

/// Whether every digit of `v` below its last is 0.
pub fn lower_all_zero(v: &Vec<u8>) -> (b: bool)
    requires
        v.len() > 0,
    ensures
        b == (le_value(v@.drop_last()) == 0),
{
    let n: usize = v.len() - 1;
    let mut i: usize = 0;
    proof {
        assert(v@.subrange(0, 0) =~= Seq::<u8>::empty());
    }
    while i < n
        invariant
            n == v.len() - 1,
            i <= n,
            le_value(v@.subrange(0, i as int)) == 0,
        decreases n - i,
    {
        proof {
            let low = v@.subrange(0, i as int);
            let more = v@.subrange(0, i + 1);
            assert(more.drop_last() =~= low);
            assert(more.last() == v[i as int]);
            lemma_pow256_positive(i as nat);
            assert(v[i as int] > 0 ==> v[i as int] as int * pow256(i as nat) > 0)
                by (nonlinear_arith)
                requires
                    pow256(i as nat) >= 1,
            ;
        }
        if v[i] != 0 {
            proof {
                lemma_le_value_prefix(v@.drop_last(), i + 1);
                assert(v@.drop_last().subrange(0, i + 1) =~= v@.subrange(0, i + 1));
            }
            return false;
        }
        i += 1;
    }
    proof {
        assert(v@.subrange(0, n as int) =~= v@.drop_last());
    }
    true
}

/// A string stands for at least as much as any of its beginnings.
pub proof fn lemma_le_value_prefix(s: Seq<u8>, k: int)
    requires
        0 <= k <= s.len(),
    ensures
        le_value(s.subrange(0, k)) <= le_value(s),
    decreases s.len(),
{
    if k == s.len() {
        assert(s.subrange(0, k) =~= s);
    } else {
        lemma_le_value_prefix(s.drop_last(), k);
        assert(s.drop_last().subrange(0, k) =~= s.subrange(0, k));
        lemma_pow256_positive((s.len() - 1) as nat);
        assert(s.last() as int * pow256((s.len() - 1) as nat) >= 0) by (nonlinear_arith)
            requires
                pow256((s.len() - 1) as nat) >= 1,
                s.last() as int >= 0,
        ;
    }
}

/// Two strings of one length that agree from some place on compare as
/// their beginnings below that place do.
pub proof fn lemma_le_value_split(a: Seq<u8>, b: Seq<u8>, j: int)
    requires
        a.len() == b.len(),
        0 <= j <= a.len(),
        a.subrange(j, a.len() as int) == b.subrange(j, b.len() as int),
    ensures
        le_value(a) - le_value(b) == le_value(a.subrange(0, j)) - le_value(b.subrange(0, j)),
{
    let n = a.len() as int;
    assert(a =~= a.subrange(0, j) + a.subrange(j, n));
    assert(b =~= b.subrange(0, j) + b.subrange(j, n));
    lemma_le_value_concat(a.subrange(0, j), a.subrange(j, n));
    lemma_le_value_concat(b.subrange(0, j), b.subrange(j, n));
}

/// Compares the numbers that two strings without zeros at the top stand
/// for: -1, 0 or 1 as the first is less than, equal to or greater than the
/// second. Equal numbers have equal strings.
pub fn compare_magnitudes(a: &Vec<u8>, b: &Vec<u8>) -> (r: i8)
    requires
        normalized(a@),
        normalized(b@),
    ensures
        r == -1 <==> le_value(a@) < le_value(b@),
        r == 0 <==> le_value(a@) == le_value(b@),
        r == 1 <==> le_value(a@) > le_value(b@),
        r == 0 ==> a@ == b@,
{
    proof {
        lemma_le_value_bound(a@);
        lemma_le_value_bound(b@);
    }
    if a.len() < b.len() {
        proof {
            lemma_normalized_lower_bound(b@);
            lemma_pow256_monotonic(a.len() as nat, (b.len() - 1) as nat);
        }
        return -1;
    }
    if a.len() > b.len() {
        proof {
            lemma_normalized_lower_bound(a@);
            lemma_pow256_monotonic(b.len() as nat, (a.len() - 1) as nat);
        }
        return 1;
    }
    let n: usize = a.len();
    let mut i: usize = n;
    proof {
        assert(a@.subrange(n as int, n as int) =~= b@.subrange(n as int, n as int));
    }
    while i > 0
        invariant
            n == a.len(),
            n == b.len(),
            i <= n,
            a@.subrange(i as int, n as int) == b@.subrange(i as int, n as int),
        decreases i,
    {
        let x: u8 = a[i - 1];
        let y: u8 = b[i - 1];
        if x != y {
            proof {
                let j = i as int;
                lemma_le_value_split(a@, b@, j);
                let la = a@.subrange(0, j);
                let lb = b@.subrange(0, j);
                assert(la.last() == x);
                assert(lb.last() == y);
                lemma_le_value_bound(la.drop_last());
                lemma_le_value_bound(lb.drop_last());
                let p = pow256((j - 1) as nat);
                lemma_pow256_positive((j - 1) as nat);
                assert(x < y ==> x as int * p + p <= y as int * p) by (nonlinear_arith)
                    requires
                        p >= 1,
                ;
                assert(y < x ==> y as int * p + p <= x as int * p) by (nonlinear_arith)
                    requires
                        p >= 1,
                ;
            }
            if x < y {
                return -1;
            } else {
                return 1;
            }
        }
        proof {
            assert(a@.subrange(i - 1, n as int) =~= seq![x] + a@.subrange(i as int, n as int));
            assert(b@.subrange(i - 1, n as int) =~= seq![y] + b@.subrange(i as int, n as int));
        }
        i = i - 1;
    }
    proof {
        assert(a@.subrange(0, n as int) =~= a@);
        assert(b@.subrange(0, n as int) =~= b@);
    }
    0
}

} // verus!
