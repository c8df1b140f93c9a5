//! Integers written out in a radix from 2 to 36.

use crate::num::digits::{
    le_value, lemma_le_value_bound, lemma_le_value_first, lemma_normalized_lower_bound,
    lemma_pow256_positive, normalized,
};
use crate::num::integer::Integer;
use crate::num::magnitude::{append, trim};
use crate::object::AnyObject;
use crate::protected::{AnyException, Category};
use vstd::arithmetic::div_mod::{
    lemma_div_decreases, lemma_div_pos_is_pos, lemma_fundamental_div_mod,
    lemma_fundamental_div_mod_converse,
};
use vstd::prelude::*;

verus! {

/// The digits of `m` in the given radix, the most significant first; one
/// digit 0 for 0.
pub open spec fn radix_digits(m: nat, radix: nat) -> Seq<u8>
    decreases m,
    via radix_digits_decreases
{
    if radix < 2 || m < radix {
        seq![m as u8]
    } else {
        radix_digits(m / radix, radix).push((m % radix) as u8)
    }
}

#[via_fn]
proof fn radix_digits_decreases(m: nat, radix: nat) {
    if !(radix < 2 || m < radix) {
        lemma_div_decreases(m as int, radix as int);
        lemma_div_pos_is_pos(m as int, radix as int);
    }
}

/// The character for a digit: `0` to `9`, then `a` to `z`.
pub open spec fn digit_char(d: u8) -> char {
    if d < 10 {
        (48 + d) as char
    } else {
        (87 + d) as char
    }
}

/// An integer written out: a minus sign for a negative one, then the digits
/// of its magnitude.
pub open spec fn radix_string(v: int, radix: nat) -> Seq<char> {
    let digits = radix_digits(
        (if v < 0 {
            -v
        } else {
            v
        }) as nat,
        radix,
    ).map_values(|d: u8| digit_char(d));
    if v < 0 {
        seq!['-'] + digits
    } else {
        digits
    }
}

/// The exception for a radix outside 2 to 36.
pub open spec fn invalid_radix() -> AnyException {
    AnyException { object: AnyObject::spec_nil(), category: Category::Argument }
}

fn char_of(d: u8) -> (c: char)
    requires
        d < 36,
    ensures
        c == digit_char(d),
{
    if d < 10 {
        (48 + d) as char
    } else {
        (87 + d) as char
    }
}

/// Divides the number that `mag` stands for by `radix`: the quotient,
/// without zeros at the top, and the remainder.
fn divide(mag: &Vec<u8>, radix: u32) -> (r: (Vec<u8>, u32))
    requires
        2 <= radix <= 36,
    ensures
        normalized(r.0@),
        r.1 < radix,
        le_value(mag@) == le_value(r.0@) * radix + r.1,
{
    let n: usize = mag.len();
    let mut top_first: Vec<u8> = Vec::new();
    let mut rem: u32 = 0;
    let mut i: usize = n;
    proof {
        assert(mag@.subrange(n as int, n as int) =~= Seq::<u8>::empty());
        assert(top_first@.reverse() =~= Seq::<u8>::empty());
    }
    while i > 0
        invariant
            n == mag.len(),
            i <= n,
            2 <= radix <= 36,
            rem < radix,
            top_first.len() == n - i,
            le_value(mag@.subrange(i as int, n as int)) == le_value(top_first@.reverse()) * radix
                + rem,
        decreases i,
    {
        let m: u8 = mag[i - 1];
        let cur: u32 = rem * 256 + m as u32;
        let q: u32 = cur / radix;
        let next: u32 = cur % radix;
        proof {
            assert(cur == q * radix + next) by {
                lemma_fundamental_div_mod(cur as int, radix as int);
            }
            assert(q < 256) by (nonlinear_arith)
                requires
                    cur == rem * 256 + m,
                    rem < radix,
                    m < 256,
                    cur == q * radix + next,
                    next >= 0,
                    radix >= 2,
            ;
            let part = mag@.subrange(i as int, n as int);
            let more = mag@.subrange(i - 1, n as int);
            assert(more.drop_first() =~= part);
            assert(more[0] == m);
            lemma_le_value_first(more);
            let before = top_first@.reverse();
            let after = top_first@.push(q as u8).reverse();
            assert(after.drop_first() =~= before);
            assert(after[0] == q as u8);
            lemma_le_value_first(after);
            assert(m + 256 * (le_value(before) * radix + rem) == (q + 256 * le_value(before))
                * radix + next) by (nonlinear_arith)
                requires
                    rem * 256 + m == q * radix + next,
            ;
        }
        top_first.push(q as u8);
        rem = next;
        i = i - 1;
    }
    proof {
        assert(mag@.subrange(0, n as int) =~= mag@);
    }
    let mut quotient: Vec<u8> = Vec::new();
    append(&mut quotient, &top_first, true);
    proof {
        assert(quotient@ =~= top_first@.reverse());
    }
    (trim(quotient), rem)
}

impl Integer {
    /// The integer written out in the given radix, for a radix from 2 to
    /// 36.
    pub fn to_s_radix_unchecked(&self, radix: u32) -> (s: String)
        requires
            2 <= radix <= 36,
        ensures
            s@ == radix_string(self@, radix as nat),
    {
        let (negative, mag) = self.parts();
        let ghost m0: nat = le_value(mag@) as nat;
        proof {
            lemma_le_value_bound(mag@);
        }
        let mut low_first: Vec<u8> = Vec::new();
        let mut cur: Vec<u8> = mag;
        if cur.len() == 0 {
            low_first.push(0);
            proof {
                assert(radix_digits(0, radix as nat) =~= seq![0u8]);
                assert(low_first@.reverse() =~= seq![0u8]);
            }
        }
        while cur.len() > 0
            invariant
                2 <= radix <= 36,
                normalized(cur@),
                forall|j: int| 0 <= j < low_first.len() ==> low_first[j] < 36,
                low_first.len() > 0 || cur.len() > 0,
                radix_digits(m0, radix as nat) == if cur.len() > 0 {
                    radix_digits(le_value(cur@) as nat, radix as nat) + low_first@.reverse()
                } else {
                    low_first@.reverse()
                },
            decreases le_value(cur@),
        {
            let (q, rem) = divide(&cur, radix);
            proof {
                let c = le_value(cur@);
                let qv = le_value(q@);
                lemma_le_value_bound(cur@);
                lemma_le_value_bound(q@);
                lemma_normalized_lower_bound(cur@);
                lemma_pow256_positive((cur.len() - 1) as nat);
                assert(c > 0);
                lemma_fundamental_div_mod_converse(c, radix as int, qv, rem as int);
                assert(qv < c) by (nonlinear_arith)
                    requires
                        c == qv * radix + rem,
                        radix >= 2,
                        c > 0,
                        qv >= 0,
                        rem >= 0,
                ;
                let done = low_first@.reverse();
                let next = low_first@.push(rem as u8).reverse();
                assert(next =~= seq![rem as u8] + done);
                if q.len() == 0 {
                    assert(qv == 0);
                    assert(radix_digits(c as nat, radix as nat) =~= seq![rem as u8]);
                } else {
                    lemma_normalized_lower_bound(q@);
                    lemma_pow256_positive((q.len() - 1) as nat);
                    assert(c >= radix) by (nonlinear_arith)
                        requires
                            c == qv * radix + rem,
                            qv >= 1,
                            rem >= 0,
                            radix >= 2,
                    ;
                    assert(radix_digits(c as nat, radix as nat) =~= radix_digits(
                        qv as nat,
                        radix as nat,
                    ).push(rem as u8));
                    assert(radix_digits(qv as nat, radix as nat).push(rem as u8) + done
                        =~= radix_digits(qv as nat, radix as nat) + next);
                }
            }
            low_first.push(rem as u8);
            cur = q;
        }
        let mut s: String = String::new();
        if negative {
            s.push('-');
        }
        let ghost sign: Seq<char> = s@;
        let ghost digits: Seq<u8> = low_first@.reverse();
        let n: usize = low_first.len();
        let mut k: usize = 0;
        while k < n
            invariant
                n == low_first.len(),
                k <= n,
                digits == low_first@.reverse(),
                forall|j: int| 0 <= j < low_first.len() ==> low_first[j] < 36,
                s@ == sign + digits.subrange(0, k as int).map_values(|d: u8| digit_char(d)),
            decreases n - k,
        {
            let d: u8 = low_first[n - 1 - k];
            proof {
                assert(digits[k as int] == d);
                assert(digits.subrange(0, k + 1).map_values(|d: u8| digit_char(d))
                    =~= digits.subrange(0, k as int).map_values(|d: u8| digit_char(d)).push(
                    digit_char(d),
                ));
            }
            s.push(char_of(d));
            k += 1;
        }
        proof {
            assert(digits.subrange(0, n as int) =~= digits);
            assert(sign =~= if negative {
                seq!['-']
            } else {
                Seq::<char>::empty()
            });
            assert(Seq::<char>::empty() + digits.map_values(|d: u8| digit_char(d))
                =~= digits.map_values(|d: u8| digit_char(d)));
        }
        s
    }

    /// The integer written out in the given radix; a radix outside 2 to 36
    /// is an error of the argument.
    pub fn to_s_radix(&self, radix: u32) -> (r: Result<String, AnyException>)
        ensures
            r is Ok <==> 2 <= radix <= 36,
            r is Ok ==> r->Ok_0@ == radix_string(self@, radix as nat),
            r is Err ==> r->Err_0 == invalid_radix(),
    {
        if radix < 2 || radix > 36 {
            Err(AnyException { object: AnyObject::nil(), category: Category::Argument })
        } else {
            Ok(self.to_s_radix_unchecked(radix))
        }
    }

    /// The integer written out in decimal.
    pub fn to_s(&self) -> (s: String)
        ensures
            s@ == radix_string(self@, 10),
    {
        self.to_s_radix_unchecked(10)
    }
}

} // verus!
