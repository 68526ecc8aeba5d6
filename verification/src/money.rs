//! Fixed-point money: USD amounts held as whole microdollars.
//!
//! All money on the wire is a string of the form `"<dollars>.<6 fraction
//! digits>"`; the codec here prints and parses exactly that form, and
//! parsing a printed amount gives the amount back.

use vstd::prelude::*;
use crate::json::{
    char_digit, dec_digits, dec_val, digit_char, is_dec_digit, parse_uint,
    lemma_dec_digits_props, lemma_parse_uint_round,
};
use crate::outside::push_char;

verus! {

broadcast use vstd::seq::group_seq_axioms;

/// A nonnegative USD amount in whole microdollars.
#[derive(Debug, Clone, Copy, PartialEq, Eq, Structural)]
pub struct Money {
    pub micro_usd: u64,
}

/// The digits of `n` printed in a fixed width, most significant first,
/// zero padded.
pub open spec fn fixed_digits(n: nat, width: nat) -> Seq<char>
    decreases width,
{
    if width == 0 {
        Seq::empty()
    } else {
        fixed_digits(n / 10, (width - 1) as nat).push(digit_char(n % 10))
    }
}

/// The canonical text of an amount: dollars, a point, six fraction
/// digits.
pub open spec fn money_chars(m: Money) -> Seq<char> {
    dec_digits((m.micro_usd / 1000000) as nat) + seq!['.'] + fixed_digits(
        (m.micro_usd % 1000000) as nat,
        6,
    )
}

/// What the money parser accepts: a canonical integer part, a point,
/// exactly six fraction digits, the whole within `u64` microdollars.
pub open spec fn parse_money(t: Seq<char>) -> Option<Money> {
    match parse_uint(t) {
        Some(p) => {
            let k = p.1;
            if t.len() == k + 7 && t[k] == '.' && (forall|j: int|
                k + 1 <= j < k + 7 ==> is_dec_digit(#[trigger] t[j])) {
                let f = dec_val(t.skip(k + 1));
                if p.0 * 1000000 + f <= u64::MAX {
                    Some(Money { micro_usd: (p.0 * 1000000 + f) as u64 })
                } else {
                    None
                }
            } else {
                None
            }
        },
        None => None,
    }
}

/// Fixed-width digits are digits, and there are `width` of them.
pub proof fn lemma_fixed_digits_shape(n: nat, width: nat)
    ensures
        fixed_digits(n, width).len() == width,
        forall|i: int|
            0 <= i < width ==> is_dec_digit(#[trigger] fixed_digits(n, width)[i]),
    decreases width,
{
    if width > 0 {
        lemma_fixed_digits_shape(n / 10, (width - 1) as nat);
        assert(is_dec_digit(digit_char(n % 10)));
    }
}

/// Reading fixed-width digits back gives the number modulo the width.
pub proof fn lemma_dec_val_fixed(n: nat, width: nat)
    ensures
        dec_val(fixed_digits(n, width)) == n % (vstd::arithmetic::power::pow(10, width) as nat),
    decreases width,
{
    vstd::arithmetic::power::lemma_pow_positive(10, width);
    if width == 0 {
        vstd::arithmetic::power::lemma_pow0(10);
        assert(n % 1 == 0);
    } else {
        let w1 = (width - 1) as nat;
        lemma_dec_val_fixed(n / 10, w1);
        lemma_fixed_digits_shape(n / 10, w1);
        let p1 = vstd::arithmetic::power::pow(10, w1);
        vstd::arithmetic::power::lemma_pow_positive(10, w1);
        let ds = fixed_digits(n, width);
        assert(ds.drop_last() =~= fixed_digits(n / 10, w1));
        assert(ds.last() == digit_char(n % 10));
        assert(char_digit(digit_char(n % 10)) == n % 10);
        assert(dec_val(ds) == ((n / 10) as nat % (p1 as nat)) * 10 + n % 10);
        assert(vstd::arithmetic::power::pow(10, width) == 10 * p1) by {
            vstd::arithmetic::power::lemma_pow1(10);
            vstd::arithmetic::power::lemma_pow_adds(10, 1, w1);
        }
        assert(n as int % (10 * p1) == 10 * ((n as int / 10) % p1) + n as int % 10) by {
            vstd::arithmetic::div_mod::lemma_breakdown(n as int, 10, p1);
        }
    }
}

/// Printing then parsing an amount gives the amount back.
pub proof fn lemma_money_round_trip(m: Money)
    ensures
        parse_money(money_chars(m)) == Some(m),
{
    let whole = (m.micro_usd / 1000000) as u64;
    let frac = (m.micro_usd % 1000000) as nat;
    let fd = fixed_digits(frac, 6);
    let tail = seq!['.'] + fd;
    let t = money_chars(m);
    assert(t =~= dec_digits(whole as nat) + tail);
    assert(!is_dec_digit('.'));
    lemma_parse_uint_round(whole, tail);
    let k = dec_digits(whole as nat).len() as int;
    lemma_dec_digits_props(whole as nat);
    lemma_fixed_digits_shape(frac, 6);
    assert(t.len() == k + 7);
    assert(t[k] == '.');
    assert forall|j: int| k + 1 <= j < k + 7 implies is_dec_digit(#[trigger] t[j]) by {
        assert(t[j] == fd[j - (k + 1)]);
    }
    assert(t.skip(k + 1) =~= fd);
    lemma_dec_val_fixed(frac, 6);
    assert(vstd::arithmetic::power::pow(10, 6) == 1000000) by {
        reveal_with_fuel(vstd::arithmetic::power::pow, 8);
        assert(vstd::arithmetic::power::pow(10, 6) == 10 * (10 * (10 * (10 * (10 * (10 * (
        vstd::arithmetic::power::pow(10, 0))))))));
    }
    vstd::arithmetic::div_mod::lemma_small_mod(frac, 1000000);
    assert(dec_val(fd) == frac);
    assert(whole * 1000000 + frac == m.micro_usd) by {
        vstd::arithmetic::div_mod::lemma_fundamental_div_mod(m.micro_usd as int, 1000000);
    }
}

impl Money {
    /// An amount from whole microdollars.
    pub fn from_micro_usd(micro_usd: u64) -> (r: Self)
        ensures
            r.micro_usd == micro_usd,
    {
        Money { micro_usd }
    }

    /// Zero dollars.
    pub fn zero() -> (r: Self)
        ensures
            r.micro_usd == 0,
    {
        Money { micro_usd: 0 }
    }

    /// The canonical text of the amount.
    pub fn to_text(&self) -> (r: String)
        ensures
            r@ == money_chars(*self),
    {
        let mut out = String::new();
        crate::json::write_uint(self.micro_usd / 1000000, &mut out);
        push_char(&mut out, '.');
        proof {
            assert(out@ =~= Seq::<char>::empty() + dec_digits((self.micro_usd / 1000000) as nat)
                + seq!['.']);
        }
        write_fixed(self.micro_usd % 1000000, 6, &mut out);
        proof {
            assert(out@ =~= money_chars(*self));
        }
        out
    }

    /// Parses a canonical amount; exactly the canonical texts are
    /// accepted.
    pub fn parse_text(s: &str) -> (r: Option<Money>)
        ensures
            r == parse_money(s@),
    {
        let n = s.unicode_len();
        proof {
            assert(s@.skip(0) =~= s@);
        }
        let (whole, k) = match crate::json::parse_uint_at(s, 0, n) {
            Some(p) => p,
            None => {
                return None;
            },
        };
        if n < 7 || n - 7 != k {
            return None;
        }
        if s.get_char(k) != '.' {
            return None;
        }
        let ghost fseq = s@.skip(k as int + 1);
        let c1 = s.get_char(k + 1);
        let c2 = s.get_char(k + 2);
        let c3 = s.get_char(k + 3);
        let c4 = s.get_char(k + 4);
        let c5 = s.get_char(k + 5);
        let c6 = s.get_char(k + 6);
        proof {
            assert(fseq.len() == 6);
            assert(fseq[0] == s@[k + 1]);
            assert(fseq[1] == s@[k + 2]);
            assert(fseq[2] == s@[k + 3]);
            assert(fseq[3] == s@[k + 4]);
            assert(fseq[4] == s@[k + 5]);
            assert(fseq[5] == s@[k + 6]);
            assert(fseq =~= seq![c1, c2, c3, c4, c5, c6]);
        }
        if !(('0' <= c1 && c1 <= '9') && ('0' <= c2 && c2 <= '9') && ('0' <= c3 && c3 <= '9') && (
        '0' <= c4 && c4 <= '9') && ('0' <= c5 && c5 <= '9') && ('0' <= c6 && c6 <= '9')) {
            return None;
        }
        let d1 = crate::json::char_digit_exec(c1);
        let d2 = crate::json::char_digit_exec(c2);
        let d3 = crate::json::char_digit_exec(c3);
        let d4 = crate::json::char_digit_exec(c4);
        let d5 = crate::json::char_digit_exec(c5);
        let d6 = crate::json::char_digit_exec(c6);
        let f: u64 = ((((d1 * 10 + d2) * 10 + d3) * 10 + d4) * 10 + d5) * 10 + d6;
        proof {
            let p5 = seq![c1, c2, c3, c4, c5];
            let p4 = seq![c1, c2, c3, c4];
            let p3 = seq![c1, c2, c3];
            let p2 = seq![c1, c2];
            let p1 = seq![c1];
            assert(fseq.drop_last() =~= p5);
            assert(p5.drop_last() =~= p4);
            assert(p4.drop_last() =~= p3);
            assert(p3.drop_last() =~= p2);
            assert(p2.drop_last() =~= p1);
            assert(p1.drop_last() =~= Seq::<char>::empty());
            assert(dec_val(Seq::<char>::empty()) == 0);
            assert(p1.last() == c1);
            assert(dec_val(p1) == dec_val(p1.drop_last()) * 10 + char_digit(p1.last()));
            assert(dec_val(p1) == char_digit(c1));
            assert(dec_val(p2) == dec_val(p1) * 10 + char_digit(c2));
            assert(dec_val(p3) == dec_val(p2) * 10 + char_digit(c3));
            assert(dec_val(p4) == dec_val(p3) * 10 + char_digit(c4));
            assert(dec_val(p5) == dec_val(p4) * 10 + char_digit(c5));
            assert(dec_val(fseq) == dec_val(p5) * 10 + char_digit(c6));
            assert(f == dec_val(fseq));
        }
        match whole.checked_mul(1000000) {
            Some(w6) => match w6.checked_add(f) {
                Some(total) => Some(Money { micro_usd: total }),
                None => None,
            },
            None => None,
        }
    }

    /// Saturating addition of two amounts.
    pub fn saturating_add(&self, other: &Money) -> (r: Money)
        ensures
            r.micro_usd == if self.micro_usd + other.micro_usd <= u64::MAX {
                self.micro_usd + other.micro_usd
            } else {
                u64::MAX as int
            },
    {
        Money { micro_usd: self.micro_usd.saturating_add(other.micro_usd) }
    }
}

/// Appends `width` digits of `n`, zero padded, most significant first.
fn write_fixed(n: u64, width: u64, out: &mut String)
    ensures
        final(out)@ == old(out)@ + fixed_digits(n as nat, width as nat),
    decreases width,
{
    if width > 0 {
        write_fixed(n / 10, width - 1, out);
        let d = crate::json::digit_char_exec(n % 10);
        push_char(out, d);
        proof {
            assert(old(out)@ + fixed_digits((n / 10) as nat, (width - 1) as nat).push(
                digit_char((n % 10) as nat),
            ) =~= old(out)@ + fixed_digits(n as nat, width as nat));
        }
    } else {
        proof {
            assert(old(out)@ + Seq::<char>::empty() =~= old(out)@);
        }
    }
}

} // verus!
