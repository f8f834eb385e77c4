//! Exact decimal numbers: the numeric literals of expressions.
//!
//! A number is `mantissa / 10^scale`, kept in canonical form (no trailing zero
//! digit in the mantissa when `scale > 0`), so two numbers are equal exactly
//! when their fields are.

use vstd::prelude::*;
use crate::text::{nat_digits, u64_digits, lemma_nat_digits_len, push_chars};

verus! {

/// A decimal number `mantissa / 10^scale` in canonical form.
#[derive(Clone, Copy, Debug, PartialEq, Eq, Structural)]
pub struct Num {
    mantissa: i64,
    scale: u32,
}

/// Largest number of decimal places a `Num` carries.
pub const MAX_SCALE: u32 = 18;

/// Canonical form of `m / 10^s`: trailing zero digits moved out of the mantissa.
pub open spec fn normalize(m: int, s: nat) -> (int, nat)
    decreases s,
{
    if s > 0 && m % 10 == 0 {
        normalize(m / 10, (s - 1) as nat)
    } else {
        (m, s)
    }
}

pub open spec fn abs_nat(m: int) -> nat {
    if m < 0 { (-m) as nat } else { m as nat }
}

/// The digits of `m / 10^s`, written as a plain decimal (no exponent).
pub open spec fn decimal_text(m: int, s: nat) -> Seq<char> {
    let sign: Seq<char> = if m < 0 { seq!['-'] } else { Seq::empty() };
    let d = nat_digits(abs_nat(m));
    if s == 0 {
        sign + d
    } else {
        let padded = if d.len() <= s {
            Seq::new((s + 1 - d.len()) as nat, |i: int| '0') + d
        } else {
            d
        };
        let k = padded.len() - s;
        sign + padded.subrange(0, k) + seq!['.'] + padded.subrange(k, padded.len() as int)
    }
}

/// The integer `i` as a number.
pub closed spec fn int_num(i: int) -> Num {
    Num { mantissa: i as i64, scale: 0 }
}

/// The negation of `n`.
pub closed spec fn negated(n: Num) -> Num {
    Num { mantissa: (-n.mantissa) as i64, scale: n.scale }
}

/// `int_num` and `negated` in terms of the mantissa and the places.
pub proof fn lemma_num_forms(i: int, n: Num)
    ensures
        i64::MIN < i <= i64::MAX ==> int_num(i).mant() == i && int_num(i).places() == 0,
        n.mant() != i64::MIN ==> negated(n).mant() == -n.mant() && negated(n).places() == n.places(),
{
}

impl Num {
    #[verifier::type_invariant]
    spec fn canonical(self) -> bool {
        &&& self.mantissa != i64::MIN
        &&& self.scale <= MAX_SCALE
        &&& (self.scale == 0 || self.mantissa % 10 != 0)
    }

    /// The mantissa of the number.
    pub closed spec fn mant(self) -> int {
        self.mantissa as int
    }

    /// The number of decimal places.
    pub closed spec fn places(self) -> nat {
        self.scale as nat
    }

    /// The number `mantissa / 10^scale`, brought into canonical form.
    pub fn new(mantissa: i64, scale: u32) -> (r: Num)
        requires
            mantissa != i64::MIN,
            scale <= MAX_SCALE,
        ensures
            (r.mant(), r.places()) == normalize(mantissa as int, scale as nat),
    {
        let mut m = mantissa;
        let mut s = scale;
        while s > 0 && m % 10 == 0
            invariant
                s <= scale,
                m != i64::MIN,
                normalize(mantissa as int, scale as nat) == normalize(m as int, s as nat),
            decreases s,
        {
            m = m / 10;
            s = s - 1;
        }
        Num { mantissa: m, scale: s }
    }

    /// The integer `i`.
    pub fn integer(i: i64) -> (r: Num)
        requires
            i != i64::MIN,
        ensures
            r == int_num(i as int),
            r.mant() == i,
            r.places() == 0,
    {
        Num { mantissa: i, scale: 0 }
    }

    pub fn mantissa(&self) -> (r: i64)
        ensures
            r == self.mant(),
    {
        self.mantissa
    }

    pub fn scale(&self) -> (r: u32)
        ensures
            r == self.places(),
    {
        self.scale
    }

    /// Whether the number is zero.
    pub fn is_zero(&self) -> (r: bool)
        ensures
            r == (self.mant() == 0),
    {
        self.mantissa == 0
    }

    /// Whether the number is the integer `i`.
    pub fn is_int(&self, i: i64) -> (r: bool)
        ensures
            r == (self.mant() == i && self.places() == 0),
    {
        self.mantissa == i && self.scale == 0
    }

    /// The negated number.
    pub fn neg(&self) -> (r: Num)
        ensures
            r == negated(*self),
            r.mant() == -self.mant(),
            r.places() == self.places(),
    {
        proof { use_type_invariant(self); }
        Num { mantissa: -self.mantissa, scale: self.scale }
    }

    /// The number written as a plain decimal, as the printers show it.
    pub fn to_text(&self) -> (r: String)
        ensures
            r@ == decimal_text(self.mant(), self.places()),
    {
        proof { use_type_invariant(self); }
        let m = self.mantissa;
        let a: u64 = if m >= 0 { m as u64 } else { ((-(m + 1)) as u64) + 1 };
        assert(a as nat == abs_nat(m as int));
        let d = u64_digits(a);
        let mut out = String::new();
        let ghost sign: Seq<char> = if m < 0 { seq!['-'] } else { Seq::empty() };
        if m < 0 {
            out.push('-');
        }
        assert(out@ =~= sign);
        proof { lemma_nat_digits_len(a as nat); }
        if self.scale == 0 {
            push_chars(&mut out, &d);
            return out;
        }
        let s = self.scale as usize;
        // pad with leading zeros up to s + 1 digits
        let mut padded: Vec<char> = Vec::new();
        if d.len() <= s {
            let z = s + 1 - d.len();
            let mut i: usize = 0;
            while i < z
                invariant
                    i <= z,
                    padded@ =~= Seq::new(i as nat, |j: int| '0'),
                decreases z - i,
            {
                padded.push('0');
                i = i + 1;
            }
        }
        let n0 = padded.len();
        let ghost zeros = padded@;
        assert(zeros =~= (if d@.len() <= s { Seq::new((s + 1 - d@.len()) as nat, |j: int| '0') } else { Seq::<char>::empty() }));
        let mut i: usize = 0;
        while i < d.len()
            invariant
                n0 == padded@.len() - i,
                i <= d.len(),
                n0 <= s + 1,
                padded@.subrange(n0 as int, padded@.len() as int) =~= d@.subrange(0, i as int),
                padded@.subrange(0, n0 as int) =~= zeros,
            decreases d.len() - i,
        {
            padded.push(d[i]);
            i = i + 1;
        }
        let ghost pad_spec = if d@.len() <= s {
            Seq::new((s + 1 - d@.len()) as nat, |j: int| '0') + d@
        } else {
            d@
        };
        assert(padded@ =~= padded@.subrange(0, n0 as int) + padded@.subrange(n0 as int, padded@.len() as int));
        assert(d@.subrange(0, d@.len() as int) =~= d@);
        assert(padded@ =~= pad_spec);
        let k = padded.len() - s;
        let mut j: usize = 0;
        while j < k
            invariant
                j <= k,
                k == padded@.len() - s,
                out@ == sign + padded@.subrange(0, j as int),
            decreases k - j,
        {
            proof { assert(padded@.subrange(0, j + 1) =~= padded@.subrange(0, j as int).push(padded@[j as int])); }
            out.push(padded[j]);
            j = j + 1;
        }
        out.push('.');
        let ghost before = out@;
        assert(before =~= sign + padded@.subrange(0, k as int) + seq!['.']);
        while j < padded.len()
            invariant
                k <= j <= padded@.len(),
                out@ == before + padded@.subrange(k as int, j as int),
            decreases padded.len() - j,
        {
            proof { assert(padded@.subrange(k as int, j + 1) =~= padded@.subrange(k as int, j as int).push(padded@[j as int])); }
            out.push(padded[j]);
            j = j + 1;
        }
        out
    }
}

} // verus!
