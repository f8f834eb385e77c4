//! Derivative symbols `∂^n_f(args)/∂_x^n`.
//!
//! The differentiator writes the derivative of an unknown function as a
//! symbol of this form. Differentiating such a symbol again raises the order:
//! the order is read between the first and the second `^` after the single
//! `/∂_`, as a 32-bit integer, and the symbol is rewritten with the order one
//! higher and the new variable.

use vstd::prelude::*;
use crate::text::{nat_digits, u64_digits, chars_of, push_chars};

verus! {

// ---------------------------------------------------------------------------
// Specification
// ---------------------------------------------------------------------------

/// Whether `pat` occurs in `s` at index `i`.
pub open spec fn occurs_at(s: Seq<char>, pat: Seq<char>, i: int) -> bool {
    0 <= i && i + pat.len() <= s.len() && s.subrange(i, i + pat.len()) == pat
}

/// The first index at or after `from` where `pat` occurs in `s`.
pub open spec fn find_from(s: Seq<char>, pat: Seq<char>, from: int) -> Option<int>
    decreases s.len() - from,
{
    if from < 0 || from >= s.len() {
        None
    } else if occurs_at(s, pat, from) {
        Some(from)
    } else {
        find_from(s, pat, from + 1)
    }
}

/// The separator between the function part and the variable part.
pub open spec fn separator() -> Seq<char> {
    seq!['/', '∂', '_']
}

/// Whether `name` starts with `∂^`.
pub open spec fn has_head(name: Seq<char>) -> bool {
    name.len() >= 2 && name[0] == '∂' && name[1] == '^'
}

/// The index of the separator when it occurs in `name` exactly once.
pub open spec fn single_separator(name: Seq<char>) -> Option<int> {
    match find_from(name, separator(), 0) {
        Some(i) => if find_from(name, separator(), i + 3) is Some { None } else { Some(i) },
        None => None,
    }
}

/// The text after the first `^` of `right`, up to the next `^` or the end.
pub open spec fn second_piece(right: Seq<char>) -> Option<Seq<char>> {
    match find_from(right, seq!['^'], 0) {
        None => None,
        Some(k) => {
            let rest = right.subrange(k + 1, right.len() as int);
            Some(match find_from(rest, seq!['^'], 0) {
                Some(k2) => rest.subrange(0, k2),
                None => rest,
            })
        },
    }
}

/// Whether `c` is an ASCII digit.
pub open spec fn is_digit(c: char) -> bool {
    '0' <= c && c <= '9'
}

/// Whether every character of `d` is a digit.
pub open spec fn all_digits(d: Seq<char>) -> bool {
    forall|i: int| 0 <= i < d.len() ==> is_digit(#[trigger] d[i])
}

/// The value of the decimal digits `d`.
pub open spec fn digits_value(d: Seq<char>) -> int
    decreases d.len(),
{
    if d.len() == 0 {
        0
    } else {
        digits_value(d.drop_last()) * 10 + (d.last() as int - '0' as int)
    }
}

/// `s` read as a 32-bit integer: an optional sign, then one or more digits,
/// with a value in range.
pub open spec fn parse_i32(s: Seq<char>) -> Option<int> {
    if s.len() == 0 {
        None
    } else {
        let digits = if s[0] == '-' || s[0] == '+' { s.drop_first() } else { s };
        if digits.len() == 0 || !all_digits(digits) {
            None
        } else {
            let v = if s[0] == '-' { -digits_value(digits) } else { digits_value(digits) };
            if i32::MIN <= v && v <= i32::MAX { Some(v) } else { None }
        }
    }
}

/// The decimal text of the integer `v`.
pub open spec fn int_text(v: int) -> Seq<char> {
    if v < 0 { seq!['-'] + nat_digits((-v) as nat) } else { nat_digits(v as nat) }
}

/// The order written in the derivative symbol `name`, if it has that form.
pub open spec fn notation_order(name: Seq<char>) -> Option<int> {
    if !has_head(name) {
        None
    } else {
        match single_separator(name) {
            None => None,
            Some(i) => match second_piece(name.subrange(i + 3, name.len() as int)) {
                None => None,
                Some(p) => parse_i32(p),
            },
        }
    }
}

/// The variable written in the derivative symbol `name`: the text after the
/// separator up to the first `^`.
pub open spec fn notation_var(name: Seq<char>) -> Option<Seq<char>> {
    match single_separator(name) {
        None => None,
        Some(i) => {
            let right = name.subrange(i + 3, name.len() as int);
            match find_from(right, seq!['^'], 0) {
                None => None,
                Some(k) => Some(right.subrange(0, k)),
            }
        },
    }
}

/// The derivative symbol `name` differentiated once more in `var`, when
/// `var` is the variable it is already a derivative in.
pub open spec fn notation_bump(name: Seq<char>, var: Seq<char>) -> Option<Seq<char>> {
    match notation_order(name) {
        None => None,
        Some(o) => if notation_var(name) != Some(var) { None } else {
            let i = single_separator(name)->0;
            let fp = name.subrange(2, i);
            match find_from(fp, seq!['_'], 0) {
                None => None,
                Some(j) => Some(seq!['∂', '^'] + int_text(o + 1) + seq!['_'] + fp.subrange(j + 1, fp.len() as int)
                    + separator() + var + seq!['^'] + int_text(o + 1)),
            }
        },
    }
}

/// Whether two character vectors hold the same characters.
fn same_chars(a: &Vec<char>, b: &Vec<char>) -> (r: bool)
    ensures
        r == (a@ == b@),
{
    if a.len() != b.len() {
        return false;
    }
    let mut i: usize = 0;
    while i < a.len()
        invariant
            i <= a@.len(),
            a@.len() == b@.len(),
            forall|j: int| 0 <= j < i ==> a@[j] == b@[j],
        decreases a.len() - i,
    {
        if a[i] != b[i] {
            return false;
        }
        i = i + 1;
    }
    assert(a@ =~= b@);
    true
}

// ---------------------------------------------------------------------------
// Lemmas
// ---------------------------------------------------------------------------

/// The value of digits is never negative, and never smaller than that of a prefix.
pub proof fn lemma_digits_value_mono(d: Seq<char>, k: int)
    requires
        all_digits(d),
        0 <= k <= d.len(),
    ensures
        0 <= digits_value(d.subrange(0, k)) <= digits_value(d),
    decreases d.len(),
{
    if d.len() > 0 {
        assert(all_digits(d.drop_last()));
        assert(is_digit(d[d.len() - 1]));
        if k == d.len() {
            assert(d.subrange(0, k) =~= d);
            lemma_digits_value_mono(d.drop_last(), 0);
        } else {
            lemma_digits_value_mono(d.drop_last(), k);
            assert(d.drop_last().subrange(0, k) =~= d.subrange(0, k));
        }
    } else {
        assert(d.subrange(0, k) =~= d);
    }
}

// ---------------------------------------------------------------------------
// Implementation
// ---------------------------------------------------------------------------

/// Whether `pat` occurs in `s` at `i`.
fn matches_at(s: &Vec<char>, pat: &Vec<char>, i: usize) -> (r: bool)
    ensures
        r == occurs_at(s@, pat@, i as int),
{
    if i > s.len() || pat.len() > s.len() - i {
        return false;
    }
    let mut k: usize = 0;
    while k < pat.len()
        invariant
            k <= pat.len(),
            i + pat.len() <= s.len(),
            s@.subrange(i as int, i + k) =~= pat@.subrange(0, k as int),
        decreases pat.len() - k,
    {
        if s[i + k] != pat[k] {
            assert(s@.subrange(i as int, i + pat@.len())[k as int] != pat@[k as int]);
            return false;
        }
        k = k + 1;
    }
    assert(pat@.subrange(0, pat@.len() as int) =~= pat@);
    true
}

/// The first index at or after `from` where `pat` occurs in `s`.
fn find_from_exec(s: &Vec<char>, pat: &Vec<char>, from: usize) -> (r: Option<usize>)
    ensures
        match r {
            Some(i) => find_from(s@, pat@, from as int) == Some(i as int),
            None => find_from(s@, pat@, from as int) is None,
        },
{
    let mut i: usize = from;
    while i < s.len()
        invariant
            from <= i,
            find_from(s@, pat@, from as int) == find_from(s@, pat@, i as int),
        decreases s.len() - i,
    {
        if matches_at(s, pat, i) {
            return Some(i);
        }
        i = i + 1;
    }
    None
}

/// The characters `v[lo..hi]`.
fn slice_chars(v: &Vec<char>, lo: usize, hi: usize) -> (r: Vec<char>)
    requires
        lo <= hi <= v@.len(),
    ensures
        r@ == v@.subrange(lo as int, hi as int),
{
    let mut out: Vec<char> = Vec::new();
    let mut i: usize = lo;
    while i < hi
        invariant
            lo <= i <= hi,
            hi <= v@.len(),
            out@ =~= v@.subrange(lo as int, i as int),
        decreases hi - i,
    {
        out.push(v[i]);
        i = i + 1;
    }
    out
}

/// `s` read as a 32-bit integer, as `parse_i32` states.
pub fn parse_i32_exec(s: &Vec<char>) -> (r: Option<i32>)
    ensures
        match r {
            Some(v) => parse_i32(s@) == Some(v as int),
            None => parse_i32(s@) is None,
        },
{
    if s.len() == 0 {
        return None;
    }
    let neg = s[0] == '-';
    let start: usize = if s[0] == '-' || s[0] == '+' { 1 } else { 0 };
    let digits = slice_chars(s, start, s.len());
    assert(start == 1 ==> digits@ =~= s@.drop_first());
    assert(start == 0 ==> digits@ =~= s@);
    assert(digits@ == (if s@[0] == '-' || s@[0] == '+' { s@.drop_first() } else { s@ }));
    if digits.len() == 0 {
        return None;
    }
    let mut k: usize = 0;
    while k < digits.len()
        invariant
            k <= digits@.len(),
            s@.len() > 0,
            digits@ == (if s@[0] == '-' || s@[0] == '+' { s@.drop_first() } else { s@ }),
            forall|j: int| 0 <= j < k ==> is_digit(#[trigger] digits@[j]),
        decreases digits.len() - k,
    {
        let c = digits[k];
        if !('0' <= c && c <= '9') {
            assert(!is_digit(digits@[k as int]));
            assert(!all_digits(digits@));
            return None;
        }
        k = k + 1;
    }
    assert(all_digits(digits@));
    let mut acc: i64 = 0;
    let mut k: usize = 0;
    assert(digits@.subrange(0, 0) =~= Seq::<char>::empty());
    while k < digits.len()
        invariant
            k <= digits@.len(),
            s@.len() > 0,
            digits@.len() > 0,
            digits@ == (if s@[0] == '-' || s@[0] == '+' { s@.drop_first() } else { s@ }),
            neg == (s@[0] == '-'),
            all_digits(digits@),
            acc == digits_value(digits@.subrange(0, k as int)),
            0 <= acc <= 2147483648,
        decreases digits.len() - k,
    {
        let c = digits[k];
        assert(is_digit(digits@[k as int]));
        let d: i64 = (c as u32 - '0' as u32) as i64;
        proof {
            let t = digits@.subrange(0, k + 1);
            assert(t.drop_last() =~= digits@.subrange(0, k as int));
            assert(t.last() == c);
        }
        acc = acc * 10 + d;
        if acc > 2147483648 {
            proof { lemma_digits_value_mono(digits@, k + 1); }
            return None;
        }
        k = k + 1;
    }
    assert(digits@.subrange(0, digits@.len() as int) =~= digits@);
    if neg {
        let v: i64 = -acc;
        Some(v as i32)
    } else if acc <= 2147483647 {
        Some(acc as i32)
    } else {
        None
    }
}

/// The decimal text of `v`.
fn int_text_exec(v: i64) -> (r: Vec<char>)
    requires
        v > i64::MIN,
    ensures
        r@ == int_text(v as int),
{
    if v < 0 {
        let d = u64_digits((-v) as u64);
        let mut out: Vec<char> = Vec::new();
        out.push('-');
        let mut i: usize = 0;
        while i < d.len()
            invariant
                i <= d@.len(),
                out@ =~= seq!['-'] + d@.subrange(0, i as int),
            decreases d.len() - i,
        {
            out.push(d[i]);
            i = i + 1;
        }
        assert(d@.subrange(0, d@.len() as int) =~= d@);
        out
    } else {
        u64_digits(v as u64)
    }
}

/// The derivative symbol `name` differentiated once more in `var`, when it
/// is a derivative in `var`.
pub fn bump_notation(name: &String, var: &str) -> (r: Option<String>)
    requires
        notation_order(name@) != Some(i32::MAX as int),
    ensures
        match r {
            Some(s) => notation_bump(name@, var@) == Some(s@),
            None => notation_bump(name@, var@) is None,
        },
{
    let s = chars_of(name.as_str());
    if !(s.len() >= 2 && s[0] == '∂' && s[1] == '^') {
        return None;
    }
    let mut sep: Vec<char> = Vec::new();
    sep.push('/');
    sep.push('∂');
    sep.push('_');
    assert(sep@ =~= separator());
    let i = match find_from_exec(&s, &sep, 0) {
        Some(i) => i,
        None => return None,
    };
    proof {
        assert(occurs_at(s@, separator(), i as int)) by {
            lemma_find_from_occurs(s@, separator(), 0);
        }
    }
    if find_from_exec(&s, &sep, i + 3).is_some() {
        return None;
    }
    let right = slice_chars(&s, i + 3, s.len());
    let mut caret: Vec<char> = Vec::new();
    caret.push('^');
    assert(caret@ =~= seq!['^']);
    let k = match find_from_exec(&right, &caret, 0) {
        Some(k) => k,
        None => return None,
    };
    proof { lemma_find_from_occurs(right@, seq!['^'], 0); }
    let written_var = slice_chars(&right, 0, k);
    let var_chars = chars_of(var);
    let rest = slice_chars(&right, k + 1, right.len());
    let piece = match find_from_exec(&rest, &caret, 0) {
        Some(k2) => {
            proof { lemma_find_from_occurs(rest@, seq!['^'], 0); }
            slice_chars(&rest, 0, k2)
        },
        None => rest,
    };
    let order = match parse_i32_exec(&piece) {
        Some(o) => o,
        None => return None,
    };
    if !same_chars(&written_var, &var_chars) {
        return None;
    }
    let next: i64 = order as i64 + 1;
    assert(i >= 2) by {
        assert(s@.subrange(i as int, i + 3)[0] == '/');
    }
    let fp = slice_chars(&s, 2, i);
    let mut under: Vec<char> = Vec::new();
    under.push('_');
    assert(under@ =~= seq!['_']);
    let j = match find_from_exec(&fp, &under, 0) {
        Some(j) => j,
        None => return None,
    };
    proof { lemma_find_from_occurs(fp@, seq!['_'], 0); }
    let func_name = slice_chars(&fp, j + 1, fp.len());
    let digits = int_text_exec(next);
    let mut out = String::new();
    out.push('∂');
    out.push('^');
    push_chars(&mut out, &digits);
    out.push('_');
    push_chars(&mut out, &func_name);
    push_chars(&mut out, &sep);
    push_chars(&mut out, &var_chars);
    out.push('^');
    push_chars(&mut out, &digits);
    assert(out@ =~= seq!['∂', '^'] + int_text(order + 1) + seq!['_'] + fp@.subrange(j + 1, fp@.len() as int)
        + separator() + var@ + seq!['^'] + int_text(order + 1));
    Some(out)
}

/// A match found by `find_from` is an occurrence, within bounds.
pub proof fn lemma_find_from_occurs(s: Seq<char>, pat: Seq<char>, from: int)
    ensures
        find_from(s, pat, from) matches Some(i) ==> from <= i && occurs_at(s, pat, i),
    decreases s.len() - from,
{
    if !(from < 0 || from >= s.len()) && !occurs_at(s, pat, from) {
        lemma_find_from_occurs(s, pat, from + 1);
    }
}

} // verus!
