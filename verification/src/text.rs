//! Character-level helpers shared by the printers and the name tables.

use vstd::prelude::*;

verus! {

/// `String::push` appends one character at the end of the string.
pub assume_specification[ String::push ](s: &mut String, ch: char)
    ensures
        final(s)@ == old(s)@.push(ch),
;

/// The decimal digit character for `d` (`d < 10`).
pub open spec fn digit_char(d: nat) -> char {
    if d == 0 { '0' }
    else if d == 1 { '1' }
    else if d == 2 { '2' }
    else if d == 3 { '3' }
    else if d == 4 { '4' }
    else if d == 5 { '5' }
    else if d == 6 { '6' }
    else if d == 7 { '7' }
    else if d == 8 { '8' }
    else { '9' }
}

/// The decimal representation of `v` without leading zeros (`"0"` for zero).
pub open spec fn nat_digits(v: nat) -> Seq<char>
    decreases v,
{
    if v < 10 {
        seq![digit_char(v)]
    } else {
        nat_digits(v / 10).push(digit_char(v % 10))
    }
}

pub fn digit_char_exec(d: u64) -> (c: char)
    requires
        d < 10,
    ensures
        c == digit_char(d as nat),
{
    if d == 0 { '0' }
    else if d == 1 { '1' }
    else if d == 2 { '2' }
    else if d == 3 { '3' }
    else if d == 4 { '4' }
    else if d == 5 { '5' }
    else if d == 6 { '6' }
    else if d == 7 { '7' }
    else if d == 8 { '8' }
    else { '9' }
}

pub proof fn lemma_nat_digits_len(v: nat)
    ensures
        nat_digits(v).len() >= 1,
    decreases v,
{
    if v >= 10 {
        lemma_nat_digits_len(v / 10);
    }
}

/// The digits of `v`, most significant first.
pub fn u64_digits(v: u64) -> (r: Vec<char>)
    ensures
        r@ == nat_digits(v as nat),
{
    // collect digits least significant first
    let mut rev: Vec<char> = Vec::new();
    let mut x: u64 = v;
    // invariant: nat_digits(v) == nat_digits(x) + reverse(rev)   (for x > 0 phases)
    loop
        invariant
            x <= v,
            nat_digits(v as nat) == nat_digits(x as nat) + rev@.reverse(),
        ensures
            x < 10,
            nat_digits(v as nat) == nat_digits(x as nat) + rev@.reverse(),
        decreases x,
    {
        if x < 10 {
            break;
        }
        let d = x % 10;
        let c = digit_char_exec(d);
        proof {
            assert(nat_digits(x as nat) == nat_digits((x / 10) as nat).push(digit_char((x % 10) as nat)));
            let old_rev = rev@;
            assert(old_rev.push(c).reverse() =~= seq![c] + old_rev.reverse());
            assert(nat_digits(x as nat) + old_rev.reverse() =~= nat_digits((x / 10) as nat) + (seq![c] + old_rev.reverse()));
        }
        rev.push(c);
        x = x / 10;
    }
    let first = digit_char_exec(x);
    let mut out: Vec<char> = Vec::new();
    out.push(first);
    assert(nat_digits(x as nat) =~= seq![first]);
    let n = rev.len();
    let mut i: usize = 0;
    while i < n
        invariant
            n == rev.len(),
            i <= n,
            nat_digits(v as nat) == seq![first] + rev@.reverse(),
            out@ == seq![first] + rev@.reverse().subrange(0, i as int),
        decreases n - i,
    {
        let c = rev[n - 1 - i];
        proof {
            assert(rev@.reverse()[i as int] == rev@[n - 1 - i]);
            assert(rev@.reverse().subrange(0, i + 1) =~= rev@.reverse().subrange(0, i as int).push(c));
        }
        out.push(c);
        i = i + 1;
    }
    assert(rev@.reverse().subrange(0, n as int) =~= rev@.reverse());
    out
}

/// Append every character of `v` to `s`.
pub fn push_chars(s: &mut String, v: &Vec<char>)
    ensures
        final(s)@ == old(s)@ + v@,
{
    let mut i: usize = 0;
    while i < v.len()
        invariant
            i <= v.len(),
            s@ == old(s)@ + v@.subrange(0, i as int),
        decreases v.len() - i,
    {
        proof {
            assert(v@.subrange(0, i + 1) =~= v@.subrange(0, i as int).push(v@[i as int]));
        }
        s.push(v[i]);
        i = i + 1;
    }
    assert(v@.subrange(0, v.len() as int) =~= v@);
}

/// Append the characters of `t` to `s`.
pub fn push_string(s: &mut String, t: &String)
    ensures
        final(s)@ == old(s)@ + t@,
{
    s.append(t.as_str());
}

/// The characters of `s`, in order.
pub fn chars_of(s: &str) -> (r: Vec<char>)
    ensures
        r@ == s@,
{
    broadcast use vstd::string::axiom_spec_iter;
    let mut v: Vec<char> = Vec::new();
    for c in it: s.chars()
        invariant
            it.seq() == s@,
            v@ == it.seq().subrange(0, it.index() as int),
    {
        v.push(c);
    }
    v
}

/// Whether `s` holds exactly the characters of `lit`.
pub fn string_is(s: &String, lit: &str) -> (r: bool)
    ensures
        r == (s@ == lit@),
{
    let t = String::from_str(lit);
    *s == t
}

} // verus!
