//! Expressions built from registered symbols.
//!
//! A `Symbol` is an id; the registry gives its name. Each builder here looks
//! the name up and answers `None` where no named symbol is registered under
//! the id.

use vstd::prelude::*;
use crate::symbol::{Symbol, SymbolRegistry, RegistryModel, lookup_by_id};
use super::{Expr, Term};

verus! {

/// The name registered under `id`, if a named symbol is.
pub open spec fn registered_name(m: RegistryModel, id: u64) -> Option<Seq<char>> {
    if id < m.ids.len() {
        match m.ids[id as int] {
            Some(s) => s.1,
            None => None,
        }
    } else {
        None
    }
}

/// The model of an optional expression.
pub open spec fn opt_term(e: Option<Expr>) -> Option<Term> {
    match e {
        Some(x) => Some(x@),
        None => None,
    }
}

/// The function `f` applied to the symbol registered under `id`.
pub open spec fn applied(m: RegistryModel, id: u64, f: Seq<char>) -> Option<Term> {
    match registered_name(m, id) {
        Some(n) => Some(Term::Call(f, seq![Term::Sym(n)])),
        None => None,
    }
}

impl Symbol {
    /// The symbol as an expression.
    pub fn to_expr(&self, reg: &SymbolRegistry) -> (r: Option<Expr>)
        ensures
            opt_term(r) == (match registered_name(reg@, self.0) {
                Some(n) => Some(Term::Sym(n)),
                None => None,
            }),
    {
        match lookup_by_id(reg, self.0) {
            Some(s) => match s.name() {
                Some(n) => Some(Expr::symbol(n)),
                None => None,
            },
            None => None,
        }
    }

    /// The function `f` applied to the symbol.
    fn apply(&self, reg: &SymbolRegistry, f: &str) -> (r: Option<Expr>)
        ensures
            opt_term(r) == applied(reg@, self.0, f@),
    {
        match self.to_expr(reg) {
            Some(e) => Some(Expr::func(f, e)),
            None => None,
        }
    }

    /// `sin` of the symbol.
    pub fn sin(&self, reg: &SymbolRegistry) -> (r: Option<Expr>)
        ensures
            opt_term(r) == applied(reg@, self.0, "sin"@),
    {
        self.apply(reg, "sin")
    }

    /// `cos` of the symbol.
    pub fn cos(&self, reg: &SymbolRegistry) -> (r: Option<Expr>)
        ensures
            opt_term(r) == applied(reg@, self.0, "cos"@),
    {
        self.apply(reg, "cos")
    }

    /// `tan` of the symbol.
    pub fn tan(&self, reg: &SymbolRegistry) -> (r: Option<Expr>)
        ensures
            opt_term(r) == applied(reg@, self.0, "tan"@),
    {
        self.apply(reg, "tan")
    }

    /// `cot` of the symbol.
    pub fn cot(&self, reg: &SymbolRegistry) -> (r: Option<Expr>)
        ensures
            opt_term(r) == applied(reg@, self.0, "cot"@),
    {
        self.apply(reg, "cot")
    }

    /// `sec` of the symbol.
    pub fn sec(&self, reg: &SymbolRegistry) -> (r: Option<Expr>)
        ensures
            opt_term(r) == applied(reg@, self.0, "sec"@),
    {
        self.apply(reg, "sec")
    }

    /// `csc` of the symbol.
    pub fn csc(&self, reg: &SymbolRegistry) -> (r: Option<Expr>)
        ensures
            opt_term(r) == applied(reg@, self.0, "csc"@),
    {
        self.apply(reg, "csc")
    }

    /// `asin` of the symbol.
    pub fn asin(&self, reg: &SymbolRegistry) -> (r: Option<Expr>)
        ensures
            opt_term(r) == applied(reg@, self.0, "asin"@),
    {
        self.apply(reg, "asin")
    }

    /// `acos` of the symbol.
    pub fn acos(&self, reg: &SymbolRegistry) -> (r: Option<Expr>)
        ensures
            opt_term(r) == applied(reg@, self.0, "acos"@),
    {
        self.apply(reg, "acos")
    }

    /// `atan` of the symbol.
    pub fn atan(&self, reg: &SymbolRegistry) -> (r: Option<Expr>)
        ensures
            opt_term(r) == applied(reg@, self.0, "atan"@),
    {
        self.apply(reg, "atan")
    }

    /// `acot` of the symbol.
    pub fn acot(&self, reg: &SymbolRegistry) -> (r: Option<Expr>)
        ensures
            opt_term(r) == applied(reg@, self.0, "acot"@),
    {
        self.apply(reg, "acot")
    }

    /// `asec` of the symbol.
    pub fn asec(&self, reg: &SymbolRegistry) -> (r: Option<Expr>)
        ensures
            opt_term(r) == applied(reg@, self.0, "asec"@),
    {
        self.apply(reg, "asec")
    }

    /// `acsc` of the symbol.
    pub fn acsc(&self, reg: &SymbolRegistry) -> (r: Option<Expr>)
        ensures
            opt_term(r) == applied(reg@, self.0, "acsc"@),
    {
        self.apply(reg, "acsc")
    }

    /// `sinh` of the symbol.
    pub fn sinh(&self, reg: &SymbolRegistry) -> (r: Option<Expr>)
        ensures
            opt_term(r) == applied(reg@, self.0, "sinh"@),
    {
        self.apply(reg, "sinh")
    }

    /// `cosh` of the symbol.
    pub fn cosh(&self, reg: &SymbolRegistry) -> (r: Option<Expr>)
        ensures
            opt_term(r) == applied(reg@, self.0, "cosh"@),
    {
        self.apply(reg, "cosh")
    }

    /// `tanh` of the symbol.
    pub fn tanh(&self, reg: &SymbolRegistry) -> (r: Option<Expr>)
        ensures
            opt_term(r) == applied(reg@, self.0, "tanh"@),
    {
        self.apply(reg, "tanh")
    }

    /// `coth` of the symbol.
    pub fn coth(&self, reg: &SymbolRegistry) -> (r: Option<Expr>)
        ensures
            opt_term(r) == applied(reg@, self.0, "coth"@),
    {
        self.apply(reg, "coth")
    }

    /// `sech` of the symbol.
    pub fn sech(&self, reg: &SymbolRegistry) -> (r: Option<Expr>)
        ensures
            opt_term(r) == applied(reg@, self.0, "sech"@),
    {
        self.apply(reg, "sech")
    }

    /// `csch` of the symbol.
    pub fn csch(&self, reg: &SymbolRegistry) -> (r: Option<Expr>)
        ensures
            opt_term(r) == applied(reg@, self.0, "csch"@),
    {
        self.apply(reg, "csch")
    }

    /// `asinh` of the symbol.
    pub fn asinh(&self, reg: &SymbolRegistry) -> (r: Option<Expr>)
        ensures
            opt_term(r) == applied(reg@, self.0, "asinh"@),
    {
        self.apply(reg, "asinh")
    }

    /// `acosh` of the symbol.
    pub fn acosh(&self, reg: &SymbolRegistry) -> (r: Option<Expr>)
        ensures
            opt_term(r) == applied(reg@, self.0, "acosh"@),
    {
        self.apply(reg, "acosh")
    }

    /// `atanh` of the symbol.
    pub fn atanh(&self, reg: &SymbolRegistry) -> (r: Option<Expr>)
        ensures
            opt_term(r) == applied(reg@, self.0, "atanh"@),
    {
        self.apply(reg, "atanh")
    }

    /// `acoth` of the symbol.
    pub fn acoth(&self, reg: &SymbolRegistry) -> (r: Option<Expr>)
        ensures
            opt_term(r) == applied(reg@, self.0, "acoth"@),
    {
        self.apply(reg, "acoth")
    }

    /// `asech` of the symbol.
    pub fn asech(&self, reg: &SymbolRegistry) -> (r: Option<Expr>)
        ensures
            opt_term(r) == applied(reg@, self.0, "asech"@),
    {
        self.apply(reg, "asech")
    }

    /// `acsch` of the symbol.
    pub fn acsch(&self, reg: &SymbolRegistry) -> (r: Option<Expr>)
        ensures
            opt_term(r) == applied(reg@, self.0, "acsch"@),
    {
        self.apply(reg, "acsch")
    }

    /// `exp` of the symbol.
    pub fn exp(&self, reg: &SymbolRegistry) -> (r: Option<Expr>)
        ensures
            opt_term(r) == applied(reg@, self.0, "exp"@),
    {
        self.apply(reg, "exp")
    }

    /// `ln` of the symbol.
    pub fn ln(&self, reg: &SymbolRegistry) -> (r: Option<Expr>)
        ensures
            opt_term(r) == applied(reg@, self.0, "ln"@),
    {
        self.apply(reg, "ln")
    }

    /// `log10` of the symbol.
    pub fn log10(&self, reg: &SymbolRegistry) -> (r: Option<Expr>)
        ensures
            opt_term(r) == applied(reg@, self.0, "log10"@),
    {
        self.apply(reg, "log10")
    }

    /// `log2` of the symbol.
    pub fn log2(&self, reg: &SymbolRegistry) -> (r: Option<Expr>)
        ensures
            opt_term(r) == applied(reg@, self.0, "log2"@),
    {
        self.apply(reg, "log2")
    }

    /// `sqrt` of the symbol.
    pub fn sqrt(&self, reg: &SymbolRegistry) -> (r: Option<Expr>)
        ensures
            opt_term(r) == applied(reg@, self.0, "sqrt"@),
    {
        self.apply(reg, "sqrt")
    }

    /// `cbrt` of the symbol.
    pub fn cbrt(&self, reg: &SymbolRegistry) -> (r: Option<Expr>)
        ensures
            opt_term(r) == applied(reg@, self.0, "cbrt"@),
    {
        self.apply(reg, "cbrt")
    }

    /// `floor` of the symbol.
    pub fn floor(&self, reg: &SymbolRegistry) -> (r: Option<Expr>)
        ensures
            opt_term(r) == applied(reg@, self.0, "floor"@),
    {
        self.apply(reg, "floor")
    }

    /// `ceil` of the symbol.
    pub fn ceil(&self, reg: &SymbolRegistry) -> (r: Option<Expr>)
        ensures
            opt_term(r) == applied(reg@, self.0, "ceil"@),
    {
        self.apply(reg, "ceil")
    }

    /// `round` of the symbol.
    pub fn round(&self, reg: &SymbolRegistry) -> (r: Option<Expr>)
        ensures
            opt_term(r) == applied(reg@, self.0, "round"@),
    {
        self.apply(reg, "round")
    }

    /// `abs` of the symbol.
    pub fn abs(&self, reg: &SymbolRegistry) -> (r: Option<Expr>)
        ensures
            opt_term(r) == applied(reg@, self.0, "abs"@),
    {
        self.apply(reg, "abs")
    }

    /// `signum` of the symbol.
    pub fn signum(&self, reg: &SymbolRegistry) -> (r: Option<Expr>)
        ensures
            opt_term(r) == applied(reg@, self.0, "signum"@),
    {
        self.apply(reg, "signum")
    }

    /// `sinc` of the symbol.
    pub fn sinc(&self, reg: &SymbolRegistry) -> (r: Option<Expr>)
        ensures
            opt_term(r) == applied(reg@, self.0, "sinc"@),
    {
        self.apply(reg, "sinc")
    }

    /// `erf` of the symbol.
    pub fn erf(&self, reg: &SymbolRegistry) -> (r: Option<Expr>)
        ensures
            opt_term(r) == applied(reg@, self.0, "erf"@),
    {
        self.apply(reg, "erf")
    }

    /// `erfc` of the symbol.
    pub fn erfc(&self, reg: &SymbolRegistry) -> (r: Option<Expr>)
        ensures
            opt_term(r) == applied(reg@, self.0, "erfc"@),
    {
        self.apply(reg, "erfc")
    }

    /// `gamma` of the symbol.
    pub fn gamma(&self, reg: &SymbolRegistry) -> (r: Option<Expr>)
        ensures
            opt_term(r) == applied(reg@, self.0, "gamma"@),
    {
        self.apply(reg, "gamma")
    }

    /// `digamma` of the symbol.
    pub fn digamma(&self, reg: &SymbolRegistry) -> (r: Option<Expr>)
        ensures
            opt_term(r) == applied(reg@, self.0, "digamma"@),
    {
        self.apply(reg, "digamma")
    }

    /// `trigamma` of the symbol.
    pub fn trigamma(&self, reg: &SymbolRegistry) -> (r: Option<Expr>)
        ensures
            opt_term(r) == applied(reg@, self.0, "trigamma"@),
    {
        self.apply(reg, "trigamma")
    }

    /// `tetragamma` of the symbol.
    pub fn tetragamma(&self, reg: &SymbolRegistry) -> (r: Option<Expr>)
        ensures
            opt_term(r) == applied(reg@, self.0, "tetragamma"@),
    {
        self.apply(reg, "tetragamma")
    }

    /// `zeta` of the symbol.
    pub fn zeta(&self, reg: &SymbolRegistry) -> (r: Option<Expr>)
        ensures
            opt_term(r) == applied(reg@, self.0, "zeta"@),
    {
        self.apply(reg, "zeta")
    }

    /// `lambertw` of the symbol.
    pub fn lambertw(&self, reg: &SymbolRegistry) -> (r: Option<Expr>)
        ensures
            opt_term(r) == applied(reg@, self.0, "lambertw"@),
    {
        self.apply(reg, "lambertw")
    }

    /// `elliptic_k` of the symbol.
    pub fn elliptic_k(&self, reg: &SymbolRegistry) -> (r: Option<Expr>)
        ensures
            opt_term(r) == applied(reg@, self.0, "elliptic_k"@),
    {
        self.apply(reg, "elliptic_k")
    }

    /// `elliptic_e` of the symbol.
    pub fn elliptic_e(&self, reg: &SymbolRegistry) -> (r: Option<Expr>)
        ensures
            opt_term(r) == applied(reg@, self.0, "elliptic_e"@),
    {
        self.apply(reg, "elliptic_e")
    }

    /// `exp_polar` of the symbol.
    pub fn exp_polar(&self, reg: &SymbolRegistry) -> (r: Option<Expr>)
        ensures
            opt_term(r) == applied(reg@, self.0, "exp_polar"@),
    {
        self.apply(reg, "exp_polar")
    }
}

} // verus!
