//! Builders for powers and the named functions.

use vstd::prelude::*;
use std::sync::Arc;
use super::{Expr, Term};
use super::construct::{pair, triple, quad};

verus! {

impl Expr {
    /// `self ^ exp`.
    pub fn pow(self, exp: Expr) -> (r: Expr)
        ensures
            r@ == Term::Pow(Box::new(self@), Box::new(exp@)),
    {
        Expr::pow_static(self, exp)
    }

    /// Polygamma function `polygamma(n, self)`.
    pub fn polygamma(self, n: Expr) -> (r: Expr)
        ensures
            r@ == Term::Call("polygamma"@, seq![n@, self@]),
    {
        Expr::func_multi("polygamma", pair(n, self))
    }

    /// Beta function `beta(self, other)`.
    pub fn beta(self, other: Expr) -> (r: Expr)
        ensures
            r@ == Term::Call("beta"@, seq![self@, other@]),
    {
        Expr::func_multi("beta", pair(self, other))
    }

    /// Bessel function of the first kind `besselj(n, self)`.
    pub fn besselj(self, n: Expr) -> (r: Expr)
        ensures
            r@ == Term::Call("besselj"@, seq![n@, self@]),
    {
        Expr::func_multi("besselj", pair(n, self))
    }

    /// Bessel function of the second kind `bessely(n, self)`.
    pub fn bessely(self, n: Expr) -> (r: Expr)
        ensures
            r@ == Term::Call("bessely"@, seq![n@, self@]),
    {
        Expr::func_multi("bessely", pair(n, self))
    }

    /// Modified Bessel function of the first kind `besseli(n, self)`.
    pub fn besseli(self, n: Expr) -> (r: Expr)
        ensures
            r@ == Term::Call("besseli"@, seq![n@, self@]),
    {
        Expr::func_multi("besseli", pair(n, self))
    }

    /// Modified Bessel function of the second kind `besselk(n, self)`.
    pub fn besselk(self, n: Expr) -> (r: Expr)
        ensures
            r@ == Term::Call("besselk"@, seq![n@, self@]),
    {
        Expr::func_multi("besselk", pair(n, self))
    }

    /// Derivative of the Riemann zeta function `zeta_deriv(n, self)`.
    pub fn zeta_deriv(self, n: Expr) -> (r: Expr)
        ensures
            r@ == Term::Call("zeta_deriv"@, seq![n@, self@]),
    {
        Expr::func_multi("zeta_deriv", pair(n, self))
    }

    /// Logarithm to a base: `log(base, self)`.
    pub fn log(self, base: Expr) -> (r: Expr)
        ensures
            r@ == Term::Call("log"@, seq![base@, self@]),
    {
        Expr::func_multi("log", pair(base, self))
    }

    /// Hermite polynomial `hermite(n, self)`.
    pub fn hermite(self, n: Expr) -> (r: Expr)
        ensures
            r@ == Term::Call("hermite"@, seq![n@, self@]),
    {
        Expr::func_multi("hermite", pair(n, self))
    }

    /// Associated Legendre polynomial `assoc_legendre(l, m, self)`.
    pub fn assoc_legendre(self, l: Expr, m: Expr) -> (r: Expr)
        ensures
            r@ == Term::Call("assoc_legendre"@, seq![l@, m@, self@]),
    {
        Expr::func_multi("assoc_legendre", triple(l, m, self))
    }

    /// Spherical harmonic `spherical_harmonic(l, m, self, phi)`.
    pub fn spherical_harmonic(self, l: Expr, m: Expr, phi: Expr) -> (r: Expr)
        ensures
            r@ == Term::Call("spherical_harmonic"@, seq![l@, m@, self@, phi@]),
    {
        Expr::func_multi("spherical_harmonic", quad(l, m, self, phi))
    }

    /// Spherical harmonic `ynm(l, m, self, phi)`.
    pub fn ynm(self, l: Expr, m: Expr, phi: Expr) -> (r: Expr)
        ensures
            r@ == Term::Call("ynm"@, seq![l@, m@, self@, phi@]),
    {
        Expr::func_multi("ynm", quad(l, m, self, phi))
    }

    /// Two-argument arctangent `atan2(self, x)`.
    pub fn atan2(self, x: Expr) -> (r: Expr)
        ensures
            r@ == Term::Call("atan2"@, seq![self@, x@]),
    {
        Expr::func_multi("atan2", pair(self, x))
    }
}

/// Building expressions from a shared expression.
pub trait ArcExprExt {
    /// The model of the shared expression.
    spec fn base_term(&self) -> Term;

    /// `self ^ exp`.
    fn pow(&self, exp: Expr) -> (r: Expr)
        ensures
            r@ == Term::Pow(Box::new(self.base_term()), Box::new(exp@)),
    ;

    /// Logarithm to a base: `log(base, self)`.
    fn log(&self, base: Expr) -> (r: Expr)
        ensures
            r@ == Term::Call("log"@, seq![base@, self.base_term()]),
    ;

    /// Sine: `sin(self)`.
    fn sin(&self) -> (r: Expr)
        ensures
            r@ == Term::Call("sin"@, seq![self.base_term()]),
    ;

    /// Cosine: `cos(self)`.
    fn cos(&self) -> (r: Expr)
        ensures
            r@ == Term::Call("cos"@, seq![self.base_term()]),
    ;

    /// Tangent: `tan(self)`.
    fn tan(&self) -> (r: Expr)
        ensures
            r@ == Term::Call("tan"@, seq![self.base_term()]),
    ;

    /// Cotangent: `cot(self)`.
    fn cot(&self) -> (r: Expr)
        ensures
            r@ == Term::Call("cot"@, seq![self.base_term()]),
    ;

    /// Secant: `sec(self)`.
    fn sec(&self) -> (r: Expr)
        ensures
            r@ == Term::Call("sec"@, seq![self.base_term()]),
    ;

    /// Cosecant: `csc(self)`.
    fn csc(&self) -> (r: Expr)
        ensures
            r@ == Term::Call("csc"@, seq![self.base_term()]),
    ;

    /// Arcsine: `asin(self)`.
    fn asin(&self) -> (r: Expr)
        ensures
            r@ == Term::Call("asin"@, seq![self.base_term()]),
    ;

    /// Arccosine: `acos(self)`.
    fn acos(&self) -> (r: Expr)
        ensures
            r@ == Term::Call("acos"@, seq![self.base_term()]),
    ;

    /// Arctangent: `atan(self)`.
    fn atan(&self) -> (r: Expr)
        ensures
            r@ == Term::Call("atan"@, seq![self.base_term()]),
    ;

    /// Arccotangent: `acot(self)`.
    fn acot(&self) -> (r: Expr)
        ensures
            r@ == Term::Call("acot"@, seq![self.base_term()]),
    ;

    /// Arcsecant: `asec(self)`.
    fn asec(&self) -> (r: Expr)
        ensures
            r@ == Term::Call("asec"@, seq![self.base_term()]),
    ;

    /// Arccosecant: `acsc(self)`.
    fn acsc(&self) -> (r: Expr)
        ensures
            r@ == Term::Call("acsc"@, seq![self.base_term()]),
    ;

    /// Hyperbolic sine: `sinh(self)`.
    fn sinh(&self) -> (r: Expr)
        ensures
            r@ == Term::Call("sinh"@, seq![self.base_term()]),
    ;

    /// Hyperbolic cosine: `cosh(self)`.
    fn cosh(&self) -> (r: Expr)
        ensures
            r@ == Term::Call("cosh"@, seq![self.base_term()]),
    ;

    /// Hyperbolic tangent: `tanh(self)`.
    fn tanh(&self) -> (r: Expr)
        ensures
            r@ == Term::Call("tanh"@, seq![self.base_term()]),
    ;

    /// Hyperbolic cotangent: `coth(self)`.
    fn coth(&self) -> (r: Expr)
        ensures
            r@ == Term::Call("coth"@, seq![self.base_term()]),
    ;

    /// Hyperbolic secant: `sech(self)`.
    fn sech(&self) -> (r: Expr)
        ensures
            r@ == Term::Call("sech"@, seq![self.base_term()]),
    ;

    /// Hyperbolic cosecant: `csch(self)`.
    fn csch(&self) -> (r: Expr)
        ensures
            r@ == Term::Call("csch"@, seq![self.base_term()]),
    ;

    /// Inverse hyperbolic sine: `asinh(self)`.
    fn asinh(&self) -> (r: Expr)
        ensures
            r@ == Term::Call("asinh"@, seq![self.base_term()]),
    ;

    /// Inverse hyperbolic cosine: `acosh(self)`.
    fn acosh(&self) -> (r: Expr)
        ensures
            r@ == Term::Call("acosh"@, seq![self.base_term()]),
    ;

    /// Inverse hyperbolic tangent: `atanh(self)`.
    fn atanh(&self) -> (r: Expr)
        ensures
            r@ == Term::Call("atanh"@, seq![self.base_term()]),
    ;

    /// Inverse hyperbolic cotangent: `acoth(self)`.
    fn acoth(&self) -> (r: Expr)
        ensures
            r@ == Term::Call("acoth"@, seq![self.base_term()]),
    ;

    /// Inverse hyperbolic secant: `asech(self)`.
    fn asech(&self) -> (r: Expr)
        ensures
            r@ == Term::Call("asech"@, seq![self.base_term()]),
    ;

    /// Inverse hyperbolic cosecant: `acsch(self)`.
    fn acsch(&self) -> (r: Expr)
        ensures
            r@ == Term::Call("acsch"@, seq![self.base_term()]),
    ;

    /// Exponential: `exp(self)`.
    fn exp(&self) -> (r: Expr)
        ensures
            r@ == Term::Call("exp"@, seq![self.base_term()]),
    ;

    /// Natural logarithm: `ln(self)`.
    fn ln(&self) -> (r: Expr)
        ensures
            r@ == Term::Call("ln"@, seq![self.base_term()]),
    ;

    /// Base-10 logarithm: `log10(self)`.
    fn log10(&self) -> (r: Expr)
        ensures
            r@ == Term::Call("log10"@, seq![self.base_term()]),
    ;

    /// Base-2 logarithm: `log2(self)`.
    fn log2(&self) -> (r: Expr)
        ensures
            r@ == Term::Call("log2"@, seq![self.base_term()]),
    ;

    /// Square root: `sqrt(self)`.
    fn sqrt(&self) -> (r: Expr)
        ensures
            r@ == Term::Call("sqrt"@, seq![self.base_term()]),
    ;

    /// Cube root: `cbrt(self)`.
    fn cbrt(&self) -> (r: Expr)
        ensures
            r@ == Term::Call("cbrt"@, seq![self.base_term()]),
    ;

    /// Floor: `floor(self)`.
    fn floor(&self) -> (r: Expr)
        ensures
            r@ == Term::Call("floor"@, seq![self.base_term()]),
    ;

    /// Ceiling: `ceil(self)`.
    fn ceil(&self) -> (r: Expr)
        ensures
            r@ == Term::Call("ceil"@, seq![self.base_term()]),
    ;

    /// Rounding to the nearest integer: `round(self)`.
    fn round(&self) -> (r: Expr)
        ensures
            r@ == Term::Call("round"@, seq![self.base_term()]),
    ;

    /// Absolute value: `abs(self)`.
    fn abs(&self) -> (r: Expr)
        ensures
            r@ == Term::Call("abs"@, seq![self.base_term()]),
    ;

    /// Sign: `signum(self)`.
    fn signum(&self) -> (r: Expr)
        ensures
            r@ == Term::Call("signum"@, seq![self.base_term()]),
    ;

    /// Sinc function: `sinc(self)`.
    fn sinc(&self) -> (r: Expr)
        ensures
            r@ == Term::Call("sinc"@, seq![self.base_term()]),
    ;

    /// Error function: `erf(self)`.
    fn erf(&self) -> (r: Expr)
        ensures
            r@ == Term::Call("erf"@, seq![self.base_term()]),
    ;

    /// Complementary error function: `erfc(self)`.
    fn erfc(&self) -> (r: Expr)
        ensures
            r@ == Term::Call("erfc"@, seq![self.base_term()]),
    ;

    /// Gamma function: `gamma(self)`.
    fn gamma(&self) -> (r: Expr)
        ensures
            r@ == Term::Call("gamma"@, seq![self.base_term()]),
    ;

    /// Digamma function: `digamma(self)`.
    fn digamma(&self) -> (r: Expr)
        ensures
            r@ == Term::Call("digamma"@, seq![self.base_term()]),
    ;

    /// Trigamma function: `trigamma(self)`.
    fn trigamma(&self) -> (r: Expr)
        ensures
            r@ == Term::Call("trigamma"@, seq![self.base_term()]),
    ;

    /// Tetragamma function: `tetragamma(self)`.
    fn tetragamma(&self) -> (r: Expr)
        ensures
            r@ == Term::Call("tetragamma"@, seq![self.base_term()]),
    ;

    /// Riemann zeta function: `zeta(self)`.
    fn zeta(&self) -> (r: Expr)
        ensures
            r@ == Term::Call("zeta"@, seq![self.base_term()]),
    ;

    /// Lambert W function: `lambertw(self)`.
    fn lambertw(&self) -> (r: Expr)
        ensures
            r@ == Term::Call("lambertw"@, seq![self.base_term()]),
    ;

    /// Complete elliptic integral of the first kind: `elliptic_k(self)`.
    fn elliptic_k(&self) -> (r: Expr)
        ensures
            r@ == Term::Call("elliptic_k"@, seq![self.base_term()]),
    ;

    /// Complete elliptic integral of the second kind: `elliptic_e(self)`.
    fn elliptic_e(&self) -> (r: Expr)
        ensures
            r@ == Term::Call("elliptic_e"@, seq![self.base_term()]),
    ;

    /// Exponential in polar form: `exp_polar(self)`.
    fn exp_polar(&self) -> (r: Expr)
        ensures
            r@ == Term::Call("exp_polar"@, seq![self.base_term()]),
    ;
}

impl ArcExprExt for Arc<Expr> {
    open spec fn base_term(&self) -> Term {
        (**self)@
    }

    fn pow(&self, exp: Expr) -> (r: Expr) {
        Expr::pow_static((**self).deep_copy(), exp)
    }

    fn log(&self, base: Expr) -> (r: Expr) {
        Expr::func_multi("log", pair(base, (**self).deep_copy()))
    }

    fn sin(&self) -> (r: Expr) {
        Expr::func("sin", (**self).deep_copy())
    }

    fn cos(&self) -> (r: Expr) {
        Expr::func("cos", (**self).deep_copy())
    }

    fn tan(&self) -> (r: Expr) {
        Expr::func("tan", (**self).deep_copy())
    }

    fn cot(&self) -> (r: Expr) {
        Expr::func("cot", (**self).deep_copy())
    }

    fn sec(&self) -> (r: Expr) {
        Expr::func("sec", (**self).deep_copy())
    }

    fn csc(&self) -> (r: Expr) {
        Expr::func("csc", (**self).deep_copy())
    }

    fn asin(&self) -> (r: Expr) {
        Expr::func("asin", (**self).deep_copy())
    }

    fn acos(&self) -> (r: Expr) {
        Expr::func("acos", (**self).deep_copy())
    }

    fn atan(&self) -> (r: Expr) {
        Expr::func("atan", (**self).deep_copy())
    }

    fn acot(&self) -> (r: Expr) {
        Expr::func("acot", (**self).deep_copy())
    }

    fn asec(&self) -> (r: Expr) {
        Expr::func("asec", (**self).deep_copy())
    }

    fn acsc(&self) -> (r: Expr) {
        Expr::func("acsc", (**self).deep_copy())
    }

    fn sinh(&self) -> (r: Expr) {
        Expr::func("sinh", (**self).deep_copy())
    }

    fn cosh(&self) -> (r: Expr) {
        Expr::func("cosh", (**self).deep_copy())
    }

    fn tanh(&self) -> (r: Expr) {
        Expr::func("tanh", (**self).deep_copy())
    }

    fn coth(&self) -> (r: Expr) {
        Expr::func("coth", (**self).deep_copy())
    }

    fn sech(&self) -> (r: Expr) {
        Expr::func("sech", (**self).deep_copy())
    }

    fn csch(&self) -> (r: Expr) {
        Expr::func("csch", (**self).deep_copy())
    }

    fn asinh(&self) -> (r: Expr) {
        Expr::func("asinh", (**self).deep_copy())
    }

    fn acosh(&self) -> (r: Expr) {
        Expr::func("acosh", (**self).deep_copy())
    }

    fn atanh(&self) -> (r: Expr) {
        Expr::func("atanh", (**self).deep_copy())
    }

    fn acoth(&self) -> (r: Expr) {
        Expr::func("acoth", (**self).deep_copy())
    }

    fn asech(&self) -> (r: Expr) {
        Expr::func("asech", (**self).deep_copy())
    }

    fn acsch(&self) -> (r: Expr) {
        Expr::func("acsch", (**self).deep_copy())
    }

    fn exp(&self) -> (r: Expr) {
        Expr::func("exp", (**self).deep_copy())
    }

    fn ln(&self) -> (r: Expr) {
        Expr::func("ln", (**self).deep_copy())
    }

    fn log10(&self) -> (r: Expr) {
        Expr::func("log10", (**self).deep_copy())
    }

    fn log2(&self) -> (r: Expr) {
        Expr::func("log2", (**self).deep_copy())
    }

    fn sqrt(&self) -> (r: Expr) {
        Expr::func("sqrt", (**self).deep_copy())
    }

    fn cbrt(&self) -> (r: Expr) {
        Expr::func("cbrt", (**self).deep_copy())
    }

    fn floor(&self) -> (r: Expr) {
        Expr::func("floor", (**self).deep_copy())
    }

    fn ceil(&self) -> (r: Expr) {
        Expr::func("ceil", (**self).deep_copy())
    }

    fn round(&self) -> (r: Expr) {
        Expr::func("round", (**self).deep_copy())
    }

    fn abs(&self) -> (r: Expr) {
        Expr::func("abs", (**self).deep_copy())
    }

    fn signum(&self) -> (r: Expr) {
        Expr::func("signum", (**self).deep_copy())
    }

    fn sinc(&self) -> (r: Expr) {
        Expr::func("sinc", (**self).deep_copy())
    }

    fn erf(&self) -> (r: Expr) {
        Expr::func("erf", (**self).deep_copy())
    }

    fn erfc(&self) -> (r: Expr) {
        Expr::func("erfc", (**self).deep_copy())
    }

    fn gamma(&self) -> (r: Expr) {
        Expr::func("gamma", (**self).deep_copy())
    }

    fn digamma(&self) -> (r: Expr) {
        Expr::func("digamma", (**self).deep_copy())
    }

    fn trigamma(&self) -> (r: Expr) {
        Expr::func("trigamma", (**self).deep_copy())
    }

    fn tetragamma(&self) -> (r: Expr) {
        Expr::func("tetragamma", (**self).deep_copy())
    }

    fn zeta(&self) -> (r: Expr) {
        Expr::func("zeta", (**self).deep_copy())
    }

    fn lambertw(&self) -> (r: Expr) {
        Expr::func("lambertw", (**self).deep_copy())
    }

    fn elliptic_k(&self) -> (r: Expr) {
        Expr::func("elliptic_k", (**self).deep_copy())
    }

    fn elliptic_e(&self) -> (r: Expr) {
        Expr::func("elliptic_e", (**self).deep_copy())
    }

    fn exp_polar(&self) -> (r: Expr) {
        Expr::func("exp_polar", (**self).deep_copy())
    }
}

} // verus!
