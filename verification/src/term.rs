//! The descriptors of the basis functions and the order of a basis's columns.

use vstd::prelude::*;

verus! {

/// One basis function of the family, together with the parameter that
/// selects it.
#[derive(Debug, PartialEq)]
pub enum BasisTerm<P> {
    /// `exp(-sqrt(b * x))` for the scale `b`.
    ExpRoot(P),
    /// `x^j` for the power `j`.
    Power(usize),
    /// `ln(1 + lambda * x)` for the scale `lambda`.
    Log(P),
}

impl<P: Copy> Clone for BasisTerm<P> {
    fn clone(&self) -> (r: Self)
        ensures
            r == *self,
    {
        *self
    }
}

impl<P: Copy> Copy for BasisTerm<P> {

}

/// The powers `x^0, x^1, ..., x^degree`, in increasing order.
pub open spec fn power_terms<P>(degree: nat) -> Seq<BasisTerm<P>> {
    Seq::new(degree + 1, |j: int| BasisTerm::Power(j as usize))
}

/// The columns of a basis, left to right: one exponential-root term per
/// entry of `exp_scales`, then the powers up to `degree`, then one
/// logarithmic term per entry of `log_scales`.
pub open spec fn basis_terms<P>(exp_scales: Seq<P>, degree: nat, log_scales: Seq<P>) -> Seq<
    BasisTerm<P>,
> {
    exp_scales.map_values(|b: P| BasisTerm::ExpRoot(b)) + power_terms(degree)
        + log_scales.map_values(|l: P| BasisTerm::Log(l))
}

/// What stands in each column of `basis_terms`, by the column's number.
pub proof fn lemma_basis_terms_index<P>(
    exp_scales: Seq<P>,
    degree: nat,
    log_scales: Seq<P>,
    c: int,
)
    requires
        0 <= c < exp_scales.len() + degree + 1 + log_scales.len(),
    ensures
        basis_terms(exp_scales, degree, log_scales).len() == exp_scales.len() + degree + 1
            + log_scales.len(),
        c < exp_scales.len() ==> basis_terms(exp_scales, degree, log_scales)[c]
            == BasisTerm::ExpRoot(exp_scales[c]),
        exp_scales.len() <= c <= exp_scales.len() + degree ==> basis_terms(
            exp_scales,
            degree,
            log_scales,
        )[c] == BasisTerm::<P>::Power((c - exp_scales.len()) as usize),
        exp_scales.len() + degree < c ==> basis_terms(exp_scales, degree, log_scales)[c]
            == BasisTerm::Log(log_scales[c - exp_scales.len() - degree - 1]),
{
}

} // verus!
