//! The fit itself: build the design matrix, have it solved, bind the result.

use vstd::prelude::*;
use vstd::slice::slice_to_vec;
use crate::basis::{
    computes_term_value, design_matrix, entries, is_design, lemma_design_is_matrix, Basis,
};
use crate::evaluator::{Evaluator, FitError};
use crate::term::{basis_terms, BasisTerm};

verus! {

/// Whether `outcome` is what a fit over the given basis parameters returns
/// once the least-squares solve has returned `solution`: the evaluator that
/// holds the parameters and exactly those coefficients, if there is one
/// coefficient per column, and the failure of the decomposition if not.
pub open spec fn is_fit_outcome<P>(
    b_list: Seq<P>,
    poly_deg: usize,
    log_lambdas: Seq<P>,
    solution: Option<Vec<P>>,
    outcome: Result<Evaluator<P>, FitError>,
) -> bool {
    match outcome {
        Ok(e) => {
            &&& solution matches Some(c) && c@ == e.coeffs()
            &&& e.coeffs().len() == b_list.len() + poly_deg + 1 + log_lambdas.len()
            &&& e.family().exp_scales() == b_list
            &&& e.family().degree() == poly_deg
            &&& e.family().log_scales() == log_lambdas
        },
        Err(e) => {
            &&& e == FitError::DecompositionFailure
            &&& solution matches Some(c) ==> c@.len() != b_list.len() + poly_deg + 1
                + log_lambdas.len()
        },
    }
}

/// Whether `outcome` is what a fit of the samples `(x[i], y[i])` may return:
/// the outcome for what `solve` may give for the design matrix of the basis
/// for `x`, as `eval` may give it, and for the ordinates `y`.
pub open spec fn is_fit<
    P,
    E: Fn(BasisTerm<P>, P) -> P,
    S: FnOnce(Vec<Vec<P>>, Vec<P>) -> Option<Vec<P>>,
>(
    x: Seq<P>,
    y: Seq<P>,
    b_list: Seq<P>,
    poly_deg: usize,
    log_lambdas: Seq<P>,
    eval: E,
    solve: S,
    outcome: Result<Evaluator<P>, FitError>,
) -> bool {
    exists|rows: Vec<Vec<P>>, ys: Vec<P>, solution: Option<Vec<P>>|
        {
            &&& is_design(basis_terms(b_list, poly_deg as nat, log_lambdas), x, eval, rows@)
            &&& ys@ == y
            &&& #[trigger] call_ensures(solve, (rows, ys), solution)
            &&& is_fit_outcome(b_list, poly_deg, log_lambdas, solution, outcome)
        }
}

/// Whether the backend `solve` computes the function `solution_of` of the
/// design matrix's entries and the ordinates.
pub open spec fn computes_solution<P, S: FnOnce(Vec<Vec<P>>, Vec<P>) -> Option<Vec<P>>>(
    solve: S,
    solution_of: spec_fn(Seq<Seq<P>>, Seq<P>) -> Option<Seq<P>>,
) -> bool {
    forall|rows: Vec<Vec<P>>, ys: Vec<P>, solution: Option<Vec<P>>| #[trigger]
        call_ensures(solve, (rows, ys), solution) ==> match solution {
            Some(c) => solution_of(entries(rows@), ys@) == Some(c@),
            None => solution_of(entries(rows@), ys@) is None,
        }
}

/// With kernels and backends that return one value for each input, a fit
/// returns one outcome for each input: two fits of the same samples over
/// the same basis parameters succeed or fail together, and if they succeed,
/// with the same columns, the same coefficients (those that `solution_of`
/// gives for the design matrix) and the same value at every sample.
pub proof fn lemma_fit_deterministic<
    P,
    E: Fn(BasisTerm<P>, P) -> P,
    S: FnOnce(Vec<Vec<P>>, Vec<P>) -> Option<Vec<P>>,
    OtherE: Fn(BasisTerm<P>, P) -> P,
    OtherS: FnOnce(Vec<Vec<P>>, Vec<P>) -> Option<Vec<P>>,
>(
    x: Seq<P>,
    y: Seq<P>,
    b_list: Seq<P>,
    poly_deg: usize,
    log_lambdas: Seq<P>,
    eval: E,
    solve: S,
    other_eval: OtherE,
    other_solve: OtherS,
    term_value: spec_fn(BasisTerm<P>, P) -> P,
    solution_of: spec_fn(Seq<Seq<P>>, Seq<P>) -> Option<Seq<P>>,
    step: spec_fn(P, P, P) -> P,
    first: Result<Evaluator<P>, FitError>,
    second: Result<Evaluator<P>, FitError>,
    at: P,
    zero: P,
)
    requires
        computes_term_value(eval, term_value),
        computes_term_value(other_eval, term_value),
        computes_solution(solve, solution_of),
        computes_solution(other_solve, solution_of),
        is_fit(x, y, b_list, poly_deg, log_lambdas, eval, solve, first),
        is_fit(x, y, b_list, poly_deg, log_lambdas, other_eval, other_solve, second),
    ensures
        first is Ok <==> second is Ok,
        first matches Ok(e) ==> Some(e.coeffs()) == solution_of(
            design_matrix(basis_terms(b_list, poly_deg as nat, log_lambdas), x, term_value),
            y,
        ),
        first matches Ok(e1) ==> (second matches Ok(e2) ==> {
            &&& e1.coeffs() == e2.coeffs()
            &&& e1.family()@ == e2.family()@
            &&& e1.value(at, zero, term_value, step) == e2.value(at, zero, term_value, step)
        }),
        first is Err ==> first == second,
{
    let columns = basis_terms(b_list, poly_deg as nat, log_lambdas);
    let (rows1, ys1, s1) = choose|rows: Vec<Vec<P>>, ys: Vec<P>, solution: Option<Vec<P>>|
        {
            &&& is_design(columns, x, eval, rows@)
            &&& ys@ == y
            &&& #[trigger] call_ensures(solve, (rows, ys), solution)
            &&& is_fit_outcome(b_list, poly_deg, log_lambdas, solution, first)
        };
    let (rows2, ys2, s2) = choose|rows: Vec<Vec<P>>, ys: Vec<P>, solution: Option<Vec<P>>|
        {
            &&& is_design(columns, x, other_eval, rows@)
            &&& ys@ == y
            &&& #[trigger] call_ensures(other_solve, (rows, ys), solution)
            &&& is_fit_outcome(b_list, poly_deg, log_lambdas, solution, second)
        };
    lemma_design_is_matrix(columns, x, eval, term_value, rows1@);
    lemma_design_is_matrix(columns, x, other_eval, term_value, rows2@);
}

/// Fits the basis family given by `b_list`, `poly_deg` and `log_lambdas` to
/// the samples `(x[i], y[i])`.
///
/// `eval` gives the value of one basis function at one sample. `solve` is
/// the linear-algebra backend: it takes the design matrix, row by row, and
/// the ordinates, and returns the least-squares coefficients, or `None` if
/// the decomposition fails. It is called exactly once, on the design matrix
/// of the basis for `x` and on a copy of `y`.
pub fn approx_exp_root_log<
    P: Copy,
    E: Fn(BasisTerm<P>, P) -> P,
    S: FnOnce(Vec<Vec<P>>, Vec<P>) -> Option<Vec<P>>,
>(
    x: &[P],
    y: &[P],
    b_list: &[P],
    poly_deg: usize,
    log_lambdas: &[P],
    eval: &E,
    solve: S,
) -> (r: Result<Evaluator<P>, FitError>)
    requires
        b_list@.len() + poly_deg + 1 + log_lambdas@.len() <= usize::MAX,
        forall|c: int, i: int|
            0 <= c < basis_terms(b_list@, poly_deg as nat, log_lambdas@).len() && 0 <= i
                < x@.len() ==> call_requires(
                *eval,
                (
                    #[trigger] basis_terms(b_list@, poly_deg as nat, log_lambdas@)[c],
                    #[trigger] x@[i],
                ),
            ),
        forall|rows: Vec<Vec<P>>, ys: Vec<P>|
            is_design(basis_terms(b_list@, poly_deg as nat, log_lambdas@), x@, *eval, rows@)
                && ys@ == y@ ==> call_requires(solve, (rows, ys)),
    ensures
        is_fit(x@, y@, b_list@, poly_deg, log_lambdas@, *eval, solve, r),
{
    let basis: Basis<P> = Basis::assemble(
        slice_to_vec(b_list),
        poly_deg,
        slice_to_vec(log_lambdas),
    );
    let rows: Vec<Vec<P>> = basis.design_rows(x, eval);
    let ys: Vec<P> = slice_to_vec(y);
    let solution: Option<Vec<P>> = solve(rows, ys);
    proof {
        basis.lemma_shape();
    }
    Evaluator::bind(basis, solution)
}

} // verus!
