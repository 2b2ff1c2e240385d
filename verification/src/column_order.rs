//! What reordering the scales of a basis changes, and what it leaves alone.
//!
//! Reordering the scales reorders the columns of the design matrix, and the
//! solved coefficients with them: a column then holds another basis function
//! and another coefficient. The fitted function is the same, as long as the
//! sum of the weighted values does not depend on the order in which they are
//! added.

use vstd::prelude::*;
use vstd::seq_lib::{commutative_foldl, lemma_fold_left_permutation};
use crate::basis::{
    computes_term_value, design_matrix, is_design, lemma_design_is_matrix, row_values,
};
use crate::evaluator::{weigh, weighted_pairs, weighted_sum, Evaluator, FitError};
use crate::fit::{computes_solution, is_fit, is_fit_outcome};
use crate::permutation::{is_permutation, lemma_permuted_multiset, permuted};
use crate::term::{basis_terms, lemma_basis_terms_index, BasisTerm};

verus! {

/// The reordering of the columns that goes with reordering the
/// exponential-root scales by `pe` and the logarithmic scales by `pl`. The
/// powers stay where they are.
pub open spec fn column_permutation(pe: Seq<int>, degree: nat, pl: Seq<int>) -> Seq<int> {
    pe + Seq::new(degree + 1, |j: int| pe.len() + j) + Seq::new(
        pl.len(),
        |m: int| pe.len() + degree + 1 + pl[m],
    )
}

/// The matrix `m` with the columns of each row in the order that `sigma`
/// gives.
pub open spec fn reordered_columns<P>(m: Seq<Seq<P>>, sigma: Seq<int>) -> Seq<Seq<P>> {
    Seq::new(m.len(), |i: int| permuted(m[i], sigma))
}

/// Whether sums built with `step` do not depend on the order in which the
/// weighted values are taken in.
pub open spec fn order_independent<P>(step: spec_fn(P, P, P) -> P) -> bool {
    forall|acc: P, k1: P, v1: P, k2: P, v2: P| #[trigger]
        step(step(acc, k1, v1), k2, v2) == step(step(acc, k2, v2), k1, v1)
}

/// Whether the coefficients that `solution_of` gives follow the columns:
/// for a matrix with reordered columns it gives the same coefficients, in
/// the columns' new order.
pub open spec fn follows_columns<P>(
    solution_of: spec_fn(Seq<Seq<P>>, Seq<P>) -> Option<Seq<P>>,
) -> bool {
    forall|m: Seq<Seq<P>>, y: Seq<P>, sigma: Seq<int>|
        match solution_of(m, y) {
            Some(c) => is_permutation(sigma, c.len()) ==> #[trigger] solution_of(
                reordered_columns(m, sigma),
                y,
            ) == Some(permuted(c, sigma)),
            None => true,
        }
}

/// Reordering the scales of both groups is a reordering of the columns.
pub proof fn lemma_column_permutation(pe: Seq<int>, degree: nat, pl: Seq<int>)
    requires
        is_permutation(pe, pe.len()),
        is_permutation(pl, pl.len()),
    ensures
        is_permutation(column_permutation(pe, degree, pl), pe.len() + degree + 1 + pl.len()),
{
    let sigma = column_permutation(pe, degree, pl);
    let n = pe.len() + degree + 1 + pl.len();
    assert forall|i: int| 0 <= i < n implies 0 <= #[trigger] sigma[i] < n by {
        if i < pe.len() {
            assert(sigma[i] == pe[i]);
        } else if i <= pe.len() + degree {
            assert(sigma[i] == i);
        } else {
            assert(sigma[i] == pe.len() + degree + 1 + pl[i - pe.len() - degree - 1]);
        }
    }
    assert forall|i: int, j: int| 0 <= i < j < n implies #[trigger] sigma[i]
        != #[trigger] sigma[j] by {
        if i < pe.len() {
            assert(sigma[i] == pe[i]);
        } else if i <= pe.len() + degree {
            assert(sigma[i] == i);
        } else {
            assert(sigma[i] == pe.len() + degree + 1 + pl[i - pe.len() - degree - 1]);
        }
        if j < pe.len() {
            assert(sigma[j] == pe[j]);
        } else if j <= pe.len() + degree {
            assert(sigma[j] == j);
        } else {
            assert(sigma[j] == pe.len() + degree + 1 + pl[j - pe.len() - degree - 1]);
        }
    }
}

/// The columns of a basis with reordered scales are the columns of the
/// basis with the scales as given, in the order that `column_permutation`
/// gives: the same basis functions, each as often.
pub proof fn lemma_reordered_scales<P>(
    exp_scales: Seq<P>,
    degree: nat,
    log_scales: Seq<P>,
    pe: Seq<int>,
    pl: Seq<int>,
)
    requires
        is_permutation(pe, exp_scales.len()),
        is_permutation(pl, log_scales.len()),
        degree <= usize::MAX,
    ensures
        is_permutation(
            column_permutation(pe, degree, pl),
            basis_terms(exp_scales, degree, log_scales).len(),
        ),
        basis_terms(permuted(exp_scales, pe), degree, permuted(log_scales, pl)) == permuted(
            basis_terms(exp_scales, degree, log_scales),
            column_permutation(pe, degree, pl),
        ),
        basis_terms(permuted(exp_scales, pe), degree, permuted(log_scales, pl)).to_multiset()
            == basis_terms(exp_scales, degree, log_scales).to_multiset(),
{
    let sigma = column_permutation(pe, degree, pl);
    let given = basis_terms(exp_scales, degree, log_scales);
    let reordered = basis_terms(permuted(exp_scales, pe), degree, permuted(log_scales, pl));
    let ne = exp_scales.len() as int;
    let d = degree as int;
    lemma_column_permutation(pe, degree, pl);
    assert forall|c: int| 0 <= c < given.len() implies #[trigger] reordered[c]
        == given[sigma[c]] by {
        lemma_basis_terms_index(permuted(exp_scales, pe), degree, permuted(log_scales, pl), c);
        lemma_basis_terms_index(exp_scales, degree, log_scales, sigma[c]);
        if c < ne {
            assert(sigma[c] == pe[c]);
        } else if c <= ne + d {
            assert(sigma[c] == c);
        } else {
            assert(sigma[c] == ne + d + 1 + pl[c - ne - d - 1]);
        }
    }
    assert(reordered =~= permuted(given, sigma));
    lemma_permuted_multiset(given, sigma);
}

/// The design matrix of reordered columns is the design matrix with its
/// columns reordered: each row holds the same values, in the new order.
pub proof fn lemma_reordered_design<P>(
    columns: Seq<BasisTerm<P>>,
    sigma: Seq<int>,
    xs: Seq<P>,
    term_value: spec_fn(BasisTerm<P>, P) -> P,
)
    requires
        is_permutation(sigma, columns.len()),
    ensures
        design_matrix(permuted(columns, sigma), xs, term_value) == reordered_columns(
            design_matrix(columns, xs, term_value),
            sigma,
        ),
{
    assert forall|i: int| 0 <= i < xs.len() implies #[trigger] design_matrix(
        permuted(columns, sigma),
        xs,
        term_value,
    )[i] == reordered_columns(design_matrix(columns, xs, term_value), sigma)[i] by {
        assert(row_values(permuted(columns, sigma), xs[i], term_value) =~= permuted(
            row_values(columns, xs[i], term_value),
            sigma,
        ));
    }
    assert(design_matrix(permuted(columns, sigma), xs, term_value) =~= reordered_columns(
        design_matrix(columns, xs, term_value),
        sigma,
    ));
}

/// Two weighted sums over the same pairs of coefficient and value, in
/// whatever order, are equal, provided the accumulation does not depend on
/// the order.
pub proof fn lemma_weighted_sum_order<P>(
    coeffs: Seq<P>,
    values: Seq<P>,
    other_coeffs: Seq<P>,
    other_values: Seq<P>,
    zero: P,
    step: spec_fn(P, P, P) -> P,
)
    requires
        weighted_pairs(coeffs, values).to_multiset() == weighted_pairs(
            other_coeffs,
            other_values,
        ).to_multiset(),
        order_independent(step),
    ensures
        weighted_sum(coeffs, values, zero, step) == weighted_sum(
            other_coeffs,
            other_values,
            zero,
            step,
        ),
{
    let f = weigh(step);
    assert(commutative_foldl(f)) by {
        assert forall|a: (P, P), b: (P, P), v: P| #[trigger] f(f(v, a), b) == f(f(v, b), a) by {
        }
    }
    lemma_fold_left_permutation(
        weighted_pairs(coeffs, values),
        weighted_pairs(other_coeffs, other_values),
        f,
        zero,
    );
}

/// Reordering the scales of a fitted basis, with each coefficient following
/// its column, changes which coefficient stands in which column and leaves
/// the fitted function as it was, at every `x`.
pub proof fn lemma_reordering_keeps_the_function<P>(
    fitted: Evaluator<P>,
    reordered: Evaluator<P>,
    pe: Seq<int>,
    pl: Seq<int>,
    x: P,
    zero: P,
    term_value: spec_fn(BasisTerm<P>, P) -> P,
    step: spec_fn(P, P, P) -> P,
)
    requires
        fitted.coeffs().len() == fitted.family()@.len(),
        is_permutation(pe, fitted.family().exp_scales().len()),
        is_permutation(pl, fitted.family().log_scales().len()),
        reordered.family().exp_scales() == permuted(fitted.family().exp_scales(), pe),
        reordered.family().degree() == fitted.family().degree(),
        reordered.family().log_scales() == permuted(fitted.family().log_scales(), pl),
        reordered.coeffs() == permuted(
            fitted.coeffs(),
            column_permutation(pe, fitted.family().degree(), pl),
        ),
        order_independent(step),
    ensures
        reordered.family()@ == permuted(
            fitted.family()@,
            column_permutation(pe, fitted.family().degree(), pl),
        ),
        reordered.value(x, zero, term_value, step) == fitted.value(x, zero, term_value, step),
{
    let sigma = column_permutation(pe, fitted.family().degree(), pl);
    let pairs = weighted_pairs(fitted.coeffs(), row_values(fitted.family()@, x, term_value));
    let reordered_pairs = weighted_pairs(
        reordered.coeffs(),
        row_values(reordered.family()@, x, term_value),
    );
    fitted.family().lemma_shape();
    lemma_reordered_scales(
        fitted.family().exp_scales(),
        fitted.family().degree(),
        fitted.family().log_scales(),
        pe,
        pl,
    );
    assert(reordered_pairs =~= permuted(pairs, sigma));
    lemma_permuted_multiset(pairs, sigma);
    lemma_weighted_sum_order(
        reordered.coeffs(),
        row_values(reordered.family()@, x, term_value),
        fitted.coeffs(),
        row_values(fitted.family()@, x, term_value),
        zero,
        step,
    );
}

/// A fit over reordered scales is the same function as the fit over the
/// scales as given, at every `x`: if the one succeeds, so does the other,
/// and their values agree. This holds of kernels and backends that return
/// one value for each input, a backend whose coefficients follow the
/// columns, and sums that do not depend on the order of their terms.
pub proof fn lemma_fit_of_reordered_scales<
    P,
    E: Fn(BasisTerm<P>, P) -> P,
    S: FnOnce(Vec<Vec<P>>, Vec<P>) -> Option<Vec<P>>,
    OtherE: Fn(BasisTerm<P>, P) -> P,
    OtherS: FnOnce(Vec<Vec<P>>, Vec<P>) -> Option<Vec<P>>,
>(
    x: Seq<P>,
    y: Seq<P>,
    b_list: Seq<P>,
    poly_deg: usize,
    log_lambdas: Seq<P>,
    pe: Seq<int>,
    pl: Seq<int>,
    eval: E,
    solve: S,
    other_eval: OtherE,
    other_solve: OtherS,
    term_value: spec_fn(BasisTerm<P>, P) -> P,
    solution_of: spec_fn(Seq<Seq<P>>, Seq<P>) -> Option<Seq<P>>,
    step: spec_fn(P, P, P) -> P,
    fitted: Result<Evaluator<P>, FitError>,
    reordered: Result<Evaluator<P>, FitError>,
    at: P,
    zero: P,
)
    requires
        is_permutation(pe, b_list.len()),
        is_permutation(pl, log_lambdas.len()),
        computes_term_value(eval, term_value),
        computes_term_value(other_eval, term_value),
        computes_solution(solve, solution_of),
        computes_solution(other_solve, solution_of),
        follows_columns(solution_of),
        order_independent(step),
        is_fit(x, y, b_list, poly_deg, log_lambdas, eval, solve, fitted),
        is_fit(
            x,
            y,
            permuted(b_list, pe),
            poly_deg,
            permuted(log_lambdas, pl),
            other_eval,
            other_solve,
            reordered,
        ),
    ensures
        fitted matches Ok(e) ==> (reordered matches Ok(r) && r.value(at, zero, term_value, step)
            == e.value(at, zero, term_value, step)),
{
    let degree = poly_deg as nat;
    let columns = basis_terms(b_list, degree, log_lambdas);
    let other_columns = basis_terms(permuted(b_list, pe), degree, permuted(log_lambdas, pl));
    let sigma = column_permutation(pe, degree, pl);
    let (rows1, ys1, s1) = choose|rows: Vec<Vec<P>>, ys: Vec<P>, solution: Option<Vec<P>>|
        {
            &&& is_design(columns, x, eval, rows@)
            &&& ys@ == y
            &&& #[trigger] call_ensures(solve, (rows, ys), solution)
            &&& is_fit_outcome(b_list, poly_deg, log_lambdas, solution, fitted)
        };
    let (rows2, ys2, s2) = choose|rows: Vec<Vec<P>>, ys: Vec<P>, solution: Option<Vec<P>>|
        {
            &&& is_design(other_columns, x, other_eval, rows@)
            &&& ys@ == y
            &&& #[trigger] call_ensures(other_solve, (rows, ys), solution)
            &&& is_fit_outcome(
                permuted(b_list, pe),
                poly_deg,
                permuted(log_lambdas, pl),
                solution,
                reordered,
            )
        };
    lemma_design_is_matrix(columns, x, eval, term_value, rows1@);
    lemma_design_is_matrix(other_columns, x, other_eval, term_value, rows2@);
    lemma_reordered_scales(b_list, degree, log_lambdas, pe, pl);
    lemma_reordered_design(columns, sigma, x, term_value);
    if fitted is Ok {
        let e = fitted->Ok_0;
        let m = design_matrix(columns, x, term_value);
        // The backend sees the same matrix with its columns reordered, so
        // its coefficients come back in the columns' new order.
        assert(solution_of(m, y) == Some(e.coeffs()));
        assert(solution_of(reordered_columns(m, sigma), y) == Some(permuted(e.coeffs(), sigma)));
        assert(reordered is Ok);
        let r = reordered->Ok_0;
        lemma_reordering_keeps_the_function(e, r, pe, pl, at, zero, term_value, step);
    }
}

} // verus!
