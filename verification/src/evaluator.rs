//! The fitted function: coefficients bound to the columns of a basis.

use vstd::prelude::*;
use crate::basis::{
    computes_term_value, design_matrix, is_row, lemma_row_is_values, row_values, Basis,
};
use crate::term::BasisTerm;

verus! {

/// Why a fit produced no evaluator.
#[derive(Debug, Clone, Copy, PartialEq, Eq)]
pub enum FitError {
    /// The least-squares solve gave no coefficients for the basis.
    DecompositionFailure,
}

/// A fitted approximation: one coefficient per column of its basis.
/// Immutable once made.
#[derive(Debug)]
pub struct Evaluator<P> {
    basis: Basis<P>,
    coeffs: Vec<P>,
}

/// Whether `sums` are the partial results of accumulating, left to right,
/// each coefficient with the value of its column: `sums[0]` is `start`, and
/// `combine` may give `sums[c + 1]` for `sums[c]`, `coeffs[c]` and
/// `values[c]`.
pub open spec fn is_accumulation<P, C: Fn(P, P, P) -> P>(
    combine: C,
    start: P,
    coeffs: Seq<P>,
    values: Seq<P>,
    sums: Seq<P>,
) -> bool {
    &&& values.len() == coeffs.len()
    &&& sums.len() == coeffs.len() + 1
    &&& sums[0] == start
    &&& forall|c: int|
        0 <= c < coeffs.len() ==> call_ensures(
            combine,
            (sums[c], coeffs[c], #[trigger] values[c]),
            sums[c + 1],
        )
}

/// Whether the kernel `combine` computes the function `step`.
pub open spec fn computes_step<P, C: Fn(P, P, P) -> P>(
    combine: C,
    step: spec_fn(P, P, P) -> P,
) -> bool {
    forall|acc: P, k: P, v: P, next: P| #[trigger]
        call_ensures(combine, (acc, k, v), next) ==> next == step(acc, k, v)
}

/// Each coefficient beside the value that it multiplies.
pub open spec fn weighted_pairs<P>(coeffs: Seq<P>, values: Seq<P>) -> Seq<(P, P)> {
    Seq::new(coeffs.len(), |c: int| (coeffs[c], values[c]))
}

/// `step` as a function of the sum so far and of a coefficient with the
/// value that it multiplies.
pub open spec fn weigh<P>(step: spec_fn(P, P, P) -> P) -> spec_fn(P, (P, P)) -> P {
    |acc: P, cv: (P, P)| step(acc, cv.0, cv.1)
}

/// The sum of the `values`, each weighted with its coefficient, taken in
/// left to right from `zero`.
pub open spec fn weighted_sum<P>(
    coeffs: Seq<P>,
    values: Seq<P>,
    zero: P,
    step: spec_fn(P, P, P) -> P,
) -> P {
    weighted_pairs(coeffs, values).fold_left(zero, weigh(step))
}

/// With a kernel that computes `step`, the partial sums of an accumulation
/// are the weighted sums of the columns taken in so far.
proof fn lemma_partial_sums<P, C: Fn(P, P, P) -> P>(
    combine: C,
    step: spec_fn(P, P, P) -> P,
    zero: P,
    coeffs: Seq<P>,
    values: Seq<P>,
    sums: Seq<P>,
    k: nat,
)
    requires
        computes_step(combine, step),
        is_accumulation(combine, zero, coeffs, values, sums),
        k <= coeffs.len(),
    ensures
        sums[k as int] == weighted_pairs(coeffs, values).take(k as int).fold_left(
            zero,
            weigh(step),
        ),
    decreases k,
{
    let pairs = weighted_pairs(coeffs, values);
    if k > 0 {
        lemma_partial_sums(combine, step, zero, coeffs, values, sums, (k - 1) as nat);
        assert(pairs.take(k as int).drop_last() =~= pairs.take(k - 1));
    }
}

impl<P> Evaluator<P> {
    #[verifier::type_invariant]
    spec fn one_coefficient_per_column(self) -> bool {
        self.coeffs@.len() == self.basis@.len()
    }

    /// The basis whose columns the coefficients weight.
    pub closed spec fn family(&self) -> Basis<P> {
        self.basis
    }

    /// The coefficients, in column order.
    pub closed spec fn coeffs(&self) -> Seq<P> {
        self.coeffs@
    }

    /// The fitted function at `x`, for kernels that compute `term_value`
    /// and `step`: the values of the columns at `x`, each weighted with the
    /// coefficient of its column, summed left to right from `zero`.
    pub open spec fn value(
        &self,
        x: P,
        zero: P,
        term_value: spec_fn(BasisTerm<P>, P) -> P,
        step: spec_fn(P, P, P) -> P,
    ) -> P {
        weighted_sum(self.coeffs(), row_values(self.family()@, x, term_value), zero, step)
    }

    /// Whether `result` is what the two kernels may give for the sample `x`:
    /// the last of a run of partial sums that starts at `zero` and takes in,
    /// column by column, the coefficient and the value of the column's basis
    /// function at `x`.
    pub open spec fn is_evaluation<E: Fn(BasisTerm<P>, P) -> P, C: Fn(P, P, P) -> P>(
        &self,
        x: P,
        zero: P,
        eval: E,
        combine: C,
        result: P,
    ) -> bool {
        exists|values: Seq<P>, sums: Seq<P>|
            #![trigger
                is_row(self.family()@, x, eval, values),
                is_accumulation(combine, zero, self.coeffs(), values, sums),
            ]
            {
                &&& is_row(self.family()@, x, eval, values)
                &&& is_accumulation(combine, zero, self.coeffs(), values, sums)
                &&& result == sums[self.coeffs().len() as int]
            }
    }

    /// Binds what the least-squares solve returned to the columns of
    /// `basis`. The fit fails when the solve gave nothing, or gave another
    /// number of coefficients than the basis has columns.
    pub fn bind(basis: Basis<P>, solution: Option<Vec<P>>) -> (r: Result<Self, FitError>)
        ensures
            r is Ok <==> (solution matches Some(c) && c@.len() == basis@.len()),
            r matches Ok(e) ==> e.family() == basis && (solution matches Some(c) && c@
                == e.coeffs()),
            r matches Err(e) ==> e == FitError::DecompositionFailure,
    {
        match solution {
            Some(coeffs) => {
                if coeffs.len() == basis.width() {
                    Ok(Evaluator { basis, coeffs })
                } else {
                    Err(FitError::DecompositionFailure)
                }
            },
            None => Err(FitError::DecompositionFailure),
        }
    }

    /// The basis whose columns the coefficients weight.
    pub fn basis(&self) -> (b: &Basis<P>)
        ensures
            *b == self.family(),
    {
        &self.basis
    }

    /// The coefficients, in column order: one for each column of the basis.
    pub fn coefficients(&self) -> (c: &Vec<P>)
        ensures
            c@ == self.coeffs(),
            c@.len() == self.family()@.len(),
    {
        proof {
            use_type_invariant(self);
        }
        &self.coeffs
    }

    /// The fitted function at the sample `x`.
    ///
    /// `eval` gives the value of one basis function at `x`; `combine` takes
    /// the sum so far, a coefficient and the value of its column, and gives
    /// the next sum. The columns are taken left to right, starting from
    /// `zero`.
    pub fn evaluate<E: Fn(BasisTerm<P>, P) -> P, C: Fn(P, P, P) -> P>(
        &self,
        x: P,
        zero: P,
        eval: &E,
        combine: &C,
    ) -> (r: P) where P: Copy
        requires
            forall|c: int|
                0 <= c < self.family()@.len() ==> call_requires(
                    *eval,
                    (#[trigger] self.family()@[c], x),
                ),
            forall|acc: P, c: int, v: P|
                0 <= c < self.coeffs().len() ==> #[trigger] call_requires(
                    *combine,
                    (acc, self.coeffs()[c], v),
                ),
        ensures
            self.is_evaluation(x, zero, *eval, *combine, r),
    {
        proof {
            use_type_invariant(self);
        }
        let w: usize = self.coeffs.len();
        let mut acc: P = zero;
        let ghost mut values: Seq<P> = Seq::empty();
        let ghost mut sums: Seq<P> = seq![zero];
        let mut col: usize = 0;
        while col < w
            invariant
                w == self.coeffs().len(),
                w == self.family()@.len(),
                col <= w,
                values.len() == col,
                sums.len() == col + 1,
                sums[0] == zero,
                acc == sums[col as int],
                forall|c: int|
                    0 <= c < self.family()@.len() ==> call_requires(
                        *eval,
                        (#[trigger] self.family()@[c], x),
                    ),
                forall|acc: P, c: int, v: P|
                    0 <= c < self.coeffs().len() ==> #[trigger] call_requires(
                        *combine,
                        (acc, self.coeffs()[c], v),
                    ),
                forall|c: int|
                    0 <= c < col ==> call_ensures(
                        *eval,
                        (self.family()@[c], x),
                        #[trigger] values[c],
                    ),
                forall|c: int|
                    0 <= c < col ==> call_ensures(
                        *combine,
                        (sums[c], self.coeffs()[c], #[trigger] values[c]),
                        sums[c + 1],
                    ),
            decreases w - col,
        {
            let v: P = eval(self.basis.column(col), x);
            let next: P = combine(acc, self.coeffs[col], v);
            proof {
                values = values.push(v);
                sums = sums.push(next);
            }
            acc = next;
            col = col + 1;
        }
        proof {
            assert(is_row(self.family()@, x, *eval, values));
            assert(is_accumulation(*combine, zero, self.coeffs(), values, sums));
        }
        acc
    }

    /// Kernels that compute `term_value` and `step` make every evaluation
    /// return the value of the fitted function.
    pub proof fn lemma_evaluation_is_value<E: Fn(BasisTerm<P>, P) -> P, C: Fn(P, P, P) -> P>(
        &self,
        x: P,
        zero: P,
        eval: E,
        combine: C,
        term_value: spec_fn(BasisTerm<P>, P) -> P,
        step: spec_fn(P, P, P) -> P,
        result: P,
    )
        requires
            computes_term_value(eval, term_value),
            computes_step(combine, step),
            self.is_evaluation(x, zero, eval, combine, result),
        ensures
            result == self.value(x, zero, term_value, step),
    {
        let (values, sums) = choose|values: Seq<P>, sums: Seq<P>|
            #![trigger
                is_row(self.family()@, x, eval, values),
                is_accumulation(combine, zero, self.coeffs(), values, sums),
            ]
            {
                &&& is_row(self.family()@, x, eval, values)
                &&& is_accumulation(combine, zero, self.coeffs(), values, sums)
                &&& result == sums[self.coeffs().len() as int]
            };
        let pairs = weighted_pairs(self.coeffs(), values);
        lemma_row_is_values(self.family()@, x, eval, term_value, values);
        lemma_partial_sums(combine, step, zero, self.coeffs(), values, sums, self.coeffs().len());
        assert(pairs.take(self.coeffs().len() as int) =~= pairs);
    }

    /// With kernels that return one value for each input, an evaluator
    /// returns one value for each sample: two evaluations at the same `x`
    /// agree.
    pub proof fn lemma_evaluation_deterministic<
        E: Fn(BasisTerm<P>, P) -> P,
        C: Fn(P, P, P) -> P,
    >(
        &self,
        x: P,
        zero: P,
        eval: E,
        combine: C,
        term_value: spec_fn(BasisTerm<P>, P) -> P,
        step: spec_fn(P, P, P) -> P,
        first: P,
        second: P,
    )
        requires
            computes_term_value(eval, term_value),
            computes_step(combine, step),
            self.is_evaluation(x, zero, eval, combine, first),
            self.is_evaluation(x, zero, eval, combine, second),
        ensures
            first == second,
    {
        self.lemma_evaluation_is_value(x, zero, eval, combine, term_value, step, first);
        self.lemma_evaluation_is_value(x, zero, eval, combine, term_value, step, second);
    }

    /// The fitted function at a sample is the weighted sum of that sample's
    /// row of the design matrix: each coefficient multiplies, at evaluation,
    /// the basis function whose column it was solved for.
    pub proof fn lemma_value_of_design_row(
        &self,
        xs: Seq<P>,
        i: int,
        zero: P,
        term_value: spec_fn(BasisTerm<P>, P) -> P,
        step: spec_fn(P, P, P) -> P,
    )
        requires
            0 <= i < xs.len(),
        ensures
            self.value(xs[i], zero, term_value, step) == weighted_sum(
                self.coeffs(),
                design_matrix(self.family()@, xs, term_value)[i],
                zero,
                step,
            ),
    {
    }

    /// Over a basis without scales and of degree 0, the fitted function is
    /// its one coefficient times the constant `x^0`.
    pub proof fn lemma_constant_fit(
        &self,
        x: P,
        zero: P,
        term_value: spec_fn(BasisTerm<P>, P) -> P,
        step: spec_fn(P, P, P) -> P,
    )
        requires
            self.family().exp_scales().len() == 0,
            self.family().degree() == 0,
            self.family().log_scales().len() == 0,
            self.coeffs().len() == 1,
        ensures
            self.value(x, zero, term_value, step) == step(
                zero,
                self.coeffs()[0],
                term_value(BasisTerm::Power(0), x),
            ),
    {
        self.family().lemma_constant_basis();
        let pairs = weighted_pairs(
            self.coeffs(),
            row_values(self.family()@, x, term_value),
        );
        assert(pairs.drop_last() =~= Seq::empty());
        reveal_with_fuel(Seq::fold_left, 2);
    }
}

} // verus!
