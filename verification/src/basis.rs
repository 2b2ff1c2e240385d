//! A basis family: its parameters, its columns, and the rows it generates.

use vstd::prelude::*;
use crate::term::{basis_terms, lemma_basis_terms_index, BasisTerm};

verus! {

/// The parameters of a basis family: the scales of the exponential-root
/// terms, the degree of the polynomial part, and the scales of the
/// logarithmic terms.
///
/// The view of a basis is the sequence of its columns. A basis always has
/// at least one column, the constant `x^0`, and its number of columns
/// always fits in `usize`.
#[derive(Debug)]
pub struct Basis<P> {
    b_list: Vec<P>,
    poly_deg: usize,
    log_lambdas: Vec<P>,
}

/// Whether `row` holds, column by column, a value that `eval` may give for
/// that column's basis function at the sample `x`.
pub open spec fn is_row<P, F: Fn(BasisTerm<P>, P) -> P>(
    columns: Seq<BasisTerm<P>>,
    x: P,
    eval: F,
    row: Seq<P>,
) -> bool {
    &&& row.len() == columns.len()
    &&& forall|c: int|
        0 <= c < columns.len() ==> call_ensures(eval, (columns[c], x), #[trigger] row[c])
}

/// Whether `rows` is a design matrix of `columns` for the samples `xs`:
/// one row per sample, in the samples' order.
pub open spec fn is_design<P, F: Fn(BasisTerm<P>, P) -> P>(
    columns: Seq<BasisTerm<P>>,
    xs: Seq<P>,
    eval: F,
    rows: Seq<Vec<P>>,
) -> bool {
    &&& rows.len() == xs.len()
    &&& forall|i: int| 0 <= i < xs.len() ==> is_row(columns, xs[i], eval, (#[trigger] rows[i])@)
}

/// The values of `columns` at the sample `x`, where `term_value` is the
/// value of a basis function at a sample.
pub open spec fn row_values<P>(
    columns: Seq<BasisTerm<P>>,
    x: P,
    term_value: spec_fn(BasisTerm<P>, P) -> P,
) -> Seq<P> {
    Seq::new(columns.len(), |c: int| term_value(columns[c], x))
}

/// The design matrix of `columns` for the samples `xs`: row `i` holds the
/// values of the columns at `xs[i]`.
pub open spec fn design_matrix<P>(
    columns: Seq<BasisTerm<P>>,
    xs: Seq<P>,
    term_value: spec_fn(BasisTerm<P>, P) -> P,
) -> Seq<Seq<P>> {
    Seq::new(xs.len(), |i: int| row_values(columns, xs[i], term_value))
}

/// The entries of a matrix that is held row by row.
pub open spec fn entries<P>(rows: Seq<Vec<P>>) -> Seq<Seq<P>> {
    Seq::new(rows.len(), |i: int| rows[i]@)
}

/// Whether the kernel `eval` computes the function `term_value`: whatever
/// it returns for a basis function and a sample is that function's value.
pub open spec fn computes_term_value<P, E: Fn(BasisTerm<P>, P) -> P>(
    eval: E,
    term_value: spec_fn(BasisTerm<P>, P) -> P,
) -> bool {
    forall|t: BasisTerm<P>, x: P, v: P| #[trigger]
        call_ensures(eval, (t, x), v) ==> v == term_value(t, x)
}

/// With a kernel that computes `term_value`, the row that the kernel may
/// give for a sample is the row of the columns' values.
pub proof fn lemma_row_is_values<P, E: Fn(BasisTerm<P>, P) -> P>(
    columns: Seq<BasisTerm<P>>,
    x: P,
    eval: E,
    term_value: spec_fn(BasisTerm<P>, P) -> P,
    row: Seq<P>,
)
    requires
        computes_term_value(eval, term_value),
        is_row(columns, x, eval, row),
    ensures
        row == row_values(columns, x, term_value),
{
    assert forall|c: int| 0 <= c < columns.len() implies #[trigger] row[c] == term_value(
        columns[c],
        x,
    ) by {
    }
    assert(row =~= row_values(columns, x, term_value));
}

/// With a kernel that computes `term_value`, the rows that the kernel may
/// give for the samples are the rows of the design matrix.
pub proof fn lemma_design_is_matrix<P, E: Fn(BasisTerm<P>, P) -> P>(
    columns: Seq<BasisTerm<P>>,
    xs: Seq<P>,
    eval: E,
    term_value: spec_fn(BasisTerm<P>, P) -> P,
    rows: Seq<Vec<P>>,
)
    requires
        computes_term_value(eval, term_value),
        is_design(columns, xs, eval, rows),
    ensures
        entries(rows) == design_matrix(columns, xs, term_value),
{
    assert forall|i: int| 0 <= i < xs.len() implies #[trigger] entries(rows)[i] == design_matrix(
        columns,
        xs,
        term_value,
    )[i] by {
        lemma_row_is_values(columns, xs[i], eval, term_value, rows[i]@);
    }
    assert(entries(rows) =~= design_matrix(columns, xs, term_value));
}

impl<P> View for Basis<P> {
    type V = Seq<BasisTerm<P>>;

    open spec fn view(&self) -> Seq<BasisTerm<P>> {
        basis_terms(self.exp_scales(), self.degree(), self.log_scales())
    }
}

impl<P> Basis<P> {
    #[verifier::type_invariant]
    spec fn columns_fit(self) -> bool {
        self.b_list@.len() + self.poly_deg + 1 + self.log_lambdas@.len() <= usize::MAX
    }

    /// The scales of the exponential-root terms, in column order.
    pub closed spec fn exp_scales(&self) -> Seq<P> {
        self.b_list@
    }

    /// The degree of the polynomial part.
    pub closed spec fn degree(&self) -> nat {
        self.poly_deg as nat
    }

    /// The scales of the logarithmic terms, in column order.
    pub closed spec fn log_scales(&self) -> Seq<P> {
        self.log_lambdas@
    }

    /// A polynomial degree is a `usize`, and the view has as many columns as
    /// the three groups hold together.
    pub proof fn lemma_shape(&self)
        ensures
            self.degree() <= usize::MAX,
            self@.len() == self.exp_scales().len() + self.degree() + 1 + self.log_scales().len(),
            self@.len() >= 1,
    {
    }

    /// A basis without scales and of degree 0 has one column, the constant
    /// `x^0`.
    pub proof fn lemma_constant_basis(&self)
        requires
            self.exp_scales().len() == 0,
            self.degree() == 0,
            self.log_scales().len() == 0,
        ensures
            self@ == seq![BasisTerm::<P>::Power(0)],
    {
        assert(self@ =~= seq![BasisTerm::<P>::Power(0)]);
    }

    /// Makes the basis with the given parameters, whose columns a `usize`
    /// can count.
    pub(crate) fn assemble(b_list: Vec<P>, poly_deg: usize, log_lambdas: Vec<P>) -> (basis: Self)
        requires
            b_list@.len() + poly_deg + 1 + log_lambdas@.len() <= usize::MAX,
        ensures
            basis.exp_scales() == b_list@,
            basis.degree() == poly_deg,
            basis.log_scales() == log_lambdas@,
    {
        Basis { b_list, poly_deg, log_lambdas }
    }

    /// Makes the basis with the given parameters, unless it would have more
    /// columns than a `usize` can count.
    pub fn new(b_list: Vec<P>, poly_deg: usize, log_lambdas: Vec<P>) -> (r: Option<Self>)
        ensures
            r is Some <==> b_list@.len() + poly_deg + 1 + log_lambdas@.len() <= usize::MAX,
            r matches Some(basis) ==> basis.exp_scales() == b_list@ && basis.degree() == poly_deg
                && basis.log_scales() == log_lambdas@,
    {
        let powers: usize = match poly_deg.checked_add(1) {
            Some(n) => n,
            None => {
                return None;
            },
        };
        let left: usize = match b_list.len().checked_add(powers) {
            Some(n) => n,
            None => {
                return None;
            },
        };
        match left.checked_add(log_lambdas.len()) {
            Some(_) => Some(Basis::assemble(b_list, poly_deg, log_lambdas)),
            None => None,
        }
    }

    /// The number of columns.
    pub fn width(&self) -> (w: usize)
        ensures
            w == self@.len(),
            w == self.exp_scales().len() + self.degree() + 1 + self.log_scales().len(),
    {
        proof {
            use_type_invariant(self);
        }
        self.b_list.len() + self.poly_deg + 1 + self.log_lambdas.len()
    }

    /// The scales of the exponential-root terms, in column order.
    pub fn b_list(&self) -> (b: &Vec<P>)
        ensures
            b@ == self.exp_scales(),
    {
        &self.b_list
    }

    /// The degree of the polynomial part.
    pub fn poly_deg(&self) -> (d: usize)
        ensures
            d == self.degree(),
    {
        self.poly_deg
    }

    /// The scales of the logarithmic terms, in column order.
    pub fn log_lambdas(&self) -> (l: &Vec<P>)
        ensures
            l@ == self.log_scales(),
    {
        &self.log_lambdas
    }

    /// The basis function in column `col`.
    pub(crate) fn column(&self, col: usize) -> (t: BasisTerm<P>) where P: Copy
        requires
            col < self@.len(),
        ensures
            t == self@[col as int],
    {
        proof {
            use_type_invariant(self);
            lemma_basis_terms_index(
                self.exp_scales(),
                self.degree(),
                self.log_scales(),
                col as int,
            );
        }
        let n_exp: usize = self.b_list.len();
        if col < n_exp {
            BasisTerm::ExpRoot(self.b_list[col])
        } else if col - n_exp <= self.poly_deg {
            BasisTerm::Power(col - n_exp)
        } else {
            BasisTerm::Log(self.log_lambdas[col - n_exp - self.poly_deg - 1])
        }
    }

    /// The basis function in column `col`, if the basis has such a column.
    pub fn term_at(&self, col: usize) -> (r: Option<BasisTerm<P>>) where P: Copy
        ensures
            r == if col < self@.len() {
                Some(self@[col as int])
            } else {
                None
            },
    {
        if col < self.width() {
            Some(self.column(col))
        } else {
            None
        }
    }

    /// All columns, left to right.
    pub fn terms(&self) -> (r: Vec<BasisTerm<P>>) where P: Copy
        ensures
            r@ == self@,
    {
        let w: usize = self.width();
        let mut out: Vec<BasisTerm<P>> = Vec::new();
        let mut col: usize = 0;
        while col < w
            invariant
                w == self@.len(),
                col <= w,
                out@ == self@.subrange(0, col as int),
            decreases w - col,
        {
            out.push(self.column(col));
            col = col + 1;
        }
        out
    }

    /// The values of all columns at the sample `x`: one row of the design
    /// matrix. `eval` computes the value of one basis function at one sample.
    pub fn row<F: Fn(BasisTerm<P>, P) -> P>(&self, x: P, eval: &F) -> (r: Vec<P>) where P: Copy
        requires
            forall|c: int| 0 <= c < self@.len() ==> call_requires(*eval, (#[trigger] self@[c], x)),
        ensures
            is_row(self@, x, *eval, r@),
    {
        let w: usize = self.width();
        let mut out: Vec<P> = Vec::new();
        let mut col: usize = 0;
        while col < w
            invariant
                w == self@.len(),
                col <= w,
                out@.len() == col,
                forall|c: int|
                    0 <= c < self@.len() ==> call_requires(*eval, (#[trigger] self@[c], x)),
                forall|c: int|
                    0 <= c < col ==> call_ensures(*eval, (self@[c], x), #[trigger] out@[c]),
            decreases w - col,
        {
            out.push(eval(self.column(col), x));
            col = col + 1;
        }
        out
    }

    /// The design matrix for the samples `xs`, row by row: entry `c` of row
    /// `i` is the value of column `c` at `xs[i]`.
    pub fn design_rows<F: Fn(BasisTerm<P>, P) -> P>(&self, xs: &[P], eval: &F) -> (rows: Vec<
        Vec<P>,
    >) where P: Copy
        requires
            forall|c: int, i: int|
                0 <= c < self@.len() && 0 <= i < xs@.len() ==> call_requires(
                    *eval,
                    (#[trigger] self@[c], #[trigger] xs@[i]),
                ),
        ensures
            is_design(self@, xs@, *eval, rows@),
    {
        let n: usize = xs.len();
        let mut rows: Vec<Vec<P>> = Vec::new();
        let mut i: usize = 0;
        while i < n
            invariant
                n == xs@.len(),
                i <= n,
                rows@.len() == i,
                forall|c: int, k: int|
                    0 <= c < self@.len() && 0 <= k < xs@.len() ==> call_requires(
                        *eval,
                        (#[trigger] self@[c], #[trigger] xs@[k]),
                    ),
                forall|k: int|
                    0 <= k < i ==> is_row(self@, xs@[k], *eval, (#[trigger] rows@[k])@),
            decreases n - i,
        {
            let r: Vec<P> = self.row(xs[i], eval);
            rows.push(r);
            i = i + 1;
        }
        rows
    }
}

} // verus!
