//! Classification of a tensor's stride sequence relative to canonical
//! row-major layout, and the two independent predicates the launch planner
//! derives from it.

use vstd::prelude::*;

verus! {

/// How a stride sequence relates to canonical row-major layout.
///
/// `MildlyPermuted` covers the fast-path-supported permutations: a
/// transpose of the two matrix axes and/or a swap among batch axes.
/// `HighlyPermuted` is any stride pattern outside those, and must be
/// repaired by materializing a contiguous copy before the fast path
/// may touch the operand.
#[derive(Debug, PartialEq, Eq, Clone, Copy, Structural)]
pub enum MatrixLayout {
    Contiguous,
    MildlyPermuted { transposed: bool, batch_swap: bool },
    HighlyPermuted,
}

/// The layout that [`classify`] assigns to a stride sequence.
///
/// With `row` and `col` the strides of the two matrix (innermost) axes:
/// a batch stride below either of them interleaves batch steps inside the
/// matrix, which no supported permutation does; otherwise the matrix is
/// transposed when the column stride outgrows the row stride, and batch
/// axes are swapped when some stride grows from an axis to the next
/// inner one.
pub open spec fn spec_classify(strides: Seq<usize>) -> MatrixLayout {
    let rank = strides.len() as int;
    if rank <= 1 {
        MatrixLayout::Contiguous
    } else {
        let row = strides[rank - 2];
        let col = strides[rank - 1];
        if exists|i: int| 0 <= i < rank - 2 && (strides[i] < row || strides[i] < col) {
            MatrixLayout::HighlyPermuted
        } else {
            let transposed = row < col;
            let batch_swap = exists|i: int| 0 <= i < rank - 2 && #[trigger] strides[i] < strides[i + 1];
            if transposed || batch_swap {
                MatrixLayout::MildlyPermuted { transposed, batch_swap }
            } else {
                MatrixLayout::Contiguous
            }
        }
    }
}

/// Classify a stride sequence relative to canonical row-major layout.
pub fn classify(strides: &Vec<usize>) -> (r: MatrixLayout)
    ensures
        r == spec_classify(strides@),
{
    let rank = strides.len();
    if rank <= 1 {
        return MatrixLayout::Contiguous;
    }
    let row = strides[rank - 2];
    let col = strides[rank - 1];
    let mut d: usize = 0;
    while d < rank - 2
        invariant
            2 <= rank == strides@.len(),
            d <= rank - 2,
            row == strides@[rank - 2],
            col == strides@[rank - 1],
            forall|i: int| 0 <= i < d ==> #[trigger] strides@[i] >= row && strides@[i] >= col,
        decreases rank - 2 - d,
    {
        let current = strides[d];
        if current < row || current < col {
            return MatrixLayout::HighlyPermuted;
        }
        d = d + 1;
    }
    let transposed = row < col;
    let mut batch_swap = false;
    let mut j: usize = 0;
    while j < rank - 2
        invariant
            2 <= rank == strides@.len(),
            j <= rank - 2,
            batch_swap == exists|i: int| 0 <= i < j && #[trigger] strides@[i] < strides@[i + 1],
        decreases rank - 2 - j,
    {
        if strides[j] < strides[j + 1] {
            assert(strides@[j as int] < strides@[j as int + 1]);
            batch_swap = true;
        }
        j = j + 1;
    }
    if transposed || batch_swap {
        MatrixLayout::MildlyPermuted { transposed, batch_swap }
    } else {
        MatrixLayout::Contiguous
    }
}

/// True exactly on layouts the fast path cannot consume directly: only a
/// highly permuted operand is replaced by a contiguous copy.
pub fn needs_normalization(layout: MatrixLayout) -> (r: bool)
    ensures
        r == (layout is HighlyPermuted),
{
    match layout {
        MatrixLayout::Contiguous => false,
        MatrixLayout::MildlyPermuted { transposed: _, batch_swap: _ } => false,
        MatrixLayout::HighlyPermuted => true,
    }
}

/// The transposition flag of a layout known not to be highly permuted.
pub open spec fn spec_transposed(layout: MatrixLayout) -> bool {
    match layout {
        MatrixLayout::MildlyPermuted { transposed, batch_swap: _ } => transposed,
        _ => false,
    }
}

/// Whether the two matrix axes of the operand are swapped.
///
/// Defined only on layouts already known not to be highly permuted, i.e.
/// after normalization has run; a highly permuted layout carries no
/// meaningful transposition flag.
pub fn is_transposed(layout: MatrixLayout) -> (r: bool)
    requires
        !(layout is HighlyPermuted),
    ensures
        r == spec_transposed(layout),
{
    match layout {
        MatrixLayout::Contiguous => false,
        MatrixLayout::MildlyPermuted { transposed, batch_swap: _ } => transposed,
        MatrixLayout::HighlyPermuted => false,
    }
}

/// Product of the extents of the axes of `shape` from `i` to the end:
/// the canonical row-major stride of an axis is the suffix product of
/// all extents inside it.
pub open spec fn suffix_prod(shape: Seq<usize>, i: int) -> int
    decreases shape.len() - i,
{
    if i < 0 || i >= shape.len() {
        1
    } else {
        shape[i] * suffix_prod(shape, i + 1)
    }
}

/// With every extent at least one, a suffix product is at least one.
pub proof fn lemma_suffix_prod_pos(shape: Seq<usize>, i: int)
    requires
        forall|q: int| 0 <= q < shape.len() ==> shape[q] >= 1,
    ensures
        suffix_prod(shape, i) >= 1,
    decreases (if i < shape.len() { shape.len() - i } else { 0 }),
{
    if 0 <= i < shape.len() {
        lemma_suffix_prod_pos(shape, i + 1);
        assert(shape[i] * suffix_prod(shape, i + 1) >= 1) by (nonlinear_arith)
            requires
                shape[i] >= 1,
                suffix_prod(shape, i + 1) >= 1,
        ;
    }
}

/// With every extent at least one, suffix products only shrink as the
/// suffix shrinks.
pub proof fn lemma_suffix_prod_monotone(shape: Seq<usize>, i: int, j: int)
    requires
        0 <= i <= j,
        forall|q: int| 0 <= q < shape.len() ==> shape[q] >= 1,
    ensures
        suffix_prod(shape, j) <= suffix_prod(shape, i),
    decreases j - i,
{
    if i < j {
        lemma_suffix_prod_monotone(shape, i + 1, j);
        if i < shape.len() {
            lemma_suffix_prod_pos(shape, i + 1);
            assert(shape[i] * suffix_prod(shape, i + 1) >= suffix_prod(shape, i + 1))
                by (nonlinear_arith)
                requires
                    shape[i] >= 1,
                    suffix_prod(shape, i + 1) >= 1,
            ;
        }
    }
}

/// The canonical row-major strides of `shape`: the innermost axis has
/// stride one and every other axis strides over the full extent of the
/// axes inside it. Exact whenever the element count of `shape` fits the
/// machine word.
pub open spec fn spec_contiguous_strides(shape: Seq<usize>) -> Seq<usize> {
    Seq::new(shape.len(), |i: int| suffix_prod(shape, i + 1) as usize)
}

/// Compute the canonical row-major strides of `shape`.
pub fn contiguous_strides(shape: &Vec<usize>) -> (r: Vec<usize>)
    requires
        forall|q: int| 0 <= q < shape@.len() ==> shape@[q] >= 1,
        suffix_prod(shape@, 0) <= usize::MAX,
    ensures
        r@ == spec_contiguous_strides(shape@),
{
    let rank = shape.len();
    let mut r: Vec<usize> = Vec::new();
    let mut prod: usize = 1;
    let mut i: usize = rank;
    // built back to front, then reversed
    while i > 0
        invariant
            rank == shape@.len(),
            i <= rank,
            forall|q: int| 0 <= q < rank ==> shape@[q] >= 1,
            suffix_prod(shape@, 0) <= usize::MAX,
            prod == suffix_prod(shape@, i as int),
            r@.len() == rank - i,
            forall|q: int| 0 <= q < r@.len() ==> r@[q] == suffix_prod(shape@, rank - q as int),
        decreases i,
    {
        i = i - 1;
        r.push(prod);
        proof {
            lemma_suffix_prod_monotone(shape@, 0, i as int);
            lemma_suffix_prod_pos(shape@, i + 1);
            assert(shape@[i as int] * suffix_prod(shape@, i + 1) == suffix_prod(shape@, i as int));
            assert(prod as int * shape@[i as int] as int == suffix_prod(shape@, i as int))
                by (nonlinear_arith)
                requires
                    prod == suffix_prod(shape@, i + 1),
                    suffix_prod(shape@, i as int) == shape@[i as int] * suffix_prod(shape@, i + 1),
            ;
        }
        prod = prod * shape[i];
    }
    let mut out: Vec<usize> = Vec::new();
    let mut q: usize = 0;
    while q < rank
        invariant
            rank == shape@.len(),
            q <= rank,
            r@.len() == rank,
            forall|p: int| 0 <= p < rank ==> r@[p] == suffix_prod(shape@, rank - p),
            out@.len() == q,
            forall|p: int| 0 <= p < q ==> out@[p] == suffix_prod(shape@, p + 1),
        decreases rank - q,
    {
        out.push(r[rank - 1 - q]);
        q = q + 1;
    }
    proof {
        assert forall|p: int| 0 <= p < rank implies out@[p] == spec_contiguous_strides(shape@)[p] by {
            lemma_suffix_prod_monotone(shape@, 0, p + 1);
            lemma_suffix_prod_pos(shape@, p + 1);
        }
        assert(out@ =~= spec_contiguous_strides(shape@));
    }
    out
}

/// Canonical row-major strides always classify as contiguous: they never
/// grow toward inner axes, so no batch stride undercuts the matrix
/// strides, no transposition shows and no batch swap shows.
pub proof fn lemma_contiguous_strides_classify(shape: Seq<usize>)
    requires
        forall|q: int| 0 <= q < shape.len() ==> shape[q] >= 1,
        suffix_prod(shape, 0) <= usize::MAX,
    ensures
        spec_classify(spec_contiguous_strides(shape)) == MatrixLayout::Contiguous,
{
    let strides = spec_contiguous_strides(shape);
    let rank = strides.len() as int;
    if rank <= 1 {
    } else {
        assert forall|i: int| 0 <= i < rank implies #[trigger] strides[i] == suffix_prod(
            shape,
            i + 1,
        ) by {
            lemma_suffix_prod_monotone(shape, 0, i + 1);
            lemma_suffix_prod_pos(shape, i + 1);
        }
        assert forall|i: int| 0 <= i < rank - 1 implies #[trigger] strides[i] >= strides[i + 1] by {
            lemma_suffix_prod_monotone(shape, i + 1, i + 2);
        }
        assert forall|i: int| 0 <= i < rank - 2 implies #[trigger] strides[i] >= strides[rank - 2]
            && strides[i] >= strides[rank - 1] by {
            lemma_strides_chain(strides, i, rank - 2);
            lemma_strides_chain(strides, i, rank - 1);
        }
        assert(spec_classify(strides) == MatrixLayout::Contiguous);
    }
}

/// In a stride sequence that never grows toward inner axes, any outer
/// stride dominates any inner one.
proof fn lemma_strides_chain(strides: Seq<usize>, i: int, j: int)
    requires
        0 <= i <= j < strides.len(),
        forall|q: int| 0 <= q < strides.len() - 1 ==> #[trigger] strides[q] >= strides[q + 1],
    ensures
        strides[i] >= strides[j],
    decreases j - i,
{
    if i < j {
        lemma_strides_chain(strides, i + 1, j);
    }
}

} // verus!
