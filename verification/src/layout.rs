//! Terminal column-layout engine.
//!
//! Given the display widths of a list of items and the width of the
//! terminal, the engine picks the layout with the most columns whose rows
//! all fit inside the terminal.  Items can be assigned to the grid in two
//! fill orders: down columns (column-major) or across rows (row-major).

use vstd::prelude::*;
use vstd::arithmetic::div_mod::lemma_fundamental_div_mod;
use vstd::string::StringSliceAdditionalSpecFns;

verus! {

/// The narrowest a column is allowed to be.
pub const MIN_COL_SIZE: usize = 3;

/// Blank space budgeted after each item when its width is taken from a name.
pub const COL_SEP_LEN: usize = 2;

/// The larger of two integers.
pub open spec fn spec_max(a: int, b: int) -> int {
    if a >= b {
        a
    } else {
        b
    }
}

/// Folds the maximum of `acc` and the items `lens[lo..hi]`.
pub open spec fn seg_fold(lens: Seq<usize>, lo: int, hi: int, acc: int) -> int
    decreases hi - lo,
{
    if lo >= hi {
        acc
    } else {
        seg_fold(lens, lo + 1, hi, spec_max(acc, lens[lo] as int))
    }
}

/// Folds the maximum of `acc` and the items `lens[k]`, `lens[k + c]`,
/// `lens[k + 2c]`, and so on to the end of `lens`.
pub open spec fn stride_fold(lens: Seq<usize>, k: int, c: int, acc: int) -> int
    decreases lens.len() + c - k,
    when 1 <= c && 0 <= k
{
    if k >= lens.len() {
        acc
    } else {
        stride_fold(lens, k + c, c, spec_max(acc, lens[k] as int))
    }
}

/// Index of the first item assigned to column `i` when `n` items fill `c`
/// columns in column-major order.  The first `n % c` columns hold
/// `n / c + 1` items each and the rest hold `n / c`, so excess items are
/// front-loaded into the leftmost columns.
pub open spec fn col_start(n: int, c: int, i: int) -> int {
    let rows = n / c;
    let rem = n % c;
    if i <= rem {
        i * (rows + 1)
    } else {
        rem * (rows + 1) + (i - rem) * rows
    }
}

/// Width of column `i` under column-major fill: the widest item assigned to
/// the column, or `min` when every such item is narrower.
pub open spec fn by_cols_width(min: int, c: int, lens: Seq<usize>, i: int) -> int {
    let n = lens.len() as int;
    seg_fold(lens, col_start(n, c, i), col_start(n, c, i + 1), min)
}

/// Width of column `i` under row-major fill: the widest of
/// `lens[i]`, `lens[i + c]`, `lens[i + 2c]`, ..., or `min` when every such
/// item is narrower.
pub open spec fn by_lines_width(min: int, c: int, lens: Seq<usize>, i: int) -> int {
    stride_fold(lens, i, c, min)
}

/// Width of column `i` under the chosen fill order.
pub open spec fn column_width(by_lines: bool, min: int, c: int, lens: Seq<usize>, i: int) -> int {
    if by_lines {
        by_lines_width(min, c, lens, i)
    } else {
        by_cols_width(min, c, lens, i)
    }
}

/// Sum of the widths of columns `0..i` of a `c`-column layout.
pub open spec fn total_width(by_lines: bool, min: int, c: int, lens: Seq<usize>, i: int) -> int
    decreases i,
{
    if i <= 0 {
        0
    } else {
        total_width(by_lines, min, c, lens, i - 1) + column_width(by_lines, min, c, lens, i - 1)
    }
}

/// Whether a `c`-column layout of `lens` fits in a terminal `term` wide.
pub open spec fn fits(by_lines: bool, term: int, lens: Seq<usize>, c: int) -> bool {
    total_width(by_lines, MIN_COL_SIZE as int, c, lens, c) <= term
}

/// Upper bound on the column counts worth trying: no more columns than
/// minimum-width columns fit in the terminal, and no more than there are
/// items.
pub open spec fn spec_max_cols(term: int, n: int) -> int {
    let bound = term / (MIN_COL_SIZE as int);
    if bound <= n {
        bound
    } else {
        n
    }
}

/// Sum of a sequence of widths.
pub open spec fn sum_seq(s: Seq<usize>) -> int
    decreases s.len(),
{
    if s.len() == 0 {
        0
    } else {
        sum_seq(s.drop_last()) + s.last()
    }
}

/// What the engine promises of the descriptor it returns for the given
/// fill order, terminal width and item widths: for an empty item list, one
/// empty column; otherwise the largest fitting column count up to
/// `spec_max_cols`, with the widths that fill order gives it; and when no
/// candidate fits, the fallback of one minimum-width column.
pub open spec fn layout_post(d: LayoutInfo, by_lines: bool, term: int, lens: Seq<usize>) -> bool {
    let m = spec_max_cols(term, lens.len() as int);
    if lens.len() == 0 {
        d.num_cols == 1 && d.col_width@ =~= Seq::<usize>::empty()
    } else if exists|c: int| 1 <= c <= m && #[trigger] fits(by_lines, term, lens, c) {
        &&& 1 <= d.num_cols <= m
        &&& fits(by_lines, term, lens, d.num_cols as int)
        &&& forall|c: int| d.num_cols < c <= m ==> !#[trigger] fits(by_lines, term, lens, c)
        &&& d.col_width@.len() == d.num_cols
        &&& forall|i: int|
            0 <= i < d.num_cols ==> #[trigger] d.col_width@[i] as int == column_width(
                by_lines,
                MIN_COL_SIZE as int,
                d.num_cols as int,
                lens,
                i,
            )
    } else {
        d.num_cols == 1 && d.col_width@ =~= seq![MIN_COL_SIZE]
    }
}

/// A chosen layout: how many columns to print side by side and how wide
/// each column is.
#[derive(Debug, Clone, PartialEq, Eq)]
pub struct LayoutInfo {
    pub num_cols: usize,
    pub col_width: Vec<usize>,
}

impl LayoutInfo {
    pub fn new(num_cols: usize, col_width: Vec<usize>) -> (r: Self)
        ensures
            r.num_cols == num_cols,
            r.col_width == col_width,
    {
        Self { num_cols, col_width }
    }
}

impl Default for LayoutInfo {
    /// The fallback layout: a single column of the minimum width.
    fn default() -> (d: Self)
        ensures
            d.num_cols == 1,
            d.col_width@ =~= seq![MIN_COL_SIZE],
    {
        let mut col_width: Vec<usize> = Vec::new();
        col_width.push(MIN_COL_SIZE);
        LayoutInfo { num_cols: 1, col_width }
    }
}

/// Computes per-column widths when `lens` fills `num_cols` columns in
/// column-major order: column 0 takes the first run of items, column 1 the
/// next run, and so on, where the first `lens.len() % num_cols` columns
/// take `lens.len() / num_cols + 1` items and the rest one fewer.
pub fn col_widths_by_cols(min_width: usize, num_cols: usize, lens: &[usize]) -> (r: Vec<usize>)
    requires
        1 <= num_cols <= lens@.len(),
    ensures
        r@.len() == num_cols,
        forall|i: int|
            0 <= i < num_cols ==> #[trigger] r@[i] as int == by_cols_width(
                min_width as int,
                num_cols as int,
                lens@,
                i,
            ),
{
    let n = lens.len();
    let num_rows = n / num_cols;
    let rem = n % num_cols;
    let mut r: Vec<usize> = Vec::new();
    let mut start: usize = 0;
    let mut i: usize = 0;
    while i < num_cols
        invariant
            1 <= num_cols <= n,
            n == lens@.len(),
            num_rows as int == n as int / num_cols as int,
            rem as int == n as int % num_cols as int,
            i <= num_cols,
            start as int == col_start(n as int, num_cols as int, i as int),
            r@.len() == i,
            forall|j: int|
                0 <= j < i ==> #[trigger] r@[j] as int == by_cols_width(
                    min_width as int,
                    num_cols as int,
                    lens@,
                    j,
                ),
        decreases num_cols - i,
    {
        proof {
            lemma_col_start_step(n as int, num_cols as int, i as int);
            lemma_col_start_bounds(n as int, num_cols as int, i as int + 1);
        }
        let cnt = if i < rem {
            num_rows + 1
        } else {
            num_rows
        };
        let end = start + cnt;
        let mut acc = min_width;
        let mut k = start;
        while k < end
            invariant
                n == lens@.len(),
                end <= n,
                start <= k <= end,
                seg_fold(lens@, start as int, end as int, min_width as int) == seg_fold(
                    lens@,
                    k as int,
                    end as int,
                    acc as int,
                ),
            decreases end - k,
        {
            let v = lens[k];
            let new_acc = if v > acc {
                v
            } else {
                acc
            };
            proof {
                assert(new_acc as int == spec_max(acc as int, lens@[k as int] as int));
            }
            acc = new_acc;
            k = k + 1;
        }
        r.push(acc);
        start = end;
        i = i + 1;
    }
    r
}

/// Computes per-column widths when `lens` fills `num_cols` columns in
/// row-major order: item 0 goes to column 0, item 1 to column 1, and so
/// on, wrapping to the next row after `num_cols` items.
pub fn col_widths_by_lines(min_width: usize, num_cols: usize, lens: &[usize]) -> (r: Vec<usize>)
    requires
        1 <= num_cols <= lens@.len(),
    ensures
        r@.len() == num_cols,
        forall|i: int|
            0 <= i < num_cols ==> #[trigger] r@[i] as int == by_lines_width(
                min_width as int,
                num_cols as int,
                lens@,
                i,
            ),
{
    let n = lens.len();
    let mut r: Vec<usize> = Vec::new();
    let mut offset: usize = 0;
    while offset < num_cols
        invariant
            1 <= num_cols <= n,
            n == lens@.len(),
            offset <= num_cols,
            r@.len() == offset,
            forall|i: int|
                0 <= i < offset ==> #[trigger] r@[i] as int == by_lines_width(
                    min_width as int,
                    num_cols as int,
                    lens@,
                    i,
                ),
        decreases num_cols - offset,
    {
        let mut acc = min_width;
        let mut k = offset;
        while k < n
            invariant
                1 <= num_cols <= n,
                n == lens@.len(),
                offset < num_cols,
                stride_fold(lens@, offset as int, num_cols as int, min_width as int)
                    == stride_fold(lens@, k as int, num_cols as int, acc as int),
            decreases n - k,
        {
            let v = lens[k];
            let new_acc = if v > acc {
                v
            } else {
                acc
            };
            proof {
                assert(new_acc as int == spec_max(acc as int, lens@[k as int] as int));
                assert(stride_fold(lens@, k as int, num_cols as int, acc as int) == stride_fold(
                    lens@,
                    k as int + num_cols as int,
                    num_cols as int,
                    new_acc as int,
                ));
                if k as int + num_cols as int >= n as int {
                    assert(stride_fold(
                        lens@,
                        k as int + num_cols as int,
                        num_cols as int,
                        new_acc as int,
                    ) == new_acc as int);
                    assert(stride_fold(lens@, n as int, num_cols as int, new_acc as int)
                        == new_acc as int);
                }
            }
            acc = new_acc;
            k = if n - k <= num_cols {
                n
            } else {
                k + num_cols
            };
        }
        r.push(acc);
        offset = offset + 1;
    }
    r
}

/// The gap between the starts of columns `i` and `i + 1` is the number of
/// items column `i` holds: one more than `n / c` for the first `n % c`
/// columns, exactly `n / c` after them.
proof fn lemma_col_start_step(n: int, c: int, i: int)
    requires
        1 <= c <= n,
        0 <= i < c,
    ensures
        col_start(n, c, i + 1) == col_start(n, c, i) + (if i < n % c {
            n / c + 1
        } else {
            n / c
        }),
{
    let rows = n / c;
    let rem = n % c;
    lemma_fundamental_div_mod(n, c);
    if i < rem {
        assert((i + 1) * (rows + 1) == i * (rows + 1) + (rows + 1)) by (nonlinear_arith);
    } else {
        if i == rem {
            assert(col_start(n, c, i) == rem * (rows + 1));
            assert(col_start(n, c, i + 1) == rem * (rows + 1) + 1 * rows);
        } else {
            assert((i + 1 - rem) * rows == (i - rem) * rows + rows) by (nonlinear_arith);
        }
    }
}

/// Column starts are monotone in the column index.
proof fn lemma_col_start_mono(n: int, c: int, i: int, j: int)
    requires
        1 <= c <= n,
        0 <= i <= j <= c,
    ensures
        col_start(n, c, i) <= col_start(n, c, j),
    decreases j - i,
{
    if i < j {
        lemma_col_start_step(n, c, j - 1);
        lemma_col_start_mono(n, c, i, j - 1);
        assert(n / c >= 0) by (nonlinear_arith)
            requires 1 <= c <= n;
    }
}

/// The column after the last ends exactly at `n`: the columns tile the
/// item list.
proof fn lemma_col_start_full(n: int, c: int)
    requires
        1 <= c <= n,
    ensures
        col_start(n, c, c) == n,
{
    let rows = n / c;
    let rem = n % c;
    lemma_fundamental_div_mod(n, c);
    assert(0 <= rem < c) by (nonlinear_arith)
        requires 1 <= c && rem == n % c;
    assert(rem * (rows + 1) + (c - rem) * rows == c * rows + rem) by (nonlinear_arith);
}

/// Every column start lies between the first item and `n`.
proof fn lemma_col_start_bounds(n: int, c: int, i: int)
    requires
        1 <= c <= n,
        0 <= i <= c,
    ensures
        0 <= col_start(n, c, i) <= n,
{
    lemma_col_start_mono(n, c, 0, i);
    lemma_col_start_mono(n, c, i, c);
    lemma_col_start_full(n, c);
}

/// A segment fold never drops below its accumulator.
proof fn lemma_seg_fold_ge_acc(lens: Seq<usize>, lo: int, hi: int, acc: int)
    ensures
        seg_fold(lens, lo, hi, acc) >= acc,
    decreases hi - lo,
{
    if lo < hi {
        lemma_seg_fold_ge_acc(lens, lo + 1, hi, spec_max(acc, lens[lo] as int));
    }
}

/// A strided fold never drops below its accumulator.
proof fn lemma_stride_fold_ge_acc(lens: Seq<usize>, k: int, c: int, acc: int)
    requires
        1 <= c,
        0 <= k,
    ensures
        stride_fold(lens, k, c, acc) >= acc,
    decreases lens.len() + c - k,
{
    if k < lens.len() {
        lemma_stride_fold_ge_acc(lens, k + c, c, spec_max(acc, lens[k] as int));
    }
}

/// Every column is at least `min` wide, under either fill order.
pub proof fn lemma_column_width_ge_min(by_lines: bool, min: int, c: int, lens: Seq<usize>, i: int)
    requires
        1 <= c,
        0 <= i,
    ensures
        column_width(by_lines, min, c, lens, i) >= min,
{
    if by_lines {
        lemma_stride_fold_ge_acc(lens, i, c, min);
    } else {
        let n = lens.len() as int;
        lemma_seg_fold_ge_acc(lens, col_start(n, c, i), col_start(n, c, i + 1), min);
    }
}

/// With a non-negative floor, taking more columns into the sum never
/// shrinks it.
proof fn lemma_total_width_mono(by_lines: bool, min: int, c: int, lens: Seq<usize>, i: int, j: int)
    requires
        0 <= min,
        1 <= c,
        0 <= i <= j,
    ensures
        total_width(by_lines, min, c, lens, i) <= total_width(by_lines, min, c, lens, j),
    decreases j - i,
{
    if i < j {
        lemma_total_width_mono(by_lines, min, c, lens, i, j - 1);
        lemma_column_width_ge_min(by_lines, min, c, lens, j - 1);
    }
}

/// A width vector whose entries are the per-column widths sums, over its
/// first `i` entries, to the layout's total width over `i` columns.
proof fn lemma_sum_matches(
    by_lines: bool,
    min: int,
    c: int,
    lens: Seq<usize>,
    ws: Seq<usize>,
    i: int,
)
    requires
        0 <= i <= ws.len(),
        ws.len() == c,
        forall|j: int| 0 <= j < c ==> #[trigger] ws[j] as int == column_width(by_lines, min, c, lens, j),
    ensures
        sum_seq(ws.take(i)) == total_width(by_lines, min, c, lens, i),
    decreases i,
{
    if i > 0 {
        lemma_sum_matches(by_lines, min, c, lens, ws, i - 1);
        assert(ws.take(i).drop_last() =~= ws.take(i - 1));
        assert(ws.take(i).last() == ws[i - 1]);
    }
}

/// Determines the layout for displaying items of widths `lens` within a
/// terminal `term_cols` wide with the maximal number of columns.
///
/// Candidate column counts from one up to `spec_max_cols` are tried in
/// order and the last fitting one is kept, so the result has the largest
/// fitting column count.  When no candidate fits (even a single column can
/// be too wide), the fallback single minimum-width column is returned, and
/// its total width may exceed the terminal.  An empty `lens` gets a single
/// empty column.
pub fn determine_layout(by_lines: bool, term_cols: usize, lens: &[usize]) -> (r: LayoutInfo)
    ensures
        layout_post(r, by_lines, term_cols as int, lens@),
{
    let n = lens.len();
    if n == 0 {
        return LayoutInfo { num_cols: 1, col_width: Vec::new() };
    }
    let bound = term_cols / MIN_COL_SIZE;
    let max_cols = if bound <= n {
        bound
    } else {
        n
    };
    let mut best_cols: usize = 0;
    let mut best_widths: Vec<usize> = Vec::new();
    let mut c: usize = 1;
    while c <= max_cols
        invariant
            n == lens@.len(),
            1 <= n,
            max_cols as int == spec_max_cols(term_cols as int, n as int),
            max_cols <= n,
            max_cols as int <= term_cols as int / MIN_COL_SIZE as int,
            1 <= c <= max_cols + 1,
            best_cols == 0 ==> forall|k: int|
                1 <= k < c ==> !#[trigger] fits(by_lines, term_cols as int, lens@, k),
            best_cols >= 1 ==> {
                &&& best_cols < c
                &&& fits(by_lines, term_cols as int, lens@, best_cols as int)
                &&& forall|k: int|
                    best_cols < k < c ==> !#[trigger] fits(by_lines, term_cols as int, lens@, k)
                &&& best_widths@.len() == best_cols
                &&& forall|i: int|
                    0 <= i < best_cols ==> #[trigger] best_widths@[i] as int == column_width(
                        by_lines,
                        MIN_COL_SIZE as int,
                        best_cols as int,
                        lens@,
                        i,
                    )
            },
        decreases max_cols + 1 - c,
    {
        let widths = if by_lines {
            col_widths_by_lines(MIN_COL_SIZE, c, lens)
        } else {
            col_widths_by_cols(MIN_COL_SIZE, c, lens)
        };
        let mut total: usize = 0;
        let mut ok = true;
        let mut k: usize = 0;
        while k < c && ok
            invariant
                n == lens@.len(),
                1 <= c <= n,
                k <= c,
                widths@.len() == c,
                forall|i: int|
                    0 <= i < c ==> #[trigger] widths@[i] as int == column_width(
                        by_lines,
                        MIN_COL_SIZE as int,
                        c as int,
                        lens@,
                        i,
                    ),
                ok ==> total as int == total_width(
                    by_lines,
                    MIN_COL_SIZE as int,
                    c as int,
                    lens@,
                    k as int,
                ) && total <= term_cols,
                !ok ==> !fits(by_lines, term_cols as int, lens@, c as int),
            decreases c - k,
        {
            let w = widths[k];
            if w > term_cols - total {
                proof {
                    lemma_total_width_mono(
                        by_lines,
                        MIN_COL_SIZE as int,
                        c as int,
                        lens@,
                        k as int + 1,
                        c as int,
                    );
                }
                ok = false;
            } else {
                total = total + w;
            }
            k = k + 1;
        }
        if ok {
            best_cols = c;
            best_widths = widths;
        }
        c = c + 1;
    }
    if best_cols == 0 {
        LayoutInfo::default()
    } else {
        LayoutInfo { num_cols: best_cols, col_width: best_widths }
    }
}

/// The widths handed to the engine when the items are names: each name's
/// byte length plus the separator allowance.
pub open spec fn padded_lens(names: Seq<&str>) -> Seq<usize> {
    Seq::new(names.len(), |i: int| (names[i].spec_bytes().len() + COL_SEP_LEN) as usize)
}

/// Determines the layout for displaying the given names: each item's width
/// is the name's byte length plus the separator allowance, and the search
/// is the same as `determine_layout`.
pub fn determine_str_layout(by_lines: bool, term_cols: usize, names: &[&str]) -> (r: LayoutInfo)
    requires
        forall|i: int|
            0 <= i < names@.len() ==> #[trigger] names@[i].spec_bytes().len() + COL_SEP_LEN
                <= usize::MAX,
    ensures
        layout_post(r, by_lines, term_cols as int, padded_lens(names@)),
{
    let mut lens: Vec<usize> = Vec::new();
    let mut i: usize = 0;
    while i < names.len()
        invariant
            i <= names@.len(),
            forall|j: int|
                0 <= j < names@.len() ==> #[trigger] names@[j].spec_bytes().len() + COL_SEP_LEN
                    <= usize::MAX,
            lens@.len() == i,
            forall|j: int| 0 <= j < i ==> #[trigger] lens@[j] == padded_lens(names@)[j],
        decreases names@.len() - i,
    {
        let s = names[i];
        lens.push(s.len() + COL_SEP_LEN);
        i = i + 1;
    }
    proof {
        assert(lens@ =~= padded_lens(names@));
    }
    determine_layout(by_lines, term_cols, lens.as_slice())
}

/// Fit law: a descriptor returned because some column count fits — that
/// is, any non-fallback descriptor — has column widths that sum to at
/// most the terminal width.
pub proof fn lemma_layout_fits(d: LayoutInfo, by_lines: bool, term: int, lens: Seq<usize>)
    requires
        layout_post(d, by_lines, term, lens),
        exists|c: int|
            1 <= c <= spec_max_cols(term, lens.len() as int) && #[trigger] fits(
                by_lines,
                term,
                lens,
                c,
            ),
    ensures
        sum_seq(d.col_width@) <= term,
{
    lemma_sum_matches(
        by_lines,
        MIN_COL_SIZE as int,
        d.num_cols as int,
        lens,
        d.col_width@,
        d.num_cols as int,
    );
    assert(d.col_width@.take(d.num_cols as int) =~= d.col_width@);
}

/// Minimum-width law: every column of a returned descriptor is at least
/// `MIN_COL_SIZE` wide.
pub proof fn lemma_layout_min_width(d: LayoutInfo, by_lines: bool, term: int, lens: Seq<usize>)
    requires
        layout_post(d, by_lines, term, lens),
    ensures
        forall|i: int| 0 <= i < d.col_width@.len() ==> #[trigger] d.col_width@[i] >= MIN_COL_SIZE,
{
    let m = spec_max_cols(term, lens.len() as int);
    if lens.len() == 0 {
    } else if exists|c: int| 1 <= c <= m && #[trigger] fits(by_lines, term, lens, c) {
        assert forall|i: int| 0 <= i < d.col_width@.len() implies d.col_width@[i]
            >= MIN_COL_SIZE by {
            lemma_column_width_ge_min(by_lines, MIN_COL_SIZE as int, d.num_cols as int, lens, i);
        }
    } else {
        assert(d.col_width@[0] == MIN_COL_SIZE);
    }
}

/// Maximality law: no column count larger than the returned one, up to the
/// search bound, also fits the terminal.
pub proof fn lemma_layout_maximality(d: LayoutInfo, by_lines: bool, term: int, lens: Seq<usize>)
    requires
        layout_post(d, by_lines, term, lens),
    ensures
        forall|c: int|
            d.num_cols < c <= spec_max_cols(term, lens.len() as int) ==> !#[trigger] fits(
                by_lines,
                term,
                lens,
                c,
            ),
{
}

/// Determinism law: two descriptors the engine's contract allows for the
/// same arguments are the same descriptor.
pub proof fn lemma_layout_deterministic(
    d1: LayoutInfo,
    d2: LayoutInfo,
    by_lines: bool,
    term: int,
    lens: Seq<usize>,
)
    requires
        layout_post(d1, by_lines, term, lens),
        layout_post(d2, by_lines, term, lens),
    ensures
        d1.num_cols == d2.num_cols,
        d1.col_width@ == d2.col_width@,
{
    let m = spec_max_cols(term, lens.len() as int);
    if lens.len() == 0 {
        assert(d1.col_width@ =~= d2.col_width@);
    } else if exists|c: int| 1 <= c <= m && #[trigger] fits(by_lines, term, lens, c) {
        if d1.num_cols < d2.num_cols {
            assert(fits(by_lines, term, lens, d2.num_cols as int));
            assert(false);
        }
        if d2.num_cols < d1.num_cols {
            assert(fits(by_lines, term, lens, d1.num_cols as int));
            assert(false);
        }
        assert(d1.col_width@ =~= d2.col_width@);
    } else {
        assert(d1.col_width@ =~= d2.col_width@);
    }
}

} // verus!
