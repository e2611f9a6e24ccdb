//! Fitting the columns of a table to the width of the terminal: columns start from their
//! minimum (or header) width, the widest give way while the table is too wide, and then the
//! first ones that want more room grow while there is room left.

use vstd::prelude::*;

verus! {

/// The columns between two columns of a table.
pub const TABLE_GAP_WIDTH: usize = 2;

/// What fitting needs to know of a column: its width limits and the display width of its
/// header.
#[derive(Debug, Clone, Copy)]
pub struct ColumnFit {
    pub min_width: usize,
    pub max_width: usize,
    pub header_width: usize,
}

pub open spec fn max_int(a: int, b: int) -> int {
    if a >= b { a } else { b }
}

pub open spec fn min_int(a: int, b: int) -> int {
    if a <= b { a } else { b }
}

/// Widths as integers.
pub open spec fn ints(s: Seq<usize>) -> Seq<int> {
    s.map_values(|x: usize| x as int)
}

pub open spec fn seq_sum(s: Seq<int>) -> int
    decreases s.len(),
{
    if s.len() == 0 { 0 } else { seq_sum(s.drop_last()) + s.last() }
}

/// Changing one entry changes the sum by the difference.
pub proof fn lemma_sum_update(s: Seq<int>, i: int, v: int)
    requires
        0 <= i < s.len(),
    ensures
        seq_sum(s.update(i, v)) == seq_sum(s) - s[i] + v,
    decreases s.len(),
{
    if i < s.len() - 1 {
        lemma_sum_update(s.drop_last(), i, v);
        assert(s.update(i, v).drop_last() =~= s.drop_last().update(i, v));
    } else {
        assert(s.update(i, v).drop_last() =~= s.drop_last());
    }
}

/// A sum of entries no larger than `b` is at most `b` times their number.
proof fn lemma_sum_bounded(s: Seq<int>, b: int)
    requires
        forall|j: int| 0 <= j < s.len() ==> s[j] <= b,
    ensures
        seq_sum(s) <= b * s.len(),
    decreases s.len(),
{
    if s.len() > 0 {
        lemma_sum_bounded(s.drop_last(), b);
        assert(b * s.len() == b * (s.len() - 1) + b) by (nonlinear_arith);
    }
}

/// The width a column starts from: its minimum or its header, whichever is wider, but no
/// more than its maximum (or 4, when the maximum is smaller).
pub open spec fn start_width(c: ColumnFit) -> int {
    min_int(max_int(c.min_width as int, c.header_width as int), max_int(c.max_width as int, 4))
}

pub open spec fn start_widths(cols: Seq<ColumnFit>) -> Seq<int> {
    Seq::new(cols.len(), |i: int| start_width(cols[i]))
}

pub open spec fn max_widths(cols: Seq<ColumnFit>) -> Seq<int> {
    Seq::new(cols.len(), |i: int| cols[i].max_width as int)
}

/// The widest cell of column `i` over the rows; a row without that cell counts as nothing.
pub open spec fn widest_cell(rows: Seq<Seq<usize>>, i: int) -> int
    decreases rows.len(),
{
    if rows.len() == 0 {
        0
    } else {
        let rest = widest_cell(rows.drop_last(), i);
        if 0 <= i < rows.last().len() { max_int(rest, rows.last()[i] as int) } else { rest }
    }
}

/// The width a column would like: room for its header, its minimum and its widest cell, but
/// no more than its maximum.
pub open spec fn desired_width(c: ColumnFit, rows: Seq<Seq<usize>>, i: int) -> int {
    min_int(c.max_width as int, max_int(max_int(c.min_width as int, c.header_width as int), widest_cell(rows, i)))
}

pub open spec fn desired_widths_spec(cols: Seq<ColumnFit>, rows: Seq<Seq<usize>>) -> Seq<int> {
    Seq::new(cols.len(), |i: int| desired_width(cols[i], rows, i))
}

/// The room the `n` columns of a table share on a display: its width less the gaps, but at
/// least 4 per column.
pub open spec fn available_width(n: int, display: int) -> int {
    let gap = TABLE_GAP_WIDTH * (n - 1);
    max_int(if display >= gap { display - gap } else { 0 }, 4 * n)
}

/// Among the first `k` columns, the widest one that is wider than 4 (the last of equally wide
/// ones); -1 when there is none.
pub open spec fn widest_shrinkable(w: Seq<int>, k: int) -> int
    decreases k,
{
    if k <= 0 {
        -1
    } else {
        let prev = widest_shrinkable(w, k - 1);
        if w[k - 1] > 4 && (prev < 0 || w[k - 1] >= w[prev]) { k - 1 } else { prev }
    }
}

pub proof fn lemma_widest_shrinkable(w: Seq<int>, k: int)
    requires
        0 <= k,
    ensures
        -1 <= widest_shrinkable(w, k) < k,
        widest_shrinkable(w, k) >= 0 ==> w[widest_shrinkable(w, k)] > 4,
        widest_shrinkable(w, k) == -1 ==> forall|j: int| 0 <= j < k ==> w[j] <= 4,
    decreases k,
{
    if k > 0 {
        lemma_widest_shrinkable(w, k - 1);
    }
}

/// Narrowing: while the columns take more than `available`, the widest column wider than 4
/// gives up one place.
pub open spec fn shrink(w: Seq<int>, available: int) -> Seq<int>
    decreases seq_sum(w) - available,
{
    let i = widest_shrinkable(w, w.len() as int);
    if seq_sum(w) > available && i >= 0 {
        proof {
            lemma_widest_shrinkable(w, w.len() as int);
            lemma_sum_update(w, i, w[i] - 1);
        }
        shrink(w.update(i, w[i] - 1), available)
    } else {
        w
    }
}

/// From column `k` on, the first column narrower than it would like and than its maximum;
/// -1 when there is none.
pub open spec fn first_growable(w: Seq<int>, d: Seq<int>, m: Seq<int>, k: int) -> int
    decreases w.len() - k,
{
    if k < 0 || k >= w.len() {
        -1
    } else if w[k] < d[k] && w[k] < m[k] {
        k
    } else {
        first_growable(w, d, m, k + 1)
    }
}

pub proof fn lemma_first_growable(w: Seq<int>, d: Seq<int>, m: Seq<int>, k: int)
    requires
        0 <= k,
    ensures
        first_growable(w, d, m, k) == -1 || (k <= first_growable(w, d, m, k) < w.len()
            && w[first_growable(w, d, m, k)] < d[first_growable(w, d, m, k)]
            && w[first_growable(w, d, m, k)] < m[first_growable(w, d, m, k)]),
    decreases w.len() - k,
{
    if k < w.len() && !(w[k] < d[k] && w[k] < m[k]) {
        lemma_first_growable(w, d, m, k + 1);
    }
}

/// Widening: while there is room left, the first column that wants more gets one place.
pub open spec fn grow(w: Seq<int>, d: Seq<int>, m: Seq<int>, available: int) -> Seq<int>
    decreases available - seq_sum(w),
{
    let i = first_growable(w, d, m, 0);
    if seq_sum(w) < available && i >= 0 {
        proof {
            lemma_first_growable(w, d, m, 0);
            lemma_sum_update(w, i, w[i] + 1);
        }
        grow(w.update(i, w[i] + 1), d, m, available)
    } else {
        w
    }
}

/// The widths of the columns of a table with these rows of cell widths on a display of
/// `display` columns.
pub open spec fn fitted_widths(cols: Seq<ColumnFit>, rows: Seq<Seq<usize>>, display: int) -> Seq<int> {
    if cols.len() == 0 {
        Seq::empty()
    } else {
        let available = available_width(cols.len() as int, display);
        grow(shrink(start_widths(cols), available), desired_widths_spec(cols, rows), max_widths(cols), available)
    }
}

pub open spec fn row_views(rows: Seq<Vec<usize>>) -> Seq<Seq<usize>> {
    rows.map_values(|r: Vec<usize>| r@)
}

/// The widest column wider than 4 (the last of equally wide ones).
pub fn widest_shrinkable_column(widths: &Vec<usize>) -> (r: Option<usize>)
    ensures
        match r {
            Some(i) => widest_shrinkable(ints(widths@), widths.len() as int) == i as int,
            None => widest_shrinkable(ints(widths@), widths.len() as int) == -1,
        },
{
    let ghost w = ints(widths@);
    let mut best: Option<usize> = None;
    let mut k: usize = 0;
    while k < widths.len()
        invariant
            k <= widths.len(),
            w == ints(widths@),
            match best {
                Some(b) => widest_shrinkable(w, k as int) == b as int && b < k,
                None => widest_shrinkable(w, k as int) == -1,
            },
        decreases widths.len() - k,
    {
        let take = widths[k] > 4 && match best {
            None => true,
            Some(b) => widths[k] >= widths[b],
        };
        if take {
            best = Some(k);
        }
        k += 1;
    }
    best
}

/// The width each column would like (see `desired_width`).
pub fn desired_widths(columns: &Vec<ColumnFit>, cell_widths: &Vec<Vec<usize>>) -> (r: Vec<usize>)
    ensures
        ints(r@) == desired_widths_spec(columns@, row_views(cell_widths@)),
{
    let ghost rows = row_views(cell_widths@);
    let mut out: Vec<usize> = Vec::new();
    let mut i: usize = 0;
    while i < columns.len()
        invariant
            i <= columns.len(),
            rows == row_views(cell_widths@),
            out@.len() == i,
            forall|j: int| 0 <= j < i ==> out@[j] as int == desired_width(columns@[j], rows, j),
        decreases columns.len() - i,
    {
        let mut widest: usize = 0;
        let mut r: usize = 0;
        while r < cell_widths.len()
            invariant
                r <= cell_widths.len(),
                rows == row_views(cell_widths@),
                widest as int == widest_cell(rows.subrange(0, r as int), i as int),
            decreases cell_widths.len() - r,
        {
            proof {
                assert(rows.subrange(0, r + 1).drop_last() =~= rows.subrange(0, r as int));
                assert(rows.subrange(0, r + 1).last() == cell_widths@[r as int]@);
            }
            let row = &cell_widths[r];
            if i < row.len() && row[i] > widest {
                widest = row[i];
            }
            r += 1;
        }
        assert(rows.subrange(0, cell_widths.len() as int) =~= rows);
        let c = columns[i];
        let base = if c.min_width >= c.header_width { c.min_width } else { c.header_width };
        let want = if base >= widest { base } else { widest };
        out.push(if c.max_width <= want { c.max_width } else { want });
        i += 1;
    }
    assert(ints(out@) =~= desired_widths_spec(columns@, rows));
    out
}

/// The first column narrower than it would like (`desired`) and than its maximum.
fn first_growable_column(widths: &Vec<usize>, desired: &Vec<usize>, columns: &Vec<ColumnFit>) -> (r: Option<usize>)
    requires
        widths.len() == desired.len(),
        widths.len() == columns.len(),
    ensures
        match r {
            Some(i) => first_growable(ints(widths@), ints(desired@), max_widths(columns@), 0) == i as int,
            None => first_growable(ints(widths@), ints(desired@), max_widths(columns@), 0) == -1,
        },
{
    let ghost w = ints(widths@);
    let ghost d = ints(desired@);
    let ghost m = max_widths(columns@);
    let mut k: usize = 0;
    while k < widths.len()
        invariant
            k <= widths.len(),
            widths.len() == desired.len(),
            widths.len() == columns.len(),
            w == ints(widths@),
            d == ints(desired@),
            m == max_widths(columns@),
            first_growable(w, d, m, 0) == first_growable(w, d, m, k as int),
        decreases widths.len() - k,
    {
        if widths[k] < desired[k] && widths[k] < columns[k].max_width {
            return Some(k);
        }
        k += 1;
    }
    None
}

/// The widths of the columns of a table (header and cell widths measured on the terminal) on
/// a display of `display_width` columns. The columns never take more than the room the
/// display leaves them, so the table fits a display that leaves 4 places per column, and
/// none is wider than its maximum (or 4).
pub fn table_widths(columns: &Vec<ColumnFit>, cell_widths: &Vec<Vec<usize>>, display_width: usize) -> (r: Vec<usize>)
    ensures
        ints(r@) == fitted_widths(columns@, row_views(cell_widths@), display_width as int),
        r@.len() == columns@.len(),
        columns@.len() > 0 ==> seq_sum(ints(r@)) <= available_width(columns@.len() as int, display_width as int),
        columns@.len() > 0 && display_width >= 6 * columns@.len() - 2
            ==> seq_sum(ints(r@)) + TABLE_GAP_WIDTH * (columns@.len() - 1) <= display_width,
        forall|i: int| 0 <= i < r@.len() ==> r@[i] <= max_int(columns@[i].max_width as int, 4),
{
    let n = columns.len();
    if n == 0 {
        let empty: Vec<usize> = Vec::new();
        assert(ints(empty@) =~= Seq::<int>::empty());
        return empty;
    }
    let gap: u128 = 2 * (n as u128 - 1);
    let room: u128 = if display_width as u128 >= gap { display_width as u128 - gap } else { 0 };
    let floor: u128 = 4 * n as u128;
    let available: u128 = if room >= floor { room } else { floor };
    assert(available == available_width(n as int, display_width as int));

    let ghost start = start_widths(columns@);
    let mut widths: Vec<usize> = Vec::new();
    let mut total: u128 = 0;
    let mut i: usize = 0;
    while i < n
        invariant
            n == columns.len(),
            i <= n,
            widths@.len() == i,
            start == start_widths(columns@),
            forall|j: int| 0 <= j < i ==> widths@[j] as int == start[j],
            total == seq_sum(ints(widths@)),
            total <= i * 0xFFFF_FFFF_FFFF_FFFFu128,
        decreases n - i,
    {
        let c = columns[i];
        let base = if c.min_width >= c.header_width { c.min_width } else { c.header_width };
        let cap = if c.max_width >= 4 { c.max_width } else { 4 };
        let s = if base <= cap { base } else { cap };
        let ghost before = widths@;
        widths.push(s);
        proof {
            assert(ints(widths@).drop_last() =~= ints(before));
        }
        total = total + s as u128;
        i += 1;
    }
    assert(ints(widths@) =~= start);
    assert forall|j: int| 0 <= j < n implies widths@[j] <= max_int(columns@[j].max_width as int, 4) by {
        assert(widths@[j] as int == start[j]);
    }
    let ghost shrunk = shrink(start, available as int);

    while total > available
        invariant
            widths@.len() == n,
            n == columns.len(),
            n > 0,
            total == seq_sum(ints(widths@)),
            shrink(ints(widths@), available as int) == shrunk,
            available >= 4 * n,
            forall|j: int| 0 <= j < n ==> widths@[j] <= max_int(columns@[j].max_width as int, 4),
        ensures
            ints(widths@) == shrunk,
            total <= available,
        decreases total,
    {
        proof { lemma_widest_shrinkable(ints(widths@), n as int); }
        match widest_shrinkable_column(&widths) {
            None => {
                proof { lemma_sum_bounded(ints(widths@), 4); }
                break;
            },
            Some(k) => {
                let ghost before = ints(widths@);
                let v = widths[k] - 1;
                widths.set(k, v);
                proof {
                    assert(ints(widths@) =~= before.update(k as int, before[k as int] - 1));
                    lemma_sum_update(before, k as int, before[k as int] - 1);
                }
                total = total - 1;
            },
        }
    }

    let desired = desired_widths(columns, cell_widths);
    let ghost d = ints(desired@);
    let ghost m = max_widths(columns@);
    let ghost fitted = grow(shrunk, d, m, available as int);
    assert(d.len() == n);
    while total < available
        invariant
            widths@.len() == n,
            desired@.len() == n,
            n == columns.len(),
            d == ints(desired@),
            m == max_widths(columns@),
            total == seq_sum(ints(widths@)),
            total <= available,
            grow(ints(widths@), d, m, available as int) == fitted,
            forall|j: int| 0 <= j < n ==> widths@[j] <= max_int(columns@[j].max_width as int, 4),
        ensures
            ints(widths@) == fitted,
            total <= available,
        decreases available - total,
    {
        proof { lemma_first_growable(ints(widths@), d, m, 0); }
        match first_growable_column(&widths, &desired, columns) {
            None => {
                break;
            },
            Some(k) => {
                let ghost before = ints(widths@);
                let v = widths[k] + 1;
                widths.set(k, v);
                proof {
                    assert(ints(widths@) =~= before.update(k as int, before[k as int] + 1));
                    lemma_sum_update(before, k as int, before[k as int] + 1);
                }
                total = total + 1;
            },
        }
    }
    widths
}

} // verus!
