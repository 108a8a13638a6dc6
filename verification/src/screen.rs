//! Grid position labels for a set of monitors.
//!
//! Monitors are grouped into rows by vertical overlap and ordered left to
//! right within each row; each monitor then gets a label such as
//! `"top-left"`, `"right"` or `"row0-col3"`.
use vstd::prelude::*;
use crate::text::{decimal_of, owned, push_decimal, push_str_chars};

verus! {

/// The screen rectangle of one monitor, in pixels.
#[derive(Debug, Clone, PartialEq, Eq)]
pub struct MonitorGeometry {
    pub name: String,
    pub x: isize,
    pub y: isize,
    pub width: isize,
    pub height: isize,
}

/// Two vertical spans overlap by more than half of the shorter one.
pub open spec fn spans_overlap(y1: int, h1: int, y2: int, h2: int) -> bool {
    let top = if y1 >= y2 { y1 } else { y2 };
    let bottom = if y1 + h1 <= y2 + h2 { y1 + h1 } else { y2 + h2 };
    let overlap = if bottom - top >= 0 { bottom - top } else { 0 };
    let shorter = if h1 <= h2 { h1 } else { h2 };
    let min_height = if shorter >= 1 { shorter } else { 1 };
    overlap * 2 > min_height
}

/// Check if two vertical spans overlap by more than 50% of the shorter one.
pub fn vertical_overlap(y1: isize, h1: isize, y2: isize, h2: isize) -> (r: bool)
    ensures
        r == spans_overlap(y1 as int, h1 as int, y2 as int, h2 as int),
{
    let (a, ah, b, bh) = (y1 as i128, h1 as i128, y2 as i128, h2 as i128);
    let top = if a >= b { a } else { b };
    let bottom = if a + ah <= b + bh { a + ah } else { b + bh };
    let overlap = if bottom - top >= 0 { bottom - top } else { 0 };
    let shorter = if ah <= bh { ah } else { bh };
    let min_height = if shorter >= 1 { shorter } else { 1 };
    overlap * 2 > min_height
}

/// The row part of a label: only grids of two or three rows name their rows.
pub open spec fn row_word(row: int, num_rows: int) -> Option<Seq<char>> {
    if num_rows == 2 {
        Some(if row == 0 { "top"@ } else { "bottom"@ })
    } else if num_rows == 3 {
        Some(if row == 0 { "top"@ } else if row == 1 { "middle"@ } else { "bottom"@ })
    } else {
        None
    }
}

/// The column part of a label, for a row spanning `span` columns.
pub open spec fn col_word(col: int, span: int) -> Option<Seq<char>> {
    if span == 2 {
        Some(if col == 0 { "left"@ } else { "right"@ })
    } else if span == 3 {
        Some(if col == 0 { "left"@ } else if col == 1 { "center"@ } else { "right"@ })
    } else {
        None
    }
}

/// The label of the monitor at (`row`, `col`) in a grid of `num_rows` rows
/// and at most `num_cols` columns, whose row holds `cols_in_row` monitors.
pub open spec fn position_text(row: int, col: int, num_rows: int, num_cols: int, cols_in_row: int) -> Seq<char> {
    if num_rows == 1 && num_cols == 1 {
        "sole"@
    } else {
        let span = if cols_in_row >= num_cols { cols_in_row } else { num_cols };
        match (row_word(row, num_rows), col_word(col, span)) {
            (Some(r), Some(c)) => r + "-"@ + c,
            (Some(r), None) => r,
            (None, Some(c)) => c,
            (None, None) => "row"@ + decimal_of(row as nat) + "-col"@ + decimal_of(col as nat),
        }
    }
}

fn row_word_exec(row: usize, num_rows: usize) -> (r: Option<&'static str>)
    ensures
        match r {
            Some(s) => row_word(row as int, num_rows as int) == Some(s@),
            None => row_word(row as int, num_rows as int) is None,
        },
{
    if num_rows == 2 {
        Some(if row == 0 { "top" } else { "bottom" })
    } else if num_rows == 3 {
        Some(if row == 0 { "top" } else if row == 1 { "middle" } else { "bottom" })
    } else {
        None
    }
}

fn col_word_exec(col: usize, span: usize) -> (r: Option<&'static str>)
    ensures
        match r {
            Some(s) => col_word(col as int, span as int) == Some(s@),
            None => col_word(col as int, span as int) is None,
        },
{
    if span == 2 {
        Some(if col == 0 { "left" } else { "right" })
    } else if span == 3 {
        Some(if col == 0 { "left" } else if col == 1 { "center" } else { "right" })
    } else {
        None
    }
}

/// Generate a human-readable position label for a monitor at (row, col)
/// given the total grid dimensions.
pub fn position_label(row: usize, col: usize, num_rows: usize, num_cols: usize, cols_in_row: usize) -> (r: String)
    ensures
        r@ == position_text(row as int, col as int, num_rows as int, num_cols as int, cols_in_row as int),
{
    if num_rows == 1 && num_cols == 1 {
        return owned("sole");
    }
    let span = if cols_in_row >= num_cols { cols_in_row } else { num_cols };
    let rw = row_word_exec(row, num_rows);
    let cw = col_word_exec(col, span);
    let mut out = String::new();
    match (rw, cw) {
        (Some(r), Some(c)) => {
            push_str_chars(&mut out, r);
            push_str_chars(&mut out, "-");
            push_str_chars(&mut out, c);
        },
        (Some(r), None) => {
            push_str_chars(&mut out, r);
        },
        (None, Some(c)) => {
            push_str_chars(&mut out, c);
        },
        (None, None) => {
            push_str_chars(&mut out, "row");
            push_decimal(&mut out, row as u64);
            push_str_chars(&mut out, "-col");
            push_decimal(&mut out, col as u64);
        },
    }
    assert(Seq::<char>::empty() + "row"@ =~= "row"@);
    out
}

/// `a` comes before `b` when ordered by key, ties broken by index: the
/// order that a stable sort by key leaves.
pub open spec fn key_before(keys: Seq<(isize, isize)>, a: int, b: int) -> bool {
    ||| keys[a].0 < keys[b].0
    ||| keys[a].0 == keys[b].0 && keys[a].1 < keys[b].1
    ||| keys[a].0 == keys[b].0 && keys[a].1 == keys[b].1 && a < b
}

/// `order` lists each index of `keys` once, in the order a stable sort by
/// key leaves them.
pub open spec fn is_stable_order(keys: Seq<(isize, isize)>, order: Seq<usize>) -> bool {
    &&& order.len() == keys.len()
    &&& forall|p: int| 0 <= p < order.len() ==> (#[trigger] order[p]) < keys.len()
    &&& forall|j: usize| j < keys.len() ==> #[trigger] order.contains(j)
    &&& forall|p: int, q: int|
        0 <= p < q < order.len() ==> key_before(keys, #[trigger] order[p] as int, #[trigger] order[q] as int)
}

fn key_less(a: (isize, isize), b: (isize, isize)) -> (r: bool)
    ensures
        r == (a.0 < b.0 || (a.0 == b.0 && a.1 < b.1)),
{
    a.0 < b.0 || (a.0 == b.0 && a.1 < b.1)
}

/// The indices of `keys` in the order of a stable sort by key.
fn stable_order(keys: &Vec<(isize, isize)>) -> (r: Vec<usize>)
    ensures
        is_stable_order(keys@, r@),
        r@ == stable_order_of(keys@),
{
    let n = keys.len();
    let mut r: Vec<usize> = Vec::new();
    let mut i: usize = 0;
    while i < n
        invariant
            n == keys@.len(),
            i <= n,
            r@.len() == i,
            forall|p: int| 0 <= p < r@.len() ==> (#[trigger] r@[p]) < i,
            forall|j: usize| j < i ==> #[trigger] r@.contains(j),
            forall|p: int, q: int|
                0 <= p < q < r@.len() ==> key_before(keys@, #[trigger] r@[p] as int, #[trigger] r@[q] as int),
        decreases n - i,
    {
        let ki = keys[i];
        let mut pos: usize = 0;
        let mut found = false;
        while pos < r.len() && !found
            invariant
                pos <= r@.len(),
                r@.len() == i,
                i < n == keys@.len(),
                forall|p: int| 0 <= p < r@.len() ==> (#[trigger] r@[p]) < i,
                ki == keys@[i as int],
                found ==> pos < r@.len() && (ki.0 < keys@[r@[pos as int] as int].0 || (ki.0
                    == keys@[r@[pos as int] as int].0 && ki.1 < keys@[r@[pos as int] as int].1)),
                forall|q: int| 0 <= q < pos && !(found && q == pos) ==> !(ki.0 < keys@[#[trigger] r@[q] as int].0 || (ki.0
                    == keys@[r@[q] as int].0 && ki.1 < keys@[r@[q] as int].1)),
            decreases r@.len() - pos + (if found { 0int } else { 1int }),
        {
            if key_less(ki, keys[r[pos]]) {
                found = true;
            } else {
                pos += 1;
            }
        }
        let ghost old_r = r@;
        r.insert(pos, i);
        proof {
            old_r.insert_ensures(pos as int, i);
            assert forall|p: int| 0 <= p < r@.len() implies (#[trigger] r@[p]) < i + 1 by {
                if p < pos {
                    assert(r@[p] == old_r[p]);
                } else if p > pos {
                    assert(r@[p] == old_r[p - 1]);
                }
            }
            assert forall|j: usize| j < i + 1 implies #[trigger] r@.contains(j) by {
                if j == i {
                    assert(r@[pos as int] == i);
                } else {
                    assert(old_r.contains(j));
                    let w = choose|w: int| 0 <= w < old_r.len() && old_r[w] == j;
                    if w < pos {
                        assert(r@[w] == old_r[w]);
                    } else {
                        assert(r@[w + 1] == old_r[w]);
                    }
                }
            }
            assert forall|p: int, q: int| 0 <= p < q < r@.len() implies key_before(
                keys@,
                #[trigger] r@[p] as int,
                #[trigger] r@[q] as int,
            ) by {
                if q < pos {
                    assert(r@[p] == old_r[p] && r@[q] == old_r[q]);
                } else if q == pos {
                    assert(r@[p] == old_r[p]);
                    assert(old_r[p] < i);
                } else if p > pos {
                    assert(r@[p] == old_r[p - 1] && r@[q] == old_r[q - 1]);
                } else if p == pos {
                    assert(r@[q] == old_r[q - 1]);
                    assert(found);
                    if q - 1 > pos as int {
                        assert(key_before(keys@, old_r[pos as int] as int, old_r[q - 1] as int));
                    }
                } else {
                    assert(r@[p] == old_r[p]);
                    assert(r@[q] == old_r[q - 1]);
                    assert(key_before(keys@, old_r[p] as int, old_r[q - 1] as int));
                }
            }
        }
        i += 1;
    }
    proof {
        assert(is_stable_order(keys@, r@));
        lemma_stable_order_unique(keys@, r@, stable_order_of(keys@));
    }
    r
}

/// The stable order of `keys`; there is exactly one (see
/// `lemma_stable_order_unique`).
pub open spec fn stable_order_of(keys: Seq<(isize, isize)>) -> Seq<usize> {
    choose|o: Seq<usize>| is_stable_order(keys, o)
}

proof fn lemma_stable_prefix(keys: Seq<(isize, isize)>, a: Seq<usize>, b: Seq<usize>, p: int)
    requires
        is_stable_order(keys, a),
        is_stable_order(keys, b),
        0 <= p <= a.len(),
    ensures
        forall|q: int| 0 <= q < p ==> a[q] == b[q],
    decreases p,
{
    if p > 0 {
        lemma_stable_prefix(keys, a, b, p - 1);
        let k = p - 1;
        let x = a[k];
        let y = b[k];
        if x != y {
            assert(a.contains(y));
            assert(b.contains(x));
            let qa = choose|q: int| 0 <= q < a.len() && a[q] == y;
            let qb = choose|q: int| 0 <= q < b.len() && b[q] == x;
            if qa < k {
                assert(a[qa] == b[qa]);
                assert(key_before(keys, b[qa] as int, b[k] as int));
            }
            if qb < k {
                assert(a[qb] == b[qb]);
                assert(key_before(keys, a[qb] as int, a[k] as int));
            }
            assert(key_before(keys, a[k] as int, a[qa] as int));
            assert(key_before(keys, b[k] as int, b[qb] as int));
        }
    }
}

/// A list can be put in stable order in one way only.
pub proof fn lemma_stable_order_unique(keys: Seq<(isize, isize)>, a: Seq<usize>, b: Seq<usize>)
    requires
        is_stable_order(keys, a),
        is_stable_order(keys, b),
    ensures
        a == b,
{
    lemma_stable_prefix(keys, a, b, a.len() as int);
    assert(a =~= b);
}

/// The sort key of each monitor: its top edge, then its left edge.
pub open spec fn position_keys(ms: Seq<MonitorGeometry>) -> Seq<(isize, isize)> {
    Seq::new(ms.len(), |i: int| (ms[i].y, ms[i].x))
}

/// Monitors `a` and `b` overlap vertically by more than half of the
/// shorter one.
pub open spec fn monitors_overlap(ms: Seq<MonitorGeometry>, a: int, b: int) -> bool {
    spans_overlap(ms[a].y as int, ms[a].height as int, ms[b].y as int, ms[b].height as int)
}

/// The first row, from `c` on, whose first monitor overlaps monitor `i`;
/// `rows.len()` if none does.
pub open spec fn first_overlapping_row(ms: Seq<MonitorGeometry>, rows: Seq<Seq<usize>>, i: int, c: int) -> int
    decreases rows.len() - c,
{
    if c >= rows.len() {
        rows.len() as int
    } else if monitors_overlap(ms, i, rows[c][0] as int) {
        c
    } else {
        first_overlapping_row(ms, rows, i, c + 1)
    }
}

/// `rows` after monitor `i` joins the first row it overlaps, or starts a
/// row of its own.
pub open spec fn place_in_rows(ms: Seq<MonitorGeometry>, rows: Seq<Seq<usize>>, i: usize) -> Seq<Seq<usize>> {
    let c = first_overlapping_row(ms, rows, i as int, 0);
    if 0 <= c < rows.len() {
        rows.update(c, rows[c].push(i))
    } else {
        rows.push(seq![i])
    }
}

/// The rows formed by placing the monitors one by one in `order`.
pub open spec fn rows_by_overlap(ms: Seq<MonitorGeometry>, order: Seq<usize>) -> Seq<Seq<usize>>
    decreases order.len(),
{
    if order.len() == 0 {
        Seq::empty()
    } else {
        place_in_rows(ms, rows_by_overlap(ms, order.drop_last()), order.last())
    }
}

/// The least `y`, or with `horizontal` the least `x`, of the monitors in
/// the non-empty `row`.
pub open spec fn row_min(ms: Seq<MonitorGeometry>, row: Seq<usize>, horizontal: bool) -> isize
    decreases row.len(),
{
    let v = if horizontal { ms[row.last() as int].x } else { ms[row.last() as int].y };
    if row.len() <= 1 {
        v
    } else {
        let m = row_min(ms, row.drop_last(), horizontal);
        if v < m { v } else { m }
    }
}

/// Rows are ordered by their top edge, then their left edge.
pub open spec fn row_keys(ms: Seq<MonitorGeometry>, rows: Seq<Seq<usize>>) -> Seq<(isize, isize)> {
    Seq::new(rows.len(), |c: int| (row_min(ms, rows[c], false), row_min(ms, rows[c], true)))
}

/// Monitors within a row are ordered by their left edge.
pub open spec fn column_keys(ms: Seq<MonitorGeometry>, row: Seq<usize>) -> Seq<(isize, isize)> {
    Seq::new(row.len(), |p: int| (ms[row[p] as int].x, 0isize))
}

/// `row` in left-to-right order.
pub open spec fn sorted_row(ms: Seq<MonitorGeometry>, row: Seq<usize>) -> Seq<usize> {
    stable_order_of(column_keys(ms, row)).map_values(|p: usize| row[p as int])
}

/// The grid of monitor indices: rows top to bottom, each left to right.
pub open spec fn monitor_grid(ms: Seq<MonitorGeometry>) -> Seq<Seq<usize>> {
    let rows = rows_by_overlap(ms, stable_order_of(position_keys(ms)));
    let row_order = stable_order_of(row_keys(ms, rows));
    Seq::new(rows.len(), |k: int| sorted_row(ms, rows[row_order[k] as int]))
}

proof fn lemma_first_overlapping_row(ms: Seq<MonitorGeometry>, rows: Seq<Seq<usize>>, i: int, c: int)
    requires
        0 <= c <= rows.len(),
    ensures
        c <= first_overlapping_row(ms, rows, i, c) <= rows.len(),
        first_overlapping_row(ms, rows, i, c) < rows.len() ==> monitors_overlap(
            ms,
            i,
            rows[first_overlapping_row(ms, rows, i, c)][0] as int,
        ),
        forall|d: int|
            c <= d < first_overlapping_row(ms, rows, i, c) ==> !monitors_overlap(
                ms,
                i,
                #[trigger] rows[d][0] as int,
            ),
    decreases rows.len() - c,
{
    if c < rows.len() && !monitors_overlap(ms, i, rows[c][0] as int) {
        lemma_first_overlapping_row(ms, rows, i, c + 1);
    }
}

/// How monitors fall into rows: no row is empty, every monitor after the
/// first in a row overlaps that row's first monitor vertically, and the
/// first monitor of a row overlaps the first monitor of no earlier row.
pub proof fn lemma_rows_by_overlap_shape(ms: Seq<MonitorGeometry>, order: Seq<usize>)
    ensures
        forall|c: int|
            0 <= c < rows_by_overlap(ms, order).len() ==> #[trigger] rows_by_overlap(ms, order)[c].len()
                > 0,
        forall|c: int, p: int|
            0 <= c < rows_by_overlap(ms, order).len() && 1 <= p < rows_by_overlap(ms, order)[c].len()
                ==> monitors_overlap(
                ms,
                #[trigger] rows_by_overlap(ms, order)[c][p] as int,
                rows_by_overlap(ms, order)[c][0] as int,
            ),
        forall|c: int, d: int|
            0 <= c < d < rows_by_overlap(ms, order).len() ==> !monitors_overlap(
                ms,
                #[trigger] rows_by_overlap(ms, order)[d][0] as int,
                #[trigger] rows_by_overlap(ms, order)[c][0] as int,
            ),
    decreases order.len(),
{
    if order.len() > 0 {
        let rows = rows_by_overlap(ms, order.drop_last());
        let i = order.last();
        lemma_rows_by_overlap_shape(ms, order.drop_last());
        lemma_first_overlapping_row(ms, rows, i as int, 0);
        let r = first_overlapping_row(ms, rows, i as int, 0);
        let next = rows_by_overlap(ms, order);
        assert(next == place_in_rows(ms, rows, i));
        if r < rows.len() {
            assert(next == rows.update(r, rows[r].push(i)));
            assert forall|c: int| 0 <= c < next.len() implies next[c][0] == rows[c][0] by {
                if c == r {
                    assert(rows[r].push(i)[0] == rows[r][0]);
                }
            }
            assert forall|c: int, p: int| 0 <= c < next.len() && 1 <= p < next[c].len() implies monitors_overlap(
                ms,
                #[trigger] next[c][p] as int,
                next[c][0] as int,
            ) by {
                if c == r && p == rows[r].len() {
                    assert(next[c][p] == i);
                } else {
                    assert(next[c][p] == rows[c][p]);
                }
            }
        } else {
            assert(next == rows.push(seq![i]));
            assert forall|c: int, d: int| 0 <= c < d < next.len() implies !monitors_overlap(
                ms,
                #[trigger] next[d][0] as int,
                #[trigger] next[c][0] as int,
            ) by {
                if d == rows.len() {
                    assert(next[d][0] == i);
                    assert(next[c] == rows[c]);
                }
            }
        }
    }
}

proof fn lemma_first_overlapping_skip(ms: Seq<MonitorGeometry>, rows: Seq<Seq<usize>>, i: int, k: int, c: int)
    requires
        0 <= k <= c <= rows.len(),
        forall|d: int| k <= d < c ==> !monitors_overlap(ms, i, #[trigger] rows[d][0] as int),
    ensures
        first_overlapping_row(ms, rows, i, k) == first_overlapping_row(ms, rows, i, c),
    decreases c - k,
{
    if k < c {
        lemma_first_overlapping_skip(ms, rows, i, k + 1, c);
    }
}

/// Rows of indices below `n`, none of them empty.
pub open spec fn rows_well_formed(rows: Seq<Seq<usize>>, n: int) -> bool {
    forall|c: int| 0 <= c < rows.len() ==> {
        &&& (#[trigger] rows[c]).len() > 0
        &&& forall|p: int| 0 <= p < rows[c].len() ==> (#[trigger] rows[c][p]) < n
    }
}

proof fn lemma_deep_rows(v: Seq<Vec<usize>>)
    ensures
        forall|j: int| 0 <= j < v.len() ==> (#[trigger] v[j]).deep_view() == v[j]@,
{
    assert forall|j: int| 0 <= j < v.len() implies (#[trigger] v[j]).deep_view() == v[j]@ by {
        assert(v[j].deep_view() =~= v[j]@);
    }
}

/// Groups the monitors, taken in `order`, into rows of overlapping monitors.
fn group_rows(ms: &Vec<MonitorGeometry>, order: &Vec<usize>) -> (r: Vec<Vec<usize>>)
    requires
        forall|p: int| 0 <= p < order@.len() ==> (#[trigger] order@[p]) < ms@.len(),
    ensures
        r.deep_view() == rows_by_overlap(ms@, order@),
        rows_well_formed(r.deep_view(), ms@.len() as int),
{
    let mut rows: Vec<Vec<usize>> = Vec::new();
    let mut t: usize = 0;
    while t < order.len()
        invariant
            t <= order@.len(),
            forall|p: int| 0 <= p < order@.len() ==> (#[trigger] order@[p]) < ms@.len(),
            rows.deep_view() == rows_by_overlap(ms@, order@.take(t as int)),
            rows_well_formed(rows.deep_view(), ms@.len() as int),
        decreases order@.len() - t,
    {
        let i = order[t];
        let ghost before = rows.deep_view();
        let mut c: usize = 0;
        let mut found = false;
        while c < rows.len() && !found
            invariant
                c <= rows@.len(),
                rows.deep_view() == before,
                rows_well_formed(before, ms@.len() as int),
                i < ms@.len(),
                found ==> c < rows@.len() && monitors_overlap(ms@, i as int, before[c as int][0] as int),
                forall|d: int| 0 <= d < c ==> !monitors_overlap(ms@, i as int, #[trigger] before[d][0] as int),
            decreases rows@.len() - c + (if found { 0int } else { 1int }),
        {
            assert(before[c as int] == rows@[c as int]@);
            let first = rows[c][0];
            if vertical_overlap(ms[i].y, ms[i].height, ms[first].y, ms[first].height) {
                found = true;
            } else {
                c += 1;
            }
        }
        proof {
            lemma_first_overlapping_skip(ms@, before, i as int, 0, c as int);
            assert(order@.take(t + 1).drop_last() =~= order@.take(t as int));
            assert(order@.take(t + 1).last() == i);
        }
        let ghost old_rows = rows@;
        proof {
            lemma_deep_rows(old_rows);
        }
        if found {
            let mut row = rows[c].clone();
            assert(row@ =~= before[c as int]);
            row.push(i);
            rows.set(c, row);
            proof {
                lemma_deep_rows(rows@);
                let want = before.update(c as int, before[c as int].push(i));
                assert forall|j: int| 0 <= j < rows@.len() implies rows.deep_view()[j] == want[j] by {
                    if j != c {
                        assert(rows@[j] == old_rows[j]);
                    }
                }
                assert(rows.deep_view() =~= want);
            }
        } else {
            let mut row: Vec<usize> = Vec::new();
            row.push(i);
            rows.push(row);
            proof {
                lemma_deep_rows(rows@);
                let want = before.push(seq![i]);
                assert forall|j: int| 0 <= j < rows@.len() implies rows.deep_view()[j] == want[j] by {
                    if j < old_rows.len() {
                        assert(rows@[j] == old_rows[j]);
                    } else {
                        assert(rows@[j]@ =~= seq![i]);
                    }
                }
                assert(rows.deep_view() =~= want);
            }
        }
        t += 1;
    }
    assert(order@.take(order@.len() as int) =~= order@);
    rows
}

/// The least `y` (or, with `horizontal`, `x`) of the monitors in `row`.
fn min_of_row(ms: &Vec<MonitorGeometry>, row: &Vec<usize>, horizontal: bool) -> (r: isize)
    requires
        row@.len() > 0,
        forall|p: int| 0 <= p < row@.len() ==> (#[trigger] row@[p]) < ms@.len(),
    ensures
        r == row_min(ms@, row@, horizontal),
{
    let first = row[0];
    let mut m = if horizontal { ms[first].x } else { ms[first].y };
    assert(row@.take(1).last() == first);
    let mut j: usize = 1;
    while j < row.len()
        invariant
            1 <= j <= row@.len(),
            forall|p: int| 0 <= p < row@.len() ==> (#[trigger] row@[p]) < ms@.len(),
            m == row_min(ms@, row@.take(j as int), horizontal),
        decreases row@.len() - j,
    {
        let k = row[j];
        let v = if horizontal { ms[k].x } else { ms[k].y };
        assert(row@.take(j + 1).drop_last() =~= row@.take(j as int));
        assert(row@.take(j + 1).last() == k);
        if v < m {
            m = v;
        }
        j += 1;
    }
    assert(row@.take(row@.len() as int) =~= row@);
    m
}

/// The monitors of the grid, rows top to bottom, each left to right.
fn build_grid(ms: &Vec<MonitorGeometry>) -> (r: Vec<Vec<usize>>)
    ensures
        r.deep_view() == monitor_grid(ms@),
        rows_well_formed(r.deep_view(), ms@.len() as int),
{
    let n = ms.len();
    let mut keys: Vec<(isize, isize)> = Vec::new();
    let mut i: usize = 0;
    while i < n
        invariant
            n == ms@.len(),
            i <= n,
            keys@ == position_keys(ms@).take(i as int),
        decreases n - i,
    {
        keys.push((ms[i].y, ms[i].x));
        assert(keys@ =~= position_keys(ms@).take(i + 1));
        i += 1;
    }
    assert(keys@ =~= position_keys(ms@));
    let order = stable_order(&keys);
    let rows = group_rows(ms, &order);
    let ghost grows = rows.deep_view();
    let mut rkeys: Vec<(isize, isize)> = Vec::new();
    let mut c: usize = 0;
    while c < rows.len()
        invariant
            c <= rows@.len(),
            grows == rows.deep_view(),
            rows_well_formed(grows, ms@.len() as int),
            rkeys@ == row_keys(ms@, grows).take(c as int),
        decreases rows@.len() - c,
    {
        assert(rows@[c as int]@ == grows[c as int]);
        let lo_y = min_of_row(ms, &rows[c], false);
        let lo_x = min_of_row(ms, &rows[c], true);
        rkeys.push((lo_y, lo_x));
        assert(rkeys@ =~= row_keys(ms@, grows).take(c + 1));
        c += 1;
    }
    assert(rkeys@ =~= row_keys(ms@, grows));
    let row_order = stable_order(&rkeys);
    let mut grid: Vec<Vec<usize>> = Vec::new();
    let mut k: usize = 0;
    while k < row_order.len()
        invariant
            k <= row_order@.len(),
            row_order@ == stable_order_of(row_keys(ms@, grows)),
            is_stable_order(row_keys(ms@, grows), row_order@),
            grows == rows.deep_view(),
            grows == rows_by_overlap(ms@, stable_order_of(position_keys(ms@))),
            rows_well_formed(grows, ms@.len() as int),
            grid@.len() == k,
            forall|q: int| 0 <= q < k ==> (#[trigger] grid@[q])@ == sorted_row(ms@, grows[row_order@[q] as int]),
            rows_well_formed(grid.deep_view(), ms@.len() as int),
        decreases row_order@.len() - k,
    {
        assert(row_order@[k as int] < grows.len());
        let row = &rows[row_order[k]];
        let ghost g = grows[row_order@[k as int] as int];
        assert(row@ == g);
        let mut xkeys: Vec<(isize, isize)> = Vec::new();
        let mut p: usize = 0;
        while p < row.len()
            invariant
                p <= row@.len(),
                row@ == g,
                forall|q: int| 0 <= q < g.len() ==> (#[trigger] g[q]) < ms@.len(),
                xkeys@ == column_keys(ms@, g).take(p as int),
            decreases row@.len() - p,
        {
            xkeys.push((ms[row[p]].x, 0isize));
            assert(xkeys@ =~= column_keys(ms@, g).take(p + 1));
            p += 1;
        }
        assert(xkeys@ =~= column_keys(ms@, g));
        let cols = stable_order(&xkeys);
        let mut sorted: Vec<usize> = Vec::new();
        let mut q: usize = 0;
        while q < cols.len()
            invariant
                q <= cols@.len(),
                row@ == g,
                is_stable_order(column_keys(ms@, g), cols@),
                sorted@ == cols@.take(q as int).map_values(|x: usize| g[x as int]),
            decreases cols@.len() - q,
        {
            assert(cols@[q as int] < g.len());
            sorted.push(row[cols[q]]);
            assert(sorted@ =~= cols@.take(q + 1).map_values(|x: usize| g[x as int]));
            q += 1;
        }
        assert(cols@.take(cols@.len() as int) =~= cols@);
        assert(sorted@ == sorted_row(ms@, g));
        assert(sorted@.len() > 0);
        assert forall|x: int| 0 <= x < sorted@.len() implies (#[trigger] sorted@[x]) < ms@.len() by {
            assert(cols@[x] < g.len());
        }
        let ghost old_grid = grid@;
        let ghost old_grid_deep = grid.deep_view();
        proof {
            lemma_deep_rows(old_grid);
        }
        grid.push(sorted);
        proof {
            assert forall|q2: int| 0 <= q2 < k + 1 implies (#[trigger] grid@[q2])@ == sorted_row(
                ms@,
                grows[row_order@[q2] as int],
            ) by {}
            lemma_deep_rows(grid@);
            assert forall|c2: int| 0 <= c2 < grid.deep_view().len() implies {
                &&& (#[trigger] grid.deep_view()[c2]).len() > 0
                &&& forall|p2: int| 0 <= p2 < grid.deep_view()[c2].len() ==> (#[trigger] grid.deep_view()[c2][p2]) < ms@.len()
            } by {
                if c2 < k {
                    assert(grid@[c2] == old_grid[c2]);
                    assert(old_grid_deep[c2] == grid.deep_view()[c2]);
                } else {
                    assert(grid.deep_view()[c2] == sorted@);
                }
            }
        }
        k += 1;
    }
    assert(grid.deep_view() =~= monitor_grid(ms@)) by {
        assert forall|q: int| 0 <= q < grid.deep_view().len() implies grid.deep_view()[q] == monitor_grid(ms@)[q] by {
            assert(grid.deep_view()[q] == grid@[q]@);
        }
    }
    grid
}

/// The first position, from `p` on, holding `i`; `row.len()` if none.
pub open spec fn index_from(row: Seq<usize>, i: usize, p: int) -> int
    decreases row.len() - p,
{
    if p >= row.len() {
        row.len() as int
    } else if row[p] == i {
        p
    } else {
        index_from(row, i, p + 1)
    }
}

/// The first row, from `k` on, holding `i`; `grid.len()` if none.
pub open spec fn row_holding(grid: Seq<Seq<usize>>, i: usize, k: int) -> int
    decreases grid.len() - k,
{
    if k >= grid.len() {
        grid.len() as int
    } else if index_from(grid[k], i, 0) < grid[k].len() {
        k
    } else {
        row_holding(grid, i, k + 1)
    }
}

/// The number of monitors in the longest row.
pub open spec fn widest(grid: Seq<Seq<usize>>) -> int
    decreases grid.len(),
{
    if grid.len() == 0 {
        0
    } else {
        let w = widest(grid.drop_last());
        if grid.last().len() > w { grid.last().len() as int } else { w }
    }
}

/// The label of monitor `i`, from its row and column in the grid.
pub open spec fn monitor_label(ms: Seq<MonitorGeometry>, i: usize) -> Seq<char> {
    let grid = monitor_grid(ms);
    let r = row_holding(grid, i, 0);
    let row = if r < grid.len() { grid[r] } else { Seq::empty() };
    position_text(r, index_from(row, i, 0), grid.len() as int, widest(grid), row.len() as int)
}

proof fn lemma_index_from_skip(row: Seq<usize>, i: usize, p: int, q: int)
    requires
        0 <= p <= q <= row.len(),
        forall|d: int| p <= d < q ==> #[trigger] row[d] != i,
    ensures
        index_from(row, i, p) == index_from(row, i, q),
    decreases q - p,
{
    if p < q {
        lemma_index_from_skip(row, i, p + 1, q);
    }
}

proof fn lemma_row_holding_skip(grid: Seq<Seq<usize>>, i: usize, k: int, q: int)
    requires
        0 <= k <= q <= grid.len(),
        forall|d: int| k <= d < q ==> index_from(#[trigger] grid[d], i, 0) >= grid[d].len(),
    ensures
        row_holding(grid, i, k) == row_holding(grid, i, q),
    decreases q - k,
{
    if k < q {
        lemma_row_holding_skip(grid, i, k + 1, q);
    }
}

fn index_in_row(row: &Vec<usize>, i: usize) -> (r: usize)
    ensures
        r == index_from(row@, i, 0),
{
    let mut p: usize = 0;
    while p < row.len()
        invariant
            p <= row@.len(),
            forall|d: int| 0 <= d < p ==> #[trigger] row@[d] != i,
        decreases row@.len() - p,
    {
        if row[p] == i {
            proof {
                lemma_index_from_skip(row@, i, 0, p as int);
            }
            return p;
        }
        p += 1;
    }
    proof {
        lemma_index_from_skip(row@, i, 0, p as int);
    }
    p
}

/// Compute the grid position label of each monitor.
///
/// Monitors are grouped into rows: taken by their top edge, then left edge,
/// each monitor joins the first row whose first monitor it overlaps
/// vertically by more than half of the shorter one, or starts a new row.
/// Rows are ordered by their top edge, then left edge, and monitors within
/// a row by their left edge. Each monitor is then labelled:
///
/// - 2×2: `"top-left"`, `"top-right"`, `"bottom-left"`, `"bottom-right"`
/// - side-by-side (1 row): `"left"`, `"right"` or `"left"`, `"center"`, `"right"`
/// - stacked (1 col): `"top"`, `"bottom"` or `"top"`, `"middle"`, `"bottom"`
/// - a single monitor: `"sole"`
/// - other: `"row0-col0"`, `"row0-col1"`, etc.
///
/// The result pairs each monitor's name with its label, in input order.
pub fn compute_monitor_positions(monitors: &Vec<MonitorGeometry>) -> (r: Vec<(String, String)>)
    ensures
        r@.len() == monitors@.len(),
        forall|i: int| 0 <= i < r@.len() ==> {
            &&& (#[trigger] r@[i]).0@ == monitors@[i].name@
            &&& r@[i].1@ == monitor_label(monitors@, i as usize)
        },
{
    let grid = build_grid(monitors);
    let ghost g = grid.deep_view();
    proof {
        lemma_deep_rows(grid@);
    }
    let num_rows = grid.len();
    let mut num_cols: usize = 0;
    let mut k: usize = 0;
    while k < grid.len()
        invariant
            k <= grid@.len(),
            g == grid.deep_view(),
            g.len() == grid@.len(),
            forall|j: int| 0 <= j < grid@.len() ==> (#[trigger] grid@[j])@ == g[j],
            num_cols == widest(g.take(k as int)),
        decreases grid@.len() - k,
    {
        assert(g.take(k + 1).drop_last() =~= g.take(k as int));
        assert(g.take(k + 1).last() == grid@[k as int]@);
        if grid[k].len() > num_cols {
            num_cols = grid[k].len();
        }
        k += 1;
    }
    assert(g.take(g.len() as int) =~= g);
    let mut out: Vec<(String, String)> = Vec::new();
    let mut i: usize = 0;
    while i < monitors.len()
        invariant
            i <= monitors@.len(),
            g == grid.deep_view(),
            g == monitor_grid(monitors@),
            g.len() == grid@.len(),
            num_rows == g.len(),
            num_cols == widest(g),
            forall|j: int| 0 <= j < grid@.len() ==> (#[trigger] grid@[j])@ == g[j],
            out@.len() == i,
            forall|j: int| 0 <= j < i ==> {
                &&& (#[trigger] out@[j]).0@ == monitors@[j].name@
                &&& out@[j].1@ == monitor_label(monitors@, j as usize)
            },
        decreases monitors@.len() - i,
    {
        let mut row_idx: usize = 0;
        let mut col_idx: usize = 0;
        let mut found = false;
        while row_idx < grid.len() && !found
            invariant
                row_idx <= grid@.len(),
                g.len() == grid@.len(),
                forall|j: int| 0 <= j < grid@.len() ==> (#[trigger] grid@[j])@ == g[j],
                found ==> row_idx < g.len() && col_idx == index_from(g[row_idx as int], i, 0) && col_idx
                    < g[row_idx as int].len(),
                forall|d: int| 0 <= d < row_idx ==> index_from(#[trigger] g[d], i, 0) >= g[d].len(),
                !found ==> col_idx == 0,
            decreases grid@.len() - row_idx + (if found { 0int } else { 1int }),
        {
            let c = index_in_row(&grid[row_idx], i);
            if c < grid[row_idx].len() {
                col_idx = c;
                found = true;
            } else {
                row_idx += 1;
            }
        }
        proof {
            lemma_row_holding_skip(g, i, 0, row_idx as int);
        }
        let cols_in_row = if found { grid[row_idx].len() } else { 0 };
        if !found {
            assert(index_from(Seq::<usize>::empty(), i, 0) == 0);
        }
        let label = position_label(row_idx, col_idx, num_rows, num_cols, cols_in_row);
        proof {
            let r = row_holding(g, i, 0);
            assert(r == row_idx);
            if found {
                assert(cols_in_row == g[row_idx as int].len());
            } else {
                assert(col_idx == 0);
            }
            assert(label@ == monitor_label(monitors@, i));
        }
        let name = monitors[i].name.clone();
        out.push((name, label));
        i += 1;
    }
    out
}

} // verus!
