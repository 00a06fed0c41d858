//! The calendar-grid renderer and the day-detail renderer: a multi-week
//! transaction calendar with per-day bucketing, overflow aggregation and
//! closing balances, and the detailed listing of one day's transactions.

use crate::account::Account;
use crate::balance::acc_ids;
use crate::balance::acc_ids_from;
use crate::balance::closing_sum;
use crate::balance::get_closing_balance;
use crate::balance::ids_contain;
use crate::balance::point_contribution;
use crate::balance::sum_abs;
use crate::dates::MAX_DAY_NUMBER;
use crate::dates::MIN_DAY_NUMBER;
use crate::dates::day_abbrev;
use crate::dates::day_month_chars;
use crate::dates::day_month_label;
use crate::dates::day_title_chars;
use crate::dates::full_date_chars;
use crate::dates::full_date_label;
use crate::dates::iso_date_chars;
use crate::dates::year_range_chars;
use crate::dates::year_range_label;
use crate::pence_to_pound_utils::lemma_pound_chars_len;
use crate::pence_to_pound_utils::pence_to_pound_colour;
use crate::pence_to_pound_utils::pence_to_pound_colour_bg;
use crate::pence_to_pound_utils::pence_to_pound_transfer;
use crate::pence_to_pound_utils::pound_chars;
use crate::sidebyside::SideBySide;
use crate::sidebyside::line_views;
use crate::sidebyside::pad_to;
use crate::sidebyside::spaces;
use crate::styled::ColouredString;
use crate::styled::Style;
use crate::transaction::Transaction;
use crate::transaction::TransactionV;
use crate::transaction::find_account;
use crate::transaction::tviews;
use vstd::prelude::*;
use vstd::string::StrSliceExecFns;
use vstd::string::StringExecFns;

verus! {

/// The first `l` characters of `s` (all of them when `s` is short enough).
pub open spec fn truncate_chars(s: Seq<char>, l: int) -> Seq<char> {
    if s.len() <= l {
        s
    } else if l < 0 {
        s.subrange(0, 0)
    } else {
        s.subrange(0, l)
    }
}

/// `s` truncated to exactly `l` characters with a two-character ellipsis
/// suffix when it is longer than `l`; `s` unchanged otherwise.
pub open spec fn ellipsis_chars(s: Seq<char>, l: int) -> Seq<char> {
    if s.len() > l {
        truncate_chars(s, l - 2) + seq!['.', '.']
    } else {
        s
    }
}

/// Greedy character packing of `s` into chunks of `l` columns: every chunk
/// full except possibly the last, and an empty input yielding one empty
/// chunk. Not word-aware.
pub open spec fn wrap_chunks(s: Seq<char>, l: int) -> Seq<Seq<char>>
    decreases s.len(),
{
    if l < 1 || s.len() <= l {
        seq![s]
    } else {
        seq![s.subrange(0, l)] + wrap_chunks(s.subrange(l, s.len() as int), l)
    }
}

pub fn truncate(string: String, l: usize) -> (r: String)
    ensures
        r@ == truncate_chars(string@, l as int),
{
    let n = string.as_str().unicode_len();
    if n <= l {
        string
    } else {
        let sub = string.as_str().substring_char(0, l);
        String::from_str(sub)
    }
}

pub fn truncate_ellipsis(string: String, l: usize) -> (r: String)
    requires
        l >= 2,
    ensures
        r@ == ellipsis_chars(string@, l as int),
        r@.len() <= l || string@.len() <= l,
{
    let n = string.as_str().unicode_len();
    if n > l {
        let ghost sv = string@;
        let mut s = truncate(string, l - 2);
        proof {
            reveal_strlit("..");
        }
        s.append("..");
        proof {
            assert(".."@ =~= seq!['.', '.']);
            assert(s@ =~= ellipsis_chars(sv, l as int));
        }
        s
    } else {
        string
    }
}

/// Wraps the string into lines of at most `l` characters by pure character
/// packing.
pub fn wrap(string: String, l: usize) -> (r: Vec<String>)
    requires
        1 <= l,
    ensures
        r@.len() == wrap_chunks(string@, l as int).len(),
        forall|i: int|
            0 <= i < r@.len() ==> (#[trigger] r@[i])@ == wrap_chunks(string@, l as int)[i],
{
    let ghost s0 = string@;
    let mut out: Vec<String> = Vec::new();
    let mut rest = string;
    let mut rest_len = rest.as_str().unicode_len();
    while rest_len > l
        invariant
            1 <= l,
            rest_len == rest@.len(),
            wrap_chunks(s0, l as int).len() == out@.len() + wrap_chunks(rest@, l as int).len(),
            forall|i: int|
                0 <= i < out@.len() ==> (#[trigger] out@[i])@ == wrap_chunks(s0, l as int)[i],
            forall|i: int|
                0 <= i < wrap_chunks(rest@, l as int).len() ==> wrap_chunks(rest@, l as int)[i]
                    == wrap_chunks(s0, l as int)[out@.len() + i],
        decreases rest_len,
    {
        let ghost rv = rest@;
        let ghost out_old = out@;
        let chunk = String::from_str(rest.as_str().substring_char(0, l));
        let tail = String::from_str(rest.as_str().substring_char(l, rest_len));
        out.push(chunk);
        rest = tail;
        rest_len = rest_len - l;
        proof {
            let cv = rv.subrange(0, l as int);
            let tv = rv.subrange(l as int, rv.len() as int);
            assert(wrap_chunks(rv, l as int) == seq![cv] + wrap_chunks(tv, l as int));
            assert(wrap_chunks(rv, l as int)[0] == cv);
            assert(forall|i: int|
                0 <= i < wrap_chunks(tv, l as int).len() ==> wrap_chunks(rv, l as int)[i + 1]
                    == #[trigger] wrap_chunks(tv, l as int)[i]);
            assert(chunk@ == cv);
            assert(rest@ == tv);
            assert(out@ == out_old.push(chunk));
            assert(out@[out_old.len() as int]@ == wrap_chunks(s0, l as int)[out_old.len() as int]);
        }
    }
    let ghost out_old = out@;
    let ghost rv = rest@;
    out.push(rest);
    proof {
        assert(wrap_chunks(rv, l as int) == seq![rv]);
        assert(wrap_chunks(rv, l as int)[0] == rv);
        assert(wrap_chunks(s0, l as int)[out_old.len() as int] == rv);
        assert forall|i: int|
            0 <= i < out@.len() implies (#[trigger] out@[i])@ == wrap_chunks(s0, l as int)[i] by {
            if i < out_old.len() {
                assert(out@[i] == out_old[i]);
            } else {
                assert(out@[i]@ == rv);
            }
        }
    }
    out
}

/// The ghost parameters that place a transaction on the calendar grid: the
/// visible account ids, the linear index of "today", the day number of
/// "today", and the linear index the first displayed cell stands for.
pub struct CellSpace {
    pub ids: Seq<u32>,
    pub today_index: int,
    pub today_days: int,
    pub zero_index: int,
}

/// The linear grid index a transaction's date falls on.
pub open spec fn grid_index(t: TransactionV, space: CellSpace) -> int {
    space.today_index + (t.date - space.today_days) - space.zero_index
}

/// Whether the transaction touches the visible-account set by either leg.
pub open spec fn touches(t: TransactionV, ids: Seq<u32>) -> bool {
    ids.contains(t.account_id_1) || ids.contains(t.account_id_2)
}

/// Whether the transaction belongs in cell `c`.
pub open spec fn in_cell(t: TransactionV, space: CellSpace, c: int) -> bool {
    touches(t, space.ids) && grid_index(t, space) == c
}

/// The positions (in transaction-list order) of the transactions that belong
/// in cell `c`, starting the scan at position `i`.
pub open spec fn cell_indices_from(
    vts: Seq<TransactionV>,
    space: CellSpace,
    c: int,
    i: int,
) -> Seq<int>
    decreases vts.len() - i,
{
    if i < 0 || i >= vts.len() {
        Seq::empty()
    } else if in_cell(vts[i], space, c) {
        seq![i] + cell_indices_from(vts, space, c, i + 1)
    } else {
        cell_indices_from(vts, space, c, i + 1)
    }
}

/// The positions of the transactions bucketed into cell `c`.
pub open spec fn cell_indices(vts: Seq<TransactionV>, space: CellSpace, c: int) -> Seq<int> {
    cell_indices_from(vts, space, c, 0)
}

/// A sequence of positions, as ints.
pub open spec fn usizes_to_ints(s: Seq<usize>) -> Seq<int> {
    s.map_values(|u: usize| u as int)
}

proof fn lemma_cell_indices_from_contains(
    vts: Seq<TransactionV>,
    space: CellSpace,
    c: int,
    i: int,
    j: int,
)
    requires
        0 <= i,
    ensures
        cell_indices_from(vts, space, c, i).contains(j) <==> (i <= j < vts.len() && in_cell(
            vts[j],
            space,
            c,
        )),
    decreases vts.len() - i,
{
    if i < vts.len() {
        lemma_cell_indices_from_contains(vts, space, c, i + 1, j);
        let rest = cell_indices_from(vts, space, c, i + 1);
        if in_cell(vts[i], space, c) {
            let whole = seq![i] + rest;
            assert(cell_indices_from(vts, space, c, i) == whole);
            if whole.contains(j) {
                let k = choose|k: int| 0 <= k < whole.len() && whole[k] == j;
                if k == 0 {
                    assert(whole[0] == i);
                } else {
                    assert(whole[k] == rest[k - 1]);
                    assert(rest.contains(j));
                }
            }
            if i <= j < vts.len() && in_cell(vts[j], space, c) {
                if j == i {
                    assert(whole[0] == j);
                    assert(whole.contains(j));
                } else {
                    assert(rest.contains(j));
                    let k = choose|k: int| 0 <= k < rest.len() && rest[k] == j;
                    assert(whole[k + 1] == j);
                    assert(whole.contains(j));
                }
            }
        }
    }
}

/// Law: bucketing places a transaction in exactly one cell when its grid
/// index lies on the grid, and in no cell otherwise. Position `j` of the
/// transaction list appears in the bucket of cell `c` exactly when the
/// transaction touches the visible set and its grid index equals `c`; since
/// the grid index is a function of the transaction, no position can appear in
/// two different buckets.
pub proof fn lemma_bucket_exactly_one(vts: Seq<TransactionV>, space: CellSpace, j: int)
    ensures
        forall|c: int|
            #[trigger] cell_indices(vts, space, c).contains(j) <==> (0 <= j < vts.len()
                && in_cell(vts[j], space, c)),
        forall|c1: int, c2: int|
            #[trigger] cell_indices(vts, space, c1).contains(j) && #[trigger] cell_indices(
                vts,
                space,
                c2,
            ).contains(j) ==> c1 == c2,
{
    assert forall|c: int| #[trigger]
        cell_indices(vts, space, c).contains(j) <==> (0 <= j < vts.len() && in_cell(
            vts[j],
            space,
            c,
        )) by {
        lemma_cell_indices_from_contains(vts, space, c, 0, j);
    }
}

/// The signed sum, over the selected positions, of each transaction's
/// point contribution to the visible set (amount in if leg A is visible,
/// amount back out if leg B is visible).
pub open spec fn selection_sum(vts: Seq<TransactionV>, idxs: Seq<int>, ids: Seq<u32>) -> int
    decreases idxs.len(),
{
    if idxs.len() == 0 {
        0
    } else {
        selection_sum(vts, idxs.drop_last(), ids) + point_contribution(
            vts[idxs.last()],
            ids,
        )
    }
}

/// A selection over strictly increasing positions below `n` is bounded by
/// twice the magnitude sum of the first `n` transactions.
pub proof fn lemma_selection_sum_bound(
    vts: Seq<TransactionV>,
    idxs: Seq<int>,
    ids: Seq<u32>,
    n: int,
)
    requires
        n <= vts.len(),
        forall|a: int, b: int| 0 <= a < b < idxs.len() ==> idxs[a] < idxs[b],
        forall|a: int| 0 <= a < idxs.len() ==> 0 <= #[trigger] idxs[a] < n,
    ensures
        -2 * sum_abs(vts.subrange(0, n)) <= selection_sum(vts, idxs, ids) <= 2 * sum_abs(
            vts.subrange(0, n),
        ),
    decreases idxs.len(),
{
    crate::balance::lemma_sum_abs_nonneg(vts.subrange(0, n));
    if idxs.len() > 0 {
        let k = idxs.last();
        assert(forall|a: int|
            0 <= a < idxs.drop_last().len() ==> 0 <= #[trigger] idxs.drop_last()[a] < k);
        lemma_selection_sum_bound(vts, idxs.drop_last(), ids, k);
        assert(vts.subrange(0, k + 1).drop_last() =~= vts.subrange(0, k));
        assert(vts.subrange(0, k + 1).last() == vts[k]);
        assert(vts.subrange(0, n).subrange(0, k + 1) =~= vts.subrange(0, k + 1));
        crate::balance::lemma_sum_abs_prefix(vts.subrange(0, n), k + 1);
    }
}

/// The summed amount of the overflowed part of a cell: positions
/// `cell[from..]`, each adding its amount if leg A is visible and
/// subtracting it if leg B is visible.
pub fn overflow_amount(
    transactions: &Vec<Transaction>,
    accs: &Vec<u32>,
    cell: &Vec<usize>,
    from: usize,
) -> (r: i64)
    requires
        from <= cell@.len(),
        forall|j: int| 0 <= j < cell@.len() ==> (#[trigger] cell@[j]) < transactions@.len(),
        forall|a: int, b: int| 0 <= a < b < cell@.len() ==> cell@[a] < cell@[b],
        2 * sum_abs(tviews(transactions@)) <= i64::MAX,
    ensures
        r as int == selection_sum(
            tviews(transactions@),
            usizes_to_ints(cell@).subrange(from as int, cell@.len() as int),
            accs@,
        ),
{
    let ghost vts = tviews(transactions@);
    let ghost all = usizes_to_ints(cell@);
    let n = cell.len();
    let mut sum: i64 = 0;
    let mut j: usize = from;
    while j < n
        invariant
            from <= j <= n,
            n == cell@.len(),
            vts == tviews(transactions@),
            all == usizes_to_ints(cell@),
            forall|a: int| 0 <= a < cell@.len() ==> (#[trigger] cell@[a]) < vts.len(),
            forall|a: int, b: int| 0 <= a < b < cell@.len() ==> cell@[a] < cell@[b],
            2 * sum_abs(vts) <= i64::MAX,
            sum as int == selection_sum(vts, all.subrange(from as int, j as int), accs@),
        decreases n - j,
    {
        let k = cell[j];
        proof {
            let prefix = all.subrange(from as int, j as int);
            let prefix1 = all.subrange(from as int, j + 1);
            assert(prefix1.drop_last() =~= prefix);
            assert(prefix1.last() == k as int);
            lemma_selection_sum_bound(vts, prefix, accs@, k as int);
            lemma_selection_sum_bound(vts, prefix1, accs@, k + 1);
            assert(vts.subrange(0, k + 1).drop_last() =~= vts.subrange(0, k as int));
            crate::balance::lemma_sum_abs_prefix(vts, k + 1);
            crate::balance::lemma_sum_abs_prefix(vts, k as int);
        }
        let t = &transactions[k];
        if ids_contain(accs, t.account_id_1()) {
            sum = sum + t.amount();
        }
        if ids_contain(accs, t.account_id_2()) {
            sum = sum - t.amount();
        }
        j = j + 1;
    }
    sum
}

/// Buckets the transactions into `cell_count` grid cells: cell `c` receives,
/// in list order, exactly the positions of the transactions that touch the
/// visible set and whose date maps to grid index `c`.
pub fn bucket_transactions(
    transactions: &Vec<Transaction>,
    accs: &Vec<u32>,
    cell_count: usize,
    today_index: i64,
    today_days: i64,
    zero_index: i64,
) -> (r: Vec<Vec<usize>>)
    requires
        -0x1000_0000 <= today_index <= 0x1000_0000,
        -0x1000_0000 <= zero_index <= 0x1000_0000,
        crate::dates::MIN_DAY_NUMBER <= today_days <= crate::dates::MAX_DAY_NUMBER,
        forall|i: int|
            0 <= i < transactions@.len() ==> crate::dates::MIN_DAY_NUMBER <= (#[trigger] tviews(
                transactions@,
            )[i]).date <= crate::dates::MAX_DAY_NUMBER,
        cell_count <= 0x1000_0000,
    ensures
        r@.len() == cell_count,
        forall|c: int|
            0 <= c < cell_count ==> usizes_to_ints(#[trigger] r@[c]@) == cell_indices(
                tviews(transactions@),
                CellSpace {
                    ids: accs@,
                    today_index: today_index as int,
                    today_days: today_days as int,
                    zero_index: zero_index as int,
                },
                c,
            ),
{
    let ghost vts = tviews(transactions@);
    let ghost space = CellSpace {
        ids: accs@,
        today_index: today_index as int,
        today_days: today_days as int,
        zero_index: zero_index as int,
    };
    let n = transactions.len();
    let mut cells: Vec<Vec<usize>> = Vec::new();
    let mut c: usize = 0;
    while c < cell_count
        invariant
            c <= cell_count,
            cells@.len() == c,
            n == transactions@.len(),
            vts == tviews(transactions@),
            space == (CellSpace {
                ids: accs@,
                today_index: today_index as int,
                today_days: today_days as int,
                zero_index: zero_index as int,
            }),
            -0x1000_0000 <= today_index <= 0x1000_0000,
            -0x1000_0000 <= zero_index <= 0x1000_0000,
            crate::dates::MIN_DAY_NUMBER <= today_days <= crate::dates::MAX_DAY_NUMBER,
            forall|i: int|
                0 <= i < vts.len() ==> crate::dates::MIN_DAY_NUMBER <= (#[trigger] vts[i]).date
                    <= crate::dates::MAX_DAY_NUMBER,
            cell_count <= 0x1000_0000,
            forall|k: int|
                0 <= k < c ==> usizes_to_ints(#[trigger] cells@[k]@) == cell_indices(
                    vts,
                    space,
                    k,
                ),
        decreases cell_count - c,
    {
        let mut cell: Vec<usize> = Vec::new();
        let mut i: usize = 0;
        while i < n
            invariant
                i <= n,
                c < cell_count,
                n == transactions@.len(),
                vts == tviews(transactions@),
                space == (CellSpace {
                    ids: accs@,
                    today_index: today_index as int,
                    today_days: today_days as int,
                    zero_index: zero_index as int,
                }),
                -0x1000_0000 <= today_index <= 0x1000_0000,
                -0x1000_0000 <= zero_index <= 0x1000_0000,
                crate::dates::MIN_DAY_NUMBER <= today_days <= crate::dates::MAX_DAY_NUMBER,
                forall|k: int|
                    0 <= k < vts.len() ==> crate::dates::MIN_DAY_NUMBER <= (#[trigger] vts[k]).date
                        <= crate::dates::MAX_DAY_NUMBER,
                cell_count <= 0x1000_0000,
                cell_indices(vts, space, c as int) == usizes_to_ints(cell@)
                    + cell_indices_from(vts, space, c as int, i as int),
            decreases n - i,
        {
            let t = &transactions[i];
            let diff = t.date() - today_days;
            let idx = today_index + diff - zero_index;
            let ghost cell_old = cell@;
            if idx == c as i64 && (ids_contain(accs, t.account_id_1()) || ids_contain(
                accs,
                t.account_id_2(),
            )) {
                cell.push(i);
            }
            proof {
                assert(vts[i as int] == transactions@[i as int]@);
                if in_cell(vts[i as int], space, c as int) {
                    assert(cell@ == cell_old.push(i));
                    assert(usizes_to_ints(cell@) =~= usizes_to_ints(cell_old) + seq![i as int]);
                    assert(cell_indices_from(vts, space, c as int, i as int) == seq![i as int]
                        + cell_indices_from(vts, space, c as int, i + 1));
                    assert(usizes_to_ints(cell@) + cell_indices_from(vts, space, c as int, i + 1)
                        =~= usizes_to_ints(cell_old) + cell_indices_from(
                        vts,
                        space,
                        c as int,
                        i as int,
                    ));
                } else {
                    assert(cell_indices_from(vts, space, c as int, i as int)
                        == cell_indices_from(vts, space, c as int, i + 1));
                }
            }
            i = i + 1;
        }
        proof {
            assert(cell_indices_from(vts, space, c as int, n as int) =~= Seq::<int>::empty());
            assert(usizes_to_ints(cell@) + Seq::<int>::empty() =~= usizes_to_ints(cell@));
        }
        cells.push(cell);
        c = c + 1;
    }
    cells
}

/// A run of `n` dashes (empty when `n` is negative).
pub open spec fn dashes(n: int) -> Seq<char> {
    Seq::new(if n < 0 { 0 } else { n as nat }, |i: int| '-')
}

/// `s` padded with spaces to `target` columns (unchanged when already long
/// enough).
pub open spec fn pad_chars(s: Seq<char>, target: int) -> Seq<char> {
    s + spaces(target - s.len())
}

/// The view-level parameters of one calendar rendering.
pub struct CalendarParams {
    pub day_width: int,
    pub weeks: int,
    pub max_per_day: int,
    pub sign: bool,
    pub brackets: bool,
    pub space: CellSpace,
}

/// The total width of the calendar grid: seven columns with one separator
/// each, plus the leading separator.
pub open spec fn grid_width(day_width: int) -> int {
    7 * (day_width + 1) + 1
}

/// The date shown in grid cell `c`.
pub open spec fn cell_date(p: CalendarParams, c: int) -> int {
    p.space.today_days + c - p.space.today_index + p.space.zero_index
}

/// The year/month heading, centred over the grid width.
pub open spec fn year_line_chars(p: CalendarParams) -> Seq<char> {
    let yh = year_range_chars(cell_date(p, 0), cell_date(p, 7 * p.weeks));
    spaces((grid_width(p.day_width) - yh.len()) / 2) + yh
}

/// The first `d` columns of the day-of-week title row.
pub open spec fn title_upto(day_width: int, d: int) -> Seq<char>
    decreases d,
{
    if d <= 0 {
        seq!['+']
    } else {
        let before = (day_width - 3) / 2;
        let after = day_width - 3 - before;
        title_upto(day_width, d - 1) + dashes(before) + day_title_chars((d - 1) as nat) + dashes(
            after,
        ) + seq!['+']
    }
}

/// The day-of-week title row: seven equal-width titled columns.
pub open spec fn title_row_chars(day_width: int) -> Seq<char> {
    title_upto(day_width, 7)
}

/// The first `d` columns of a horizontal divider row.
pub open spec fn divider_upto(day_width: int, d: int) -> Seq<char>
    decreases d,
{
    if d <= 0 {
        seq!['+']
    } else {
        divider_upto(day_width, d - 1) + dashes(day_width) + seq!['+']
    }
}

/// A horizontal divider row: `+----+----+...+`.
pub open spec fn divider_chars(day_width: int) -> Seq<char> {
    divider_upto(day_width, 7)
}

/// The first `d` columns of the header row of week `w`: each day cell holds
/// the date label, then spaces, then the day's closing balance right-aligned
/// at the column boundary, then the column separator.
pub open spec fn header_upto(vts: Seq<TransactionV>, p: CalendarParams, w: int, d: int) -> Seq<
    char,
>
    decreases d,
{
    if d <= 0 {
        seq!['|']
    } else {
        let prev = header_upto(vts, p, w, d - 1);
        let date = cell_date(p, w * 7 + (d - 1));
        let lbl = day_month_chars(date);
        let cls = pound_chars(
            closing_sum(vts, date as i64, p.space.ids) as i64,
            p.sign,
            p.brackets,
        );
        let with_lbl = prev + lbl;
        let boundary = d * (p.day_width + 1);
        let padded = if with_lbl.len() + cls.len() < boundary {
            with_lbl + spaces(boundary - with_lbl.len() - cls.len())
        } else {
            with_lbl
        };
        padded + cls + seq!['|']
    }
}

/// The header row of week `w`.
pub open spec fn header_row_chars(vts: Seq<TransactionV>, p: CalendarParams, w: int) -> Seq<char> {
    header_upto(vts, p, w, 7)
}

/// The reference of a transaction, or the placeholder for an empty one.
pub open spec fn ref_or_unnamed(t: TransactionV) -> Seq<char> {
    if t.reference.len() > 0 {
        t.reference
    } else {
        seq!['(', 'u', 'n', 'n', 'a', 'm', 'e', 'd', ')']
    }
}

/// One individually rendered transaction: its reference truncated with an
/// ellipsis to leave room for the amount, a space, and the signed amount.
pub open spec fn tx_entry_chars(t: TransactionV, p: CalendarParams) -> Seq<char> {
    let amt = pound_chars(t.amount, p.sign, p.brackets);
    ellipsis_chars(ref_or_unnamed(t), p.day_width - amt.len() - 1) + seq![' '] + amt
}

/// How many of a cell's `n` transactions are rendered individually: all of
/// them when the cell fits, one less than the limit when it overflows.
pub open spec fn shown_count(n: int, max_per_day: int) -> int {
    if n > max_per_day {
        max_per_day - 1
    } else {
        n
    }
}

/// The aggregated amount of the overflowed part of cell `c`.
pub open spec fn overflow_of(vts: Seq<TransactionV>, p: CalendarParams, c: int) -> int {
    let cell = cell_indices(vts, p.space, c);
    selection_sum(vts, cell.subrange(p.max_per_day - 1, cell.len() as int), p.space.ids)
}

/// The overflow row: the literal `Others ` and the aggregated signed amount.
pub open spec fn others_chars(vts: Seq<TransactionV>, p: CalendarParams, c: int) -> Seq<char> {
    seq!['O', 't', 'h', 'e', 'r', 's', ' '] + pound_chars(
        overflow_of(vts, p, c) as i64,
        p.sign,
        p.brackets,
    )
}

/// What stands in transaction row `x` of cell `c`: the `x`-th shown
/// transaction, the overflow row on the last row of an overflowing cell, or
/// nothing.
pub open spec fn cell_row_content(vts: Seq<TransactionV>, p: CalendarParams, c: int, x: int) -> Seq<
    char,
> {
    let cell = cell_indices(vts, p.space, c);
    if x < shown_count(cell.len() as int, p.max_per_day) {
        tx_entry_chars(vts[cell[x]], p)
    } else if x == p.max_per_day - 1 && cell.len() > p.max_per_day {
        others_chars(vts, p, c)
    } else {
        Seq::empty()
    }
}

/// Law: overflow aggregation. A cell holding more transactions than the
/// per-day limit renders exactly `max_per_day - 1` of them individually and
/// aggregates every remaining one, sign rules included, into the single
/// overflow row; a cell at or under the limit — including one holding
/// exactly `max_per_day` transactions — shows every transaction individually
/// and no overflow row.
pub proof fn lemma_overflow_aggregation(vts: Seq<TransactionV>, p: CalendarParams, c: int)
    requires
        1 <= p.max_per_day,
    ensures
        cell_indices(vts, p.space, c).len() > p.max_per_day ==> {
            let cell = cell_indices(vts, p.space, c);
            &&& shown_count(cell.len() as int, p.max_per_day) == p.max_per_day - 1
            &&& cell_row_content(vts, p, c, p.max_per_day - 1) == others_chars(vts, p, c)
            &&& overflow_of(vts, p, c) == selection_sum(
                vts,
                cell.subrange(p.max_per_day - 1, cell.len() as int),
                p.space.ids,
            )
        },
        cell_indices(vts, p.space, c).len() <= p.max_per_day ==> {
            let cell = cell_indices(vts, p.space, c);
            &&& shown_count(cell.len() as int, p.max_per_day) == cell.len()
            &&& forall|x: int|
                cell.len() <= x ==> cell_row_content(vts, p, c, x) == Seq::<char>::empty()
        },
{
}

/// The first `d` columns of transaction row `x` of week `w`.
pub open spec fn tx_row_upto(
    vts: Seq<TransactionV>,
    p: CalendarParams,
    w: int,
    x: int,
    d: int,
) -> Seq<char>
    decreases d,
{
    if d <= 0 {
        seq!['|']
    } else {
        let prev = tx_row_upto(vts, p, w, x, d - 1) + cell_row_content(vts, p, w * 7 + (d - 1), x);
        pad_chars(prev, d * (p.day_width + 1)) + seq!['|']
    }
}

/// Transaction row `x` of week `w`.
pub open spec fn tx_row_chars(vts: Seq<TransactionV>, p: CalendarParams, w: int, x: int) -> Seq<
    char,
> {
    tx_row_upto(vts, p, w, x, 7)
}

/// Line `k` of the rendered calendar: the year heading, the day-of-week
/// titles, then per week a header row, `max_per_day` transaction rows and a
/// divider.
pub open spec fn calendar_line(vts: Seq<TransactionV>, p: CalendarParams, k: int) -> Seq<char> {
    if k == 0 {
        year_line_chars(p)
    } else if k == 1 {
        title_row_chars(p.day_width)
    } else {
        let w = (k - 2) / (p.max_per_day + 2);
        let off = (k - 2) % (p.max_per_day + 2);
        if off == 0 {
            header_row_chars(vts, p, w)
        } else if off == p.max_per_day + 1 {
            divider_chars(p.day_width)
        } else {
            tx_row_chars(vts, p, w, off - 1)
        }
    }
}

/// Appends `n` dashes.
fn push_dashes(cs: &mut ColouredString, n: usize)
    requires
        old(cs).wf(),
        old(cs)@.len() + n <= 0x3fff_ffff,
    ensures
        final(cs).wf(),
        final(cs)@ == old(cs)@ + dashes(n as int),
{
    let mut k: usize = 0;
    while k < n
        invariant
            cs.wf(),
            k <= n,
            old(cs)@.len() + n <= 0x3fff_ffff,
            cs@ == old(cs)@ + dashes(k as int),
        decreases n - k,
    {
        proof {
            reveal_strlit("-");
            assert(dashes(k + 1) =~= dashes(k as int) + "-"@);
        }
        cs.push_str("-");
        k = k + 1;
    }
}

proof fn lemma_block_index(w: int, off: int, m: int)
    requires
        0 <= w,
        0 <= off < m,
    ensures
        (w * m + off) / m == w,
        (w * m + off) % m == off,
{
    vstd::arithmetic::div_mod::lemma_fundamental_div_mod_converse(w * m + off, m, w, off);
}

/// The positions in a cell are strictly increasing and in range.
proof fn lemma_cell_indices_from_range(vts: Seq<TransactionV>, space: CellSpace, c: int, i: int)
    requires
        0 <= i,
    ensures
        forall|a: int|
            0 <= a < cell_indices_from(vts, space, c, i).len() ==> i <= #[trigger] cell_indices_from(
                vts,
                space,
                c,
                i,
            )[a] < vts.len(),
        forall|a: int, b: int|
            0 <= a < b < cell_indices_from(vts, space, c, i).len() ==> cell_indices_from(
                vts,
                space,
                c,
                i,
            )[a] < cell_indices_from(vts, space, c, i)[b],
    decreases vts.len() - i,
{
    if i < vts.len() {
        lemma_cell_indices_from_range(vts, space, c, i + 1);
        let rest = cell_indices_from(vts, space, c, i + 1);
        if in_cell(vts[i], space, c) {
            let whole = seq![i] + rest;
            assert(cell_indices_from(vts, space, c, i) == whole);
            assert(forall|a: int| 1 <= a < whole.len() ==> whole[a] == #[trigger] rest[a - 1]);
            assert(whole[0] == i);
        }
    }
}

pub proof fn lemma_cell_indices_range(vts: Seq<TransactionV>, space: CellSpace, c: int)
    ensures
        forall|a: int|
            0 <= a < cell_indices(vts, space, c).len() ==> 0 <= #[trigger] cell_indices(
                vts,
                space,
                c,
            )[a] < vts.len(),
        forall|a: int, b: int|
            0 <= a < b < cell_indices(vts, space, c).len() ==> cell_indices(vts, space, c)[a]
                < cell_indices(vts, space, c)[b],
{
    lemma_cell_indices_from_range(vts, space, c, 0);
}

/// Builds the header row of week `week`: per day, the date label (highlight
/// and today styling applied), padding, the closing balance, a separator.
#[verifier::rlimit(30)]
fn build_header_row(
    transactions: &Vec<Transaction>,
    visible_accounts: &Vec<Account>,
    day_width: usize,
    week: usize,
    today: i64,
    today_days: i64,
    zero_index: i64,
    highlight_index: i64,
    signed_with_colour: bool,
    brackets_when_neg: bool,
    Ghost(p): Ghost<CalendarParams>,
) -> (r: ColouredString)
    requires
        p.day_width == day_width as int,
        p.sign == signed_with_colour,
        p.brackets == brackets_when_neg,
        p.space.ids == acc_ids(visible_accounts@),
        p.space.today_index == today as int,
        p.space.today_days == today_days as int,
        p.space.zero_index == zero_index as int,
        10 <= day_width <= 1000,
        week <= 1000,
        -0x1000_0000 <= today <= 0x1000_0000,
        -0x1000_0000 <= zero_index <= 0x1000_0000,
        -0x1000_0000_0000 <= highlight_index <= 0x1000_0000_0000,
        MIN_DAY_NUMBER <= cell_date(p, 7 * (week as int)),
        cell_date(p, 7 * (week as int) + 6) <= MAX_DAY_NUMBER,
        2 * sum_abs(tviews(transactions@)) <= i64::MAX,
    ensures
        r.wf(),
        r@ == header_row_chars(tviews(transactions@), p, week as int),
        r@.len() <= 65000,
{
    let ghost vts = tviews(transactions@);
    let mut header = ColouredString::from_str("|");
    proof {
        reveal_strlit("|");
        assert("|"@ =~= seq!['|']);
        assert(header@ =~= header_upto(vts, p, week as int, 0));
    }
    let mut day: usize = 0;
    while day < 7
        invariant
            day <= 7,
            header.wf(),
            vts == tviews(transactions@),
            p.day_width == day_width as int,
            p.sign == signed_with_colour,
            p.brackets == brackets_when_neg,
            p.space.ids == acc_ids(visible_accounts@),
            p.space.today_index == today as int,
            p.space.today_days == today_days as int,
            p.space.zero_index == zero_index as int,
            10 <= day_width <= 1000,
            week <= 1000,
            -0x1000_0000 <= today <= 0x1000_0000,
            -0x1000_0000 <= zero_index <= 0x1000_0000,
            -0x1000_0000_0000 <= highlight_index <= 0x1000_0000_0000,
            MIN_DAY_NUMBER <= cell_date(p, 7 * (week as int)),
            cell_date(p, 7 * (week as int) + 6) <= MAX_DAY_NUMBER,
            2 * sum_abs(vts) <= i64::MAX,
            header@ == header_upto(vts, p, week as int, day as int),
            header@.len() <= 1 + day * 9000,
        decreases 7 - day,
    {
        let c = week * 7 + day;
        let date: i64 = today_days + (c as i64) - today + zero_index;
        proof {
            assert(date == cell_date(p, c as int));
            assert(cell_date(p, 7 * (week as int)) <= date <= cell_date(
                p,
                7 * (week as int) + 6,
            ));
        }
        let lbl = ColouredString::from_string(crate::dates::day_month_label(date));
        let cdiff: i64 = (c as i64) - today + zero_index;
        let highlighted: bool = (c as i64) - highlight_index + zero_index == 0;
        let styled = if highlighted {
            if cdiff == 0 {
                lbl.apply_style(Style::Bold).apply_style(Style::Italic).apply_style(
                    Style::Black,
                ).apply_style(Style::OnCyan)
            } else {
                lbl.apply_style(Style::Black).apply_style(Style::OnCyan)
            }
        } else {
            if cdiff == 0 {
                lbl.apply_style(Style::Bold).apply_style(Style::Italic)
            } else {
                lbl
            }
        };
        header.push_coloured_string(styled);
        let closing = get_closing_balance(date, transactions, visible_accounts);
        let cls = pence_to_pound_colour_bg(closing, signed_with_colour, brackets_when_neg);
        proof {
            lemma_pound_chars_len(closing, signed_with_colour, brackets_when_neg);
        }
        proof {
            assert(((day + 1) as int) * ((day_width + 1) as int) <= 7007) by (nonlinear_arith)
                requires
                    day <= 6,
                    day_width <= 1000,
            ;
        }
        let target = (day + 1) * (day_width + 1);
        if header.len() + cls.len() < target {
            pad_to(&mut header, target - cls.len());
        }
        header.push_coloured_string(cls);
        proof {
            reveal_strlit("|");
            assert("|"@ =~= seq!['|']);
        }
        header.push_str("|");
        proof {
            assert(header@ =~= header_upto(vts, p, week as int, day + 1));
        }
        day = day + 1;
    }
    header
}

/// Builds transaction row `x` of week `week`: per day, the cell's `x`-th
/// shown transaction, or the overflow row, or blank, padded to the column
/// boundary and closed with a separator.
#[verifier::rlimit(30)]
fn build_tx_row(
    transactions: &Vec<Transaction>,
    accs: &Vec<u32>,
    cells: &Vec<Vec<usize>>,
    day_width: usize,
    week: usize,
    x: usize,
    max_per_day: usize,
    signed_with_colour: bool,
    brackets_when_neg: bool,
    Ghost(p): Ghost<CalendarParams>,
) -> (r: ColouredString)
    requires
        p.day_width == day_width as int,
        p.max_per_day == max_per_day as int,
        p.sign == signed_with_colour,
        p.brackets == brackets_when_neg,
        p.space.ids == accs@,
        10 <= day_width <= 1000,
        week <= 1000,
        1 <= max_per_day,
        x < max_per_day,
        7 * week + 7 <= cells@.len(),
        forall|c: int|
            0 <= c < cells@.len() ==> usizes_to_ints(#[trigger] cells@[c]@) == cell_indices(
                tviews(transactions@),
                p.space,
                c,
            ),
        forall|i: int|
            0 <= i < tviews(transactions@).len() ==> pound_chars(
                (#[trigger] tviews(transactions@)[i]).amount,
                signed_with_colour,
                brackets_when_neg,
            ).len() + 3 <= day_width,
        2 * sum_abs(tviews(transactions@)) <= i64::MAX,
    ensures
        r.wf(),
        r@ == tx_row_chars(tviews(transactions@), p, week as int, x as int),
        r@.len() <= 65000,
{
    let ghost vts = tviews(transactions@);
    let mut row = ColouredString::from_str("|");
    proof {
        reveal_strlit("|");
        assert("|"@ =~= seq!['|']);
        assert(row@ =~= tx_row_upto(vts, p, week as int, x as int, 0));
    }
    let mut day: usize = 0;
    while day < 7
        invariant
            day <= 7,
            row.wf(),
            vts == tviews(transactions@),
            p.day_width == day_width as int,
            p.max_per_day == max_per_day as int,
            p.sign == signed_with_colour,
            p.brackets == brackets_when_neg,
            p.space.ids == accs@,
            10 <= day_width <= 1000,
            week <= 1000,
            1 <= max_per_day,
            x < max_per_day,
            7 * week + 7 <= cells@.len(),
            forall|c: int|
                0 <= c < cells@.len() ==> usizes_to_ints(#[trigger] cells@[c]@) == cell_indices(
                    vts,
                    p.space,
                    c,
                ),
            forall|i: int|
                0 <= i < vts.len() ==> pound_chars(
                    (#[trigger] vts[i]).amount,
                    signed_with_colour,
                    brackets_when_neg,
                ).len() + 3 <= day_width,
            2 * sum_abs(vts) <= i64::MAX,
            row@ == tx_row_upto(vts, p, week as int, x as int, day as int),
            row@.len() <= 1 + day * 9000,
        decreases 7 - day,
    {
        let c = week * 7 + day;
        let cell = &cells[c];
        let ghost cellv = cell_indices(vts, p.space, c as int);
        proof {
            assert(usizes_to_ints(cell@) == cellv);
            assert(cell@.len() == cellv.len());
            lemma_cell_indices_range(vts, p.space, c as int);
            assert forall|j: int| 0 <= j < cell@.len() implies (#[trigger] cell@[j])
                < transactions@.len() by {
                assert(usizes_to_ints(cell@)[j] == cell@[j] as int);
                assert(0 <= cellv[j] < vts.len());
            }
            assert forall|a: int, b: int| 0 <= a < b < cell@.len() implies cell@[a]
                < cell@[b] by {
                assert(usizes_to_ints(cell@)[a] == cell@[a] as int);
                assert(usizes_to_ints(cell@)[b] == cell@[b] as int);
                assert(cellv[a] < cellv[b]);
            }
        }
        let n_c = cell.len();
        let shown = if n_c > max_per_day {
            max_per_day - 1
        } else {
            n_c
        };
        if x < shown {
            let tidx = cell[x];
            proof {
                assert(usizes_to_ints(cell@)[x as int] == cell@[x as int] as int);
                assert(0 <= cellv[x as int] < vts.len());
            }
            let t = &transactions[tidx];
            let amt = if t.is_transfer() {
                pence_to_pound_transfer(t.amount(), signed_with_colour, brackets_when_neg)
            } else {
                pence_to_pound_colour(t.amount(), signed_with_colour, brackets_when_neg)
            };
            proof {
                assert(vts[tidx as int] == transactions@[tidx as int]@);
                assert(amt@ == pound_chars(
                    vts[tidx as int].amount,
                    signed_with_colour,
                    brackets_when_neg,
                ));
            }
            let plen = amt.len();
            let refstr = t.reference();
            let name = if !refstr.as_str().is_empty() {
                refstr
            } else {
                proof {
                    reveal_strlit("(unnamed)");
                }
                String::from_str("(unnamed)")
            };
            proof {
                reveal_strlit("(unnamed)");
                assert("(unnamed)"@ =~= seq!['(', 'u', 'n', 'n', 'a', 'm', 'e', 'd', ')']);
                assert(name@ == ref_or_unnamed(vts[tidx as int]));
            }
            let mut s = ColouredString::from_string(
                truncate_ellipsis(name, day_width - plen - 1),
            );
            proof {
                reveal_strlit(" ");
                assert(" "@ =~= seq![' ']);
            }
            s.push_str(" ");
            s.push_coloured_string(amt);
            proof {
                assert(s@ =~= tx_entry_chars(vts[cellv[x as int]], p));
            }
            row.push_coloured_string(s);
        } else if x == max_per_day - 1 && n_c > max_per_day {
            let osum = overflow_amount(transactions, accs, cell, max_per_day - 1);
            proof {
                assert(usizes_to_ints(cell@).subrange(max_per_day - 1, cell@.len() as int)
                    == cellv.subrange(p.max_per_day - 1, cellv.len() as int));
                assert(osum as int == overflow_of(vts, p, c as int));
                lemma_pound_chars_len(osum, signed_with_colour, brackets_when_neg);
                reveal_strlit("Others ");
                assert("Others "@ =~= seq!['O', 't', 'h', 'e', 'r', 's', ' ']);
            }
            let mut s = ColouredString::from_str("Others ");
            s.push_coloured_string(
                pence_to_pound_colour(osum, signed_with_colour, brackets_when_neg),
            );
            let s2 = s.apply_style(Style::Italic);
            proof {
                assert(s2@ =~= others_chars(vts, p, c as int));
            }
            row.push_coloured_string(s2);
        }
        proof {
            assert(cell_row_content(vts, p, c as int, x as int) == if (x as int) < shown_count(
                cellv.len() as int,
                p.max_per_day,
            ) {
                tx_entry_chars(vts[cellv[x as int]], p)
            } else if x as int == p.max_per_day - 1 && cellv.len() > p.max_per_day {
                others_chars(vts, p, c as int)
            } else {
                Seq::<char>::empty()
            });
            if !(x < shown) && !(x == max_per_day - 1 && n_c > max_per_day) {
                assert(row@ =~= tx_row_upto(vts, p, week as int, x as int, day as int)
                    + cell_row_content(vts, p, c as int, x as int));
            }
        }
        proof {
            assert(((day + 1) as int) * ((day_width + 1) as int) <= 7007) by (nonlinear_arith)
                requires
                    day <= 6,
                    day_width <= 1000,
            ;
        }
        let target = (day + 1) * (day_width + 1);
        pad_to(&mut row, target);
        proof {
            reveal_strlit("|");
            assert("|"@ =~= seq!['|']);
        }
        row.push_str("|");
        proof {
            assert(row@ =~= tx_row_upto(vts, p, week as int, x as int, day + 1));
        }
        day = day + 1;
    }
    row
}

/// Renders the multi-week transaction calendar: a centred year/month
/// heading, a day-of-week title row, then per week a header row with dates
/// and closing balances, `max_transactions_per_day` transaction rows with
/// overflow aggregation, and a divider. Every line of the result is pinned,
/// character for character, by [`calendar_line`].
#[verifier::rlimit(30)]
pub fn render_calendar(
    day_width: usize,
    weeks: i64,
    max_transactions_per_day: usize,
    today: i64,
    today_days: i64,
    signed_with_colour: bool,
    brackets_when_neg: bool,
    transactions: &Vec<Transaction>,
    visible_accounts: &Vec<Account>,
    highlight_index: i64,
    zero_index: i64,
) -> (r: SideBySide)
    requires
        10 <= day_width <= 1000,
        1 <= weeks <= 100,
        1 <= max_transactions_per_day <= 1000,
        -0x1000_0000 <= today <= 0x1000_0000,
        -0x1000_0000 <= zero_index <= 0x1000_0000,
        -0x1000_0000_0000 <= highlight_index <= 0x1000_0000_0000,
        MIN_DAY_NUMBER <= today_days <= MAX_DAY_NUMBER,
        MIN_DAY_NUMBER <= today_days - today + zero_index,
        today_days - today + zero_index + 7 * weeks <= MAX_DAY_NUMBER,
        forall|i: int|
            0 <= i < transactions@.len() ==> MIN_DAY_NUMBER <= (#[trigger] tviews(
                transactions@,
            )[i]).date <= MAX_DAY_NUMBER,
        2 * sum_abs(tviews(transactions@)) <= i64::MAX,
        forall|i: int|
            0 <= i < transactions@.len() ==> pound_chars(
                (#[trigger] tviews(transactions@)[i]).amount,
                signed_with_colour,
                brackets_when_neg,
            ).len() + 3 <= day_width,
    ensures
        r.wf(),
        r.spec_width() == grid_width(day_width as int),
        r.spec_lines().len() == 2 + weeks * (max_transactions_per_day + 2),
        forall|k: int|
            0 <= k < r.spec_lines().len() ==> (#[trigger] r.spec_lines()[k])@ == calendar_line(
                tviews(transactions@),
                render_params(
                    day_width as int,
                    weeks as int,
                    max_transactions_per_day as int,
                    signed_with_colour,
                    brackets_when_neg,
                    acc_ids(visible_accounts@),
                    today as int,
                    today_days as int,
                    zero_index as int,
                ),
                k,
            ),
{
    let ghost vts = tviews(transactions@);
    let ghost p = render_params(
        day_width as int,
        weeks as int,
        max_transactions_per_day as int,
        signed_with_colour,
        brackets_when_neg,
        acc_ids(visible_accounts@),
        today as int,
        today_days as int,
        zero_index as int,
    );
    let grid_w: usize = 7 * (day_width + 1) + 1;
    let mut sbs = SideBySide::new(grid_w);
    let accs = acc_ids_from(visible_accounts);
    let weeks_u: usize = weeks as usize;
    let cell_count: usize = 7 * weeks_u;
    let cells = bucket_transactions(
        transactions,
        &accs,
        cell_count,
        today,
        today_days,
        zero_index,
    );
    // year/month heading, centred
    let first_days: i64 = today_days - today + zero_index;
    let last_days: i64 = first_days + 7 * weeks;
    let yh = ColouredString::from_string(crate::dates::year_range_label(first_days, last_days));
    let pad: usize = (grid_w - yh.len()) / 2;
    let mut line0 = ColouredString::new();
    pad_to(&mut line0, pad);
    line0.push_coloured_string(yh);
    proof {
        assert(first_days == cell_date(p, 0));
        assert(last_days == cell_date(p, 7 * p.weeks));
        assert(line0@ =~= year_line_chars(p));
    }
    sbs.add_line(line0);
    // day-of-week titles
    let mut title = ColouredString::from_str("+");
    proof {
        reveal_strlit("+");
        assert("+"@ =~= seq!['+']);
        assert(title@ =~= title_upto(day_width as int, 0));
    }
    let mut day: usize = 0;
    while day < 7
        invariant
            day <= 7,
            title.wf(),
            10 <= day_width <= 1000,
            title@ == title_upto(day_width as int, day as int),
            title@.len() <= 1 + day * 1004,
        decreases 7 - day,
    {
        let before = (day_width - 3) / 2;
        let after = day_width - 3 - before;
        push_dashes(&mut title, before);
        title.push_str(day_abbrev(day));
        push_dashes(&mut title, after);
        proof {
            reveal_strlit("+");
            assert("+"@ =~= seq!['+']);
        }
        title.push_str("+");
        proof {
            assert(title@ =~= title_upto(day_width as int, day + 1));
        }
        day = day + 1;
    }
    sbs.add_line(title);
    // one divider row, reused under every week
    let mut divider = ColouredString::from_str("+");
    proof {
        reveal_strlit("+");
        assert("+"@ =~= seq!['+']);
        assert(divider@ =~= divider_upto(day_width as int, 0));
    }
    let mut dd: usize = 0;
    while dd < 7
        invariant
            dd <= 7,
            divider.wf(),
            10 <= day_width <= 1000,
            divider@ == divider_upto(day_width as int, dd as int),
            divider@.len() <= 1 + dd * 1004,
        decreases 7 - dd,
    {
        push_dashes(&mut divider, day_width);
        proof {
            reveal_strlit("+");
            assert("+"@ =~= seq!['+']);
        }
        divider.push_str("+");
        proof {
            assert(divider@ =~= divider_upto(day_width as int, dd + 1));
        }
        dd = dd + 1;
    }
    proof {
        assert(sbs.spec_lines().len() == 2);
        assert(sbs.spec_lines()[0]@ == calendar_line(vts, p, 0));
        assert(sbs.spec_lines()[1]@ == calendar_line(vts, p, 1));
    }
    let mut w: usize = 0;
    while w < weeks_u
        invariant
            w <= weeks_u,
            weeks_u == weeks as int,
            cell_count == 7 * weeks_u,
            sbs.wf(),
            sbs.spec_width() == grid_width(day_width as int),
            sbs.spec_lines().len() == 2 + w * (max_transactions_per_day + 2),
            divider.wf(),
            divider@ == divider_chars(day_width as int),
            divider@.len() <= 8000,
            accs@ == acc_ids(visible_accounts@),
            cells@.len() == cell_count,
            forall|c: int|
                0 <= c < cells@.len() ==> usizes_to_ints(#[trigger] cells@[c]@) == cell_indices(
                    vts,
                    p.space,
                    c,
                ),
            vts == tviews(transactions@),
            p == render_params(
                day_width as int,
                weeks as int,
                max_transactions_per_day as int,
                signed_with_colour,
                brackets_when_neg,
                acc_ids(visible_accounts@),
                today as int,
                today_days as int,
                zero_index as int,
            ),
            10 <= day_width <= 1000,
            1 <= weeks <= 100,
            1 <= max_transactions_per_day <= 1000,
            -0x1000_0000 <= today <= 0x1000_0000,
            -0x1000_0000 <= zero_index <= 0x1000_0000,
            -0x1000_0000_0000 <= highlight_index <= 0x1000_0000_0000,
            MIN_DAY_NUMBER <= today_days <= MAX_DAY_NUMBER,
            MIN_DAY_NUMBER <= today_days - today + zero_index,
            today_days - today + zero_index + 7 * weeks <= MAX_DAY_NUMBER,
            forall|i: int|
                0 <= i < vts.len() ==> MIN_DAY_NUMBER <= (#[trigger] vts[i]).date
                    <= MAX_DAY_NUMBER,
            2 * sum_abs(vts) <= i64::MAX,
            forall|i: int|
                0 <= i < vts.len() ==> pound_chars(
                    (#[trigger] vts[i]).amount,
                    signed_with_colour,
                    brackets_when_neg,
                ).len() + 3 <= day_width,
            forall|k: int|
                0 <= k < sbs.spec_lines().len() ==> (#[trigger] sbs.spec_lines()[k])@
                    == calendar_line(vts, p, k),
        decreases weeks_u - w,
    {
        let ghost base = 2 + (w as int) * (p.max_per_day + 2);
        proof {
            assert(cell_date(p, 7 * (w as int)) == today_days - today + zero_index + 7 * (
            w as int));
            assert(cell_date(p, 7 * (w as int) + 6) <= today_days - today + zero_index + 7
                * weeks);
        }
        let header = build_header_row(
            transactions,
            visible_accounts,
            day_width,
            w,
            today,
            today_days,
            zero_index,
            highlight_index,
            signed_with_colour,
            brackets_when_neg,
            Ghost(p),
        );
        sbs.add_line(header);
        proof {
            lemma_block_index(w as int, 0, p.max_per_day + 2);
            assert(calendar_line(vts, p, base) == header_row_chars(vts, p, w as int));
            assert(sbs.spec_lines()[base]@ == calendar_line(vts, p, base));
        }
        let mut x: usize = 0;
        while x < max_transactions_per_day
            invariant
                x <= max_transactions_per_day,
                w < weeks_u,
                weeks_u == weeks as int,
                cell_count == 7 * weeks_u,
                sbs.wf(),
                sbs.spec_width() == grid_width(day_width as int),
                base == 2 + (w as int) * (p.max_per_day + 2),
                sbs.spec_lines().len() == base + 1 + x,
                accs@ == acc_ids(visible_accounts@),
                cells@.len() == cell_count,
                forall|c: int|
                    0 <= c < cells@.len() ==> usizes_to_ints(#[trigger] cells@[c]@)
                        == cell_indices(vts, p.space, c),
                vts == tviews(transactions@),
                p == render_params(
                    day_width as int,
                    weeks as int,
                    max_transactions_per_day as int,
                    signed_with_colour,
                    brackets_when_neg,
                    acc_ids(visible_accounts@),
                    today as int,
                    today_days as int,
                    zero_index as int,
                ),
                10 <= day_width <= 1000,
                1 <= weeks <= 100,
                1 <= max_transactions_per_day <= 1000,
                forall|i: int|
                    0 <= i < vts.len() ==> pound_chars(
                        (#[trigger] vts[i]).amount,
                        signed_with_colour,
                        brackets_when_neg,
                    ).len() + 3 <= day_width,
                2 * sum_abs(vts) <= i64::MAX,
                forall|k: int|
                    0 <= k < sbs.spec_lines().len() ==> (#[trigger] sbs.spec_lines()[k])@
                        == calendar_line(vts, p, k),
            decreases max_transactions_per_day - x,
        {
            proof {
                assert(7 * w + 7 <= cells@.len()) by (nonlinear_arith)
                    requires
                        w < weeks_u,
                        cells@.len() == 7 * weeks_u,
                ;
            }
            let row = build_tx_row(
                transactions,
                &accs,
                &cells,
                day_width,
                w,
                x,
                max_transactions_per_day,
                signed_with_colour,
                brackets_when_neg,
                Ghost(p),
            );
            sbs.add_line(row);
            proof {
                lemma_block_index(w as int, 1 + x as int, p.max_per_day + 2);
                assert(calendar_line(vts, p, base + 1 + x as int) == tx_row_chars(
                    vts,
                    p,
                    w as int,
                    x as int,
                ));
                assert(sbs.spec_lines()[base + 1 + x as int]@ == calendar_line(
                    vts,
                    p,
                    base + 1 + x as int,
                ));
            }
            x = x + 1;
        }
        sbs.add_line(divider.clone());
        proof {
            lemma_block_index(w as int, p.max_per_day + 1, p.max_per_day + 2);
            assert(calendar_line(vts, p, base + p.max_per_day + 1) == divider_chars(
                p.day_width,
            ));
            assert(sbs.spec_lines()[base + p.max_per_day + 1]@ == calendar_line(
                vts,
                p,
                base + p.max_per_day + 1,
            ));
            assert((w as int + 1) * (max_transactions_per_day as int + 2) == (w as int)
                * (max_transactions_per_day as int + 2) + (max_transactions_per_day as int
                + 2)) by (nonlinear_arith);
            assert(sbs.spec_lines().len() == 2 + (w + 1) * (max_transactions_per_day + 2));
        }
        w = w + 1;
    }
    sbs
}

/// The view-level parameters of a rendering call.
pub open spec fn render_params(
    day_width: int,
    weeks: int,
    max_per_day: int,
    sign: bool,
    brackets: bool,
    ids: Seq<u32>,
    today_index: int,
    today_days: int,
    zero_index: int,
) -> CalendarParams {
    CalendarParams {
        day_width,
        weeks,
        max_per_day,
        sign,
        brackets,
        space: CellSpace { ids, today_index, today_days, zero_index },
    }
}

/// The view-level parameters of one day-detail rendering.
pub struct DetailParams {
    pub width: int,
    pub sign: bool,
    pub brackets: bool,
    pub ids: Seq<u32>,
    pub date: int,
}

/// The cell space whose single cell 0 holds exactly the transactions dated
/// `date` that touch the visible set.
pub open spec fn day_space(ids: Seq<u32>, date: int) -> CellSpace {
    CellSpace { ids, today_index: 0, today_days: date, zero_index: 0 }
}

/// The positions of the transactions listed in the day detail, in order.
pub open spec fn day_matches(vts: Seq<TransactionV>, p: DetailParams) -> Seq<int> {
    cell_indices(vts, day_space(p.ids, p.date), 0)
}

/// The heading lines of the day detail: a blank line, the wrapped heading
/// text, the wrapped date, the closing-balance label and value, and the
/// transactions label.
pub open spec fn detail_intro_lines(vts: Seq<TransactionV>, p: DetailParams) -> Seq<Seq<char>> {
    seq![Seq::<char>::empty()] + wrap_chunks("Detailed Transactions for"@, p.width)
        + wrap_chunks(full_date_chars(p.date), p.width) + wrap_chunks(
        "Closing balance:"@,
        p.width,
    ) + seq![
        pound_chars(closing_sum(vts, p.date as i64, p.ids) as i64, p.sign, p.brackets),
    ] + wrap_chunks("Transactions:"@, p.width)
}

/// The wrapped reference of one listed transaction, with its amount appended
/// to the last wrapped line when it fits in the pane and on a line of its
/// own otherwise.
pub open spec fn detail_ref_lines(t: TransactionV, p: DetailParams) -> Seq<Seq<char>> {
    let ss = wrap_chunks(ref_or_unnamed(t), p.width);
    let amt = pound_chars(t.amount, p.sign, p.brackets);
    if ss.last().len() + 1 + amt.len() <= p.width {
        ss.drop_last().push(ss.last() + seq![' '] + amt)
    } else {
        ss.push(amt)
    }
}

/// The counterpart-account lines of one listed transaction: category
/// framing, transfer framing, or the not-found placeholder.
pub open spec fn detail_account_lines(
    t: TransactionV,
    accounts: Seq<Account>,
    width: int,
) -> Seq<Seq<char>> {
    let name1 = match find_account(accounts, t.account_id_1) {
        Some(a) => a.name@,
        None => "Unknown Account"@,
    };
    match find_account(accounts, t.account_id_2) {
        Some(a2) => if a2.category {
            wrap_chunks("Account:"@, width) + wrap_chunks(name1, width) + wrap_chunks(
                "Category: "@ + a2.name@,
                width,
            )
        } else {
            wrap_chunks("From Account:"@, width) + wrap_chunks(name1, width) + wrap_chunks(
                "To Account:"@,
                width,
            ) + wrap_chunks(a2.name@, width)
        },
        None => seq!["<Category/Account name not found>"@],
    }
}

/// Every line one listed transaction adds to the day detail.
pub open spec fn detail_block_lines(
    t: TransactionV,
    accounts: Seq<Account>,
    p: DetailParams,
) -> Seq<Seq<char>> {
    seq![truncate_chars("----------------"@, p.width)] + detail_ref_lines(t, p)
        + detail_account_lines(t, accounts, p.width) + wrap_chunks(
        "Date: "@ + iso_date_chars(t.date as int),
        p.width,
    ) + wrap_chunks("Notes:"@, p.width) + wrap_chunks(t.notes, p.width)
}

/// The lines of the first `j` listed transactions.
pub open spec fn detail_blocks_upto(
    vts: Seq<TransactionV>,
    accounts: Seq<Account>,
    p: DetailParams,
    j: int,
) -> Seq<Seq<char>>
    decreases j,
{
    if j <= 0 {
        Seq::empty()
    } else {
        detail_blocks_upto(vts, accounts, p, j - 1) + detail_block_lines(
            vts[day_matches(vts, p)[j - 1]],
            accounts,
            p,
        )
    }
}

/// Every line of the day-detail pane.
pub open spec fn detail_lines(
    vts: Seq<TransactionV>,
    accounts: Seq<Account>,
    p: DetailParams,
) -> Seq<Seq<char>> {
    detail_intro_lines(vts, p) + detail_blocks_upto(
        vts,
        accounts,
        p,
        day_matches(vts, p).len() as int,
    )
}

/// Wraps `text` and appends each wrapped line to the panel, styled with the
/// given attributes in order.
fn add_wrapped(sbs: &mut SideBySide, text: String, w: usize, styles: &Vec<Style>)
    requires
        old(sbs).wf(),
        1 <= w,
    ensures
        final(sbs).wf(),
        final(sbs).spec_width() == old(sbs).spec_width(),
        line_views(final(sbs).spec_lines()) == line_views(old(sbs).spec_lines()) + wrap_chunks(
            text@,
            w as int,
        ),
{
    let ghost tv = text@;
    let ghost v0 = line_views(sbs.spec_lines());
    let parts = wrap(text, w);
    let n = parts.len();
    let mut i: usize = 0;
    while i < n
        invariant
            i <= n,
            sbs.wf(),
            1 <= w,
            n == wrap_chunks(tv, w as int).len(),
            forall|k: int|
                0 <= k < parts@.len() ==> (#[trigger] parts@[k])@ == wrap_chunks(tv, w as int)[k],
            parts@.len() == n,
            sbs.spec_width() == old(sbs).spec_width(),
            line_views(sbs.spec_lines()) == v0 + wrap_chunks(tv, w as int).subrange(0, i as int),
        decreases n - i,
    {
        let mut cs = ColouredString::from_string(parts[i].clone());
        let m = styles.len();
        let mut si: usize = 0;
        while si < m
            invariant
                si <= m,
                m == styles@.len(),
                cs.wf(),
                cs@ == parts@[i as int]@,
            decreases m - si,
        {
            cs = cs.apply_style(styles[si]);
            si = si + 1;
        }
        let ghost csv = cs@;
        let ghost before = line_views(sbs.spec_lines());
        sbs.add_line(cs);
        proof {
            assert(line_views(sbs.spec_lines()) =~= before.push(csv));
            assert(before.push(csv) =~= v0 + wrap_chunks(tv, w as int).subrange(0, i + 1));
        }
        i = i + 1;
    }
    proof {
        assert(wrap_chunks(tv, w as int).subrange(0, n as int) =~= wrap_chunks(tv, w as int));
    }
}

/// Every wrapped chunk is no longer than the text it came from.
proof fn lemma_wrap_chunks_len(s: Seq<char>, l: int)
    ensures
        forall|i: int|
            0 <= i < wrap_chunks(s, l).len() ==> (#[trigger] wrap_chunks(s, l)[i]).len()
                <= s.len(),
    decreases s.len(),
{
    if !(l < 1 || s.len() <= l) {
        let tail = s.subrange(l, s.len() as int);
        lemma_wrap_chunks_len(tail, l);
        assert forall|i: int|
            0 <= i < wrap_chunks(s, l).len() implies (#[trigger] wrap_chunks(s, l)[i]).len()
            <= s.len() by {
            if i > 0 {
                assert(wrap_chunks(s, l)[i] == wrap_chunks(tail, l)[i - 1]);
            }
        }
    }
}

/// Appends the wrapped reference of one listed transaction, with its amount
/// on or after the last wrapped line.
#[verifier::rlimit(50)]
fn append_ref_lines(
    sbs: &mut SideBySide,
    t: &Transaction,
    highlighted: bool,
    signed_with_colour: bool,
    brackets_when_neg: bool,
    width: usize,
    Ghost(dp): Ghost<DetailParams>,
)
    requires
        old(sbs).wf(),
        dp.width == width as int,
        dp.sign == signed_with_colour,
        dp.brackets == brackets_when_neg,
        1 <= width <= 1000,
        t@.reference.len() <= 0x3fff_ffff,
    ensures
        final(sbs).wf(),
        final(sbs).spec_width() == old(sbs).spec_width(),
        line_views(final(sbs).spec_lines()) == line_views(old(sbs).spec_lines())
            + detail_ref_lines(t@, dp),
{
    let ghost v0 = line_views(sbs.spec_lines());
    let refstr = t.reference();
    let name = if !refstr.as_str().is_empty() {
        refstr
    } else {
        proof {
            reveal_strlit("(unnamed)");
        }
        String::from_str("(unnamed)")
    };
    proof {
        reveal_strlit("(unnamed)");
        assert("(unnamed)"@ =~= seq!['(', 'u', 'n', 'n', 'a', 'm', 'e', 'd', ')']);
        assert(name@ == ref_or_unnamed(t@));
        lemma_wrap_chunks_len(ref_or_unnamed(t@), dp.width);
    }
    let amt = if t.is_transfer() {
        pence_to_pound_transfer(t.amount(), signed_with_colour, brackets_when_neg)
    } else {
        pence_to_pound_colour(t.amount(), signed_with_colour, brackets_when_neg)
    }.apply_style(Style::Bold);
    proof {
        lemma_pound_chars_len(t@.amount, signed_with_colour, brackets_when_neg);
    }
    let parts = wrap(name, width);
    let np = parts.len();
    let ghost ss = wrap_chunks(ref_or_unnamed(t@), dp.width);
    let ghost rl = detail_ref_lines(t@, dp);
    let mut idx: usize = 0;
    while idx + 1 < np
        invariant
            np == parts@.len(),
            np == ss.len(),
            np >= 1,
            idx < np,
            sbs.wf(),
            1 <= width <= 1000,
            forall|k: int| 0 <= k < np ==> (#[trigger] parts@[k])@ == ss[k],
            forall|k: int| 0 <= k < np ==> (#[trigger] ss[k]).len() <= ref_or_unnamed(t@).len(),
            ref_or_unnamed(t@).len() <= 0x4000_0008,
            sbs.spec_width() == old(sbs).spec_width(),
            line_views(sbs.spec_lines()) == v0 + ss.subrange(0, idx as int),
        decreases np - idx,
    {
        let line = ColouredString::from_string(parts[idx].clone());
        let styled = if highlighted {
            line.apply_style(Style::Black).apply_style(Style::OnCyan).apply_style(Style::Bold)
        } else {
            line.apply_style(Style::Bold)
        };
        let ghost stv = styled@;
        let ghost before = line_views(sbs.spec_lines());
        sbs.add_line(styled);
        proof {
            assert(line_views(sbs.spec_lines()) =~= before.push(stv));
            assert(before.push(stv) =~= v0 + ss.subrange(0, idx + 1));
        }
        idx = idx + 1;
    }
    let last_part = ColouredString::from_string(parts[np - 1].clone());
    if last_part.len() + 1 + amt.len() <= width {
        let mut temp = if highlighted {
            ColouredString::from_string(parts[np - 1].clone()).apply_style(
                Style::Black,
            ).apply_style(Style::OnCyan).apply_style(Style::Bold)
        } else {
            ColouredString::from_string(parts[np - 1].clone()).apply_style(Style::Bold)
        };
        proof {
            reveal_strlit(" ");
            assert(" "@ =~= seq![' ']);
        }
        temp.push_str(" ");
        temp.push_coloured_string(amt);
        let ghost tempv = temp@;
        let ghost before = line_views(sbs.spec_lines());
        sbs.add_line(temp);
        proof {
            assert(rl == ss.drop_last().push(ss.last() + seq![' '] + pound_chars(
                t@.amount,
                dp.sign,
                dp.brackets,
            )));
            assert(ss.subrange(0, np - 1) =~= ss.drop_last());
            assert(line_views(sbs.spec_lines()) =~= before.push(tempv));
            assert(before.push(tempv) =~= v0 + rl);
        }
    } else {
        let styled = if highlighted {
            last_part.apply_style(Style::Black).apply_style(Style::OnCyan).apply_style(
                Style::Bold,
            )
        } else {
            last_part.apply_style(Style::Bold)
        };
        let ghost stv = styled@;
        let ghost amtv = amt@;
        let ghost before = line_views(sbs.spec_lines());
        sbs.add_line(styled);
        proof {
            assert(line_views(sbs.spec_lines()) =~= before.push(stv));
        }
        let ghost before2 = line_views(sbs.spec_lines());
        sbs.add_line(amt);
        proof {
            assert(rl == ss.push(pound_chars(t@.amount, dp.sign, dp.brackets)));
            assert(ss.subrange(0, np - 1) =~= ss.drop_last());
            assert(line_views(sbs.spec_lines()) =~= before2.push(amtv));
            assert(before2.push(amtv) =~= v0 + rl);
        }
    }
}

/// Appends the counterpart-account lines of one listed transaction.
#[verifier::rlimit(50)]
fn append_account_lines(
    sbs: &mut SideBySide,
    t: &Transaction,
    accounts: &Vec<Account>,
    width: usize,
)
    requires
        old(sbs).wf(),
        1 <= width <= 1000,
    ensures
        final(sbs).wf(),
        final(sbs).spec_width() == old(sbs).spec_width(),
        line_views(final(sbs).spec_lines()) == line_views(old(sbs).spec_lines())
            + detail_account_lines(t@, accounts@, width as int),
{
    let ghost v0 = line_views(sbs.spec_lines());
    let ghost al = detail_account_lines(t@, accounts@, width as int);
    let name1 = match t.account_1(accounts) {
        Ok(a) => a.name,
        Err(_) => {
            proof {
                reveal_strlit("Unknown Account");
            }
            String::from_str("Unknown Account")
        },
    };
    let ghost name1v = name1@;
    let no_styles: Vec<Style> = Vec::new();
    let mut purple_styles: Vec<Style> = Vec::new();
    purple_styles.push(Style::Purple);
    match t.account_2(accounts) {
        Ok(acc2) => {
            let ghost a2v = acc2;
            if acc2.category {
                proof {
                    reveal_strlit("Account:");
                    reveal_strlit("Category: ");
                }
                add_wrapped(sbs, String::from_str("Account:"), width, &no_styles);
                add_wrapped(sbs, name1, width, &purple_styles);
                let mut catline = String::from_str("Category: ");
                catline.append(acc2.name.as_str());
                let ghost catv = catline@;
                add_wrapped(sbs, catline, width, &no_styles);
                proof {
                    assert(catv =~= "Category: "@ + a2v.name@);
                    assert(al == wrap_chunks("Account:"@, width as int) + wrap_chunks(
                        name1v,
                        width as int,
                    ) + wrap_chunks(catv, width as int));
                    assert(line_views(sbs.spec_lines()) =~= v0 + al);
                }
            } else {
                proof {
                    reveal_strlit("From Account:");
                    reveal_strlit("To Account:");
                }
                add_wrapped(sbs, String::from_str("From Account:"), width, &no_styles);
                add_wrapped(sbs, name1, width, &purple_styles);
                add_wrapped(sbs, String::from_str("To Account:"), width, &no_styles);
                add_wrapped(sbs, acc2.name, width, &purple_styles);
                proof {
                    assert(al == wrap_chunks("From Account:"@, width as int) + wrap_chunks(
                        name1v,
                        width as int,
                    ) + wrap_chunks("To Account:"@, width as int) + wrap_chunks(
                        a2v.name@,
                        width as int,
                    ));
                    assert(line_views(sbs.spec_lines()) =~= v0 + al);
                }
            }
        },
        Err(_) => {
            proof {
                reveal_strlit("<Category/Account name not found>");
            }
            let nf = ColouredString::from_str("<Category/Account name not found>");
            let ghost nfv = nf@;
            let ghost before = line_views(sbs.spec_lines());
            sbs.add_line(nf);
            proof {
                assert(al =~= seq!["<Category/Account name not found>"@]);
                assert(line_views(sbs.spec_lines()) =~= before.push(nfv));
                assert(before.push(nfv) =~= v0 + al);
            }
        },
    }
}

/// Appends every line of one listed transaction to the panel: a divider, the
/// wrapped reference with the amount placed on or after its last line, the
/// counterpart-account lines, the date, and the wrapped notes.
#[verifier::rlimit(50)]
fn append_detail_block(
    sbs: &mut SideBySide,
    t: &Transaction,
    accounts: &Vec<Account>,
    highlighted: bool,
    signed_with_colour: bool,
    brackets_when_neg: bool,
    width: usize,
    Ghost(dp): Ghost<DetailParams>,
)
    requires
        old(sbs).wf(),
        dp.width == width as int,
        dp.sign == signed_with_colour,
        dp.brackets == brackets_when_neg,
        1 <= width <= 1000,
        MIN_DAY_NUMBER <= t@.date <= MAX_DAY_NUMBER,
        t@.reference.len() <= 0x3fff_ffff,
        t@.notes.len() <= 0x3fff_ffff,
    ensures
        final(sbs).wf(),
        final(sbs).spec_width() == old(sbs).spec_width(),
        line_views(final(sbs).spec_lines()) == line_views(old(sbs).spec_lines())
            + detail_block_lines(t@, accounts@, dp),
{
    let ghost v0 = line_views(sbs.spec_lines());
    let ghost block = detail_block_lines(t@, accounts@, dp);
    proof {
        reveal_strlit("----------------");
    }
    let divline = ColouredString::from_string(
        truncate(String::from_str("----------------"), width),
    );
    let ghost divv = divline@;
    sbs.add_line(divline);
    let ghost div = truncate_chars("----------------"@, dp.width);
    proof {
        assert(line_views(sbs.spec_lines()) =~= v0.push(divv));
        assert(v0.push(divv) =~= v0 + seq![div]);
    }
    append_ref_lines(
        sbs,
        t,
        highlighted,
        signed_with_colour,
        brackets_when_neg,
        width,
        Ghost(dp),
    );
    append_account_lines(sbs, t, accounts, width);
    proof {
        reveal_strlit("Date: ");
        reveal_strlit("Notes:");
    }
    let mut dstr = String::from_str("Date: ");
    let iso = crate::dates::iso_date_label(t.date());
    dstr.append(iso.as_str());
    let ghost dsv = dstr@;
    let no_styles: Vec<Style> = Vec::new();
    add_wrapped(sbs, dstr, width, &no_styles);
    add_wrapped(sbs, String::from_str("Notes:"), width, &no_styles);
    add_wrapped(sbs, t.notes(), width, &no_styles);
    proof {
        let rl = detail_ref_lines(t@, dp);
        let al = detail_account_lines(t@, accounts@, dp.width);
        assert(dsv =~= "Date: "@ + iso_date_chars(t@.date as int));
        assert(block == seq![div] + rl + al + wrap_chunks(
            "Date: "@ + iso_date_chars(t@.date as int),
            dp.width,
        ) + wrap_chunks("Notes:"@, dp.width) + wrap_chunks(t@.notes, dp.width));
        assert(line_views(sbs.spec_lines()) =~= v0 + block);
    }
}

/// A strictly increasing sequence of positions below `m` has at most `m`
/// elements.
proof fn lemma_increasing_indices(sq: Seq<int>, m: int)
    requires
        0 <= m,
        forall|a: int, b: int| 0 <= a < b < sq.len() ==> sq[a] < sq[b],
        forall|a: int| 0 <= a < sq.len() ==> 0 <= #[trigger] sq[a] < m,
    ensures
        sq.len() <= m,
    decreases sq.len(),
{
    if sq.len() > 0 {
        assert(0 <= sq[sq.len() - 1] < m);
        let d = sq.drop_last();
        assert forall|a: int, b: int| 0 <= a < b < d.len() implies d[a] < d[b] by {
            assert(d[a] == sq[a]);
            assert(d[b] == sq[b]);
        }
        assert forall|a: int| 0 <= a < d.len() implies 0 <= #[trigger] d[a] < sq.last() by {
            assert(d[a] == sq[a]);
            assert(sq[a] < sq[sq.len() - 1]);
        }
        lemma_increasing_indices(d, sq.last());
        assert(sq.len() == d.len() + 1);
    }
}

/// The view-level parameters of a day-detail call.
pub open spec fn detail_params(
    width: int,
    sign: bool,
    brackets: bool,
    ids: Seq<u32>,
    date: int,
) -> DetailParams {
    DetailParams { width, sign, brackets, ids, date }
}

/// Renders the day-detail pane for the highlighted date: the heading, the
/// closing balance, and every transaction on that date that touches the
/// visible set, each with reference, amount, counterpart account, date and
/// notes. Also returns a copy of the transaction at `highlight_index` (when
/// that index selects one) and the count of listed transactions, for the
/// caller's selection wraparound. Every line of the pane is pinned by
/// [`detail_lines`].
#[verifier::rlimit(50)]
pub fn render_day_submenu(
    highlight_index: isize,
    cal_highlight_index: i64,
    cal_this_index: i64,
    today_days: i64,
    signed_with_colour: bool,
    brackets_when_neg: bool,
    transactions: &Vec<Transaction>,
    visible_accounts: &Vec<Account>,
    accounts: &Vec<Account>,
    width: usize,
) -> (r: (SideBySide, Option<Transaction>, isize))
    requires
        1 <= width <= 1000,
        -0x1000_0000 <= cal_highlight_index <= 0x1000_0000,
        -0x1000_0000 <= cal_this_index <= 0x1000_0000,
        MIN_DAY_NUMBER <= today_days <= MAX_DAY_NUMBER,
        MIN_DAY_NUMBER <= today_days - cal_this_index + cal_highlight_index <= MAX_DAY_NUMBER,
        forall|i: int|
            0 <= i < transactions@.len() ==> MIN_DAY_NUMBER <= (#[trigger] tviews(
                transactions@,
            )[i]).date <= MAX_DAY_NUMBER,
        forall|i: int|
            0 <= i < transactions@.len() ==> (#[trigger] tviews(transactions@)[i]).reference.len()
                <= 0x3fff_ffff && tviews(transactions@)[i].notes.len() <= 0x3fff_ffff,
        2 * sum_abs(tviews(transactions@)) <= i64::MAX,
        transactions@.len() <= 0x7fff_ffff,
    ensures
        r.0.wf(),
        r.0.spec_width() == 32,
        line_views(r.0.spec_lines()) == detail_lines(
            tviews(transactions@),
            accounts@,
            detail_params(
                width as int,
                signed_with_colour,
                brackets_when_neg,
                acc_ids(visible_accounts@),
                today_days - cal_this_index + cal_highlight_index,
            ),
        ),
        r.2 as int == day_matches(
            tviews(transactions@),
            detail_params(
                width as int,
                signed_with_colour,
                brackets_when_neg,
                acc_ids(visible_accounts@),
                today_days - cal_this_index + cal_highlight_index,
            ),
        ).len(),
        ({
            let matches = day_matches(
                tviews(transactions@),
                detail_params(
                    width as int,
                    signed_with_colour,
                    brackets_when_neg,
                    acc_ids(visible_accounts@),
                    today_days - cal_this_index + cal_highlight_index,
                ),
            );
            match r.1 {
                Some(t) => 0 <= highlight_index && (highlight_index as int) < matches.len()
                    && t@ == tviews(transactions@)[matches[highlight_index as int]],
                None => !(0 <= highlight_index && (highlight_index as int) < matches.len()),
            }
        }),
{
    let hd: i64 = today_days - cal_this_index + cal_highlight_index;
    let ghost vts = tviews(transactions@);
    let ghost dp = detail_params(
        width as int,
        signed_with_colour,
        brackets_when_neg,
        acc_ids(visible_accounts@),
        hd as int,
    );
    let accs = acc_ids_from(visible_accounts);
    let cells = bucket_transactions(transactions, &accs, 1, 0, hd, 0);
    proof {
        assert(day_space(dp.ids, dp.date) == (CellSpace {
            ids: accs@,
            today_index: 0 as i64 as int,
            today_days: hd as int,
            zero_index: 0 as i64 as int,
        }));
        assert(usizes_to_ints(cells@[0]@) == day_matches(vts, dp));
        lemma_cell_indices_range(vts, day_space(dp.ids, dp.date), 0);
    }
    let matches_vec = &cells[0];
    proof {
        assert forall|k: int| 0 <= k < matches_vec@.len() implies (#[trigger] matches_vec@[k])
            < transactions@.len() by {
            assert(usizes_to_ints(matches_vec@)[k] == matches_vec@[k] as int);
            assert(0 <= day_matches(vts, dp)[k] < vts.len());
        }
        lemma_increasing_indices(day_matches(vts, dp), vts.len() as int);
        assert(day_matches(vts, dp).len() <= transactions@.len());
    }
    let num = matches_vec.len();
    let mut sbs = SideBySide::new(32);
    let no_styles: Vec<Style> = Vec::new();
    let mut heading_styles: Vec<Style> = Vec::new();
    heading_styles.push(Style::Bold);
    heading_styles.push(Style::Black);
    heading_styles.push(Style::OnWhite);
    let mut italic_styles: Vec<Style> = Vec::new();
    italic_styles.push(Style::Italic);
    let blank = ColouredString::new();
    let ghost blankv = blank@;
    sbs.add_line(blank);
    proof {
        assert(line_views(sbs.spec_lines()) =~= Seq::<Seq<char>>::empty().push(blankv));
        reveal_strlit("Detailed Transactions for");
        reveal_strlit("Closing balance:");
        reveal_strlit("Transactions:");
    }
    add_wrapped(&mut sbs, String::from_str("Detailed Transactions for"), width, &no_styles);
    add_wrapped(&mut sbs, full_date_label(hd), width, &heading_styles);
    add_wrapped(&mut sbs, String::from_str("Closing balance:"), width, &no_styles);
    let closing = get_closing_balance(hd, transactions, visible_accounts);
    let cbal = pence_to_pound_colour_bg(closing, signed_with_colour, brackets_when_neg);
    let ghost cbalv = cbal@;
    let ghost before_bal = line_views(sbs.spec_lines());
    sbs.add_line(cbal);
    proof {
        assert(line_views(sbs.spec_lines()) =~= before_bal.push(cbalv));
    }
    add_wrapped(&mut sbs, String::from_str("Transactions:"), width, &italic_styles);
    proof {
        assert(line_views(sbs.spec_lines()) =~= detail_intro_lines(vts, dp));
    }
    let mut selected: Option<Transaction> = None;
    let mut j: usize = 0;
    while j < num
        invariant
            j <= num,
            num == matches_vec@.len(),
            num == day_matches(vts, dp).len(),
            num <= 0x7fff_ffff,
            cells@.len() == 1,
            matches_vec@ == cells@[0]@,
            usizes_to_ints(matches_vec@) == day_matches(vts, dp),
            forall|k: int|
                0 <= k < matches_vec@.len() ==> (#[trigger] matches_vec@[k])
                    < transactions@.len(),
            sbs.wf(),
            sbs.spec_width() == 32,
            vts == tviews(transactions@),
            dp == detail_params(
                width as int,
                signed_with_colour,
                brackets_when_neg,
                acc_ids(visible_accounts@),
                hd as int,
            ),
            1 <= width <= 1000,
            transactions@.len() <= 0x7fff_ffff,
            forall|i: int|
                0 <= i < vts.len() ==> MIN_DAY_NUMBER <= (#[trigger] vts[i]).date
                    <= MAX_DAY_NUMBER,
            forall|i: int|
                0 <= i < vts.len() ==> (#[trigger] vts[i]).reference.len() <= 0x3fff_ffff
                    && vts[i].notes.len() <= 0x3fff_ffff,
            line_views(sbs.spec_lines()) == detail_intro_lines(vts, dp) + detail_blocks_upto(
                vts,
                accounts@,
                dp,
                j as int,
            ),
            match selected {
                Some(t) => 0 <= highlight_index && (highlight_index as int) < j && t@
                    == vts[day_matches(vts, dp)[highlight_index as int]],
                None => !(0 <= highlight_index && (highlight_index as int) < j),
            },
        decreases num - j,
    {
        let tidx = matches_vec[j];
        proof {
            assert(usizes_to_ints(matches_vec@)[j as int] == matches_vec@[j as int] as int);
            assert(day_matches(vts, dp)[j as int] == tidx as int);
            assert(vts[tidx as int] == transactions@[tidx as int]@);
        }
        let t = &transactions[tidx];
        let hl = (j as isize) == highlight_index;
        if hl {
            selected = Some(t.clone());
        }
        append_detail_block(
            &mut sbs,
            t,
            accounts,
            hl,
            signed_with_colour,
            brackets_when_neg,
            width,
            Ghost(dp),
        );
        proof {
            assert(detail_blocks_upto(vts, accounts@, dp, j + 1) == detail_blocks_upto(
                vts,
                accounts@,
                dp,
                j as int,
            ) + detail_block_lines(vts[day_matches(vts, dp)[j as int]], accounts@, dp));
            assert(line_views(sbs.spec_lines()) =~= detail_intro_lines(vts, dp)
                + detail_blocks_upto(vts, accounts@, dp, j + 1));
        }
        j = j + 1;
    }
    proof {
        assert(line_views(sbs.spec_lines()) == detail_lines(vts, accounts@, dp));
    }
    (sbs, selected, num as isize)
}

} // verus!
