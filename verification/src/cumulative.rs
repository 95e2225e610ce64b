//! The chain of cumulative profits in the ledger: each row that has its
//! outcome carries the cumulative profit of the last such row before it,
//! plus its own profit.

use crate::types::LedgerRowView;
use vstd::prelude::*;

verus! {

/// Whether a row has its outcome: it is no longer pending.
pub open spec fn is_terminal(row: LedgerRowView) -> bool {
    row.result != "pending"@
}

/// The cumulative profit of the last terminal row before place `i`; zero
/// where there is none.
pub open spec fn carried(rows: Seq<LedgerRowView>, i: int) -> int
    decreases i,
{
    if i <= 0 {
        0
    } else if is_terminal(rows[i - 1]) {
        rows[i - 1].cumulative_cents as int
    } else {
        carried(rows, i - 1)
    }
}

/// Whether each terminal row's cumulative profit is that of the terminal
/// row before it plus its own profit.
pub open spec fn chained(rows: Seq<LedgerRowView>) -> bool {
    forall|i: int|
        0 <= i < rows.len() && is_terminal(#[trigger] rows[i]) ==> rows[i].cumulative_cents
            == carried(rows, i) + rows[i].pnl_cents
}

/// Whether `v` fits in a signed 64-bit number.
pub open spec fn in_range(v: int) -> bool {
    i64::MIN <= v <= i64::MAX
}

/// The rows after the pending row at place `k` got its outcome: the row has
/// the result and the profit, and carries the cumulative profit of the last
/// terminal row before it plus its profit. The rows before it stay, and so
/// does every row after it that is still pending, cell for cell: such a row
/// takes what is carried when it gets its own outcome.
///
/// A terminal row after it carries the profit too. This is a choice between
/// two things asked of the ledger: that a row changes once, when it gets its
/// outcome, and that each terminal row's cumulative profit is that of the
/// terminal row before it plus its own profit. Where a row gets its outcome
/// after a later row got its own, both cannot hold; the chain is kept, and
/// the later terminal rows change in their cumulative profit alone.
pub open spec fn closed_rows(
    rows: Seq<LedgerRowView>,
    k: int,
    result: Seq<char>,
    pnl: int,
) -> Seq<LedgerRowView> {
    Seq::new(
        rows.len(),
        |j: int|
            if j < k {
                rows[j]
            } else if j == k {
                LedgerRowView {
                    result,
                    pnl_cents: pnl as i64,
                    cumulative_cents: (carried(rows, k) + pnl) as i64,
                    ..rows[k]
                }
            } else if is_terminal(rows[j]) {
                LedgerRowView { cumulative_cents: (rows[j].cumulative_cents + pnl) as i64, ..rows[j] }
            } else {
                rows[j]
            },
    )
}

/// Whether the amounts of [`closed_rows`] fit in 64 bits.
pub open spec fn closing_fits_rows(rows: Seq<LedgerRowView>, k: int, pnl: int) -> bool {
    &&& in_range(pnl)
    &&& in_range(carried(rows, k) + pnl)
    &&& forall|j: int|
        k < j < rows.len() && is_terminal(#[trigger] rows[j]) ==> in_range(
            rows[j].cumulative_cents + pnl,
        )
}

/// When a row gets its outcome, it keeps its other cells, and no other row
/// changes but a terminal row after it, which changes in its cumulative
/// profit alone, and only where there is a profit. Every row before it and
/// every row that is still pending stays as it is.
pub proof fn lemma_closing_leaves_others(
    rows: Seq<LedgerRowView>,
    k: int,
    result: Seq<char>,
    pnl: int,
)
    requires
        0 <= k < rows.len(),
    ensures
        closed_rows(rows, k, result, pnl).len() == rows.len(),
        closed_rows(rows, k, result, pnl)[k] == (LedgerRowView {
            result,
            pnl_cents: pnl as i64,
            cumulative_cents: (carried(rows, k) + pnl) as i64,
            ..rows[k]
        }),
        forall|j: int|
            0 <= j < rows.len() && j != k && (j < k || !is_terminal(rows[j]) || pnl == 0)
                ==> #[trigger] closed_rows(rows, k, result, pnl)[j] == rows[j],
        forall|j: int|
            k < j < rows.len() && is_terminal(rows[j]) ==> #[trigger] closed_rows(
                rows,
                k,
                result,
                pnl,
            )[j] == (LedgerRowView {
                cumulative_cents: (rows[j].cumulative_cents + pnl) as i64,
                ..rows[j]
            }),
{
}

/// What is carried to a place depends on the rows before it alone.
pub proof fn lemma_carried_of_prefix(a: Seq<LedgerRowView>, b: Seq<LedgerRowView>, i: int)
    requires
        0 <= i <= a.len(),
        i <= b.len(),
        forall|j: int| 0 <= j < i ==> a[j] == b[j],
    ensures
        carried(a, i) == carried(b, i),
    decreases i,
{
    if i > 0 {
        lemma_carried_of_prefix(a, b, i - 1);
    }
}

/// After a pending row got its outcome, what is carried to a place up to
/// the row is what it was; what is carried to a place after it has grown by
/// the row's profit.
proof fn lemma_carried_after_closing(
    rows: Seq<LedgerRowView>,
    k: int,
    result: Seq<char>,
    pnl: int,
    j: int,
)
    requires
        0 <= k < rows.len(),
        !is_terminal(rows[k]),
        result != "pending"@,
        closing_fits_rows(rows, k, pnl),
        0 <= j <= rows.len(),
    ensures
        carried(closed_rows(rows, k, result, pnl), j) == if j <= k {
            carried(rows, j)
        } else {
            carried(rows, j) + pnl
        },
    decreases j,
{
    let new = closed_rows(rows, k, result, pnl);
    if j <= k {
        lemma_carried_of_prefix(new, rows, j);
    } else {
        lemma_carried_after_closing(rows, k, result, pnl, j - 1);
        if j - 1 > k && is_terminal(rows[j - 1]) {
            assert(in_range(rows[j - 1].cumulative_cents + pnl));
        }
    }
}

/// The chain of cumulative profits holds after a pending row got its
/// outcome, wherever the row stands and whatever rows follow it, if it held
/// before.
pub proof fn lemma_closing_keeps_chain(
    rows: Seq<LedgerRowView>,
    k: int,
    result: Seq<char>,
    pnl: int,
)
    requires
        chained(rows),
        0 <= k < rows.len(),
        !is_terminal(rows[k]),
        result != "pending"@,
        closing_fits_rows(rows, k, pnl),
    ensures
        chained(closed_rows(rows, k, result, pnl)),
        closed_rows(rows, k, result, pnl)[k].cumulative_cents == carried(rows, k) + pnl,
{
    let new = closed_rows(rows, k, result, pnl);
    assert forall|i: int| 0 <= i < new.len() && is_terminal(#[trigger] new[i]) implies new[i].cumulative_cents
        == carried(new, i) + new[i].pnl_cents by {
        lemma_carried_after_closing(rows, k, result, pnl, i);
        if i != k {
            assert(is_terminal(rows[i]));
            if i > k {
                assert(in_range(rows[i].cumulative_cents + pnl));
            }
        }
    }
}

/// The chain of cumulative profits holds after a pending row was added at
/// the end, whatever the row holds, if it held before.
pub proof fn lemma_append_keeps_chain(rows: Seq<LedgerRowView>, row: LedgerRowView)
    requires
        chained(rows),
        !is_terminal(row),
    ensures
        chained(rows.push(row)),
{
    let new = rows.push(row);
    assert forall|i: int| 0 <= i < new.len() && is_terminal(#[trigger] new[i]) implies new[i].cumulative_cents
        == carried(new, i) + new[i].pnl_cents by {
        assert(new[i] == rows[i]);
        lemma_carried_of_prefix(new, rows, i);
    }
}

/// No row of an empty ledger breaks the chain.
pub proof fn lemma_empty_is_chained()
    ensures
        chained(Seq::<LedgerRowView>::empty()),
{
}

} // verus!
