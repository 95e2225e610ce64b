//! The ledger: one pipe-delimited line per order, appended when the order is
//! placed and rewritten once when its outcome is known. Every function here
//! maps the text of the ledger to rows, or to the text that replaces it.

use crate::cumulative::chained;
use crate::decimal::{
    decimal_of, parse_i64, parse_signed, parse_u32, parse_unsigned, push_decimal,
    push_signed_decimal, signed_decimal_of,
};
use crate::ledger_laws::{
    exited_rows, lemma_abandonment_rows, lemma_append_adds_one_row, lemma_cancellation_rows,
    lemma_exit_rows, lemma_settlement_rows, settled_rows, unprofitable_rows,
};
use crate::text::{
    chars_of, contains_chars, extend_chars, extend_str, has_infix, has_prefix, is_space,
    is_space_char, is_tight, join_chars, join_with, lacks, lines_of, occurs_at, same_chars,
    same_text, split_chars, split_lines, split_on, starts_with_chars, string_of, trim_chars,
    trimmed, views,
};
use crate::types::{
    row_views, ExitEvent, ExitEventView, ExitReason, LedgerRow, LedgerRowView, Settlement,
    SettlementView,
};
use vstd::prelude::*;

verus! {

/// Why the ledger could not be rewritten.
#[derive(Debug, Clone, Copy, PartialEq, Eq, Structural)]
pub enum LedgerError {
    /// An amount of a rewritten line does not fit in 64 bits.
    AmountOutOfRange,
    /// The result is `pending`, or it cannot be written to a row and read
    /// back.
    ResultNotWritable,
}

/// Whether a line holds a row: it begins with a pipe and is neither a
/// separator nor the header.
pub open spec fn is_data_line(line: Seq<char>) -> bool {
    has_prefix(line, "|"@) && !has_infix(line, "---"@) && !has_infix(line, "Timestamp"@)
}

/// The cells of a line: what stands between its pipes, trimmed.
pub open spec fn columns(line: Seq<char>) -> Seq<Seq<char>> {
    let parts = split_on(line, '|');
    Seq::new(parts.len(), |i: int| trimmed(parts[i]))
}

/// The cell that holds the order id; rows written before there was one have
/// none.
pub open spec fn order_id_cell(cols: Seq<Seq<char>>) -> Seq<char> {
    if cols.len() >= 10 {
        cols[9]
    } else {
        Seq::empty()
    }
}

/// The row that a line holds: none unless it is a data line of at least
/// nine cells whose shares, price, profit and cumulative profit are numbers.
pub open spec fn parse_row(line: Seq<char>) -> Option<LedgerRowView> {
    let cols = columns(line);
    if !is_data_line(line) || cols.len() < 9 {
        None
    } else {
        match (
            parse_unsigned(cols[4], u32::MAX as nat),
            parse_unsigned(cols[5], u32::MAX as nat),
            parse_signed(cols[7], i64::MIN as int, i64::MAX as int),
            parse_signed(cols[8], i64::MIN as int, i64::MAX as int),
        ) {
            (Some(shares), Some(price), Some(pnl), Some(cumulative)) => Some(
                LedgerRowView {
                    timestamp: cols[1],
                    ticker: cols[2],
                    side: cols[3],
                    shares: shares as u32,
                    price: price as u32,
                    result: cols[6],
                    pnl_cents: pnl as i64,
                    cumulative_cents: cumulative as i64,
                    order_id: order_id_cell(cols),
                },
            ),
            _ => None,
        }
    }
}

/// The rows that the lines hold, in their order.
pub open spec fn rows_of(lines: Seq<Seq<char>>) -> Seq<LedgerRowView>
    decreases lines.len(),
{
    if lines.len() == 0 {
        Seq::empty()
    } else {
        match parse_row(lines.last()) {
            Some(row) => rows_of(lines.drop_last()).push(row),
            None => rows_of(lines.drop_last()),
        }
    }
}

/// The rows of a ledger.
pub open spec fn parse_ledger(content: Seq<char>) -> Seq<LedgerRowView> {
    rows_of(lines_of(content))
}

/// The number of data lines among the lines.
pub open spec fn data_lines(lines: Seq<Seq<char>>) -> nat
    decreases lines.len(),
{
    if lines.len() == 0 {
        0
    } else {
        data_lines(lines.drop_last()) + if is_data_line(lines.last()) {
            1nat
        } else {
            0nat
        }
    }
}

/// Whether the text has data lines but none of them holds a row, so that the
/// backup copy is to be read in its place.
pub open spec fn is_corrupt(content: Seq<char>) -> bool {
    data_lines(lines_of(content)) > 0 && parse_ledger(content).len() == 0
}

/// The cells in a run, each after a blank and before a blank and a pipe.
pub open spec fn cells(cols: Seq<Seq<char>>) -> Seq<char>
    decreases cols.len(),
{
    if cols.len() == 0 {
        Seq::empty()
    } else {
        cells(cols.drop_last()) + " "@ + cols.last() + " |"@
    }
}

/// The ledger line with the given cells.
pub open spec fn line_of(cols: Seq<Seq<char>>) -> Seq<char> {
    "|"@ + cells(cols)
}

/// The ledger line of a row.
pub open spec fn row_line(row: LedgerRowView) -> Seq<char> {
    line_of(
        seq![
            row.timestamp,
            row.ticker,
            row.side,
            decimal_of(row.shares as nat),
            decimal_of(row.price as nat),
            row.result,
            signed_decimal_of(row.pnl_cents as int),
            signed_decimal_of(row.cumulative_cents as int),
            row.order_id,
        ],
    )
}

/// The lines as one text, each ended by a line feed; an empty text is one
/// line feed.
pub open spec fn rejoin(lines: Seq<Seq<char>>) -> Seq<char> {
    join_with(lines, "\n"@) + "\n"@
}

/// Whether `v` fits in a signed 64-bit number.
pub open spec fn fits_i64(v: int) -> bool {
    i64::MIN <= v <= i64::MAX
}

/// The line with a new outcome: the first five cells and the order id stay,
/// the result, the profit and the cumulative profit are replaced.
pub open spec fn rewritten(
    cols: Seq<Seq<char>>,
    result: Seq<char>,
    pnl: int,
    cumulative: Seq<char>,
) -> Seq<char> {
    line_of(
        seq![
            cols[1],
            cols[2],
            cols[3],
            cols[4],
            cols[5],
            result,
            signed_decimal_of(pnl),
            cumulative,
            order_id_cell(cols),
        ],
    )
}

/// Which pending row is meant: that of a ticker, that of an order id, or,
/// with neither given, any.
pub struct Wanted {
    pub ticker: Option<Seq<char>>,
    pub order_id: Option<Seq<char>>,
}

/// Whether a row is pending and is the one meant: its ticker cell and its
/// order-id cell are exactly those asked for.
pub open spec fn is_wanted(row: LedgerRowView, wanted: Wanted) -> bool {
    &&& row.result == "pending"@
    &&& (wanted.ticker matches Some(t) ==> row.ticker == t)
    &&& (wanted.order_id matches Some(id) ==> row.order_id == id)
}

/// Any pending row.
pub open spec fn any_pending() -> Wanted {
    Wanted { ticker: None, order_id: None }
}

/// The pending row of an order.
pub open spec fn pending_order(order_id: Seq<char>) -> Wanted {
    Wanted { ticker: None, order_id: Some(order_id) }
}

/// The pending row of a market.
pub open spec fn pending_ticker(ticker: Seq<char>) -> Wanted {
    Wanted { ticker: Some(ticker), order_id: None }
}

/// The place of the last line that holds a row that is meant.
pub open spec fn last_wanted(lines: Seq<Seq<char>>, wanted: Wanted) -> Option<int>
    decreases lines.len(),
{
    if lines.len() == 0 {
        None
    } else if parse_row(lines.last()) matches Some(row) && is_wanted(row, wanted) {
        Some(lines.len() - 1)
    } else {
        last_wanted(lines.drop_last(), wanted)
    }
}

/// The cumulative profit of the last terminal row before line `i`; zero
/// where there is none.
pub open spec fn carried_to(lines: Seq<Seq<char>>, i: int) -> int
    decreases i,
{
    if i <= 0 {
        0
    } else {
        match parse_row(lines[i - 1]) {
            Some(row) => if row.result != "pending"@ {
                row.cumulative_cents as int
            } else {
                carried_to(lines, i - 1)
            },
            None => carried_to(lines, i - 1),
        }
    }
}

/// Whether a text can stand in a cell of a row and be read back: it has no
/// white space at its ends, no pipe and no line feed, and it does not make
/// the line a separator or a header.
pub open spec fn is_field(text: Seq<char>) -> bool {
    &&& is_tight(text)
    &&& lacks(text, '|')
    &&& lacks(text, '\n')
    &&& !has_infix(text, "---"@)
    &&& !has_infix(text, "Timestamp"@)
}

/// Whether a row can be written to the ledger and read back: each of its
/// texts can stand in a cell of a row.
pub open spec fn is_writable(row: LedgerRowView) -> bool {
    &&& is_field(row.timestamp)
    &&& is_field(row.ticker)
    &&& is_field(row.side)
    &&& is_field(row.result)
    &&& is_field(row.order_id)
}

/// Whether a text can be the result of a row that has its outcome: it can
/// stand in a cell of a row, and it is not `pending`.
pub open spec fn is_result(text: Seq<char>) -> bool {
    is_field(text) && text != "pending"@
}

/// Whether a text is empty or ends with a line feed, so that what is added
/// to it begins a new line.
pub open spec fn ends_lines(content: Seq<char>) -> bool {
    content.len() == 0 || content.last() == '\n'
}

/// What is added to a ledger to give it a row: the line of the row and a
/// line feed, after a line feed where the ledger does not end with one.
pub open spec fn appended_text(content: Seq<char>, row: LedgerRowView) -> Seq<char> {
    if ends_lines(content) {
        row_line(row) + "\n"@
    } else {
        "\n"@ + row_line(row) + "\n"@
    }
}

/// A pending line with its outcome: the result, the profit, and `total` as
/// the cumulative profit.
pub open spec fn closed_line(line: Seq<char>, result: Seq<char>, pnl: int, total: int) -> Seq<
    char,
> {
    rewritten(columns(line), result, pnl, signed_decimal_of(total))
}

/// Whether the line holds a row that has its outcome.
pub open spec fn holds_terminal(line: Seq<char>) -> bool {
    parse_row(line) matches Some(row) && row.result != "pending"@
}

/// A line after a row before it got a profit: where it holds a row that has
/// its outcome, the row's cumulative profit has grown by the profit. A line
/// whose row is still pending, a line that holds no row, and every line
/// where there is no profit stay as they are.
pub open spec fn shifted_line(line: Seq<char>, by: int) -> Seq<char> {
    if by != 0 && holds_terminal(line) {
        let row = parse_row(line)->0;
        rewritten(
            columns(line),
            row.result,
            row.pnl_cents as int,
            signed_decimal_of(row.cumulative_cents + by),
        )
    } else {
        line
    }
}

/// Whether the cumulative profit of [`shifted_line`] fits in 64 bits.
pub open spec fn shift_fits(line: Seq<char>, by: int) -> bool {
    by != 0 && holds_terminal(line) ==> fits_i64(parse_row(line)->0.cumulative_cents + by)
}

/// Whether every amount of [`closed_lines`] fits in 64 bits.
pub open spec fn closing_fits(lines: Seq<Seq<char>>, i: int, pnl: int) -> bool {
    &&& fits_i64(pnl)
    &&& fits_i64(carried_to(lines, i) + pnl)
    &&& forall|j: int| i < j < lines.len() ==> shift_fits(#[trigger] lines[j], pnl)
}

/// The lines after the pending row of line `i` got its outcome. The row
/// carries the cumulative profit of the last terminal row before it plus its
/// own profit; every terminal row after it carries the profit too, so that
/// the chain of cumulative profits goes on; all other lines stay.
pub open spec fn closed_lines(
    lines: Seq<Seq<char>>,
    i: int,
    result: Seq<char>,
    pnl: int,
) -> Seq<Seq<char>> {
    Seq::new(
        lines.len(),
        |j: int|
            if j < i {
                lines[j]
            } else if j == i {
                closed_line(lines[i], result, pnl, carried_to(lines, i) + pnl)
            } else {
                shifted_line(lines[j], pnl)
            },
    )
}

/// The profit of a settled row: the revenue less what the order cost.
pub open spec fn settlement_pnl(row: LedgerRowView, revenue: int) -> int {
    revenue - row.price * row.shares
}

/// The ledger after the row of line `i` got `result` and `pnl`, every line
/// ended by a line feed; none where the result cannot be written or an
/// amount does not fit in 64 bits.
pub open spec fn closed_content(lines: Seq<Seq<char>>, i: int, result: Seq<char>, pnl: int) -> Option<
    Seq<char>,
> {
    if is_result(result) && closing_fits(lines, i, pnl) {
        Some(rejoin(closed_lines(lines, i, result, pnl)))
    } else {
        None
    }
}

/// The ledger after a settlement: its last pending row gets the
/// settlement's result and the revenue less the order's cost as its profit.
/// Without a pending row only the line ends change.
pub open spec fn settled_content(content: Seq<char>, s: SettlementView) -> Option<Seq<char>> {
    let lines = lines_of(content);
    match last_wanted(lines, any_pending()) {
        Some(i) => closed_content(
            lines,
            i,
            s.result,
            settlement_pnl(parse_row(lines[i])->0, s.pnl_cents as int),
        ),
        None => Some(rejoin(lines)),
    }
}

/// The ledger after a cancellation: the last pending row of the order gets
/// the result `cancelled` and no profit.
pub open spec fn cancelled_content(content: Seq<char>, order_id: Seq<char>) -> Seq<char> {
    let lines = lines_of(content);
    match last_wanted(lines, pending_order(order_id)) {
        Some(i) => rejoin(closed_lines(lines, i, "cancelled"@, 0)),
        None => rejoin(lines),
    }
}

/// The ledger after its last pending row was given up: the row gets the
/// result `unknown` and no profit.
pub open spec fn abandoned_content(content: Seq<char>) -> Seq<char> {
    let lines = lines_of(content);
    match last_wanted(lines, any_pending()) {
        Some(i) => rejoin(closed_lines(lines, i, "unknown"@, 0)),
        None => rejoin(lines),
    }
}

/// The ledger after an early exit: the last pending row of the exit's
/// market gets the result `exit_` and the reason, and the exit's profit.
pub open spec fn exited_content(content: Seq<char>, exit: ExitEventView) -> Option<Seq<char>> {
    let lines = lines_of(content);
    match last_wanted(lines, pending_ticker(exit.ticker)) {
        Some(i) => closed_content(
            lines,
            i,
            "exit_"@ + exit.reason.word(),
            exit.pnl_cents as int,
        ),
        None => Some(rejoin(lines)),
    }
}

/// Decides [`is_data_line`].
fn holds_row(line: &Vec<char>) -> (b: bool)
    ensures
        b == is_data_line(line@),
{
    let pipe = chars_of("|");
    let dashes = chars_of("---");
    let header = chars_of("Timestamp");
    starts_with_chars(line, &pipe) && !contains_chars(line, &dashes) && !contains_chars(
        line,
        &header,
    )
}

/// The cells of a line.
fn columns_of(line: &Vec<char>) -> (cols: Vec<Vec<char>>)
    ensures
        views(cols@) == columns(line@),
{
    let parts = split_chars(line, '|');
    let mut cols: Vec<Vec<char>> = Vec::new();
    let mut i: usize = 0;
    while i < parts.len()
        invariant
            i <= parts.len(),
            views(parts@) == split_on(line@, '|'),
            views(cols@) == Seq::new(i as nat, |k: int| trimmed(split_on(line@, '|')[k])),
        decreases parts.len() - i,
    {
        let ghost before = cols@;
        let cell = trim_chars(&parts[i]);
        proof {
            assert(views(parts@)[i as int] == parts@[i as int]@);
        }
        cols.push(cell);
        i += 1;
        proof {
            assert(views(cols@) =~= views(before).push(cell@));
            assert(views(cols@) =~= Seq::new(
                i as nat,
                |k: int| trimmed(split_on(line@, '|')[k]),
            ));
        }
    }
    cols
}

/// The row that a line holds.
fn parse_line(line: &Vec<char>) -> (r: Option<LedgerRow>)
    ensures
        match r {
            Some(row) => parse_row(line@) == Some(row@),
            None => parse_row(line@) is None,
        },
{
    if !holds_row(line) {
        return None;
    }
    let cols = columns_of(line);
    if cols.len() < 9 {
        return None;
    }
    proof {
        assert forall|k: int| 0 <= k < cols.len() implies columns(line@)[k] == (#[trigger] cols@[k])@ by {
            assert(views(cols@)[k] == cols@[k]@);
        }
    }
    let shares = match parse_u32(&cols[4]) {
        Some(v) => v,
        None => {
            return None;
        },
    };
    let price = match parse_u32(&cols[5]) {
        Some(v) => v,
        None => {
            return None;
        },
    };
    let pnl_cents = match parse_i64(&cols[7]) {
        Some(v) => v,
        None => {
            return None;
        },
    };
    let cumulative_cents = match parse_i64(&cols[8]) {
        Some(v) => v,
        None => {
            return None;
        },
    };
    let order_id = if cols.len() >= 10 {
        string_of(&cols[9])
    } else {
        String::new()
    };
    Some(
        LedgerRow {
            timestamp: string_of(&cols[1]),
            ticker: string_of(&cols[2]),
            side: string_of(&cols[3]),
            shares,
            price,
            result: string_of(&cols[6]),
            pnl_cents,
            cumulative_cents,
            order_id,
        },
    )
}

/// Reads the rows of a ledger. Lines that hold no row (headers, separators,
/// damaged lines) are passed over.
pub fn parse_ledger_content(content: &str) -> (rows: Vec<LedgerRow>)
    ensures
        row_views(rows@) == parse_ledger(content@),
{
    let text = chars_of(content);
    let lines = split_lines(&text);
    let mut rows: Vec<LedgerRow> = Vec::new();
    let mut i: usize = 0;
    let ghost all = views(lines@);
    proof {
        assert(all.take(0) =~= Seq::<Seq<char>>::empty());
        assert(row_views(rows@) =~= rows_of(all.take(0)));
    }
    while i < lines.len()
        invariant
            i <= lines.len(),
            all == views(lines@),
            row_views(rows@) == rows_of(all.take(i as int)),
        decreases lines.len() - i,
    {
        let ghost before = rows@;
        proof {
            let next = all.take(i + 1);
            assert(next.drop_last() =~= all.take(i as int));
            assert(next.last() == lines@[i as int]@);
        }
        match parse_line(&lines[i]) {
            Some(row) => {
                rows.push(row);
                proof {
                    assert(row_views(rows@) =~= row_views(before).push(row@));
                }
            },
            None => {},
        }
        i += 1;
    }
    proof {
        assert(all.take(lines.len() as int) =~= all);
    }
    rows
}

/// Counts the data lines.
fn count_data_lines(lines: &Vec<Vec<char>>) -> (n: usize)
    ensures
        n == data_lines(views(lines@)),
{
    let mut n: usize = 0;
    let mut i: usize = 0;
    let ghost all = views(lines@);
    proof {
        assert(all.take(0) =~= Seq::<Seq<char>>::empty());
    }
    while i < lines.len()
        invariant
            i <= lines.len(),
            all == views(lines@),
            n == data_lines(all.take(i as int)),
            n <= i,
        decreases lines.len() - i,
    {
        proof {
            let next = all.take(i + 1);
            assert(next.drop_last() =~= all.take(i as int));
            assert(next.last() == lines@[i as int]@);
        }
        if holds_row(&lines[i]) {
            n += 1;
        }
        i += 1;
    }
    proof {
        assert(all.take(lines.len() as int) =~= all);
    }
    n
}

/// Whether the ledger text is damaged: it has data lines, and none of them
/// holds a row. The backup copy is then read in its place.
pub fn needs_backup(content: &str) -> (b: bool)
    ensures
        b == is_corrupt(content@),
{
    let text = chars_of(content);
    let lines = split_lines(&text);
    let n = count_data_lines(&lines);
    let rows = parse_ledger_content(content);
    n > 0 && rows.len() == 0
}

/// The rows of the ledger, read from the backup copy where the primary text
/// is damaged.
pub fn read_ledger(primary: &str, backup: &str) -> (rows: Vec<LedgerRow>)
    ensures
        row_views(rows@) == if is_corrupt(primary@) {
            parse_ledger(backup@)
        } else {
            parse_ledger(primary@)
        },
{
    if needs_backup(primary) {
        parse_ledger_content(backup)
    } else {
        parse_ledger_content(primary)
    }
}

/// Appends one cell to a line under construction.
fn push_cell(out: &mut Vec<char>, cols: Ghost<Seq<Seq<char>>>, cell: &Vec<char>)
    requires
        old(out)@ == line_of(cols@),
    ensures
        final(out)@ == line_of(cols@.push(cell@)),
{
    extend_str(out, " ");
    extend_chars(out, cell);
    extend_str(out, " |");
    proof {
        assert(cols@.push(cell@).drop_last() =~= cols@);
        assert(out@ =~= line_of(cols@.push(cell@)));
    }
}

/// The line with the given cells.
fn build_line(cols: &Vec<Vec<char>>) -> (line: Vec<char>)
    ensures
        line@ == line_of(views(cols@)),
{
    let mut line: Vec<char> = Vec::new();
    extend_str(&mut line, "|");
    let ghost all = views(cols@);
    let mut i: usize = 0;
    proof {
        assert(all.take(0) =~= Seq::<Seq<char>>::empty());
        assert(line@ =~= line_of(all.take(0)));
    }
    while i < cols.len()
        invariant
            i <= cols.len(),
            all == views(cols@),
            line@ == line_of(all.take(i as int)),
        decreases cols.len() - i,
    {
        push_cell(&mut line, Ghost(all.take(i as int)), &cols[i]);
        proof {
            assert(all.take(i as int).push(cols@[i as int]@) =~= all.take(i + 1));
        }
        i += 1;
    }
    proof {
        assert(all.take(cols.len() as int) =~= all);
    }
    line
}

/// The digits of an unsigned number.
fn decimal_cell(n: u32) -> (cell: Vec<char>)
    ensures
        cell@ == decimal_of(n as nat),
{
    let mut cell: Vec<char> = Vec::new();
    push_decimal(&mut cell, n as u64);
    proof {
        assert(cell@ =~= decimal_of(n as nat));
    }
    cell
}

/// The digits of a signed number.
fn signed_cell(i: i64) -> (cell: Vec<char>)
    ensures
        cell@ == signed_decimal_of(i as int),
{
    let mut cell: Vec<char> = Vec::new();
    push_signed_decimal(&mut cell, i);
    proof {
        assert(cell@ =~= signed_decimal_of(i as int));
    }
    cell
}

/// The ledger line of a row, without a line end.
pub fn format_row(row: &LedgerRow) -> (line: String)
    ensures
        line@ == row_line(row@),
{
    let mut cols: Vec<Vec<char>> = Vec::new();
    cols.push(chars_of(row.timestamp.as_str()));
    cols.push(chars_of(row.ticker.as_str()));
    cols.push(chars_of(row.side.as_str()));
    cols.push(decimal_cell(row.shares));
    cols.push(decimal_cell(row.price));
    cols.push(chars_of(row.result.as_str()));
    cols.push(signed_cell(row.pnl_cents));
    cols.push(signed_cell(row.cumulative_cents));
    cols.push(chars_of(row.order_id.as_str()));
    let line = build_line(&cols);
    proof {
        let r = row@;
        assert(views(cols@) =~= seq![
            r.timestamp,
            r.ticker,
            r.side,
            decimal_of(r.shares as nat),
            decimal_of(r.price as nat),
            r.result,
            signed_decimal_of(r.pnl_cents as int),
            signed_decimal_of(r.cumulative_cents as int),
            r.order_id,
        ]);
    }
    string_of(&line)
}

/// What is to be added to the ledger `content` to give it `row`: the line
/// of the row and a line feed, after a line feed where the ledger does not
/// end with one.
pub fn append_text(content: &str, row: &LedgerRow) -> (text: String)
    ensures
        text@ == appended_text(content@, row@),
{
    let ledger = chars_of(content);
    let mut out: Vec<char> = Vec::new();
    if ledger.len() > 0 && ledger[ledger.len() - 1] != '\n' {
        extend_str(&mut out, "\n");
    }
    let line = format_row(row);
    extend_str(&mut out, line.as_str());
    extend_str(&mut out, "\n");
    proof {
        assert(out@ =~= appended_text(content@, row@));
    }
    string_of(&out)
}

/// The ledger with `row` added at its end, on a line of its own. Where the
/// row can be written and read back, the ledger reads as its rows and that
/// row.
pub fn append_ledger(content: &str, row: &LedgerRow) -> (text: String)
    ensures
        text@ == content@ + appended_text(content@, row@),
        is_writable(row@) ==> parse_ledger(text@) == parse_ledger(content@).push(row@),
{
    proof {
        if is_writable(row@) {
            lemma_append_adds_one_row(content@, row@);
        }
    }
    let mut out = chars_of(content);
    let added = append_text(content, row);
    extend_str(&mut out, added.as_str());
    string_of(&out)
}

/// The lines as one text, each ended by a line feed.
fn rejoin_lines(lines: &Vec<Vec<char>>) -> (text: String)
    ensures
        text@ == rejoin(views(lines@)),
{
    let feed = chars_of("\n");
    let mut out = join_chars(lines, &feed);
    extend_chars(&mut out, &feed);
    string_of(&out)
}

/// What is carried fits in 64 bits.
pub proof fn lemma_carried_to_fits(lines: Seq<Seq<char>>, i: int)
    ensures
        fits_i64(carried_to(lines, i)),
    decreases i,
{
    if i > 0 {
        lemma_carried_to_fits(lines, i - 1);
    }
}

/// The row meant by a ticker and an order id, where they are given.
pub open spec fn wanted_of(ticker: Option<&str>, order_id: Option<&str>) -> Wanted {
    Wanted {
        ticker: match ticker {
            Some(t) => Some(t@),
            None => None,
        },
        order_id: match order_id {
            Some(id) => Some(id@),
            None => None,
        },
    }
}

/// Decides [`is_wanted`].
fn row_is_wanted(row: &LedgerRow, ticker: Option<&str>, order_id: Option<&str>) -> (b: bool)
    ensures
        b == is_wanted(row@, wanted_of(ticker, order_id)),
{
    if !same_text(row.result.as_str(), "pending") {
        return false;
    }
    let ticker_fits = match ticker {
        Some(t) => same_text(row.ticker.as_str(), t),
        None => true,
    };
    let order_fits = match order_id {
        Some(id) => same_text(row.order_id.as_str(), id),
        None => true,
    };
    ticker_fits && order_fits
}

/// The place of the last line that holds a row that is meant.
fn find_wanted(lines: &Vec<Vec<char>>, ticker: Option<&str>, order_id: Option<&str>) -> (r: Option<
    usize,
>)
    ensures
        match r {
            Some(i) => i < lines.len() && last_wanted(
                views(lines@),
                wanted_of(ticker, order_id),
            ) == Some(i as int) && parse_row(lines@[i as int]@) is Some,
            None => last_wanted(views(lines@), wanted_of(ticker, order_id)) is None,
        },
{
    let ghost all = views(lines@);
    let ghost wanted = wanted_of(ticker, order_id);
    let mut i: usize = lines.len();
    proof {
        assert(all.take(lines.len() as int) =~= all);
    }
    while i > 0
        invariant
            i <= lines.len(),
            all == views(lines@),
            wanted == wanted_of(ticker, order_id),
            last_wanted(all, wanted) == last_wanted(all.take(i as int), wanted),
        decreases i,
    {
        proof {
            let here = all.take(i as int);
            assert(here.drop_last() =~= all.take(i - 1));
            assert(here.last() == lines@[i - 1]@);
        }
        match parse_line(&lines[i - 1]) {
            Some(row) => {
                if row_is_wanted(&row, ticker, order_id) {
                    return Some(i - 1);
                }
            },
            None => {},
        }
        i -= 1;
    }
    None
}

/// The cumulative profit of the last terminal row before line `i`.
fn base_before(lines: &Vec<Vec<char>>, i: usize) -> (base: i64)
    requires
        i <= lines.len(),
    ensures
        base == carried_to(views(lines@), i as int),
{
    let ghost all = views(lines@);
    let mut k: usize = i;
    while k > 0
        invariant
            k <= i <= lines.len(),
            all == views(lines@),
            carried_to(all, i as int) == carried_to(all, k as int),
        decreases k,
    {
        proof {
            assert(all[k - 1] == lines@[k - 1]@);
        }
        match parse_line(&lines[k - 1]) {
            Some(row) => {
                if !same_text(row.result.as_str(), "pending") {
                    return row.cumulative_cents;
                }
            },
            None => {},
        }
        k -= 1;
    }
    0
}

/// Decides [`is_result`].
fn result_is_writable(text: &Vec<char>) -> (b: bool)
    ensures
        b == is_result(text@),
{
    let pending = chars_of("pending");
    field_is_writable(text) && !same_chars(text, &pending)
}

/// Whether a text can stand in a cell of a row and be read back.
pub fn is_writable_text(text: &str) -> (b: bool)
    ensures
        b == is_field(text@),
{
    field_is_writable(&chars_of(text))
}

/// Whether the row can be written to the ledger and read back.
pub fn row_is_writable(row: &LedgerRow) -> (b: bool)
    ensures
        b == is_writable(row@),
{
    is_writable_text(row.timestamp.as_str()) && is_writable_text(row.ticker.as_str())
        && is_writable_text(row.side.as_str()) && is_writable_text(row.result.as_str())
        && is_writable_text(row.order_id.as_str())
}

/// Decides [`is_field`].
fn field_is_writable(text: &Vec<char>) -> (b: bool)
    ensures
        b == is_field(text@),
{
    let n = text.len();
    if n > 0 && (is_space_char(text[0]) || is_space_char(text[n - 1])) {
        return false;
    }
    let mut i: usize = 0;
    while i < n
        invariant
            i <= n,
            n == text.len(),
            forall|k: int| 0 <= k < i ==> text@[k] != '|' && text@[k] != '\n',
        decreases n - i,
    {
        if text[i] == '|' || text[i] == '\n' {
            return false;
        }
        i += 1;
    }
    let dashes = chars_of("---");
    let header = chars_of("Timestamp");
    !contains_chars(text, &dashes) && !contains_chars(text, &header)
}

/// The line with a new outcome.
fn rewritten_cells(
    cols: &Vec<Vec<char>>,
    result: Vec<char>,
    pnl: i64,
    cumulative: Vec<char>,
) -> (line: Vec<char>)
    requires
        cols.len() >= 9,
    ensures
        line@ == rewritten(views(cols@), result@, pnl as int, cumulative@),
{
    let ghost all = views(cols@);
    proof {
        assert forall|k: int| 0 <= k < cols.len() implies all[k] == (#[trigger] cols@[k])@ by {}
    }
    let mut out: Vec<Vec<char>> = Vec::new();
    out.push(cols[1].clone());
    out.push(cols[2].clone());
    out.push(cols[3].clone());
    out.push(cols[4].clone());
    out.push(cols[5].clone());
    out.push(result);
    out.push(signed_cell(pnl));
    out.push(cumulative);
    let order_id = if cols.len() >= 10 {
        cols[9].clone()
    } else {
        Vec::new()
    };
    out.push(order_id);
    proof {
        assert(views(out@) =~= seq![
            all[1],
            all[2],
            all[3],
            all[4],
            all[5],
            result@,
            signed_decimal_of(pnl as int),
            cumulative@,
            order_id_cell(all),
        ]);
    }
    build_line(&out)
}

/// The line after a row before it got the profit `by`.
fn shift_line(line: &Vec<char>, by: i64) -> (r: Option<Vec<char>>)
    ensures
        match r {
            Some(out) => shift_fits(line@, by as int) && out@ == shifted_line(line@, by as int),
            None => !shift_fits(line@, by as int),
        },
{
    if by == 0 {
        return Some(line.clone());
    }
    match parse_line(line) {
        Some(row) => {
            if same_text(row.result.as_str(), "pending") {
                return Some(line.clone());
            }
            let total = match row.cumulative_cents.checked_add(by) {
                Some(v) => v,
                None => {
                    return None;
                },
            };
            let cols = columns_of(line);
            Some(
                rewritten_cells(
                    &cols,
                    chars_of(row.result.as_str()),
                    row.pnl_cents,
                    signed_cell(total),
                ),
            )
        },
        None => Some(line.clone()),
    }
}

/// The lines after the row of line `i` got its outcome.
fn close_lines(lines: &Vec<Vec<char>>, i: usize, result: &Vec<char>, pnl: i64) -> (r: Option<
    Vec<Vec<char>>,
>)
    requires
        i < lines.len(),
        parse_row(lines@[i as int]@) is Some,
    ensures
        match r {
            Some(out) => closing_fits(views(lines@), i as int, pnl as int) && views(out@)
                == closed_lines(views(lines@), i as int, result@, pnl as int),
            None => !closing_fits(views(lines@), i as int, pnl as int),
        },
{
    let ghost all = views(lines@);
    let ghost want = closed_lines(all, i as int, result@, pnl as int);
    let base = base_before(lines, i);
    let total = match base.checked_add(pnl) {
        Some(v) => v,
        None => {
            return None;
        },
    };
    let mut out: Vec<Vec<char>> = Vec::new();
    let mut j: usize = 0;
    while j < i
        invariant
            j <= i < lines.len(),
            all == views(lines@),
            want == closed_lines(all, i as int, result@, pnl as int),
            out@.len() == j,
            forall|k: int| 0 <= k < j ==> (#[trigger] out@[k])@ == want[k],
        decreases i - j,
    {
        proof {
            assert(all[j as int] == lines@[j as int]@);
        }
        out.push(lines[j].clone());
        j += 1;
    }
    let cols = columns_of(&lines[i]);
    proof {
        assert(all[i as int] == lines@[i as int]@);
    }
    out.push(rewritten_cells(&cols, result.clone(), pnl, signed_cell(total)));
    j = i + 1;
    while j < lines.len()
        invariant
            i < j <= lines.len(),
            all == views(lines@),
            want == closed_lines(all, i as int, result@, pnl as int),
            out@.len() == j,
            forall|k: int| 0 <= k < j ==> (#[trigger] out@[k])@ == want[k],
            forall|k: int| i < k < j ==> shift_fits(#[trigger] all[k], pnl as int),
        decreases lines.len() - j,
    {
        proof {
            assert(all[j as int] == lines@[j as int]@);
        }
        match shift_line(&lines[j], pnl) {
            Some(line) => {
                out.push(line);
            },
            None => {
                return None;
            },
        }
        j += 1;
    }
    proof {
        assert(views(out@) =~= want);
    }
    Some(out)
}

/// Settles the last pending row of the ledger. Its result becomes the
/// settlement's and its profit the settlement's revenue less the order's
/// cost. Its cumulative profit becomes that of the last terminal row before
/// it plus its profit, and every terminal row after it carries the profit
/// too; a row that is still pending stays as it is. The
/// text comes back with every line ended by a line feed, also when no row is
/// pending. Fails, changing nothing, where the result cannot be written to a
/// row or an amount does not fit in 64 bits.
pub fn settle_last_trade(content: &str, settlement: &Settlement) -> (r: Result<
    String,
    LedgerError,
>)
    ensures
        match r {
            Ok(text) => settled_content(content@, settlement@) == Some(text@),
            Err(e) => settled_content(content@, settlement@) is None && e == if is_result(
                settlement.result@,
            ) {
                LedgerError::AmountOutOfRange
            } else {
                LedgerError::ResultNotWritable
            },
        },
        r matches Ok(text) ==> parse_ledger(text@) == settled_rows(
            parse_ledger(content@),
            settlement@,
        ),
        r matches Ok(text) ==> (chained(parse_ledger(content@)) ==> chained(parse_ledger(text@))),
{
    proof {
        if settled_content(content@, settlement@) is Some {
            lemma_settlement_rows(content@, settlement@);
        }
    }
    let text = chars_of(content);
    let lines = split_lines(&text);
    match find_wanted(&lines, None, None) {
        Some(i) => {
            proof {
                assert(views(lines@)[i as int] == lines@[i as int]@);
            }
            let result = chars_of(settlement.result.as_str());
            if !result_is_writable(&result) {
                return Err(LedgerError::ResultNotWritable);
            }
            let row = match parse_line(&lines[i]) {
                Some(row) => row,
                None => {
                    return Err(LedgerError::AmountOutOfRange);
                },
            };
            assert(0 <= (row.price as i128) * (row.shares as i128) <= 0xffff_ffff_0000_0000)
                by (nonlinear_arith)
                requires
                    0 <= row.price <= 0xffff_ffff,
                    0 <= row.shares <= 0xffff_ffff,
            ;
            let pnl: i128 = settlement.pnl_cents as i128 - (row.price as i128) * (row.shares as i128);
            if pnl < i64::MIN as i128 || pnl > i64::MAX as i128 {
                return Err(LedgerError::AmountOutOfRange);
            }
            match close_lines(&lines, i, &result, pnl as i64) {
                Some(out) => Ok(rejoin_lines(&out)),
                None => Err(LedgerError::AmountOutOfRange),
            }
        },
        None => Ok(rejoin_lines(&lines)),
    }
}

/// Closes the row of line `i` without profit.
fn close_without_profit(lines: &Vec<Vec<char>>, i: usize, result: &str) -> (text: String)
    requires
        i < lines.len(),
        parse_row(lines@[i as int]@) is Some,
    ensures
        text@ == rejoin(closed_lines(views(lines@), i as int, result@, 0)),
{
    proof {
        lemma_carried_to_fits(views(lines@), i as int);
    }
    match close_lines(lines, i, &chars_of(result), 0) {
        Some(out) => rejoin_lines(&out),
        None => rejoin_lines(lines),
    }
}

/// Marks an order as cancelled: the last pending row whose order-id cell is
/// the order id gets the result `cancelled` and no profit, and carries the
/// cumulative profit of the last terminal row before it. The text comes back
/// with every line ended by a line feed, also when no row matches.
pub fn cancel_trade(content: &str, order_id: &str) -> (text: String)
    ensures
        text@ == cancelled_content(content@, order_id@),
        parse_ledger(text@) == unprofitable_rows(
            parse_ledger(content@),
            pending_order(order_id@),
            "cancelled"@,
        ),
        chained(parse_ledger(content@)) ==> chained(parse_ledger(text@)),
{
    proof {
        lemma_cancellation_rows(content@, order_id@);
    }
    let chars = chars_of(content);
    let lines = split_lines(&chars);
    match find_wanted(&lines, None, Some(order_id)) {
        Some(i) => {
            proof {
                assert(views(lines@)[i as int] == lines@[i as int]@);
            }
            close_without_profit(&lines, i, "cancelled")
        },
        None => rejoin_lines(&lines),
    }
}

/// Gives up the last pending row of the ledger as never settling: it gets
/// the result `unknown` and no profit, and carries the cumulative profit of
/// the last terminal row before it. The text comes back with every line
/// ended by a line feed, also when no row is pending.
pub fn abandon_last_trade(content: &str) -> (text: String)
    ensures
        text@ == abandoned_content(content@),
        parse_ledger(text@) == unprofitable_rows(parse_ledger(content@), any_pending(), "unknown"@),
        chained(parse_ledger(content@)) ==> chained(parse_ledger(text@)),
{
    proof {
        lemma_abandonment_rows(content@);
    }
    let chars = chars_of(content);
    let lines = split_lines(&chars);
    match find_wanted(&lines, None, None) {
        Some(i) => {
            proof {
                assert(views(lines@)[i as int] == lines@[i as int]@);
            }
            close_without_profit(&lines, i, "unknown")
        },
        None => rejoin_lines(&lines),
    }
}

/// Records an early exit: the last pending row whose ticker cell is the
/// exit's ticker gets the result `exit_` and the reason, and the exit's
/// profit. Its cumulative profit becomes that of the last terminal row
/// before it plus its profit, and every terminal row after it carries the
/// profit too; a row that is still pending stays as it is.
/// The text comes back with every line ended by a line feed, also when no
/// row matches. Fails, changing nothing, where an amount does not fit in 64
/// bits.
pub fn record_early_exit(content: &str, exit: &ExitEvent) -> (r: Result<String, LedgerError>)
    ensures
        match r {
            Ok(text) => exited_content(content@, exit@) == Some(text@),
            Err(e) => e == LedgerError::AmountOutOfRange && exited_content(content@, exit@)
                is None,
        },
        r matches Ok(text) ==> parse_ledger(text@) == exited_rows(parse_ledger(content@), exit@),
        r matches Ok(text) ==> (chained(parse_ledger(content@)) ==> chained(parse_ledger(text@))),
{
    proof {
        if exited_content(content@, exit@) is Some {
            lemma_exit_rows(content@, exit@);
        }
    }
    let chars = chars_of(content);
    let lines = split_lines(&chars);
    match find_wanted(&lines, Some(exit.ticker.as_str()), None) {
        Some(i) => {
            proof {
                assert(views(lines@)[i as int] == lines@[i as int]@);
                lemma_exit_result(exit.reason);
            }
            let mut result = chars_of("exit_");
            let reason = exit.reason.label();
            extend_str(&mut result, reason.as_str());
            match close_lines(&lines, i, &result, exit.pnl_cents) {
                Some(out) => Ok(rejoin_lines(&out)),
                None => Err(LedgerError::AmountOutOfRange),
            }
        },
        None => Ok(rejoin_lines(&lines)),
    }
}

/// The result of an early exit can be the result of a row.
pub proof fn lemma_exit_result(reason: ExitReason)
    ensures
        is_result("exit_"@ + reason.word()),
{
    reveal_strlit("exit_");
    reveal_strlit("take_profit");
    reveal_strlit("stop_loss");
    reveal_strlit("pending");
    reveal_strlit("---");
    reveal_strlit("Timestamp");
    let w = "exit_"@ + reason.word();
    let t = reason.word();
    assert(w[0] == 'e');
    assert("pending"@[0] == 'p');
    match reason {
        ExitReason::TakeProfit => {
            assert(t[0] == 't' && t[1] == 'a' && t[2] == 'k' && t[3] == 'e' && t[4] == '_' && t[5]
                == 'p' && t[6] == 'r' && t[7] == 'o' && t[8] == 'f' && t[9] == 'i' && t[10] == 't');
        },
        ExitReason::StopLoss => {
            assert(t[0] == 's' && t[1] == 't' && t[2] == 'o' && t[3] == 'p' && t[4] == '_' && t[5]
                == 'l' && t[6] == 'o' && t[7] == 's' && t[8] == 's');
        },
    }
    assert forall|i: int| 0 <= i < w.len() implies w[i] != '|' && w[i] != '\n' && !is_space(w[i])
        && w[i] != '-' && w[i] != 'T' by {
        if i >= 5 {
            assert(w[i] == t[i - 5]);
        } else {
            assert(w[i] == "exit_"@[i]);
        }
    }
    assert(w.last() == w[w.len() - 1]);
    assert(!has_infix(w, "---"@)) by {
        if has_infix(w, "---"@) {
            let at = choose|at: int| occurs_at(w, "---"@, at);
            assert(w.subrange(at, at + 3)[0] == '-');
        }
    }
    assert(!has_infix(w, "Timestamp"@)) by {
        if has_infix(w, "Timestamp"@) {
            let at = choose|at: int| occurs_at(w, "Timestamp"@, at);
            assert(w.subrange(at, at + 9)[0] == 'T');
        }
    }
}

} // verus!
