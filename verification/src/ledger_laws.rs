//! What holds of the ledger's text: a row that is written is read back, a
//! row added to the ledger is the one row that the ledger gains, and a row
//! that gets its outcome keeps the chain of cumulative profits.

use crate::cumulative::{
    carried, chained, closed_rows, closing_fits_rows, is_terminal, lemma_append_keeps_chain,
    lemma_carried_of_prefix, lemma_closing_keeps_chain,
};
use crate::decimal::{
    all_digits, decimal_of, is_digit, lemma_decimal_of, lemma_parse_signed_decimal_of,
    lemma_parse_unsigned_decimal_of, parse_signed, signed_decimal_of,
};
use crate::ledger::{
    abandoned_content, any_pending, appended_text, cancelled_content, carried_to, closed_content,
    closed_line, closed_lines, closing_fits, columns, ends_lines, exited_content, fits_i64,
    holds_terminal, is_data_line, is_field, is_result, is_wanted, is_writable, last_wanted,
    lemma_carried_to_fits, lemma_exit_result, line_of, order_id_cell, parse_ledger, parse_row,
    pending_order, pending_ticker, rejoin, rewritten, row_line, rows_of, settled_content,
    settlement_pnl, shift_fits, shifted_line, Wanted,
};
use crate::text::{
    has_infix, has_prefix, is_space, is_tight, join_with, lacks, lemma_infix_across,
    lemma_infix_of_infix, lemma_infix_push, lemma_pieces_are_infixes, lemma_split_join,
    lemma_split_on_append_plain, lemma_split_on_len, lemma_split_on_pieces,
    lemma_split_on_push_sep, lemma_trim_padded, lemma_trim_push_space, lemma_trimmed_is_infix,
    lemma_trimmed_is_tight, lines_of, occurs_at, split_on, strip_cr, trimmed,
};
use crate::types::{ExitEventView, LedgerRowView, SettlementView};
use vstd::prelude::*;

verus! {

/// Whether a text makes a line neither a separator nor a header: it holds
/// neither three dashes in a row nor the word `Timestamp`.
pub open spec fn is_plain(s: Seq<char>) -> bool {
    !has_infix(s, "---"@) && !has_infix(s, "Timestamp"@)
}

/// Whether every text is plain.
pub open spec fn all_plain(cols: Seq<Seq<char>>) -> bool {
    forall|i: int| 0 <= i < cols.len() ==> is_plain(#[trigger] cols[i])
}

/// What occurs in a line written from cells, and holds neither blank nor
/// pipe, occurs in one of the cells.
pub proof fn lemma_line_lacks_needle(cols: Seq<Seq<char>>, needle: Seq<char>)
    requires
        needle.len() > 0,
        lacks(needle, ' '),
        lacks(needle, '|'),
        forall|i: int| 0 <= i < cols.len() ==> !has_infix(#[trigger] cols[i], needle),
    ensures
        !has_infix(line_of(cols), needle),
    decreases cols.len(),
{
    reveal_strlit("|");
    reveal_strlit(" ");
    reveal_strlit(" |");
    let none = Seq::<char>::empty();
    assert(needle.last() == needle[needle.len() - 1]);
    assert(!has_infix(none, needle)) by {
        if has_infix(none, needle) {
            let at = choose|at: int| occurs_at(none, needle, at);
            assert(false);
        }
    }
    if cols.len() == 0 {
        assert(line_of(cols) =~= none.push('|'));
        lemma_infix_push(none, needle, '|');
    } else {
        let head = cols.drop_last();
        assert forall|i: int| 0 <= i < head.len() implies !has_infix(#[trigger] head[i], needle) by {
            assert(head[i] == cols[i]);
        }
        lemma_line_lacks_needle(head, needle);
        let x = line_of(head);
        let c = cols.last();
        assert(c == cols[cols.len() - 1]);
        let inner = x.push(' ') + c;
        assert(line_of(cols) =~= inner.push(' ').push('|'));
        lemma_infix_push(inner.push(' '), needle, '|');
        lemma_infix_push(inner, needle, ' ');
        if has_infix(inner, needle) {
            lemma_infix_across(x, ' ', c, needle);
        }
    }
}

/// A line written from plain cells is a data line.
pub proof fn lemma_line_is_data(cols: Seq<Seq<char>>)
    requires
        all_plain(cols),
    ensures
        is_data_line(line_of(cols)),
        is_plain(line_of(cols)),
{
    reveal_strlit("|");
    reveal_strlit("---");
    reveal_strlit("Timestamp");
    let line = line_of(cols);
    assert(line.subrange(0, 1) =~= "|"@);
    let dashes = "---"@;
    let header = "Timestamp"@;
    assert(lacks(dashes, ' ') && lacks(dashes, '|'));
    assert(lacks(header, ' ') && lacks(header, '|')) by {
        assert(header[0] == 'T' && header[1] == 'i' && header[2] == 'm' && header[3] == 'e'
            && header[4] == 's' && header[5] == 't' && header[6] == 'a' && header[7] == 'm'
            && header[8] == 'p');
    }
    assert forall|i: int| 0 <= i < cols.len() implies !has_infix(#[trigger] cols[i], dashes) by {
        assert(is_plain(cols[i]));
    }
    assert forall|i: int| 0 <= i < cols.len() implies !has_infix(#[trigger] cols[i], header) by {
        assert(is_plain(cols[i]));
    }
    lemma_line_lacks_needle(cols, dashes);
    lemma_line_lacks_needle(cols, header);
}

/// The cells of a plain line are plain.
pub proof fn lemma_cells_are_plain(line: Seq<char>)
    requires
        is_plain(line),
    ensures
        all_plain(columns(line)),
{
    let parts = split_on(line, '|');
    lemma_pieces_are_infixes(line, '|');
    assert forall|i: int| 0 <= i < columns(line).len() implies is_plain(
        #[trigger] columns(line)[i],
    ) by {
        let cell = columns(line)[i];
        lemma_trimmed_is_infix(parts[i]);
        assert(has_infix(line, parts[i]));
        if has_infix(cell, "---"@) {
            lemma_infix_of_infix(parts[i], cell, "---"@);
            lemma_infix_of_infix(line, parts[i], "---"@);
        }
        if has_infix(cell, "Timestamp"@) {
            lemma_infix_of_infix(parts[i], cell, "Timestamp"@);
            lemma_infix_of_infix(line, parts[i], "Timestamp"@);
        }
    }
}

/// A number as it is written is plain.
pub proof fn lemma_number_is_plain(i: int)
    ensures
        is_plain(signed_decimal_of(i)),
        i >= 0 ==> is_plain(decimal_of(i as nat)),
{
    reveal_strlit("---");
    reveal_strlit("Timestamp");
    let s = signed_decimal_of(i);
    assert(s.len() >= 1 && (s[0] == '-' || is_digit(s[0])) && forall|j: int|
        1 <= j < s.len() ==> is_digit(#[trigger] s[j])) by {
        if i < 0 {
            let d = decimal_of((-i) as nat);
            lemma_decimal_of((-i) as nat);
            assert forall|j: int| 1 <= j < s.len() implies is_digit(#[trigger] s[j]) by {
                assert(s[j] == d[j - 1]);
            }
        } else {
            lemma_decimal_of(i as nat);
        }
    }
    if has_infix(s, "---"@) {
        let at = choose|at: int| occurs_at(s, "---"@, at);
        let sub = s.subrange(at, at + 3);
        assert(sub[1] == '-');
        assert(is_digit(s[at + 1]));
    }
    if has_infix(s, "Timestamp"@) {
        let at = choose|at: int| occurs_at(s, "Timestamp"@, at);
        let sub = s.subrange(at, at + 9);
        assert(sub[0] == 'T');
        assert(s[at] == 'T');
        if at > 0 {
            assert(is_digit(s[at]));
        }
    }
}

/// Whether a text can stand in a cell and be read back: it has no white
/// space at its ends, no pipe and no line feed.
pub open spec fn is_cell(s: Seq<char>) -> bool {
    is_tight(s) && lacks(s, '|') && lacks(s, '\n')
}

/// Whether every text can stand in a cell.
pub open spec fn all_cells(cols: Seq<Seq<char>>) -> bool {
    forall|i: int| 0 <= i < cols.len() ==> is_cell(#[trigger] cols[i])
}

/// The cells with an empty cell before and after them.
pub open spec fn framed(cols: Seq<Seq<char>>) -> Seq<Seq<char>> {
    seq![Seq::<char>::empty()] + cols + seq![Seq::<char>::empty()]
}

/// The cells, each with a blank before and after it, between two empty
/// pieces.
pub open spec fn padded(cols: Seq<Seq<char>>) -> Seq<Seq<char>> {
    framed(Seq::new(cols.len(), |i: int| seq![' '] + cols[i] + seq![' ']))
}

/// A line has no line feed where its cells have none.
pub proof fn lemma_line_lacks_feed(cols: Seq<Seq<char>>)
    requires
        all_cells(cols),
    ensures
        lacks(line_of(cols), '\n'),
        line_of(cols).len() > 0,
        line_of(cols).last() == '|',
        line_of(cols)[0] == '|',
    decreases cols.len(),
{
    reveal_strlit("|");
    reveal_strlit(" ");
    reveal_strlit(" |");
    if cols.len() > 0 {
        let head = cols.drop_last();
        assert(all_cells(head)) by {
            assert forall|i: int| 0 <= i < head.len() implies is_cell(#[trigger] head[i]) by {
                assert(head[i] == cols[i]);
            }
        }
        lemma_line_lacks_feed(head);
        let line = line_of(cols);
        let c = cols.last();
        assert(is_cell(cols[cols.len() - 1]));
        assert(line =~= line_of(head) + " "@ + c + " |"@);
        assert forall|i: int| 0 <= i < line.len() implies line[i] != '\n' by {
            let n = line_of(head).len();
            if i < n {
                assert(line[i] == line_of(head)[i]);
            } else if i == n {
                assert(line[i] == ' ');
            } else if i < n + 1 + c.len() {
                assert(line[i] == c[i - n - 1]);
            } else if i == n + 1 + c.len() {
                assert(line[i] == ' ');
            } else {
                assert(line[i] == '|');
            }
        }
        assert(line[0] == line_of(head)[0]);
    } else {
        assert(line_of(cols) =~= "|"@);
    }
}

/// The pieces of a line between its pipes are its cells, each with a blank
/// before and after it, between two empty pieces.
pub proof fn lemma_split_line(cols: Seq<Seq<char>>)
    requires
        all_cells(cols),
    ensures
        split_on(line_of(cols), '|') == padded(cols),
    decreases cols.len(),
{
    reveal_strlit("|");
    reveal_strlit(" ");
    reveal_strlit(" |");
    let none = Seq::<char>::empty();
    if cols.len() == 0 {
        assert(line_of(cols) =~= none.push('|'));
        lemma_split_on_push_sep(none, '|');
        assert(split_on(none, '|') =~= seq![none]);
        assert(padded(cols) =~= seq![none].push(none));
    } else {
        let head = cols.drop_last();
        let c = cols.last();
        assert(is_cell(cols[cols.len() - 1]));
        assert(all_cells(head)) by {
            assert forall|i: int| 0 <= i < head.len() implies is_cell(#[trigger] head[i]) by {
                assert(head[i] == cols[i]);
            }
        }
        lemma_split_line(head);
        let x = line_of(head);
        let cell = seq![' '] + c + seq![' '];
        assert(lacks(cell, '|')) by {
            assert forall|i: int| 0 <= i < cell.len() implies cell[i] != '|' by {
                if 0 < i <= c.len() {
                    assert(cell[i] == c[i - 1]);
                }
            }
        }
        lemma_split_on_append_plain(x, cell, '|');
        lemma_split_on_push_sep(x + cell, '|');
        assert(line_of(cols) =~= (x + cell).push('|'));
        let before = padded(head);
        assert(before.last() == none);
        assert(none + cell =~= cell);
        assert(before.drop_last().push(cell).push(none) =~= padded(cols)) by {
            let left = before.drop_last().push(cell).push(none);
            let right = padded(cols);
            assert(left.len() == right.len());
            assert forall|i: int| 0 <= i < left.len() implies left[i] == right[i] by {
                if 0 < i < head.len() + 1 {
                    assert(left[i] == before[i]);
                    assert(head[i - 1] == cols[i - 1]);
                }
            }
        }
    }
}

/// The cells of a line that is written from cells are those cells, between
/// two empty ones.
pub proof fn lemma_columns_of_line(cols: Seq<Seq<char>>)
    requires
        all_cells(cols),
    ensures
        columns(line_of(cols)) == framed(cols),
{
    lemma_split_line(cols);
    let parts = split_on(line_of(cols), '|');
    let none = Seq::<char>::empty();
    let blank = seq![' '];
    assert forall|i: int| 0 <= i < parts.len() implies trimmed(parts[i]) == framed(cols)[i] by {
        if i == 0 || i == cols.len() + 1 {
            assert(parts[i] == none);
            lemma_trim_padded(none, none, none);
            assert(none + none + none =~= none);
        } else {
            assert(is_cell(cols[i - 1]));
            assert(parts[i] == blank + cols[i - 1] + blank);
            lemma_trim_padded(blank, cols[i - 1], blank);
        }
    }
    assert(columns(line_of(cols)) =~= framed(cols));
}

/// A digit is neither white space nor a pipe nor a line feed.
pub proof fn lemma_digits_are_cells(s: Seq<char>)
    requires
        s.len() > 0,
        all_digits(s),
    ensures
        is_cell(s),
        is_cell(seq!['-'] + s),
{
    assert(is_digit(s[0]) && is_digit(s[s.len() - 1]));
    assert forall|i: int| 0 <= i < s.len() implies s[i] != '|' && s[i] != '\n' by {
        assert(is_digit(s[i]));
    }
    let t = seq!['-'] + s;
    assert(t.last() == s[s.len() - 1]);
    assert forall|i: int| 0 <= i < t.len() implies t[i] != '|' && t[i] != '\n' by {
        if i > 0 {
            assert(t[i] == s[i - 1]);
        }
    }
}

/// The cells of a row's line.
pub open spec fn row_cells(row: LedgerRowView) -> Seq<Seq<char>> {
    seq![
        row.timestamp,
        row.ticker,
        row.side,
        decimal_of(row.shares as nat),
        decimal_of(row.price as nat),
        row.result,
        signed_decimal_of(row.pnl_cents as int),
        signed_decimal_of(row.cumulative_cents as int),
        row.order_id,
    ]
}

/// The texts of a writable row, and the numbers as they are written, can
/// stand in cells.
pub proof fn lemma_row_cells(row: LedgerRowView)
    requires
        is_writable(row),
    ensures
        all_cells(row_cells(row)),
        all_plain(row_cells(row)),
        row_line(row) == line_of(row_cells(row)),
        is_data_line(row_line(row)),
{
    lemma_decimal_of(row.shares as nat);
    lemma_digits_are_cells(decimal_of(row.shares as nat));
    lemma_decimal_of(row.price as nat);
    lemma_digits_are_cells(decimal_of(row.price as nat));
    lemma_signed_is_cell(row.pnl_cents as int);
    lemma_signed_is_cell(row.cumulative_cents as int);
    lemma_number_is_plain(row.shares as int);
    lemma_number_is_plain(row.price as int);
    lemma_number_is_plain(row.pnl_cents as int);
    lemma_number_is_plain(row.cumulative_cents as int);
    lemma_line_is_data(row_cells(row));
}

/// A signed number as it is written can stand in a cell.
pub proof fn lemma_signed_is_cell(i: int)
    ensures
        is_cell(signed_decimal_of(i)),
{
    if i < 0 {
        lemma_decimal_of((-i) as nat);
        lemma_digits_are_cells(decimal_of((-i) as nat));
    } else {
        lemma_decimal_of(i as nat);
        lemma_digits_are_cells(decimal_of(i as nat));
    }
}

/// A row that is written is read back: the line of a writable row holds
/// that row.
pub proof fn lemma_row_line_parses(row: LedgerRowView)
    requires
        is_writable(row),
    ensures
        parse_row(row_line(row)) == Some(row),
        lacks(row_line(row), '\n'),
        row_line(row).len() > 0,
        row_line(row).last() == '|',
{
    let cols = row_cells(row);
    lemma_row_cells(row);
    lemma_columns_of_line(cols);
    lemma_line_lacks_feed(cols);
    let line = row_line(row);
    let read = columns(line);
    assert(read.len() == 11);
    assert(read[1] == cols[0] && read[2] == cols[1] && read[3] == cols[2] && read[4] == cols[3]
        && read[5] == cols[4] && read[6] == cols[5] && read[7] == cols[6] && read[8] == cols[7]
        && read[9] == cols[8]);
    lemma_parse_unsigned_decimal_of(row.shares as nat, u32::MAX as nat);
    lemma_parse_unsigned_decimal_of(row.price as nat, u32::MAX as nat);
    lemma_parse_signed_decimal_of(row.pnl_cents as int, i64::MIN as int, i64::MAX as int);
    lemma_parse_signed_decimal_of(row.cumulative_cents as int, i64::MIN as int, i64::MAX as int);
}

/// The lines of a text to which a line and a line feed are added are the
/// lines of the text and the added line.
pub proof fn lemma_lines_of_appended(content: Seq<char>, line: Seq<char>)
    requires
        ends_lines(content),
        lacks(line, '\n'),
        line.len() > 0,
        line.last() != '\r',
    ensures
        lines_of(content + line + "\n"@) == lines_of(content).push(line),
{
    reveal_strlit("\n");
    let none = Seq::<char>::empty();
    let parts = split_on(content, '\n');
    lemma_split_on_len(content, '\n');
    assert(parts.last() == none) by {
        if content.len() > 0 {
            lemma_split_on_len(content.drop_last(), '\n');
        }
    }
    lemma_split_on_append_plain(content, line, '\n');
    lemma_split_on_push_sep(content + line, '\n');
    assert(content + line + "\n"@ =~= (content + line).push('\n'));
    assert(none + line =~= line);
    let after = split_on(content + line + "\n"@, '\n');
    assert(after == parts.drop_last().push(line).push(none));
    assert(lines_of(content) =~= Seq::new((parts.len() - 1) as nat, |i: int| strip_cr(parts[i])));
    assert(lines_of(content + line + "\n"@) =~= lines_of(content).push(line)) by {
        let left = lines_of(content + line + "\n"@);
        let right = lines_of(content).push(line);
        assert(left.len() == right.len());
        assert forall|i: int| 0 <= i < left.len() implies left[i] == right[i] by {
            if i < parts.len() - 1 {
                assert(after[i] == parts[i]);
            } else {
                assert(after[i] == line);
            }
        }
    }
}

/// A line feed added to a text that does not end with one leaves its rows
/// as they are.
pub proof fn lemma_feed_keeps_rows(content: Seq<char>)
    requires
        !ends_lines(content),
    ensures
        parse_ledger(content + "\n"@) == parse_ledger(content),
        ends_lines(content + "\n"@),
{
    reveal_strlit("\n");
    let parts = split_on(content, '\n');
    lemma_split_on_len(content, '\n');
    lemma_split_on_push_sep(content, '\n');
    assert(content + "\n"@ =~= content.push('\n'));
    assert(parts.last().len() > 0) by {
        lemma_split_on_len(content.drop_last(), '\n');
    }
    let before = lines_of(content);
    let after = lines_of(content + "\n"@);
    let head = Seq::new((parts.len() - 1) as nat, |i: int| strip_cr(parts[i]));
    assert(before =~= head.push(parts.last()));
    assert(after =~= head.push(strip_cr(parts.last())));
    assert(before.drop_last() =~= head);
    assert(after.drop_last() =~= head);
    lemma_parse_row_ignores_cr(parts.last());
}

/// A row added to the ledger is the one row that the ledger gains: the
/// rows of a ledger to which a writable row is added on a line of its own
/// are the rows of the ledger and that row, whatever the ledger.
pub proof fn lemma_append_adds_one_row(content: Seq<char>, row: LedgerRowView)
    requires
        is_writable(row),
    ensures
        parse_ledger(content + appended_text(content, row)) == parse_ledger(content).push(row),
{
    let base = if ends_lines(content) {
        content
    } else {
        content + "\n"@
    };
    if !ends_lines(content) {
        lemma_feed_keeps_rows(content);
    }
    assert(content + appended_text(content, row) =~= base + row_line(row) + "\n"@);
    lemma_row_line_parses(row);
    lemma_lines_of_appended(base, row_line(row));
    let lines = lines_of(base).push(row_line(row));
    assert(lines.drop_last() =~= lines_of(base));
}

/// The lines of a text hold no line feed.
pub proof fn lemma_lines_lack_feed(content: Seq<char>)
    ensures
        forall|i: int|
            0 <= i < lines_of(content).len() ==> lacks(#[trigger] lines_of(content)[i], '\n'),
{
    let parts = split_on(content, '\n');
    lemma_split_on_len(content, '\n');
    lemma_split_on_pieces(content, '\n');
    let lines = lines_of(content);
    assert forall|i: int| 0 <= i < lines.len() implies lacks(#[trigger] lines[i], '\n') by {
        assert(lacks(parts[i], '\n'));
        if i < parts.len() - 1 {
            let p = parts[i];
            assert forall|j: int| 0 <= j < strip_cr(p).len() implies strip_cr(p)[j] != '\n' by {
                assert(strip_cr(p)[j] == p[j]);
            }
        }
    }
}

/// A carriage return at the end of a line does not change the row that
/// the line holds.
pub proof fn lemma_parse_row_ignores_cr(line: Seq<char>)
    ensures
        parse_row(line.push('\r')) == parse_row(line),
        parse_row(strip_cr(line)) == parse_row(line),
{
    lemma_parse_row_ignores_cr_once(line);
    if line.len() > 0 && line.last() == '\r' {
        let m = line.drop_last();
        assert(m.push('\r') =~= line);
        lemma_parse_row_ignores_cr_once(m);
    }
}

/// One carriage return more at the end of a line does not change the row
/// that the line holds.
proof fn lemma_parse_row_ignores_cr_once(line: Seq<char>)
    ensures
        parse_row(line.push('\r')) == parse_row(line),
{
    reveal_strlit("|");
    reveal_strlit("---");
    reveal_strlit("Timestamp");
    let t = line.push('\r');
    assert(t.drop_last() =~= line);
    let head = split_on(line, '|');
    lemma_split_on_len(line, '|');
    let parts = split_on(t, '|');
    assert(parts == head.drop_last().push(head.last().push('\r')));
    lemma_trim_push_space(head.last(), '\r');
    assert(columns(t) =~= columns(line)) by {
        assert forall|i: int| 0 <= i < parts.len() implies trimmed(parts[i]) == trimmed(
            head[i],
        ) by {
            if i < head.len() - 1 {
                assert(parts[i] == head[i]);
            }
        }
    }
    lemma_infix_push(line, "|"@, '\r');
    lemma_infix_push(line, "---"@, '\r');
    lemma_infix_push(line, "Timestamp"@, '\r');
    assert(is_data_line(t) == is_data_line(line));
}

/// The rows of lines do not change when a carriage return is taken from
/// the end of each line.
pub proof fn lemma_rows_of_stripped(lines: Seq<Seq<char>>)
    ensures
        rows_of(Seq::new(lines.len(), |i: int| strip_cr(lines[i]))) == rows_of(lines),
    decreases lines.len(),
{
    let stripped = Seq::new(lines.len(), |i: int| strip_cr(lines[i]));
    if lines.len() > 0 {
        let head = lines.drop_last();
        lemma_rows_of_stripped(head);
        assert(stripped.drop_last() =~= Seq::new(head.len(), |i: int| strip_cr(head[i])));
        lemma_parse_row_ignores_cr(lines.last());
    }
}

/// Reading the lines undoes writing them, but for a carriage return at
/// the end of a line: the rows of the text made of lines, each ended by a
/// line feed, are the rows of those lines, if none of them holds a line
/// feed.
pub proof fn lemma_rows_of_rejoin(lines: Seq<Seq<char>>)
    requires
        forall|i: int| 0 <= i < lines.len() ==> lacks(#[trigger] lines[i], '\n'),
    ensures
        parse_ledger(rejoin(lines)) == rows_of(lines),
{
    reveal_strlit("\n");
    let feed = seq!['\n'];
    let none = Seq::<char>::empty();
    assert("\n"@ =~= feed);
    if lines.len() == 0 {
        assert(rejoin(lines) =~= none.push('\n'));
        lemma_split_on_push_sep(none, '\n');
        assert(split_on(none, '\n') =~= seq![none]);
        let read = lines_of(rejoin(lines));
        assert(read =~= seq![none]);
        assert(read.drop_last() =~= Seq::<Seq<char>>::empty());
        reveal_strlit("|");
        assert(!has_prefix(none, "|"@));
        assert(parse_row(read.last()) is None);
        assert(rows_of(read) == rows_of(read.drop_last()));
    } else {
        let joined = join_with(lines, feed);
        lemma_split_join(lines, '\n');
        lemma_split_on_push_sep(joined, '\n');
        assert(rejoin(lines) =~= joined.push('\n'));
        let parts = split_on(rejoin(lines), '\n');
        assert(parts == lines.push(none));
        let stripped = Seq::new(lines.len(), |i: int| strip_cr(lines[i]));
        assert(lines_of(rejoin(lines)) =~= stripped) by {
            let read = lines_of(rejoin(lines));
            assert(read.len() == lines.len());
            assert forall|i: int| 0 <= i < lines.len() implies read[i] == stripped[i] by {
                assert(parts[i] == lines[i]);
            }
        }
        lemma_rows_of_stripped(lines);
    }
}

/// The cells of a line can stand in cells again, where the line holds no
/// line feed.
pub proof fn lemma_columns_are_cells(line: Seq<char>)
    requires
        lacks(line, '\n'),
    ensures
        all_cells(columns(line)),
{
    let parts = split_on(line, '|');
    lemma_split_on_pieces(line, '|');
    assert forall|i: int| 0 <= i < columns(line).len() implies is_cell(
        #[trigger] columns(line)[i],
    ) by {
        assert(lacks(parts[i], '|'));
        assert(lacks(parts[i], '\n'));
        lemma_trimmed_is_tight(parts[i]);
    }
}

/// A rewritten line is read back: it holds the row of the line it was
/// written from, with the new result, profit and cumulative profit.
pub proof fn lemma_rewritten_parses(
    line: Seq<char>,
    row: LedgerRowView,
    result: Seq<char>,
    pnl: int,
    total: int,
)
    requires
        parse_row(line) == Some(row),
        lacks(line, '\n'),
        is_field(result),
        fits_i64(pnl),
        fits_i64(total),
    ensures
        parse_row(rewritten(columns(line), result, pnl, signed_decimal_of(total))) == Some(
            LedgerRowView {
                result,
                pnl_cents: pnl as i64,
                cumulative_cents: total as i64,
                ..row
            },
        ),
        lacks(rewritten(columns(line), result, pnl, signed_decimal_of(total)), '\n'),
{
    let cols = columns(line);
    let cumulative = signed_decimal_of(total);
    lemma_columns_are_cells(line);
    lemma_cells_are_plain(line);
    let new_cells = seq![
        cols[1],
        cols[2],
        cols[3],
        cols[4],
        cols[5],
        result,
        signed_decimal_of(pnl),
        cumulative,
        order_id_cell(cols),
    ];
    lemma_signed_is_cell(pnl);
    lemma_signed_is_cell(total);
    lemma_number_is_plain(pnl);
    lemma_number_is_plain(total);
    assert(is_field(order_id_cell(cols))) by {
        if cols.len() >= 10 {
            assert(is_cell(cols[9]) && is_plain(cols[9]));
        } else {
            let none = Seq::<char>::empty();
            reveal_strlit("---");
            reveal_strlit("Timestamp");
            if has_infix(none, "---"@) {
                let at = choose|at: int| occurs_at(none, "---"@, at);
                assert(false);
            }
            if has_infix(none, "Timestamp"@) {
                let at = choose|at: int| occurs_at(none, "Timestamp"@, at);
                assert(false);
            }
        }
    }
    assert(is_cell(cols[1]) && is_cell(cols[2]) && is_cell(cols[3]) && is_cell(cols[4])
        && is_cell(cols[5]));
    assert(is_plain(cols[1]) && is_plain(cols[2]) && is_plain(cols[3]) && is_plain(cols[4])
        && is_plain(cols[5]));
    assert(all_cells(new_cells));
    assert(all_plain(new_cells));
    let new_line = rewritten(cols, result, pnl, cumulative);
    assert(new_line == line_of(new_cells));
    lemma_columns_of_line(new_cells);
    lemma_line_lacks_feed(new_cells);
    lemma_line_is_data(new_cells);
    let read = columns(new_line);
    assert(read.len() == 11);
    assert(read[1] == cols[1] && read[2] == cols[2] && read[3] == cols[3] && read[4] == cols[4]
        && read[5] == cols[5] && read[6] == result && read[7] == signed_decimal_of(pnl)
        && read[8] == cumulative && read[9] == order_id_cell(cols));
    lemma_parse_signed_decimal_of(pnl, i64::MIN as int, i64::MAX as int);
    lemma_parse_signed_decimal_of(total, i64::MIN as int, i64::MAX as int);
}

/// A line that got its outcome is read back: it holds the row of the
/// pending line with the result, the profit and the cumulative profit.
pub proof fn lemma_closed_line_parses(
    line: Seq<char>,
    row: LedgerRowView,
    result: Seq<char>,
    pnl: int,
    total: int,
)
    requires
        parse_row(line) == Some(row),
        lacks(line, '\n'),
        is_result(result),
        fits_i64(pnl),
        fits_i64(total),
    ensures
        parse_row(closed_line(line, result, pnl, total)) == Some(
            LedgerRowView {
                result,
                pnl_cents: pnl as i64,
                cumulative_cents: total as i64,
                ..row
            },
        ),
        lacks(closed_line(line, result, pnl, total), '\n'),
{
    lemma_rewritten_parses(line, row, result, pnl, total);
}

/// The row that a line holds after a row before it got a profit: the row
/// that it held, with the cumulative profit grown by the profit where the
/// row has its outcome; a row that is still pending as it was.
pub open spec fn shifted_row(row: Option<LedgerRowView>, by: int) -> Option<LedgerRowView> {
    match row {
        Some(r) => Some(
            if is_terminal(r) {
                LedgerRowView { cumulative_cents: (r.cumulative_cents + by) as i64, ..r }
            } else {
                r
            },
        ),
        None => None,
    }
}

/// A line after a row that got a profit is read back: it holds the row
/// that it held, with the cumulative profit grown where the row has its
/// outcome; a line without a row still holds none.
pub proof fn lemma_shifted_line_parses(line: Seq<char>, by: int)
    requires
        lacks(line, '\n'),
        shift_fits(line, by),
    ensures
        parse_row(shifted_line(line, by)) == shifted_row(parse_row(line), by),
        lacks(shifted_line(line, by), '\n'),
{
    if by != 0 && holds_terminal(line) {
        match parse_row(line) {
            Some(row) => {
                lemma_columns_are_cells(line);
                lemma_cells_are_plain(line);
                assert(row.result == columns(line)[6]);
                assert(is_cell(columns(line)[6]) && is_plain(columns(line)[6]));
                lemma_rewritten_parses(
                    line,
                    row,
                    row.result,
                    row.pnl_cents as int,
                    row.cumulative_cents + by,
                );
            },
            None => {},
        }
    }
}

/// What is carried to a line is what is carried past the rows before it.
pub proof fn lemma_carried_to_rows(lines: Seq<Seq<char>>, i: int)
    requires
        0 <= i <= lines.len(),
    ensures
        carried_to(lines, i) == carried(
            rows_of(lines.take(i)),
            rows_of(lines.take(i)).len() as int,
        ),
    decreases i,
{
    if i > 0 {
        lemma_carried_to_rows(lines, i - 1);
        let here = lines.take(i);
        assert(here.drop_last() =~= lines.take(i - 1));
        assert(here.last() == lines[i - 1]);
        let before = rows_of(lines.take(i - 1));
        match parse_row(lines[i - 1]) {
            Some(row) => {
                lemma_carried_of_prefix(before.push(row), before, before.len() as int);
            },
            None => {},
        }
    }
}

/// The place of the last row that is meant.
pub open spec fn last_wanted_row(rows: Seq<LedgerRowView>, wanted: Wanted) -> Option<int>
    decreases rows.len(),
{
    if rows.len() == 0 {
        None
    } else if is_wanted(rows.last(), wanted) {
        Some(rows.len() - 1)
    } else {
        last_wanted_row(rows.drop_last(), wanted)
    }
}

/// The last row that is meant is a row, and is meant.
pub proof fn lemma_last_wanted_row(rows: Seq<LedgerRowView>, wanted: Wanted)
    ensures
        last_wanted_row(rows, wanted) matches Some(k) ==> 0 <= k < rows.len() && is_wanted(
            rows[k],
            wanted,
        ) && forall|j: int| k < j < rows.len() ==> !is_wanted(#[trigger] rows[j], wanted),
        last_wanted_row(rows, wanted) is None ==> forall|j: int|
            0 <= j < rows.len() ==> !is_wanted(#[trigger] rows[j], wanted),
    decreases rows.len(),
{
    if rows.len() > 0 && !is_wanted(rows.last(), wanted) {
        let head = rows.drop_last();
        lemma_last_wanted_row(head, wanted);
        assert forall|j: int| 0 <= j < rows.len() - 1 implies rows[j] == head[j] by {}
    }
}

/// The last line that holds a row that is meant holds the last row that is
/// meant: the text and the rows read from it name the same row.
pub proof fn lemma_last_wanted(lines: Seq<Seq<char>>, wanted: Wanted)
    ensures
        match last_wanted(lines, wanted) {
            Some(i) => {
                &&& 0 <= i < lines.len()
                &&& parse_row(lines[i]) matches Some(row) && is_wanted(row, wanted)
                &&& last_wanted_row(rows_of(lines), wanted) == Some(
                    rows_of(lines.take(i)).len() as int,
                )
            },
            None => last_wanted_row(rows_of(lines), wanted) is None,
        },
    decreases lines.len(),
{
    if lines.len() > 0 {
        let head = lines.drop_last();
        lemma_last_wanted(head, wanted);
        match parse_row(lines.last()) {
            Some(row) => {
                assert(rows_of(lines).drop_last() =~= rows_of(head));
                if is_wanted(row, wanted) {
                    assert(lines.take(lines.len() - 1) =~= head);
                }
            },
            None => {},
        }
        match last_wanted(head, wanted) {
            Some(i) => {
                assert(head.take(i) =~= lines.take(i));
                assert(head[i] == lines[i]);
            },
            None => {},
        }
    }
}

/// The rows of the first `n` lines after the row of line `i` got its
/// outcome: up to the line, the rows that were; from the line on, those
/// rows with the row closed and the later rows carrying its profit.
proof fn lemma_closed_rows_upto(
    lines: Seq<Seq<char>>,
    i: int,
    result: Seq<char>,
    pnl: int,
    n: int,
)
    requires
        0 <= i < lines.len(),
        forall|j: int| 0 <= j < lines.len() ==> lacks(#[trigger] lines[j], '\n'),
        parse_row(lines[i]) is Some,
        is_result(result),
        closing_fits(lines, i, pnl),
        0 <= n <= lines.len(),
    ensures
        ({
            let new = closed_lines(lines, i, result, pnl);
            let before = rows_of(lines.take(i));
            let k = before.len() as int;
            let rows = rows_of(lines.take(n));
            &&& n <= i ==> rows_of(new.take(n)) == rows
            &&& n > i ==> {
                &&& k < rows.len()
                &&& rows[k] == parse_row(lines[i])->0
                &&& forall|j: int| 0 <= j < k ==> rows[j] == before[j]
                &&& closing_fits_rows(rows, k, pnl)
                &&& carried(rows, k) == carried_to(lines, i)
                &&& rows_of(new.take(n)) == closed_rows(rows, k, result, pnl)
            }
        }),
    decreases n,
{
    let new = closed_lines(lines, i, result, pnl);
    let before = rows_of(lines.take(i));
    let k = before.len() as int;
    if n > 0 {
        lemma_closed_rows_upto(lines, i, result, pnl, n - 1);
        let m = n - 1;
        let rows = rows_of(lines.take(n));
        let prev = rows_of(lines.take(m));
        assert(lines.take(n).drop_last() =~= lines.take(m));
        assert(lines.take(n).last() == lines[m]);
        assert(new.take(n).drop_last() =~= new.take(m));
        assert(new.take(n).last() == new[m]);
        if m < i {
            assert(new[m] == lines[m]);
        } else if m == i {
            let row = parse_row(lines[i])->0;
            lemma_carried_to_rows(lines, i);
            lemma_carried_to_fits(lines, i);
            let total = carried_to(lines, i) + pnl;
            lemma_closed_line_parses(lines[i], row, result, pnl, total);
            assert(rows == before.push(row));
            lemma_carried_of_prefix(rows, before, k);
            assert(rows_of(new.take(n)) =~= closed_rows(rows, k, result, pnl));
        } else {
            lemma_shifted_line_parses(lines[m], pnl);
            assert(shift_fits(lines[m], pnl));
            match parse_row(lines[m]) {
                Some(row) => {
                    assert(rows == prev.push(row));
                    lemma_carried_of_prefix(rows, prev, k);
                    assert(closing_fits_rows(rows, k, pnl)) by {
                        assert forall|j: int|
                            k < j < rows.len() && is_terminal(
                                #[trigger] rows[j],
                            ) implies crate::cumulative::in_range(rows[j].cumulative_cents + pnl) by {
                            if j < prev.len() {
                                assert(rows[j] == prev[j]);
                            }
                        }
                    }
                    assert(rows_of(new.take(n)) =~= closed_rows(rows, k, result, pnl)) by {
                        let left = rows_of(new.take(n));
                        let right = closed_rows(rows, k, result, pnl);
                        assert(left == closed_rows(prev, k, result, pnl).push(
                            shifted_row(Some(row), pnl)->0,
                        ));
                        assert forall|j: int| 0 <= j < left.len() implies left[j] == right[j] by {
                            if j < prev.len() {
                                assert(rows[j] == prev[j]);
                            }
                        }
                    }
                },
                None => {},
            }
        }
    }
}

/// The lines after a row got its outcome hold no line feed, where the
/// lines held none.
proof fn lemma_closed_lines_lack_feed(
    lines: Seq<Seq<char>>,
    i: int,
    result: Seq<char>,
    pnl: int,
)
    requires
        0 <= i < lines.len(),
        forall|j: int| 0 <= j < lines.len() ==> lacks(#[trigger] lines[j], '\n'),
        parse_row(lines[i]) is Some,
        is_result(result),
        closing_fits(lines, i, pnl),
    ensures
        forall|j: int|
            0 <= j < lines.len() ==> lacks(
                #[trigger] closed_lines(lines, i, result, pnl)[j],
                '\n',
            ),
{
    let new = closed_lines(lines, i, result, pnl);
    assert forall|j: int| 0 <= j < lines.len() implies lacks(#[trigger] new[j], '\n') by {
        assert(lacks(lines[j], '\n'));
        if j == i {
            lemma_carried_to_fits(lines, i);
            lemma_closed_line_parses(
                lines[i],
                parse_row(lines[i])->0,
                result,
                pnl,
                carried_to(lines, i) + pnl,
            );
        } else if j > i {
            assert(shift_fits(lines[j], pnl));
            lemma_shifted_line_parses(lines[j], pnl);
        }
    }
}

/// The rows of a ledger after the last row that is meant got its outcome:
/// the row has the result and the profit and carries the cumulative profit
/// of the last terminal row before it plus its profit; the terminal rows
/// after it carry the profit too; all other rows stay. The chain of cumulative
/// profits holds after, if it held before.
pub proof fn lemma_closing_rows(
    content: Seq<char>,
    wanted: Wanted,
    result: Seq<char>,
    pnl: int,
)
    requires
        last_wanted(lines_of(content), wanted) is Some,
        is_result(result),
        closing_fits(lines_of(content), last_wanted(lines_of(content), wanted)->0, pnl),
    ensures
        ({
            let lines = lines_of(content);
            let i = last_wanted(lines, wanted)->0;
            let rows = parse_ledger(content);
            let after = parse_ledger(rejoin(closed_lines(lines, i, result, pnl)));
            &&& last_wanted_row(rows, wanted) matches Some(k) && {
                &&& 0 <= k < rows.len()
                &&& parse_row(lines[i]) == Some(rows[k])
                &&& is_wanted(rows[k], wanted)
                &&& closing_fits_rows(rows, k, pnl)
                &&& after == closed_rows(rows, k, result, pnl)
            }
            &&& chained(rows) ==> chained(after)
        }),
{
    let lines = lines_of(content);
    let i = last_wanted(lines, wanted)->0;
    lemma_last_wanted(lines, wanted);
    lemma_lines_lack_feed(content);
    lemma_closed_rows_upto(lines, i, result, pnl, lines.len() as int);
    lemma_closed_lines_lack_feed(lines, i, result, pnl);
    let new = closed_lines(lines, i, result, pnl);
    lemma_rows_of_rejoin(new);
    assert(lines.take(lines.len() as int) =~= lines);
    assert(new.take(lines.len() as int) =~= new);
    let rows = parse_ledger(content);
    let k = rows_of(lines.take(i)).len() as int;
    if chained(rows) {
        lemma_closing_keeps_chain(rows, k, result, pnl);
    }
}

/// Where no row is meant, the rows stay as they are.
pub proof fn lemma_rejoin_keeps_rows(content: Seq<char>)
    ensures
        parse_ledger(rejoin(lines_of(content))) == parse_ledger(content),
{
    lemma_lines_lack_feed(content);
    lemma_rows_of_rejoin(lines_of(content));
}

/// The words `unknown` and `cancelled` can be the result of a row.
pub proof fn lemma_closing_words()
    ensures
        is_result("unknown"@),
        is_result("cancelled"@),
{
    reveal_strlit("unknown");
    reveal_strlit("cancelled");
    reveal_strlit("pending");
    reveal_strlit("---");
    reveal_strlit("Timestamp");
    let u = "unknown"@;
    let c = "cancelled"@;
    assert(u[0] == 'u' && u[1] == 'n' && u[2] == 'k' && u[3] == 'n' && u[4] == 'o' && u[5] == 'w'
        && u[6] == 'n');
    assert(c[0] == 'c' && c[1] == 'a' && c[2] == 'n' && c[3] == 'c' && c[4] == 'e' && c[5] == 'l'
        && c[6] == 'l' && c[7] == 'e' && c[8] == 'd');
    assert("pending"@[0] == 'p');
    assert(u.last() == u[6] && c.last() == c[8]);
    assert forall|w: Seq<char>, needle: Seq<char>|
        (w == u || w == c) && (needle == "---"@ || needle == "Timestamp"@) implies !#[trigger] has_infix(
        w,
        needle,
    ) by {
        if has_infix(w, needle) {
            let at = choose|at: int| occurs_at(w, needle, at);
            let sub = w.subrange(at, at + needle.len());
            assert(sub[0] == w[at]);
            assert(sub[0] == '-' || sub[0] == 'T');
        }
    }
}

/// The rows of a ledger after a settlement.
pub open spec fn settled_rows(rows: Seq<LedgerRowView>, s: SettlementView) -> Seq<LedgerRowView> {
    match last_wanted_row(rows, any_pending()) {
        Some(k) => closed_rows(rows, k, s.result, settlement_pnl(rows[k], s.pnl_cents as int)),
        None => rows,
    }
}

/// The rows of a ledger after the last pending row that is meant was closed
/// without profit.
pub open spec fn unprofitable_rows(
    rows: Seq<LedgerRowView>,
    wanted: Wanted,
    result: Seq<char>,
) -> Seq<LedgerRowView> {
    match last_wanted_row(rows, wanted) {
        Some(k) => closed_rows(rows, k, result, 0),
        None => rows,
    }
}

/// A row closed without profit is the one row that changes: it gets the
/// result, no profit, and the cumulative profit of the last terminal row
/// before it, and keeps its other cells; every other row stays as it is.
pub proof fn lemma_unprofitable_rows(rows: Seq<LedgerRowView>, wanted: Wanted, result: Seq<char>)
    ensures
        unprofitable_rows(rows, wanted, result).len() == rows.len(),
        match last_wanted_row(rows, wanted) {
            Some(k) => {
                &&& 0 <= k < rows.len()
                &&& is_wanted(rows[k], wanted)
                &&& unprofitable_rows(rows, wanted, result)[k] == (LedgerRowView {
                    result,
                    pnl_cents: 0,
                    cumulative_cents: carried(rows, k) as i64,
                    ..rows[k]
                })
                &&& forall|j: int|
                    0 <= j < rows.len() && j != k ==> unprofitable_rows(rows, wanted, result)[j]
                        == rows[j]
            },
            None => unprofitable_rows(rows, wanted, result) == rows,
        },
{
    lemma_last_wanted_row(rows, wanted);
}

/// The rows of a ledger after an early exit.
pub open spec fn exited_rows(rows: Seq<LedgerRowView>, exit: ExitEventView) -> Seq<
    LedgerRowView,
> {
    match last_wanted_row(rows, pending_ticker(exit.ticker)) {
        Some(k) => closed_rows(rows, k, "exit_"@ + exit.reason.word(), exit.pnl_cents as int),
        None => rows,
    }
}

/// What a settlement does to the rows of the ledger, whatever the ledger:
/// the last pending row gets the settlement's result, the revenue less the
/// order's cost as its profit, and the cumulative profit of the last
/// terminal row before it plus that profit; the terminal rows after it
/// carry the profit too; all else stays. The chain of cumulative profits holds after,
/// if it held before.
pub proof fn lemma_settlement_rows(content: Seq<char>, s: SettlementView)
    requires
        settled_content(content, s) is Some,
    ensures
        parse_ledger(settled_content(content, s)->0) == settled_rows(parse_ledger(content), s),
        chained(parse_ledger(content)) ==> chained(parse_ledger(settled_content(content, s)->0)),
{
    let lines = lines_of(content);
    lemma_last_wanted(lines, any_pending());
    match last_wanted(lines, any_pending()) {
        Some(i) => {
            let pnl = settlement_pnl(parse_row(lines[i])->0, s.pnl_cents as int);
            lemma_closing_rows(content, any_pending(), s.result, pnl);
        },
        None => {
            lemma_rejoin_keeps_rows(content);
        },
    }
}

/// What a cancellation does to the rows of the ledger, whatever the ledger:
/// the last pending row of the order gets the result `cancelled`, no
/// profit, and the cumulative profit of the last terminal row before it;
/// all else stays. The chain of cumulative profits holds after, if it held
/// before.
pub proof fn lemma_cancellation_rows(content: Seq<char>, order_id: Seq<char>)
    ensures
        parse_ledger(cancelled_content(content, order_id)) == unprofitable_rows(
            parse_ledger(content),
            pending_order(order_id),
            "cancelled"@,
        ),
        chained(parse_ledger(content)) ==> chained(
            parse_ledger(cancelled_content(content, order_id)),
        ),
{
    let lines = lines_of(content);
    let wanted = pending_order(order_id);
    lemma_last_wanted(lines, wanted);
    lemma_closing_words();
    match last_wanted(lines, wanted) {
        Some(i) => {
            lemma_carried_to_fits(lines, i);
            lemma_closing_rows(content, wanted, "cancelled"@, 0);
        },
        None => {
            lemma_rejoin_keeps_rows(content);
        },
    }
}

/// What giving up a pending row does to the rows of the ledger, whatever
/// the ledger: the last pending row gets the result `unknown`, no profit,
/// and the cumulative profit of the last terminal row before it; all else
/// stays. The chain of cumulative profits holds after, if it held before.
pub proof fn lemma_abandonment_rows(content: Seq<char>)
    ensures
        parse_ledger(abandoned_content(content)) == unprofitable_rows(
            parse_ledger(content),
            any_pending(),
            "unknown"@,
        ),
        chained(parse_ledger(content)) ==> chained(parse_ledger(abandoned_content(content))),
{
    let lines = lines_of(content);
    lemma_last_wanted(lines, any_pending());
    lemma_closing_words();
    match last_wanted(lines, any_pending()) {
        Some(i) => {
            lemma_carried_to_fits(lines, i);
            lemma_closing_rows(content, any_pending(), "unknown"@, 0);
        },
        None => {
            lemma_rejoin_keeps_rows(content);
        },
    }
}

/// What an early exit does to the rows of the ledger, whatever the ledger:
/// the last pending row of the exit's market gets the result `exit_` and
/// the reason, the exit's profit, and the cumulative profit of the last
/// terminal row before it plus that profit; the terminal rows after it
/// carry the profit too; every row that is still pending, and all else,
/// stays. The chain of cumulative profits holds after, if it held before.
pub proof fn lemma_exit_rows(content: Seq<char>, exit: ExitEventView)
    requires
        exited_content(content, exit) is Some,
    ensures
        parse_ledger(exited_content(content, exit)->0) == exited_rows(
            parse_ledger(content),
            exit,
        ),
        chained(parse_ledger(content)) ==> chained(parse_ledger(exited_content(content, exit)->0)),
{
    let lines = lines_of(content);
    let wanted = pending_ticker(exit.ticker);
    lemma_last_wanted(lines, wanted);
    lemma_exit_result(exit.reason);
    match last_wanted(lines, wanted) {
        Some(i) => {
            lemma_closing_rows(content, wanted, "exit_"@ + exit.reason.word(), exit.pnl_cents as int);
        },
        None => {
            lemma_rejoin_keeps_rows(content);
        },
    }
}

/// A pending row added to the ledger is the one row that the ledger gains,
/// and the chain of cumulative profits holds after, if it held before.
pub proof fn lemma_pending_row_keeps_chain(content: Seq<char>, row: LedgerRowView)
    requires
        is_writable(row),
        row.result == "pending"@,
    ensures
        parse_ledger(content + appended_text(content, row)) == parse_ledger(content).push(row),
        chained(parse_ledger(content)) ==> chained(
            parse_ledger(content + appended_text(content, row)),
        ),
{
    lemma_append_adds_one_row(content, row);
    if chained(parse_ledger(content)) {
        lemma_append_keeps_chain(parse_ledger(content), row);
    }
}

/// The word `pending`, the words for the two sides, and the order id of a
/// paper order can stand in a cell of a row.
pub proof fn lemma_engine_words(millis: i64)
    ensures
        is_field("pending"@),
        is_field("yes"@),
        is_field("no"@),
        is_field("paper-"@ + signed_decimal_of(millis as int)),
{
    reveal_strlit("pending");
    reveal_strlit("yes");
    reveal_strlit("no");
    reveal_strlit("paper-");
    reveal_strlit("---");
    reveal_strlit("Timestamp");
    let p = "pending"@;
    let y = "yes"@;
    let n = "no"@;
    assert(p[0] == 'p' && p[1] == 'e' && p[2] == 'n' && p[3] == 'd' && p[4] == 'i' && p[5] == 'n'
        && p[6] == 'g');
    assert(y[0] == 'y' && y[1] == 'e' && y[2] == 's');
    assert(n[0] == 'n' && n[1] == 'o');
    assert(p.last() == p[6] && y.last() == y[2] && n.last() == n[1]);
    let lead = "paper-"@;
    assert(lead[0] == 'p' && lead[1] == 'a' && lead[2] == 'p' && lead[3] == 'e' && lead[4] == 'r'
        && lead[5] == '-');
    let num = signed_decimal_of(millis as int);
    let id = lead + num;
    assert(num.len() >= 1 && (num[0] == '-' || is_digit(num[0])) && forall|j: int|
        1 <= j < num.len() ==> is_digit(#[trigger] num[j])) by {
        if millis < 0 {
            let d = decimal_of((-millis) as nat);
            lemma_decimal_of((-millis) as nat);
            assert forall|j: int| 1 <= j < num.len() implies is_digit(#[trigger] num[j]) by {
                assert(num[j] == d[j - 1]);
            }
        } else {
            lemma_decimal_of(millis as nat);
        }
    }
    assert forall|j: int| 0 <= j < id.len() implies id[j] != '|' && id[j] != '\n' && !is_space(
        id[j],
    ) && id[j] != 'T' && (id[j] == '-' ==> j == 5 || j == 6) by {
        if j >= 6 {
            assert(id[j] == num[j - 6]);
            if j > 6 {
                assert(is_digit(num[j - 6]));
            }
        } else {
            assert(id[j] == lead[j]);
        }
    }
    assert(id.last() == id[id.len() - 1]);
    assert(is_digit(num[num.len() - 1]) || num.len() == 1);
    assert(!is_space(id[id.len() - 1]));
    assert forall|w: Seq<char>, needle: Seq<char>|
        (w == p || w == y || w == n || w == id) && (needle == "---"@ || needle == "Timestamp"@)
        implies !#[trigger] has_infix(w, needle) by {
        if has_infix(w, needle) {
            let at = choose|at: int| occurs_at(w, needle, at);
            let sub = w.subrange(at, at + needle.len());
            assert(sub[0] == w[at]);
            if needle == "---"@ {
                assert(sub[1] == w[at + 1] && sub[2] == w[at + 2]);
            }
        }
    }
}

} // verus!
