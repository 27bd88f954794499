//! Tables: every cell centred in its column, the column as wide as its
//! widest cell, and a separator row under the header.
use vstd::prelude::*;

use crate::latex::texts_of;
use crate::render::{
    grown, heights_ok, line_index, put, text_slot, Drawer, Line, Slot,
};
use crate::text::{owned, push_char, push_text, repeat_char};
use crate::tree::{inlines_text, Table, TableCell, TableRow};
use vstd::string::StrSliceExecFns;

verus! {

/// The larger of two numbers.
pub open spec fn max_nat(a: nat, b: nat) -> nat {
    if a >= b {
        a
    } else {
        b
    }
}

/// Each number as a natural number.
pub open spec fn nats(v: Seq<usize>) -> Seq<nat> {
    v.map_values(|x: usize| x as nat)
}

/// The rendered text of each cell of a row.
pub open spec fn cell_texts(row: TableRow) -> Seq<Seq<char>> {
    row.children@.map_values(|c: TableCell| inlines_text(c.children@))
}

/// The rendered cells of every row.
pub open spec fn table_cells(rows: Seq<TableRow>) -> Seq<Seq<Seq<char>>> {
    rows.map_values(|r: TableRow| cell_texts(r))
}

/// Entry `j` of `w`, or 0 past its end.
pub open spec fn width_at(w: Seq<nat>, j: int) -> nat {
    if 0 <= j < w.len() {
        w[j]
    } else {
        0
    }
}

/// Column widths `w` widened to fit one more row.
pub open spec fn widen(w: Seq<nat>, row: Seq<Seq<char>>) -> Seq<nat> {
    Seq::new(
        max_nat(w.len(), row.len()),
        |j: int|
            max_nat(
                width_at(w, j),
                if j < row.len() {
                    row[j].len()
                } else {
                    0
                },
            ),
    )
}

/// The width of each column: the longest of its cells over all rows.
pub open spec fn column_widths(rows: Seq<Seq<Seq<char>>>) -> Seq<nat>
    decreases rows.len(),
{
    if rows.len() == 0 {
        Seq::empty()
    } else {
        widen(column_widths(rows.drop_last()), rows.last())
    }
}

/// `n` copies of `c`.
pub open spec fn repeated(c: char, n: nat) -> Seq<char> {
    Seq::new(n, |_i: int| c)
}

/// `t` centred in `w` columns: of the padding, the smaller half goes left.
/// A text at least `w` long is left as it is.
pub open spec fn centered(t: Seq<char>, w: nat) -> Seq<char> {
    if t.len() >= w {
        t
    } else {
        let pad = (w - t.len()) as nat;
        repeated(' ', pad / 2) + t + repeated(' ', (pad - pad / 2) as nat)
    }
}

/// The parts with `sep` between each two.
pub open spec fn joined(parts: Seq<Seq<char>>, sep: Seq<char>) -> Seq<char>
    decreases parts.len(),
{
    if parts.len() == 0 {
        Seq::empty()
    } else if parts.len() == 1 {
        parts[0]
    } else {
        joined(parts.drop_last(), sep) + sep + parts.last()
    }
}

/// One segment of the separator row per column, each two wider than the column.
pub open spec fn sep_segments(widths: Seq<nat>) -> Seq<Seq<char>> {
    widths.map_values(|w: nat| repeated('─', w + 2))
}

/// The separator row under a table's header.
pub open spec fn sep_text(widths: Seq<nat>) -> Seq<char> {
    "├"@ + joined(sep_segments(widths), "┼"@) + "┤"@
}

/// The cells of a row, each centred in its column.
pub open spec fn padded_cells(cells: Seq<Seq<char>>, widths: Seq<nat>) -> Seq<Seq<char>> {
    let n = if cells.len() <= widths.len() {
        cells.len()
    } else {
        widths.len()
    };
    Seq::new(n, |j: int| centered(cells[j], widths[j]))
}

/// One row of a table.
pub open spec fn row_text(cells: Seq<Seq<char>>, widths: Seq<nat>) -> Seq<char> {
    "│ "@ + joined(padded_cells(cells, widths), " │ "@) + " │"@
}

/// Each row written to the slot of its first line.
pub open spec fn rows_layout(
    s: Seq<Slot>,
    rows: Seq<TableRow>,
    texts: Seq<Seq<Seq<char>>>,
    widths: Seq<nat>,
) -> Seq<Slot>
    decreases rows.len(),
{
    if rows.len() == 0 {
        s
    } else {
        put(
            rows_layout(s, rows.drop_last(), texts, widths),
            line_index(rows.last().position.start),
            text_slot(row_text(texts[rows.len() - 1], widths)),
        )
    }
}

/// A table: the separator row on its second line, where the table has one,
/// and each row on its own line.
pub open spec fn table_layout(s: Seq<Slot>, t: Table) -> Seq<Slot> {
    let texts = table_cells(t.children@);
    let widths = column_widths(texts);
    let p = t.position;
    let s1 = grown(s, line_index(p.end));
    let sep = line_index(p.start) + 1;
    let s2 = if sep <= line_index(p.end) {
        put(s1, sep, text_slot(sep_text(widths)))
    } else {
        s1
    };
    rows_layout(s2, t.children@, texts, widths)
}

/// Widens `widths` to fit the cells of `row` (see `widen`).
fn widen_to(widths: &mut Vec<usize>, row: &Vec<String>)
    ensures
        nats(final(widths)@) == widen(nats(old(widths)@), texts_of(row@)),
{
    let ghost w0 = nats(widths@);
    let ghost cells = texts_of(row@);
    let mut j: usize = 0;
    while j < row.len()
        invariant
            j <= row@.len(),
            cells == texts_of(row@),
            w0.len() == old(widths)@.len(),
            widths@.len() == max_nat(w0.len(), j as nat),
            forall|k: int|
                0 <= k < widths@.len() ==> #[trigger] widths@[k] as nat == if k < j {
                    max_nat(width_at(w0, k), cells[k].len())
                } else {
                    w0[k]
                },
        decreases row@.len() - j,
    {
        let l = row[j].as_str().unicode_len();
        if j < widths.len() {
            if widths[j] < l {
                widths.set(j, l);
            }
        } else {
            widths.push(l);
        }
        j += 1;
    }
    assert(nats(widths@) =~= widen(w0, cells));
}

/// `parts` with `sep` between each two (see `joined`).
fn join_parts(parts: &Vec<String>, sep: &str) -> (r: String)
    ensures
        r@ == joined(texts_of(parts@), sep@),
{
    let ghost ps = texts_of(parts@);
    let mut out = String::new();
    let mut j: usize = 0;
    while j < parts.len()
        invariant
            j <= parts@.len(),
            ps == texts_of(parts@),
            out@ == joined(ps.subrange(0, j as int), sep@),
        decreases parts@.len() - j,
    {
        let ghost sub = ps.subrange(0, j + 1);
        assert(sub.drop_last() == ps.subrange(0, j as int));
        if j > 0 {
            push_text(&mut out, sep);
        } else {
            assert(sub.len() == 1);
        }
        push_text(&mut out, parts[j].as_str());
        j += 1;
    }
    assert(ps.subrange(0, parts@.len() as int) == ps);
    out
}

/// `t` centred in `w` columns (see `centered`).
fn center(t: &str, w: usize) -> (r: String)
    ensures
        r@ == centered(t@, w as nat),
{
    let len = t.unicode_len();
    if len >= w {
        owned(t)
    } else {
        let pad = w - len;
        let mut out = repeat_char(' ', pad / 2);
        push_text(&mut out, t);
        let right = repeat_char(' ', pad - pad / 2);
        push_text(&mut out, right.as_str());
        out
    }
}

impl Drawer {
    /// The separator row for columns of the given widths (see `sep_text`).
    pub fn table_sep(&self, widths: &Vec<usize>) -> (r: String)
        ensures
            r@ == sep_text(nats(widths@)),
    {
        let mut parts: Vec<String> = Vec::new();
        let mut j: usize = 0;
        while j < widths.len()
            invariant
                j <= widths@.len(),
                texts_of(parts@) == sep_segments(nats(widths@)).subrange(0, j as int),
            decreases widths@.len() - j,
        {
            let mut seg = repeat_char('─', widths[j]);
            push_char(&mut seg, '─');
            push_char(&mut seg, '─');
            assert(seg@ =~= repeated('─', widths@[j as int] as nat + 2));
            let ghost pv = parts@;
            parts.push(seg);
            assert(texts_of(parts@) =~= texts_of(pv).push(seg@));
            assert(texts_of(parts@) =~= sep_segments(nats(widths@)).subrange(0, j + 1));
            j += 1;
        }
        assert(sep_segments(nats(widths@)).subrange(0, widths@.len() as int) =~= sep_segments(
            nats(widths@),
        ));
        let mut out = owned("├");
        let inner = join_parts(&parts, "┼");
        push_text(&mut out, inner.as_str());
        push_text(&mut out, "┤");
        out
    }

    /// One table row: the cells centred in their columns (see `row_text`).
    pub fn render_table_row(&self, row: &Vec<String>, widths: &Vec<usize>) -> (r: String)
        ensures
            r@ == row_text(texts_of(row@), nats(widths@)),
    {
        let n = if row.len() <= widths.len() {
            row.len()
        } else {
            widths.len()
        };
        let ghost want = padded_cells(texts_of(row@), nats(widths@));
        let mut parts: Vec<String> = Vec::new();
        let mut j: usize = 0;
        while j < n
            invariant
                j <= n,
                n == want.len(),
                n <= row@.len(),
                n <= widths@.len(),
                want == padded_cells(texts_of(row@), nats(widths@)),
                texts_of(parts@) == want.subrange(0, j as int),
            decreases n - j,
        {
            let cell = center(row[j].as_str(), widths[j]);
            let ghost pv = parts@;
            parts.push(cell);
            assert(texts_of(parts@) =~= texts_of(pv).push(cell@));
            assert(texts_of(parts@) =~= want.subrange(0, j + 1));
            j += 1;
        }
        assert(want.subrange(0, n as int) =~= want);
        let mut out = owned("│ ");
        let inner = join_parts(&parts, " │ ");
        push_text(&mut out, inner.as_str());
        push_text(&mut out, " │");
        out
    }

    /// Lays out a table (see `table_layout`).
    pub fn render_table(&mut self, table: &Table)
        ensures
            final(self).slots() == table_layout(old(self).slots(), *table),
            final(self).width() == old(self).width(),
    {
        let rows = &table.children;
        let ghost want = table_cells(rows@);
        let mut texts: Vec<Vec<String>> = Vec::new();
        let mut i: usize = 0;
        while i < rows.len()
            invariant
                i <= rows@.len(),
                want == table_cells(rows@),
                texts@.len() == i,
                forall|k: int| 0 <= k < i ==> #[trigger] texts_of(texts@[k]@) == want[k],
            decreases rows@.len() - i,
        {
            let cells = &rows[i].children;
            let mut out: Vec<String> = Vec::new();
            let mut k: usize = 0;
            while k < cells.len()
                invariant
                    i < rows@.len(),
                    k <= cells@.len(),
                    texts_of(out@) == cell_texts(rows@[i as int]).subrange(0, k as int),
                    cells@ == rows@[i as int].children@,
                decreases cells@.len() - k,
            {
                let t = self.render_children(&cells[k].children);
                let ghost ov = out@;
                out.push(t);
                assert(texts_of(out@) =~= texts_of(ov).push(t@));
                assert(texts_of(out@) =~= cell_texts(rows@[i as int]).subrange(0, k + 1));
                k += 1;
            }
            assert(cell_texts(rows@[i as int]).subrange(0, cells@.len() as int) =~= cell_texts(
                rows@[i as int],
            ));
            texts.push(out);
            i += 1;
        }
        let ghost tv = texts@.map_values(|r: Vec<String>| texts_of(r@));
        assert(tv =~= want);
        let mut widths: Vec<usize> = Vec::new();
        let mut i: usize = 0;
        while i < texts.len()
            invariant
                i <= texts@.len(),
                tv == texts@.map_values(|r: Vec<String>| texts_of(r@)),
                nats(widths@) == column_widths(tv.subrange(0, i as int)),
            decreases texts@.len() - i,
        {
            widen_to(&mut widths, &texts[i]);
            let ghost sub = tv.subrange(0, i + 1);
            assert(sub.drop_last() == tv.subrange(0, i as int));
            i += 1;
        }
        assert(tv.subrange(0, texts@.len() as int) == tv);
        let p = table.position;
        let first = Drawer::slot_of(p.start);
        let last = Drawer::slot_of(p.end);
        self.ensure_scr_lines(last);
        if first < last {
            let sep = self.table_sep(&widths);
            self.set_slot(first + 1, Line::from(sep));
        }
        let ghost s2 = self.slots();
        let mut i: usize = 0;
        while i < rows.len()
            invariant
                i <= rows@.len(),
                texts@.len() == rows@.len(),
                tv == want,
                tv == texts@.map_values(|r: Vec<String>| texts_of(r@)),
                nats(widths@) == column_widths(want),
                self.width() == old(self).width(),
                self.slots() == rows_layout(s2, rows@.subrange(0, i as int), want, nats(widths@)),
            decreases rows@.len() - i,
        {
            let idx = Drawer::slot_of(rows[i].position.start);
            self.ensure_scr_lines(idx);
            let line = self.render_table_row(&texts[i], &widths);
            self.set_slot(idx, Line::from(line));
            let ghost sub = rows@.subrange(0, i + 1);
            assert(sub.drop_last() == rows@.subrange(0, i as int));
            i += 1;
        }
        assert(rows@.subrange(0, rows@.len() as int) == rows@);
    }
}


proof fn lemma_rows_heights(
    s: Seq<Slot>,
    rows: Seq<TableRow>,
    texts: Seq<Seq<Seq<char>>>,
    widths: Seq<nat>,
)
    requires
        heights_ok(s),
    ensures
        heights_ok(rows_layout(s, rows, texts, widths)),
    decreases rows.len(),
{
    if rows.len() > 0 {
        lemma_rows_heights(s, rows.drop_last(), texts, widths);
        crate::render::lemma_put_heights(
            rows_layout(s, rows.drop_last(), texts, widths),
            line_index(rows.last().position.start),
            text_slot(row_text(texts[rows.len() - 1], widths)),
        );
    }
}

pub(crate) proof fn lemma_table_heights(s: Seq<Slot>, t: Table)
    requires
        heights_ok(s),
    ensures
        heights_ok(table_layout(s, t)),
{
    let texts = table_cells(t.children@);
    let widths = column_widths(texts);
    let p = t.position;
    crate::render::lemma_grown_heights(s, line_index(p.end));
    let s1 = grown(s, line_index(p.end));
    let sep = line_index(p.start) + 1;
    if sep <= line_index(p.end) {
        crate::render::lemma_put_heights(s1, sep, text_slot(sep_text(widths)));
    }
    let s2 = if sep <= line_index(p.end) {
        put(s1, sep, text_slot(sep_text(widths)))
    } else {
        s1
    };
    lemma_rows_heights(s2, t.children@, texts, widths);
}


/// Cell `j` of row `r` lies in a column at least as wide as the cell.
pub open spec fn cell_fits(rows: Seq<Seq<Seq<char>>>, r: int, j: int) -> bool {
    j < column_widths(rows).len() && rows[r][j].len() <= column_widths(rows)[j]
}

/// Cell `j` of row `r`, centred, is exactly as wide as its column.
pub open spec fn cell_padded(rows: Seq<Seq<Seq<char>>>, r: int, j: int) -> bool {
    j < column_widths(rows).len() && padded_cells(rows[r], column_widths(rows))[j].len()
        == column_widths(rows)[j]
}

/// Some row has a cell in column `j` as long as the column is wide.
pub open spec fn widest_in_column(rows: Seq<Seq<Seq<char>>>, j: int) -> bool {
    exists|r: int|
        0 <= r < rows.len() && j < rows[r].len() && #[trigger] rows[r][j].len()
            == column_widths(rows)[j]
}

proof fn lemma_widths_cover(rows: Seq<Seq<Seq<char>>>)
    ensures
        forall|r: int, j: int|
            0 <= r < rows.len() && 0 <= j < rows[r].len() ==> #[trigger] cell_fits(rows, r, j),
        forall|j: int|
            0 <= j < column_widths(rows).len() ==> #[trigger] widest_in_column(rows, j),
    decreases rows.len(),
{
    if rows.len() > 0 {
        let prev = rows.drop_last();
        lemma_widths_cover(prev);
        let w0 = column_widths(prev);
        let w = column_widths(rows);
        let last = rows.last();
        assert(w == widen(w0, last));
        assert forall|r: int, j: int|
            0 <= r < rows.len() && 0 <= j < rows[r].len() implies #[trigger] cell_fits(rows, r, j) by {
            if r < rows.len() - 1 {
                assert(rows[r] == prev[r]);
                assert(cell_fits(prev, r, j));
                assert(prev[r][j].len() <= w0[j]);
                assert(width_at(w0, j) == w0[j]);
            } else {
                assert(rows[r] == last);
            }
            assert(w[j] == max_nat(
                width_at(w0, j),
                if j < last.len() {
                    last[j].len()
                } else {
                    0
                },
            ));
        }
        assert forall|j: int| 0 <= j < w.len() implies #[trigger] widest_in_column(rows, j) by {
            if j < last.len() && last[j].len() >= width_at(w0, j) {
                assert(rows[rows.len() - 1][j].len() == w[j]);
            } else {
                assert(j < w0.len());
                assert(widest_in_column(prev, j));
                let r = choose|r: int|
                    0 <= r < prev.len() && j < prev[r].len() && #[trigger] prev[r][j].len()
                        == w0[j];
                assert(rows[r] == prev[r]);
                assert(rows[r][j].len() == w[j]);
            }
        }
    }
}

/// In a table's rows every cell is centred to exactly its column's width,
/// that width is the length of the column's widest cell, and each segment of
/// the separator row is two wider than its column.
pub proof fn lemma_table_columns(rows: Seq<Seq<Seq<char>>>)
    ensures
        forall|r: int, j: int|
            0 <= r < rows.len() && 0 <= j < rows[r].len() ==> #[trigger] cell_padded(rows, r, j),
        forall|j: int|
            0 <= j < column_widths(rows).len() ==> #[trigger] widest_in_column(rows, j),
        forall|j: int|
            0 <= j < column_widths(rows).len() ==> #[trigger] sep_segments(column_widths(rows))[j].len()
                == column_widths(rows)[j] + 2,
{
    lemma_widths_cover(rows);
    let w = column_widths(rows);
    assert forall|r: int, j: int| 0 <= r < rows.len() && 0 <= j < rows[r].len() implies #[trigger] cell_padded(rows, r, j) by {
        assert(cell_fits(rows, r, j));
        let t = rows[r][j];
        assert(t.len() <= w[j]);
        assert(padded_cells(rows[r], w)[j] == centered(t, w[j]));
        if t.len() < w[j] {
            let pad = (w[j] - t.len()) as nat;
            assert(centered(t, w[j]).len() == pad / 2 + t.len() + (pad - pad / 2));
        }
    }
}

} // verus!
