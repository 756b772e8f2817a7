//! The grid layout engine: arranges formatted cells either into a flowed,
//! width-bounded grid of names or into a fixed five-column aligned table,
//! and returns the finished text.

use vstd::prelude::*;

use crate::date::{date_secs, placeholder, rendered_date_ok};
use crate::meta::{
    decimal_chars, fmt_u64, owner_chars, poa_chars, Date, Meta, Owner, PermissionsOrAttributes,
};
use crate::width::{get_visible_width, visible_width_of};

verus! {

/// Options selecting how the listing is displayed.
#[derive(Debug, Clone)]
pub struct DisplayOption {
    /// use a long listing format
    pub long: bool,
}

/// A transient render unit: the text of one field of one entry together
/// with its measured visible width.
#[derive(Debug)]
pub struct Cell {
    pub contents: String,
    pub width: usize,
}

/// The measured width a cell of the given text carries.
pub open spec fn cell_width_of(t: Seq<char>) -> nat {
    visible_width_of(t, false)
}

/// A run of `n` spaces.
pub open spec fn spaces(n: nat) -> Seq<char>
    decreases n,
{
    if n == 0 {
        Seq::empty()
    } else {
        spaces((n - 1) as nat).push(' ')
    }
}

/// A cell's text left-aligned in a column: the text followed by the
/// trailing spaces that bring its measured width `w` up to `target`; no
/// spaces when the text already fills the column.
pub open spec fn pad_chars(t: Seq<char>, w: nat, target: nat) -> Seq<char> {
    t + spaces(if target >= w { (target - w) as nat } else { 0 })
}

/// The text of the permissions column of an entry.
pub open spec fn perm_text(m: Meta) -> Seq<char> {
    match m.permissions_or_attributes {
        Some(p) => poa_chars(p),
        None => seq!['_'],
    }
}

/// The text of the owner column of an entry.
pub open spec fn owner_text(m: Meta) -> Seq<char> {
    match m.owner {
        Some(o) => owner_chars(o),
        None => seq!['_'],
    }
}

/// The text of the size column of an entry.
pub open spec fn size_text(m: Meta) -> Seq<char> {
    match m.size {
        Some(s) => decimal_chars(s as nat),
        None => seq!['_'],
    }
}

/// The text of logical column `j` of a long-format row: permissions,
/// owner, size, date, name in that order. The date text is the one the
/// date formatter produced for the entry.
pub open spec fn long_field(m: Meta, date: Seq<char>, j: int) -> Seq<char> {
    if j == 0 {
        perm_text(m)
    } else if j == 1 {
        owner_text(m)
    } else if j == 2 {
        size_text(m)
    } else if j == 3 {
        date
    } else {
        m.name@
    }
}

/// The largest measured width of long-format column `j` over the first `i`
/// entries of the batch.
pub open spec fn long_col_width(metas: Seq<Meta>, dates: Seq<Seq<char>>, j: int, i: int) -> nat
    decreases i,
{
    if i <= 0 {
        0
    } else {
        let prev = long_col_width(metas, dates, j, i - 1);
        let w = cell_width_of(long_field(metas[i - 1], dates[i - 1], j));
        if w > prev {
            w
        } else {
            prev
        }
    }
}

/// One long-format line: the first four fields each padded to that
/// column's batch-wide width and followed by a single separating space,
/// then the name at its natural width.
pub open spec fn long_line(metas: Seq<Meta>, dates: Seq<Seq<char>>, i: int) -> Seq<char> {
    let n = metas.len() as int;
    let f0 = long_field(metas[i], dates[i], 0);
    let f1 = long_field(metas[i], dates[i], 1);
    let f2 = long_field(metas[i], dates[i], 2);
    let f3 = long_field(metas[i], dates[i], 3);
    pad_chars(f0, cell_width_of(f0), long_col_width(metas, dates, 0, n)) + seq![' ']
        + pad_chars(f1, cell_width_of(f1), long_col_width(metas, dates, 1, n)) + seq![' ']
        + pad_chars(f2, cell_width_of(f2), long_col_width(metas, dates, 2, n)) + seq![' ']
        + pad_chars(f3, cell_width_of(f3), long_col_width(metas, dates, 3, n)) + seq![' ']
        + long_field(metas[i], dates[i], 4)
}

/// The first `i` lines of the long-format output, each ended by a
/// newline.
pub open spec fn long_output_upto(metas: Seq<Meta>, dates: Seq<Seq<char>>, i: int) -> Seq<char>
    decreases i,
{
    if i <= 0 {
        Seq::empty()
    } else {
        long_output_upto(metas, dates, i - 1) + long_line(metas, dates, i - 1) + seq!['\n']
    }
}

/// The whole long-format output: one line per entry, top to bottom, never
/// wrapped.
pub open spec fn long_output(metas: Seq<Meta>, dates: Seq<Seq<char>>) -> Seq<char> {
    long_output_upto(metas, dates, metas.len() as int)
}

/// What may stand in the date cell of one entry: the placeholder when the
/// entry has no date or its timestamp is out of the formatter's range;
/// otherwise whatever text the date's rendering produced.
pub open spec fn date_cell_ok(date: Option<Date>, text: Seq<char>) -> bool {
    match date {
        None => text == seq!['_'],
        Some(d) => exists|formatted: Option<String>|
            #[trigger] rendered_date_ok(date_secs(d), formatted, text),
    }
}

/// The date texts a long render worked from: one per entry, each what the
/// date renderer produces for that entry's date.
pub open spec fn long_dates_ok(metas: Seq<Meta>, dates: Seq<Seq<char>>) -> bool {
    &&& dates.len() == metas.len()
    &&& forall|i: int| 0 <= i < metas.len() ==> #[trigger] date_cell_ok(metas[i].date, dates[i])
}

/// The largest measured name width of compact-grid column `j` (of `ncols`)
/// over the first `i` entries.
pub open spec fn col_width_upto(metas: Seq<Meta>, ncols: int, j: int, i: int) -> nat
    decreases i,
{
    if i <= 0 {
        0
    } else {
        let prev = col_width_upto(metas, ncols, j, i - 1);
        if (i - 1) % ncols == j {
            let w = cell_width_of(metas[i - 1].name@);
            if w > prev {
                w
            } else {
                prev
            }
        } else {
            prev
        }
    }
}

/// The measured width of compact-grid column `j` over the whole batch.
pub open spec fn col_width(metas: Seq<Meta>, ncols: int, j: int) -> nat {
    col_width_upto(metas, ncols, j, metas.len() as int)
}

/// The summed widths of the first `j` columns of a compact grid.
pub open spec fn cols_total_upto(metas: Seq<Meta>, ncols: int, j: int) -> nat
    decreases j,
{
    if j <= 0 {
        0
    } else {
        cols_total_upto(metas, ncols, j - 1) + col_width(metas, ncols, j - 1)
    }
}

/// The full width of a compact grid of `ncols` columns: the column widths
/// plus one separating space between each adjacent pair.
pub open spec fn grid_total_width(metas: Seq<Meta>, ncols: int) -> nat {
    cols_total_upto(metas, ncols, ncols) + (ncols - 1) as nat
}

/// Whether a compact grid of `ncols` columns stays within width `w`.
pub open spec fn fits(metas: Seq<Meta>, ncols: int, w: nat) -> bool {
    grid_total_width(metas, ncols) <= w
}

/// The largest column count at most `k` whose grid fits within `w`; 0 when
/// none does.
pub open spec fn best_cols_from(metas: Seq<Meta>, w: nat, k: int) -> int
    decreases k,
{
    if k < 1 {
        0
    } else if fits(metas, k, w) {
        k
    } else {
        best_cols_from(metas, w, k - 1)
    }
}

/// The column count of the compact grid: the largest that fits within
/// `w`, each row holding at most as many cells as the batch has.
pub open spec fn best_cols(metas: Seq<Meta>, w: nat) -> int {
    best_cols_from(metas, w, metas.len() as int)
}

/// One piece of a compact line: the name of the entry in row position `j`,
/// padded to its column's width and followed by one space — except the
/// last cell of a row, which is emitted at its natural width.
pub open spec fn compact_piece(metas: Seq<Meta>, ncols: int, start: int, j: int) -> Seq<char> {
    let idx = start + j;
    if idx == metas.len() - 1 || j == ncols - 1 {
        metas[idx].name@
    } else {
        pad_chars(metas[idx].name@, cell_width_of(metas[idx].name@), col_width(metas, ncols, j))
            + seq![' ']
    }
}

/// The tail of a compact line: the pieces from row position `j` on, for
/// the row whose first cell is `start`.
pub open spec fn compact_line_from(metas: Seq<Meta>, ncols: int, start: int, j: int) -> Seq<char>
    decreases ncols - j,
{
    if j < 0 || j >= ncols || start + j >= metas.len() {
        Seq::empty()
    } else {
        compact_piece(metas, ncols, start, j) + compact_line_from(metas, ncols, start, j + 1)
    }
}

/// The compact lines from the row whose first cell is `start` on, each
/// ended by a newline. Cells flow left to right, `ncols` to a row.
pub open spec fn compact_lines_from(metas: Seq<Meta>, ncols: int, start: int) -> Seq<char>
    decreases metas.len() - start,
{
    if ncols < 1 || start < 0 || start >= metas.len() {
        Seq::empty()
    } else {
        let next = if start + ncols > metas.len() {
            metas.len() as int
        } else {
            start + ncols
        };
        compact_line_from(metas, ncols, start, 0) + seq!['\n'] + compact_lines_from(
            metas,
            ncols,
            next,
        )
    }
}

/// The single-column fallback: every name alone on its own line, at its
/// natural width, never truncated or wrapped.
pub open spec fn fallback_output(metas: Seq<Meta>) -> Seq<char> {
    compact_lines_from(metas, 1, 0)
}

/// The whole compact output: the widest fitting grid when a terminal
/// width is given and some arrangement fits, the single-column fallback
/// otherwise.
pub open spec fn compact_render(metas: Seq<Meta>, term_width: Option<usize>) -> Seq<char> {
    match term_width {
        Some(w) => {
            let b = best_cols(metas, w as nat);
            if b >= 1 {
                compact_lines_from(metas, b, 0)
            } else {
                fallback_output(metas)
            }
        },
        None => fallback_output(metas),
    }
}

/// The whole rendered text for one invocation, as a function of the
/// entries, the date texts, the mode and the width.
pub open spec fn render_spec(
    metas: Seq<Meta>,
    dates: Seq<Seq<char>>,
    long: bool,
    term_width: Option<usize>,
) -> Seq<char> {
    if long {
        long_output(metas, dates)
    } else {
        compact_render(metas, term_width)
    }
}

fn cell_of(text: String) -> (c: Cell)
    ensures
        c.contents@ == text@,
        c.width as nat == cell_width_of(text@),
{
    let width = get_visible_width(text.as_str(), false);
    Cell { contents: text, width }
}

fn append_spaces(out: &mut String, k: usize)
    ensures
        final(out)@ == old(out)@ + spaces(k as nat),
{
    proof {
        reveal_strlit(" ");
        assert(out@ =~= old(out)@ + spaces(0));
    }
    let mut i: usize = 0;
    while i < k
        invariant
            i <= k,
            out@ == old(out)@ + spaces(i as nat),
        decreases k - i,
    {
        out.append(" ");
        i = i + 1;
        proof {
            reveal_strlit(" ");
            assert(" "@ =~= seq![' ']);
            assert(out@ =~= old(out)@ + spaces(i as nat));
        }
    }
}

fn append_padded(out: &mut String, c: &Cell, target: usize)
    ensures
        final(out)@ == old(out)@ + pad_chars(c.contents@, c.width as nat, target as nat),
{
    out.append(c.contents.as_str());
    let k = if target >= c.width {
        target - c.width
    } else {
        0
    };
    append_spaces(out, k);
    proof {
        assert(out@ =~= old(out)@ + pad_chars(c.contents@, c.width as nat, target as nat));
    }
}

/// One long-format row: the five cells of one entry.
struct LongRow {
    perm: Cell,
    owner: Cell,
    size: Cell,
    date: Cell,
    name: Cell,
}

/// The row built for an entry carries exactly the five field texts, each
/// with its measured width; the date cell carries the formatted text `d`.
spec fn row_matches(r: LongRow, m: Meta, d: Seq<char>) -> bool {
    &&& r.perm.contents@ == perm_text(m) && r.perm.width as nat == cell_width_of(perm_text(m))
    &&& r.owner.contents@ == owner_text(m) && r.owner.width as nat == cell_width_of(owner_text(m))
    &&& r.size.contents@ == size_text(m) && r.size.width as nat == cell_width_of(size_text(m))
    &&& r.date.contents@ == d && r.date.width as nat == cell_width_of(d)
    &&& r.name.contents@ == m.name@ && r.name.width as nat == cell_width_of(m.name@)
}

fn long_rows(metas: &Vec<Meta>, locale: &chrono::Locale) -> (r: (Vec<LongRow>, Ghost<
    Seq<Seq<char>>,
>))
    ensures
        r.0@.len() == metas@.len(),
        r.1@.len() == metas@.len(),
        forall|i: int|
            0 <= i < metas@.len() ==> row_matches(#[trigger] r.0@[i], metas@[i], r.1@[i]),
        forall|i: int|
            0 <= i < metas@.len() ==> #[trigger] date_cell_ok(metas@[i].date, r.1@[i]),
{
    let mut rows: Vec<LongRow> = Vec::new();
    let ghost mut dates: Seq<Seq<char>> = Seq::empty();
    let mut i: usize = 0;
    while i < metas.len()
        invariant
            i <= metas@.len(),
            rows@.len() == i,
            dates.len() == i,
            forall|k: int| 0 <= k < i ==> row_matches(#[trigger] rows@[k], metas@[k], dates[k]),
            forall|k: int| 0 <= k < i ==> #[trigger] date_cell_ok(metas@[k].date, dates[k]),
        decreases metas@.len() - i,
    {
        let m = &metas[i];
        let perm = match &m.permissions_or_attributes {
            Some(p) => p.render(),
            None => placeholder(),
        };
        let owner = match &m.owner {
            Some(o) => o.render(),
            None => placeholder(),
        };
        let size = match m.size {
            Some(s) => fmt_u64(s),
            None => placeholder(),
        };
        let date = match &m.date {
            Some(d) => d.render(locale),
            None => placeholder(),
        };
        proof {
            assert(date_cell_ok(m.date, date@));
            dates = dates.push(date@);
        }
        let name = m.name.clone();
        rows.push(
            LongRow {
                perm: cell_of(perm),
                owner: cell_of(owner),
                size: cell_of(size),
                date: cell_of(date),
                name: cell_of(name),
            },
        );
        i = i + 1;
    }
    (rows, Ghost(dates))
}

fn append_long_line(out: &mut String, row: &LongRow, d0: usize, d1: usize, d2: usize, d3: usize)
    ensures
        final(out)@ == old(out)@ + pad_chars(
            row.perm.contents@,
            row.perm.width as nat,
            d0 as nat,
        ) + seq![' '] + pad_chars(row.owner.contents@, row.owner.width as nat, d1 as nat)
            + seq![' '] + pad_chars(row.size.contents@, row.size.width as nat, d2 as nat)
            + seq![' '] + pad_chars(row.date.contents@, row.date.width as nat, d3 as nat)
            + seq![' '] + row.name.contents@ + seq!['\n'],
{
    proof {
        reveal_strlit(" ");
        reveal_strlit("\n");
    }
    append_padded(out, &row.perm, d0);
    out.append(" ");
    append_padded(out, &row.owner, d1);
    out.append(" ");
    append_padded(out, &row.size, d2);
    out.append(" ");
    append_padded(out, &row.date, d3);
    out.append(" ");
    out.append(row.name.contents.as_str());
    out.append("\n");
    proof {
        assert(" "@ =~= seq![' ']);
        assert("\n"@ =~= seq!['\n']);
        assert(out@ =~= old(out)@ + pad_chars(row.perm.contents@, row.perm.width as nat, d0 as nat)
            + seq![' '] + pad_chars(row.owner.contents@, row.owner.width as nat, d1 as nat)
            + seq![' '] + pad_chars(row.size.contents@, row.size.width as nat, d2 as nat)
            + seq![' '] + pad_chars(row.date.contents@, row.date.width as nat, d3 as nat)
            + seq![' '] + row.name.contents@ + seq!['\n']);
    }
}

#[verifier::rlimit(100)]
fn render_long(rows: &Vec<LongRow>, metas: Ghost<Seq<Meta>>, dates: Ghost<Seq<Seq<char>>>) -> (r:
    String)
    requires
        rows@.len() == metas@.len(),
        dates@.len() == metas@.len(),
        forall|i: int|
            0 <= i < rows@.len() ==> row_matches(#[trigger] rows@[i], metas@[i], dates@[i]),
    ensures
        r@ == long_output(metas@, dates@),
{
    let ghost n = metas@.len() as int;
    let mut d0: usize = 0;
    let mut d1: usize = 0;
    let mut d2: usize = 0;
    let mut d3: usize = 0;
    let mut i: usize = 0;
    while i < rows.len()
        invariant
            rows@.len() == metas@.len(),
            dates@.len() == metas@.len(),
            forall|k: int|
                0 <= k < rows@.len() ==> row_matches(#[trigger] rows@[k], metas@[k], dates@[k]),
            i <= rows@.len(),
            d0 as nat == long_col_width(metas@, dates@, 0, i as int),
            d1 as nat == long_col_width(metas@, dates@, 1, i as int),
            d2 as nat == long_col_width(metas@, dates@, 2, i as int),
            d3 as nat == long_col_width(metas@, dates@, 3, i as int),
        decreases rows@.len() - i,
    {
        let row = &rows[i];
        if row.perm.width > d0 {
            d0 = row.perm.width;
        }
        if row.owner.width > d1 {
            d1 = row.owner.width;
        }
        if row.size.width > d2 {
            d2 = row.size.width;
        }
        if row.date.width > d3 {
            d3 = row.date.width;
        }
        i = i + 1;
    }
    let mut out = String::new();
    let mut i: usize = 0;
    while i < rows.len()
        invariant
            rows@.len() == metas@.len(),
            dates@.len() == metas@.len(),
            forall|k: int|
                0 <= k < rows@.len() ==> row_matches(#[trigger] rows@[k], metas@[k], dates@[k]),
            i <= rows@.len(),
            d0 as nat == long_col_width(metas@, dates@, 0, metas@.len() as int),
            d1 as nat == long_col_width(metas@, dates@, 1, metas@.len() as int),
            d2 as nat == long_col_width(metas@, dates@, 2, metas@.len() as int),
            d3 as nat == long_col_width(metas@, dates@, 3, metas@.len() as int),
            out@ == long_output_upto(metas@, dates@, i as int),
        decreases rows@.len() - i,
    {
        append_long_line(&mut out, &rows[i], d0, d1, d2, d3);
        proof {
            let k = i as int;
            let m = metas@[k];
            let d = dates@[k];
            assert(row_matches(rows@[k], m, d));
            assert(rows@[k].perm.contents@ == long_field(m, d, 0));
            assert(rows@[k].owner.contents@ == long_field(m, d, 1));
            assert(rows@[k].size.contents@ == long_field(m, d, 2));
            assert(rows@[k].date.contents@ == long_field(m, d, 3));
            assert(rows@[k].name.contents@ == long_field(m, d, 4));
            assert(out@ =~= long_output_upto(metas@, dates@, k + 1));
        }
        i = i + 1;
    }
    out
}

/// The name cells built for a batch: one per entry, carrying the name and
/// its measured width.
pub open spec fn cells_match(cells: Seq<Cell>, metas: Seq<Meta>) -> bool {
    &&& cells.len() == metas.len()
    &&& forall|i: int|
        0 <= i < metas.len() ==> (#[trigger] cells[i]).contents@ == metas[i].name@
            && cells[i].width as nat == cell_width_of(metas[i].name@)
}

fn name_cells(metas: &Vec<Meta>) -> (r: Vec<Cell>)
    ensures
        cells_match(r@, metas@),
{
    let mut cells: Vec<Cell> = Vec::new();
    let mut i: usize = 0;
    while i < metas.len()
        invariant
            i <= metas@.len(),
            cells@.len() == i,
            forall|k: int|
                0 <= k < i ==> (#[trigger] cells@[k]).contents@ == metas@[k].name@
                    && cells@[k].width as nat == cell_width_of(metas@[k].name@),
        decreases metas@.len() - i,
    {
        let c = cell_of(metas[i].name.clone());
        cells.push(c);
        i = i + 1;
    }
    cells
}

fn col_widths(cells: &Vec<Cell>, metas: Ghost<Seq<Meta>>, ncols: usize) -> (dims: Vec<usize>)
    requires
        ncols >= 1,
        cells_match(cells@, metas@),
    ensures
        dims@.len() == ncols as int,
        forall|j: int|
            0 <= j < ncols as int ==> #[trigger] dims@[j] as nat == col_width(
                metas@,
                ncols as int,
                j,
            ),
{
    let mut dims: Vec<usize> = Vec::new();
    let mut j: usize = 0;
    while j < ncols
        invariant
            j <= ncols,
            dims@.len() == j,
            forall|k: int| 0 <= k < j ==> #[trigger] dims@[k] == 0,
        decreases ncols - j,
    {
        dims.push(0);
        j = j + 1;
    }
    let mut i: usize = 0;
    while i < cells.len()
        invariant
            i <= cells@.len(),
            ncols >= 1,
            cells_match(cells@, metas@),
            dims@.len() == ncols as int,
            forall|k: int|
                0 <= k < ncols as int ==> #[trigger] dims@[k] as nat == col_width_upto(
                    metas@,
                    ncols as int,
                    k,
                    i as int,
                ),
        decreases cells@.len() - i,
    {
        let j = i % ncols;
        let w = cells[i].width;
        if w > dims[j] {
            dims.set(j, w);
        }
        i = i + 1;
    }
    dims
}

proof fn lemma_cols_total_monotone(metas: Seq<Meta>, ncols: int, j1: int, j2: int)
    requires
        0 <= j1 <= j2,
    ensures
        cols_total_upto(metas, ncols, j1) <= cols_total_upto(metas, ncols, j2),
    decreases j2 - j1,
{
    if j1 < j2 {
        lemma_cols_total_monotone(metas, ncols, j1, j2 - 1);
    }
}

fn grid_width_of(dims: &Vec<usize>, ncols: usize, metas: Ghost<Seq<Meta>>) -> (r: Option<usize>)
    requires
        ncols >= 1,
        dims@.len() == ncols as int,
        forall|j: int|
            0 <= j < ncols as int ==> #[trigger] dims@[j] as nat == col_width(
                metas@,
                ncols as int,
                j,
            ),
    ensures
        match r {
            Some(t) => t as nat == grid_total_width(metas@, ncols as int),
            None => grid_total_width(metas@, ncols as int) > usize::MAX as nat,
        },
{
    let mut acc: usize = 0;
    let mut j: usize = 0;
    while j < ncols
        invariant
            j <= ncols,
            ncols >= 1,
            dims@.len() == ncols as int,
            forall|k: int|
                0 <= k < ncols as int ==> #[trigger] dims@[k] as nat == col_width(
                    metas@,
                    ncols as int,
                    k,
                ),
            acc as nat == cols_total_upto(metas@, ncols as int, j as int),
        decreases ncols - j,
    {
        let d = dims[j];
        if acc > usize::MAX - d {
            proof {
                lemma_cols_total_monotone(metas@, ncols as int, j as int + 1, ncols as int);
            }
            return None;
        }
        acc = acc + d;
        j = j + 1;
    }
    if acc > usize::MAX - (ncols - 1) {
        return None;
    }
    Some(acc + (ncols - 1))
}

#[verifier::rlimit(100)]
fn render_grid(cells: &Vec<Cell>, metas: Ghost<Seq<Meta>>, ncols: usize, dims: &Vec<usize>) -> (r:
    String)
    requires
        ncols >= 1,
        cells_match(cells@, metas@),
        dims@.len() == ncols as int,
        forall|j: int|
            0 <= j < ncols as int ==> #[trigger] dims@[j] as nat == col_width(
                metas@,
                ncols as int,
                j,
            ),
    ensures
        r@ == compact_lines_from(metas@, ncols as int, 0),
{
    let n = cells.len();
    let mut out = String::new();
    let mut start: usize = 0;
    proof {
        assert(out@ + compact_lines_from(metas@, ncols as int, 0) =~= compact_lines_from(
            metas@,
            ncols as int,
            0,
        ));
    }
    while start < n
        invariant
            ncols >= 1,
            cells_match(cells@, metas@),
            n == metas@.len(),
            n == cells@.len(),
            dims@.len() == ncols as int,
            forall|j: int|
                0 <= j < ncols as int ==> #[trigger] dims@[j] as nat == col_width(
                    metas@,
                    ncols as int,
                    j,
                ),
            start <= n,
            compact_lines_from(metas@, ncols as int, 0) == out@ + compact_lines_from(
                metas@,
                ncols as int,
                start as int,
            ),
        decreases n - start,
    {
        let end = if n - start > ncols {
            start + ncols
        } else {
            n
        };
        let mut line = String::new();
        let mut j: usize = 0;
        proof {
            assert(line@ + compact_line_from(metas@, ncols as int, start as int, 0)
                =~= compact_line_from(metas@, ncols as int, start as int, 0));
        }
        while start + j < end
            invariant
                ncols >= 1,
                cells_match(cells@, metas@),
                n == metas@.len(),
                n == cells@.len(),
                dims@.len() == ncols as int,
                forall|k: int|
                    0 <= k < ncols as int ==> #[trigger] dims@[k] as nat == col_width(
                        metas@,
                        ncols as int,
                        k,
                    ),
                start < n,
                end as int == if n - start > ncols {
                    start + ncols
                } else {
                    n as int
                },
                j <= ncols,
                start + j <= end,
                compact_line_from(metas@, ncols as int, start as int, 0) == line@
                    + compact_line_from(metas@, ncols as int, start as int, j as int),
            decreases end - (start + j),
        {
            let idx = start + j;
            if idx == n - 1 || j == ncols - 1 {
                line.append(cells[idx].contents.as_str());
            } else {
                append_padded(&mut line, &cells[idx], dims[j]);
                line.append(" ");
            }
            proof {
                reveal_strlit(" ");
                assert(" "@ =~= seq![' ']);
                assert(line@ + compact_line_from(metas@, ncols as int, start as int, j as int + 1)
                    =~= compact_line_from(metas@, ncols as int, start as int, 0));
            }
            j = j + 1;
        }
        out.append(line.as_str());
        out.append("\n");
        proof {
            reveal_strlit("\n");
            assert("\n"@ =~= seq!['\n']);
            assert(compact_line_from(metas@, ncols as int, start as int, j as int)
                =~= Seq::<char>::empty());
            assert(line@ =~= compact_line_from(metas@, ncols as int, start as int, 0));
            assert(compact_lines_from(metas@, ncols as int, 0) =~= out@ + compact_lines_from(
                metas@,
                ncols as int,
                end as int,
            ));
        }
        start = end;
    }
    proof {
        assert(compact_lines_from(metas@, ncols as int, start as int) =~= Seq::<char>::empty());
        assert(out@ =~= compact_lines_from(metas@, ncols as int, 0));
    }
    out
}

#[verifier::rlimit(50)]
fn render_compact(cells: &Vec<Cell>, metas: Ghost<Seq<Meta>>, term_width: Option<usize>) -> (r:
    String)
    requires
        cells_match(cells@, metas@),
    ensures
        r@ == compact_render(metas@, term_width),
{
    if term_width.is_none() {
        let dims = col_widths(cells, metas, 1);
        render_grid(cells, metas, 1, &dims)
    } else {
        let w = term_width.unwrap();
        proof {
            assert(term_width == Some(w));
        }
        let n = cells.len();
        let mut k: usize = n;
        while k >= 1
            invariant
                k <= n,
                n == metas@.len(),
                n == cells@.len(),
                cells_match(cells@, metas@),
                term_width == Some(w),
                best_cols(metas@, w as nat) == best_cols_from(metas@, w as nat, k as int),
            decreases k,
        {
            let dims = col_widths(cells, metas, k);
            let total = grid_width_of(&dims, k, metas);
            let fit = match total {
                Some(t) => t <= w,
                None => false,
            };
            if fit {
                proof {
                    assert(fits(metas@, k as int, w as nat));
                    assert(best_cols(metas@, w as nat) == k as int);
                    assert(term_width == Some(w));
                    assert(compact_render(metas@, term_width) == compact_lines_from(
                        metas@,
                        k as int,
                        0,
                    ));
                }
                return render_grid(cells, metas, k, &dims);
            }
            proof {
                assert(!fits(metas@, k as int, w as nat));
                assert(best_cols_from(metas@, w as nat, k as int) == best_cols_from(
                    metas@,
                    w as nat,
                    k as int - 1,
                ));
            }
            k = k - 1;
        }
        proof {
            assert(best_cols(metas@, w as nat) == 0);
            assert(term_width == Some(w));
            assert(compact_render(metas@, term_width) == fallback_output(metas@));
        }
        let dims = col_widths(cells, metas, 1);
        render_grid(cells, metas, 1, &dims)
    }
}

/// Renders one batch of entries: in long mode one aligned five-column
/// line per entry; in compact mode a flowed grid of names bounded by the
/// terminal width, or one name per line when no width is given or no
/// arrangement fits. An empty batch renders as empty text in both modes.
pub fn grid(
    flags: &DisplayOption,
    metas: Vec<Meta>,
    term_width: Option<usize>,
    locale: &chrono::Locale,
) -> (r: String)
    ensures
        !flags.long ==> r@ == compact_render(metas@, term_width),
        flags.long ==> exists|dates: Seq<Seq<char>>|
            #[trigger] long_dates_ok(metas@, dates) && r@ == long_output(metas@, dates),
        metas@.len() == 0 ==> r@ == Seq::<char>::empty(),
{
    if flags.long {
        let (rows, dates) = long_rows(&metas, locale);
        let r = render_long(&rows, Ghost(metas@), dates);
        proof {
            assert(long_dates_ok(metas@, dates@) && r@ == long_output(metas@, dates@));
        }
        r
    } else {
        let cells = name_cells(&metas);
        render_compact(&cells, Ghost(metas@), term_width)
    }
}

proof fn lemma_spaces_len(n: nat)
    ensures
        spaces(n).len() == n,
    decreases n,
{
    if n > 0 {
        lemma_spaces_len((n - 1) as nat);
    }
}

/// A padded cell fills its column exactly: for a plain text whose
/// measured width is its character count and fits the column, the padded
/// form is exactly as long as the column is wide, and the text itself
/// stands at the front — the pad is all trailing.
pub proof fn lemma_pad_chars_len(t: Seq<char>, w: nat, target: nat)
    requires
        w == t.len(),
        w <= target,
    ensures
        pad_chars(t, w, target).len() == target,
        pad_chars(t, w, target).subrange(0, t.len() as int) == t,
{
    lemma_spaces_len((target - w) as nat);
    assert(pad_chars(t, w, target).subrange(0, t.len() as int) =~= t);
}

/// Every name of the batch measures exactly its character count: no
/// escape sequences, no wide and no combining glyphs.
pub open spec fn plain_names(metas: Seq<Meta>) -> bool {
    forall|i: int|
        0 <= i < metas.len() ==> #[trigger] cell_width_of(metas[i].name@) == metas[i].name@.len()
}

proof fn lemma_col_width_upto_bound(metas: Seq<Meta>, ncols: int, j: int, i: int, idx: int)
    requires
        ncols >= 1,
        0 <= idx < i <= metas.len(),
        idx % ncols == j,
    ensures
        cell_width_of(metas[idx].name@) <= col_width_upto(metas, ncols, j, i),
    decreases i,
{
    if idx < i - 1 {
        lemma_col_width_upto_bound(metas, ncols, j, i - 1, idx);
    }
}

proof fn lemma_best_cols_from_fits(metas: Seq<Meta>, w: nat, k: int)
    requires
        best_cols_from(metas, w, k) >= 1,
    ensures
        fits(metas, best_cols_from(metas, w, k), w),
        best_cols_from(metas, w, k) <= k,
    decreases k,
{
    if k >= 1 && !fits(metas, k, w) {
        lemma_best_cols_from_fits(metas, w, k - 1);
    }
}

proof fn lemma_line_from_len(metas: Seq<Meta>, ncols: int, start: int, j: int)
    requires
        plain_names(metas),
        ncols >= 1,
        0 <= start,
        start % ncols == 0,
        0 <= j < ncols,
    ensures
        compact_line_from(metas, ncols, start, j).len() + cols_total_upto(metas, ncols, j) + j
            <= grid_total_width(metas, ncols),
    decreases ncols - j,
{
    let idx = start + j;
    if idx >= metas.len() {
        lemma_cols_total_monotone(metas, ncols, j, ncols);
    } else {
        assert(idx % ncols == j) by (nonlinear_arith)
            requires
                start % ncols == 0,
                0 <= j < ncols,
                ncols >= 1,
                0 <= start,
                idx == start + j,
        ;
        lemma_col_width_upto_bound(metas, ncols, j, metas.len() as int, idx);
        if idx == metas.len() - 1 || j == ncols - 1 {
            assert(compact_line_from(metas, ncols, start, j + 1) =~= Seq::<char>::empty());
            lemma_cols_total_monotone(metas, ncols, j + 1, ncols);
        } else {
            lemma_line_from_len(metas, ncols, start, j + 1);
            lemma_spaces_len((col_width(metas, ncols, j) - cell_width_of(metas[idx].name@)) as nat);
        }
    }
}

/// The measured width of one piece of a compact line: a padded cell
/// fills its column and carries its separating space; the last cell of a
/// row counts only its own measured width.
pub open spec fn compact_piece_width(metas: Seq<Meta>, ncols: int, start: int, j: int) -> nat {
    let idx = start + j;
    if idx == metas.len() - 1 || j == ncols - 1 {
        cell_width_of(metas[idx].name@)
    } else {
        col_width(metas, ncols, j) + 1
    }
}

/// The measured width of a compact line from row position `j` on: the
/// sum of its pieces' measured widths.
pub open spec fn compact_line_width_from(metas: Seq<Meta>, ncols: int, start: int, j: int) -> nat
    decreases ncols - j,
{
    if j < 0 || j >= ncols || start + j >= metas.len() {
        0
    } else {
        compact_piece_width(metas, ncols, start, j) + compact_line_width_from(
            metas,
            ncols,
            start,
            j + 1,
        )
    }
}

proof fn lemma_line_width_from_bound(metas: Seq<Meta>, ncols: int, start: int, j: int)
    requires
        ncols >= 1,
        0 <= start,
        start % ncols == 0,
        0 <= j < ncols,
    ensures
        compact_line_width_from(metas, ncols, start, j) + cols_total_upto(metas, ncols, j) + j
            <= grid_total_width(metas, ncols),
    decreases ncols - j,
{
    let idx = start + j;
    if idx >= metas.len() {
        lemma_cols_total_monotone(metas, ncols, j, ncols);
    } else {
        assert(idx % ncols == j) by (nonlinear_arith)
            requires
                start % ncols == 0,
                0 <= j < ncols,
                ncols >= 1,
                0 <= start,
                idx == start + j,
        ;
        lemma_col_width_upto_bound(metas, ncols, j, metas.len() as int, idx);
        assert(cols_total_upto(metas, ncols, j + 1) == cols_total_upto(metas, ncols, j)
            + col_width(metas, ncols, j));
        if idx == metas.len() - 1 || j == ncols - 1 {
            assert(compact_line_width_from(metas, ncols, start, j + 1) == 0);
            lemma_cols_total_monotone(metas, ncols, j + 1, ncols);
        } else {
            lemma_line_width_from_bound(metas, ncols, start, j + 1);
        }
    }
}

/// Compact mode width bound over measured widths: when a terminal width
/// is supplied and some arrangement fits, the measured width of every
/// line of the chosen grid — each row starts at a multiple of the chosen
/// column count — stays within that width.
pub proof fn lemma_compact_measured_width_bound(metas: Seq<Meta>, w: usize, start: int)
    requires
        best_cols(metas, w as nat) >= 1,
        0 <= start,
        start % best_cols(metas, w as nat) == 0,
    ensures
        compact_line_width_from(metas, best_cols(metas, w as nat), start, 0) <= w as nat,
{
    let b = best_cols(metas, w as nat);
    lemma_best_cols_from_fits(metas, w as nat, metas.len() as int);
    lemma_line_width_from_bound(metas, b, start, 0);
}

/// Compact mode width bound: when a terminal width is supplied and some
/// arrangement fits, every line of the chosen grid — each row starts at a
/// multiple of the chosen column count — is at most that many characters
/// long, for a batch of plainly measured names.
pub proof fn lemma_compact_width_bound(metas: Seq<Meta>, w: usize, start: int)
    requires
        plain_names(metas),
        best_cols(metas, w as nat) >= 1,
        0 <= start,
        start % best_cols(metas, w as nat) == 0,
    ensures
        compact_line_from(metas, best_cols(metas, w as nat), start, 0).len() <= w as nat,
{
    let b = best_cols(metas, w as nat);
    lemma_best_cols_from_fits(metas, w as nat, metas.len() as int);
    lemma_line_from_len(metas, b, start, 0);
}

proof fn lemma_best_zero_no_single(metas: Seq<Meta>, w: nat, k: int)
    requires
        k >= 1,
        best_cols_from(metas, w, k) == 0,
    ensures
        !fits(metas, 1, w),
    decreases k,
{
    if k > 1 {
        lemma_best_zero_no_single(metas, w, k - 1);
    }
}

proof fn lemma_single_col_attained(metas: Seq<Meta>, i: int)
    requires
        1 <= i <= metas.len(),
    ensures
        exists|idx: int|
            0 <= idx < i && #[trigger] cell_width_of(metas[idx].name@) == col_width_upto(
                metas,
                1,
                0,
                i,
            ),
    decreases i,
{
    if i == 1 {
        assert(col_width_upto(metas, 1, 0, 0) == 0);
        assert(cell_width_of(metas[0].name@) == col_width_upto(metas, 1, 0, 1));
    } else {
        lemma_single_col_attained(metas, i - 1);
        let prev = col_width_upto(metas, 1, 0, i - 1);
        let w = cell_width_of(metas[i - 1].name@);
        if w > prev {
            assert(cell_width_of(metas[i - 1].name@) == col_width_upto(metas, 1, 0, i));
        }
    }
}

/// The exception to the compact width bound: when no arrangement fits —
/// not even a single column — the output is the fallback, and that can
/// only happen because some single name is itself wider than the
/// terminal; the fallback gives each such name its own line, unmodified.
pub proof fn lemma_fallback_when_nothing_fits(metas: Seq<Meta>, w: usize)
    requires
        metas.len() >= 1,
        best_cols(metas, w as nat) == 0,
    ensures
        compact_render(metas, Some(w)) == fallback_output(metas),
        exists|idx: int|
            0 <= idx < metas.len() && #[trigger] cell_width_of(metas[idx].name@) > w as nat,
{
    lemma_best_zero_no_single(metas, w as nat, metas.len() as int);
    lemma_single_col_attained(metas, metas.len() as int);
    assert(cols_total_upto(metas, 1, 0) == 0);
    assert(cols_total_upto(metas, 1, 1) == col_width(metas, 1, 0));
    let a = choose|idx: int|
        0 <= idx < metas.len() && #[trigger] cell_width_of(metas[idx].name@) == col_width_upto(
            metas,
            1,
            0,
            metas.len() as int,
        );
    assert(cell_width_of(metas[a].name@) > w as nat);
}

proof fn lemma_col_term_le_total(metas: Seq<Meta>, ncols: int, j: int)
    requires
        0 <= j < ncols,
    ensures
        col_width(metas, ncols, j) <= cols_total_upto(metas, ncols, ncols),
{
    assert(cols_total_upto(metas, ncols, j + 1) == cols_total_upto(metas, ncols, j) + col_width(
        metas,
        ncols,
        j,
    ));
    lemma_cols_total_monotone(metas, ncols, j + 1, ncols);
}

proof fn lemma_wide_name_no_fit(metas: Seq<Meta>, w: nat, idx: int, ncols: int)
    requires
        0 <= idx < metas.len(),
        cell_width_of(metas[idx].name@) > w,
        1 <= ncols,
    ensures
        !fits(metas, ncols, w),
{
    let j = idx % ncols;
    assert(0 <= j < ncols) by (nonlinear_arith)
        requires
            ncols >= 1,
            0 <= idx,
            j == idx % ncols,
    ;
    lemma_col_width_upto_bound(metas, ncols, j, metas.len() as int, idx);
    lemma_col_term_le_total(metas, ncols, j);
}

proof fn lemma_wide_name_best_zero(metas: Seq<Meta>, w: nat, idx: int, k: int)
    requires
        0 <= idx < metas.len(),
        cell_width_of(metas[idx].name@) > w,
        k <= metas.len(),
    ensures
        best_cols_from(metas, w, k) == 0,
    decreases k,
{
    if k >= 1 {
        lemma_wide_name_no_fit(metas, w, idx, k);
        lemma_wide_name_best_zero(metas, w, idx, k - 1);
    }
}

/// The converse of the fallback exception: one name whose measured width
/// exceeds the terminal width defeats every arrangement — no column count
/// fits — so the compact output is exactly the one-name-per-line
/// fallback.
pub proof fn lemma_wide_name_forces_fallback(metas: Seq<Meta>, w: usize, idx: int)
    requires
        0 <= idx < metas.len(),
        cell_width_of(metas[idx].name@) > w as nat,
    ensures
        best_cols(metas, w as nat) == 0,
        compact_render(metas, Some(w)) == fallback_output(metas),
{
    lemma_wide_name_best_zero(metas, w as nat, idx, metas.len() as int);
}

/// Each line of the single-column fallback is exactly one entry's name,
/// at its natural width, never truncated or wrapped.
pub proof fn lemma_fallback_line(metas: Seq<Meta>, i: int)
    requires
        0 <= i < metas.len(),
    ensures
        compact_line_from(metas, 1, i, 0) == metas[i].name@,
        compact_lines_from(metas, 1, i) == metas[i].name@ + seq!['\n'] + compact_lines_from(
            metas,
            1,
            i + 1,
        ),
{
    assert(compact_line_from(metas, 1, i, 1) =~= Seq::<char>::empty());
    assert(compact_line_from(metas, 1, i, 0) =~= metas[i].name@);
}

proof fn lemma_long_col_bound(metas: Seq<Meta>, dates: Seq<Seq<char>>, j: int, i: int, k: int)
    requires
        0 <= k < i,
    ensures
        cell_width_of(long_field(metas[k], dates[k], j)) <= long_col_width(metas, dates, j, i),
    decreases i,
{
    if k < i - 1 {
        lemma_long_col_bound(metas, dates, j, i - 1, k);
    }
}

/// Long mode row shape: the output grows by exactly one line per entry,
/// and that line is the five fields joined by single spaces — each of the
/// first four padded to the largest measured width of its column over the
/// whole batch, which its own width never exceeds — with the name last at
/// its natural width.
pub proof fn lemma_long_row_shape(metas: Seq<Meta>, dates: Seq<Seq<char>>, i: int)
    requires
        0 <= i < metas.len(),
        dates.len() == metas.len(),
    ensures
        long_output_upto(metas, dates, i + 1) == long_output_upto(metas, dates, i) + long_line(
            metas,
            dates,
            i,
        ) + seq!['\n'],
        long_line(metas, dates, i) == pad_chars(
            long_field(metas[i], dates[i], 0),
            cell_width_of(long_field(metas[i], dates[i], 0)),
            long_col_width(metas, dates, 0, metas.len() as int),
        ) + seq![' '] + pad_chars(
            long_field(metas[i], dates[i], 1),
            cell_width_of(long_field(metas[i], dates[i], 1)),
            long_col_width(metas, dates, 1, metas.len() as int),
        ) + seq![' '] + pad_chars(
            long_field(metas[i], dates[i], 2),
            cell_width_of(long_field(metas[i], dates[i], 2)),
            long_col_width(metas, dates, 2, metas.len() as int),
        ) + seq![' '] + pad_chars(
            long_field(metas[i], dates[i], 3),
            cell_width_of(long_field(metas[i], dates[i], 3)),
            long_col_width(metas, dates, 3, metas.len() as int),
        ) + seq![' '] + long_field(metas[i], dates[i], 4),
        forall|j: int|
            0 <= j <= 3 ==> cell_width_of(long_field(metas[i], dates[i], j))
                <= #[trigger] long_col_width(metas, dates, j, metas.len() as int),
{
    assert forall|j: int|
        0 <= j <= 3 implies cell_width_of(long_field(metas[i], dates[i], j))
        <= #[trigger] long_col_width(metas, dates, j, metas.len() as int) by {
        lemma_long_col_bound(metas, dates, j, metas.len() as int, i);
    }
}

/// For an empty entry batch both modes produce empty output: no lines at
/// all.
pub proof fn lemma_empty_render(dates: Seq<Seq<char>>, long: bool, term_width: Option<usize>)
    ensures
        render_spec(Seq::empty(), dates, long, term_width) == Seq::<char>::empty(),
{
}

/// Determinism: the rendered text is a function of the entry batch, the
/// formatted date texts, the mode and the width alone, so two renders
/// from the same inputs are byte-identical.
pub proof fn lemma_render_deterministic(
    metas: Seq<Meta>,
    dates: Seq<Seq<char>>,
    long: bool,
    term_width: Option<usize>,
    r1: Seq<char>,
    r2: Seq<char>,
)
    requires
        r1 == render_spec(metas, dates, long, term_width),
        r2 == render_spec(metas, dates, long, term_width),
    ensures
        r1 == r2,
{
}

} // verus!
