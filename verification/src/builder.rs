//! Columns of text laid side by side, each padded to a common tab size.

use vstd::prelude::*;
use vstd::string::StringExecFns;
use crate::util::text::{byte_width, push_repeated, repeated, same_text, to_chars, views, width_of};

verus! {

/// The columns of a layout as values: each column a list of cells.
pub type Columns = Seq<Seq<Seq<char>>>;

/// The cell of column `c` in row `i`: empty where the column is shorter.
pub open spec fn cell(columns: Columns, c: int, i: int) -> Seq<char> {
    if 0 <= i < columns[c].len() {
        columns[c][i]
    } else {
        Seq::empty()
    }
}

/// The first column at or after `j` that holds the same cells as column `c`.
pub open spec fn first_same(columns: Columns, c: int, j: int) -> int
    decreases c - j,
{
    if 0 <= j < c && columns[j] != columns[c] {
        first_same(columns, c, j + 1)
    } else {
        j
    }
}

/// Whether the cells of column `c` are padded: they are unless the first
/// column with the same cells is the last column of all.
pub open spec fn is_padded(columns: Columns, c: int) -> bool {
    first_same(columns, c, 0) != columns.len() - 1
}

/// A cell with its padding: spaces up to the tab size, where the column is
/// padded and the cell is shorter than that.
pub open spec fn piece(columns: Columns, tabsize: usize, c: int, i: int) -> Seq<char> {
    let text = cell(columns, c, i);
    if byte_width(text) < tabsize && is_padded(columns, c) {
        text + repeated(" "@, (tabsize - byte_width(text)) as nat)
    } else {
        text
    }
}

/// Row `i` up to column `upto`.
pub open spec fn line(columns: Columns, tabsize: usize, i: int, upto: int) -> Seq<char>
    decreases upto,
{
    if upto <= 0 || upto > columns.len() {
        Seq::empty()
    } else {
        line(columns, tabsize, i, upto - 1) + piece(columns, tabsize, upto - 1, i)
    }
}

/// The first `upto` rows, each ended by a line feed.
pub open spec fn layout(columns: Columns, tabsize: usize, upto: int) -> Seq<char>
    decreases upto,
{
    if upto <= 0 {
        Seq::empty()
    } else {
        layout(columns, tabsize, upto - 1) + line(
            columns,
            tabsize,
            upto - 1,
            columns.len() as int,
        ) + "\n"@
    }
}

/// The length of the longest among the first `upto` columns.
pub open spec fn tallest(columns: Columns, upto: int) -> nat
    decreases upto,
{
    if upto <= 0 || upto > columns.len() {
        0
    } else {
        let before = tallest(columns, upto - 1);
        if columns[upto - 1].len() > before {
            columns[upto - 1].len()
        } else {
            before
        }
    }
}

/// The width of the widest among the first `upto` cells of a column, and at
/// least `floor`.
pub open spec fn widest_cell(column: Seq<Seq<char>>, upto: int, floor: usize) -> usize
    decreases upto,
{
    if upto <= 0 || upto > column.len() {
        floor
    } else {
        let before = widest_cell(column, upto - 1, floor);
        if byte_width(column[upto - 1]) > before {
            byte_width(column[upto - 1])
        } else {
            before
        }
    }
}

/// The width of the widest cell among the first `upto` columns.
pub open spec fn widest_word(columns: Columns, upto: int) -> usize
    decreases upto,
{
    if upto <= 0 || upto > columns.len() {
        0
    } else {
        widest_cell(
            columns[upto - 1],
            columns[upto - 1].len() as int,
            widest_word(columns, upto - 1),
        )
    }
}

/// A cell padded with spaces to `width` characters.
pub open spec fn padded(text: Seq<char>, width: usize) -> Seq<char> {
    if text.len() < width {
        text + repeated(" "@, (width - text.len()) as nat)
    } else {
        text
    }
}

/// The first `upto` cells of a column, each padded, one behind the other.
pub open spec fn padded_cells(column: Seq<Seq<char>>, width: usize, upto: int) -> Seq<char>
    decreases upto,
{
    if upto <= 0 || upto > column.len() {
        Seq::empty()
    } else {
        padded_cells(column, width, upto - 1) + padded(column[upto - 1], width)
    }
}

/// The first `upto` columns written out: the padded cells of each on a line
/// of its own.
pub open spec fn written(columns: Columns, width: usize, upto: int) -> Seq<char>
    decreases upto,
{
    if upto <= 0 || upto > columns.len() {
        Seq::empty()
    } else {
        written(columns, width, upto - 1) + padded_cells(
            columns[upto - 1],
            width,
            columns[upto - 1].len() as int,
        ) + "\n"@
    }
}

/// The columns that a vector of columns stands for.
pub open spec fn columns_of(inner: Seq<Vec<&str>>) -> Columns {
    Seq::new(inner.len(), |c: int| views(inner[c]@))
}

/// A string of `size` spaces.
pub fn create_spaces(size: usize) -> (spaces: String)
    ensures
        spaces@ == repeated(" "@, size as nat),
{
    let mut spaces = String::new();
    push_repeated(&mut spaces, " ", size);
    assert(Seq::<char>::empty() + repeated(" "@, size as nat) == repeated(" "@, size as nat));
    spaces
}

/// Whether two columns hold the same cells.
fn same_column(a: &Vec<&str>, b: &Vec<&str>) -> (r: bool)
    ensures
        r == (views(a@) == views(b@)),
{
    if a.len() != b.len() {
        assert(views(a@).len() != views(b@).len());
        return false;
    }
    let mut i: usize = 0;
    while i < a.len()
        invariant
            i <= a@.len() == b@.len(),
            forall|j: int| 0 <= j < i ==> views(a@)[j] == views(b@)[j],
        decreases a@.len() - i,
    {
        if !same_text(&to_chars(a[i]), &to_chars(b[i])) {
            assert(views(a@)[i as int] != views(b@)[i as int]);
            return false;
        }
        i += 1;
    }
    assert(views(a@) =~= views(b@));
    true
}

/// Columns of cells, the tab size that cells are padded to, and the number
/// of rows that are laid out.
pub struct Builder<'a> {
    swap: bool,
    inner: Vec<Vec<&'a str>>,
    tabsize: usize,
    largest: usize,
}

impl<'a> Builder<'a> {
    /// The columns.
    pub closed spec fn columns(&self) -> Columns {
        columns_of(self.inner@)
    }

    /// The tab size: the width that padded cells are filled up to.
    pub closed spec fn tab(&self) -> usize {
        self.tabsize
    }

    /// The number of rows that are laid out.
    pub closed spec fn rows(&self) -> usize {
        self.largest
    }

    /// Whether the layout is marked as too tall to stand beside art.
    pub closed spec fn swapped(&self) -> bool {
        self.swap
    }

    /// A layout of the given columns. The tab size is three more than the
    /// widest cell, and there are as many rows as the longest column has
    /// cells.
    pub fn from(f: Vec<Vec<&'a str>>) -> (b: Self)
        requires
            widest_word(columns_of(f@), f@.len() as int) + 3 <= usize::MAX,
        ensures
            b.columns() == columns_of(f@),
            b.tab() == widest_word(columns_of(f@), f@.len() as int) + 3,
            b.rows() == tallest(columns_of(f@), f@.len() as int),
            b.swapped() == (b.rows() > 80),
    {
        let ghost columns = columns_of(f@);
        let mut largest: usize = 0;
        let mut size: usize = 0;
        let mut c: usize = 0;
        while c < f.len()
            invariant
                c <= f@.len(),
                columns == columns_of(f@),
                largest == tallest(columns, c as int),
                size == widest_word(columns, c as int),
            decreases f@.len() - c,
        {
            let column = &f[c];
            assert(columns[c as int] == views(column@));
            if column.len() > largest {
                largest = column.len();
            }
            let mut k: usize = 0;
            let ghost floor = size;
            while k < column.len()
                invariant
                    k <= column@.len(),
                    size == widest_cell(views(column@), k as int, floor),
                decreases column@.len() - k,
            {
                let w = width_of(column[k]);
                assert(views(column@)[k as int] == column@[k as int]@);
                if w > size {
                    size = w;
                }
                k += 1;
            }
            c += 1;
        }
        Self { swap: largest > 80, inner: f, tabsize: size + 3, largest }
    }

    /// A copy of the columns, in reverse order where `reverse` is set.
    fn copy_columns(&self, reverse: bool) -> (r: Vec<Vec<&'a str>>)
        ensures
            columns_of(r@) == (if reverse {
                self.columns().reverse()
            } else {
                self.columns()
            }),
    {
        let n = self.inner.len();
        let mut r: Vec<Vec<&'a str>> = Vec::new();
        let mut c: usize = 0;
        while c < n
            invariant
                c <= n == self.inner@.len(),
                r@.len() == c,
                forall|j: int|
                    0 <= j < c ==> views((#[trigger] r@[j])@) == views(
                        self.inner@[if reverse {
                            n - 1 - j
                        } else {
                            j
                        }]@,
                    ),
            decreases n - c,
        {
            let from: usize = if reverse {
                n - 1 - c
            } else {
                c
            };
            let source = &self.inner[from];
            let mut column: Vec<&'a str> = Vec::new();
            let mut k: usize = 0;
            while k < source.len()
                invariant
                    k <= source@.len(),
                    column@.len() == k,
                    forall|j: int| 0 <= j < k ==> (#[trigger] column@[j])@ == source@[j]@,
                decreases source@.len() - k,
            {
                column.push(source[k]);
                k += 1;
            }
            assert(views(column@) =~= views(source@));
            r.push(column);
            c += 1;
        }
        assert(columns_of(r@) =~= (if reverse {
            self.columns().reverse()
        } else {
            self.columns()
        }));
        r
    }

    /// The same layout, with its columns in reverse order where `swap` is
    /// set.
    pub fn swap(&self, swap: bool) -> (b: Self)
        ensures
            b.columns() == (if swap {
                self.columns().reverse()
            } else {
                self.columns()
            }),
            b.tab() == self.tab(),
            b.rows() == self.rows(),
            b.swapped() == self.swapped(),
    {
        Self {
            swap: self.swap,
            inner: self.copy_columns(swap),
            tabsize: self.tabsize,
            largest: self.largest,
        }
    }

    /// The same layout with another tab size.
    pub fn set_tab(self, tabsize: usize) -> (b: Self)
        ensures
            b.columns() == self.columns(),
            b.tab() == tabsize,
            b.rows() == self.rows(),
            b.swapped() == self.swapped(),
    {
        Self { inner: self.inner, tabsize, largest: self.largest, swap: self.swap }
    }

    /// The index of the first column with the same cells as column `c`.
    fn position(&self, c: usize) -> (j: usize)
        requires
            c < self.inner@.len(),
        ensures
            j == first_same(self.columns(), c as int, 0),
            j <= c,
    {
        let mut j: usize = 0;
        while j < c && !same_column(&self.inner[j], &self.inner[c])
            invariant
                j <= c < self.inner@.len(),
                first_same(self.columns(), c as int, 0) == first_same(
                    self.columns(),
                    c as int,
                    j as int,
                ),
            decreases c - j,
        {
            j += 1;
        }
        j
    }

    /// The rows of the layout, one line each: the cells of a row side by
    /// side, padded to the tab size.
    #[must_use]
    pub fn column_builder(&self) -> (f: String)
        ensures
            f@ == layout(self.columns(), self.tab(), self.rows() as int),
    {
        let ghost columns = self.columns();
        let n = self.inner.len();
        let mut i: usize = 0;
        let mut f = String::new();
        while i < self.largest
            invariant
                i <= self.largest,
                n == self.inner@.len(),
                columns == self.columns(),
                f@ == layout(columns, self.tabsize, i as int),
            decreases self.largest - i,
        {
            let mut line_text = String::new();
            let mut c: usize = 0;
            while c < n
                invariant
                    c <= n == self.inner@.len(),
                    columns == self.columns(),
                    line_text@ == line(columns, self.tabsize, i as int, c as int),
                decreases n - c,
            {
                let item = &self.inner[c];
                assert(columns[c as int] == views(item@));
                let wall_item: &str = if i < item.len() {
                    item[i]
                } else {
                    ""
                };
                proof {
                    if i < item@.len() {
                        assert(views(item@)[i as int] == item@[i as int]@);
                    } else {
                        reveal_strlit("");
                        assert(wall_item@ =~= Seq::<char>::empty());
                    }
                }
                assert(wall_item@ == cell(columns, c as int, i as int));
                let ghost before = line_text@;
                line_text.append(wall_item);
                let w = width_of(wall_item);
                if w < self.tabsize {
                    let first = self.position(c);
                    if first != n - 1 {
                        push_repeated(&mut line_text, " ", self.tabsize - w);
                    }
                }
                assert(line_text@ == before + piece(columns, self.tabsize, c as int, i as int));
                c += 1;
            }
            let ghost before = f@;
            f.append(line_text.as_str());
            f.append("\n");
            assert(f@ == before + line_text@ + "\n"@);
            i += 1;
        }
        f
    }

    /// The layout as it is shown for inspection: each column on a line, its
    /// cells padded to the tab size, counted in characters.
    pub fn to_string(&self) -> (f: String)
        ensures
            f@ == written(self.columns(), self.tab(), self.columns().len() as int),
    {
        let ghost columns = self.columns();
        let mut f = String::new();
        let mut c: usize = 0;
        while c < self.inner.len()
            invariant
                c <= self.inner@.len(),
                columns == self.columns(),
                f@ == written(columns, self.tabsize, c as int),
            decreases self.inner@.len() - c,
        {
            let column = &self.inner[c];
            assert(columns[c as int] == views(column@));
            let ghost before = f@;
            let mut k: usize = 0;
            assert(f@ + padded_cells(views(column@), self.tabsize, 0) == f@);
            while k < column.len()
                invariant
                    k <= column@.len(),
                    f@ == before + padded_cells(views(column@), self.tabsize, k as int),
                decreases column@.len() - k,
            {
                assert(views(column@)[k as int] == column@[k as int]@);
                let item = column[k];
                let ghost so_far = f@;
                f.append(item);
                let n = to_chars(item).len();
                if n < self.tabsize {
                    push_repeated(&mut f, " ", self.tabsize - n);
                }
                assert(f@ == so_far + padded(item@, self.tabsize));
                assert((before + padded_cells(views(column@), self.tabsize, k as int)) + padded(
                    item@,
                    self.tabsize,
                ) == before + padded_cells(views(column@), self.tabsize, k + 1));
                k += 1;
            }
            f.append("\n");
            assert(f@ == written(columns, self.tabsize, c + 1));
            c += 1;
        }
        f
    }
}

} // verus!
