//! A plain table for terminal output: columns padded with spaces to a common
//! width and separated by tabs.

use vstd::prelude::*;
use vstd::string::{StrSliceExecFns, StringExecFns};
use vstd::utf8::encode_utf8;

verus! {

/// The number of bytes that a text takes.
pub open spec fn byte_len(text: Seq<char>) -> nat {
    encode_utf8(text).len()
}

/// The number of bytes of the cell in column `col` of `row`; a row without
/// such a cell counts for nothing.
pub open spec fn cell_len(row: Seq<Seq<char>>, col: int) -> nat {
    if 0 <= col < row.len() {
        byte_len(row[col])
    } else {
        0
    }
}

/// The larger of two numbers.
pub open spec fn larger(a: nat, b: nat) -> nat {
    if a >= b {
        a
    } else {
        b
    }
}

/// The most bytes that any row has in column `col`.
pub open spec fn rows_max(rows: Seq<Seq<Seq<char>>>, col: int) -> nat
    decreases rows.len(),
{
    if rows.len() == 0 {
        0
    } else {
        larger(rows_max(rows.drop_last(), col), cell_len(rows.last(), col))
    }
}

/// The width of column `col`: the most bytes that its header or any of its
/// cells takes. A column without a header has no width.
pub open spec fn col_width(headers: Seq<Seq<char>>, rows: Seq<Seq<Seq<char>>>, col: int) -> nat {
    if 0 <= col < headers.len() {
        larger(rows_max(rows, col), byte_len(headers[col]))
    } else {
        0
    }
}

/// So many spaces.
pub open spec fn spaces(n: nat) -> Seq<char> {
    Seq::new(n, |i: int| ' ')
}

/// A cell as it is printed: its text, spaces up to `width` characters, and
/// a tab.
pub open spec fn padded(cell: Seq<char>, width: nat) -> Seq<char> {
    let fill = if width > cell.len() {
        (width - cell.len()) as nat
    } else {
        0
    };
    cell + spaces(fill) + seq!['\t']
}

/// A line as it is printed: its cells, each padded to the width of its
/// column.
pub open spec fn line(cells: Seq<Seq<char>>, headers: Seq<Seq<char>>, rows: Seq<Seq<Seq<char>>>) -> Seq<
    char,
>
    decreases cells.len(),
{
    if cells.len() == 0 {
        Seq::empty()
    } else {
        line(cells.drop_last(), headers, rows) + padded(
            cells.last(),
            col_width(headers, rows, cells.len() - 1),
        )
    }
}

/// The lines of the table: the headers, then each row.
pub open spec fn render_lines(headers: Seq<Seq<char>>, rows: Seq<Seq<Seq<char>>>) -> Seq<Seq<char>> {
    seq![line(headers, headers, rows)] + Seq::new(rows.len(), |i: int| line(rows[i], headers, rows))
}

/// The texts that a vector of strings holds.
pub open spec fn texts(cells: &Vec<String>) -> Seq<Seq<char>> {
    Seq::new(cells@.len(), |i: int| cells@[i]@)
}

/// A table of texts.
#[derive(Debug)]
pub struct Table {
    headers: Vec<String>,
    rows: Vec<Vec<String>>,
}

impl Table {
    /// The headers, left to right.
    pub closed spec fn headers(&self) -> Seq<Seq<char>> {
        texts(&self.headers)
    }

    /// The rows, top to bottom.
    pub closed spec fn rows(&self) -> Seq<Seq<Seq<char>>> {
        Seq::new(self.rows@.len(), |i: int| texts(&self.rows@[i]))
    }

    /// The table without headers and rows.
    pub fn new() -> (out: Self)
        ensures
            out.headers() == Seq::<Seq<char>>::empty(),
            out.rows() == Seq::<Seq<Seq<char>>>::empty(),
    {
        let out = Table { headers: Vec::new(), rows: Vec::new() };
        assert(out.headers() =~= Seq::empty());
        assert(out.rows() =~= Seq::empty());
        out
    }

    /// Adds a column with the header `text` at the right.
    pub fn add_header(&mut self, text: String)
        ensures
            final(self).headers() == old(self).headers().push(text@),
            final(self).rows() == old(self).rows(),
    {
        self.headers.push(text);
        assert(self.headers() =~= old(self).headers().push(text@));
        assert(self.rows() =~= old(self).rows());
    }

    /// Adds a row at the bottom.
    pub fn add_row(&mut self, row: Vec<String>)
        ensures
            final(self).rows() == old(self).rows().push(texts(&row)),
            final(self).headers() == old(self).headers(),
    {
        self.rows.push(row);
        assert(self.rows() =~= old(self).rows().push(texts(&row)));
        assert(self.headers() =~= old(self).headers());
    }

    /// The width of column `col`.
    pub fn column_width(&self, col: usize) -> (width: usize)
        ensures
            width == col_width(self.headers(), self.rows(), col as int),
    {
        if col >= self.headers.len() {
            return 0;
        }
        let ghost all = self.rows();
        let mut most: usize = 0;
        let mut i: usize = 0;
        assert(all.take(0) =~= Seq::<Seq<Seq<char>>>::empty());
        while i < self.rows.len()
            invariant
                i <= self.rows.len(),
                all == self.rows(),
                most == rows_max(all.take(i as int), col as int),
            decreases self.rows.len() - i,
        {
            let row = &self.rows[i];
            proof {
                assert(all.take(i + 1).drop_last() =~= all.take(i as int));
                assert(all.take(i + 1).last() == texts(row));
            }
            if col < row.len() {
                let n = row[col].as_str().as_bytes().len();
                if n > most {
                    most = n;
                }
            }
            i += 1;
        }
        assert(all.take(all.len() as int) =~= all);
        let n = self.headers[col].as_str().as_bytes().len();
        if n > most {
            n
        } else {
            most
        }
    }

    /// One line of the table.
    fn render_line(&self, cells: &Vec<String>) -> (out: String)
        ensures
            out@ == line(texts(cells), self.headers(), self.rows()),
    {
        let ghost all = texts(cells);
        let mut out = String::from_str("");
        proof {
            reveal_strlit("");
            assert(out@ =~= Seq::<char>::empty());
            assert(all.take(0) =~= Seq::<Seq<char>>::empty());
        }
        let mut i: usize = 0;
        while i < cells.len()
            invariant
                i <= cells.len(),
                all == texts(cells),
                out@ == line(all.take(i as int), self.headers(), self.rows()),
            decreases cells.len() - i,
        {
            let width = self.column_width(i);
            let cell = pad(&cells[i], width);
            proof {
                assert(all.take(i + 1).drop_last() =~= all.take(i as int));
                assert(all.take(i + 1).last() == cells@[i as int]@);
            }
            out.append(cell.as_str());
            i += 1;
        }
        assert(all.take(all.len() as int) =~= all);
        out
    }

    /// The lines of the table as they are printed, without line ends: the
    /// headers first, then the rows.
    pub fn render(&self) -> (out: Vec<String>)
        ensures
            texts(&out) == render_lines(self.headers(), self.rows()),
    {
        let mut out: Vec<String> = Vec::new();
        let head = self.render_line(&self.headers);
        out.push(head);
        let mut i: usize = 0;
        while i < self.rows.len()
            invariant
                i <= self.rows.len(),
                out@.len() == i + 1,
                out@[0]@ == line(self.headers(), self.headers(), self.rows()),
                forall|k: int|
                    0 <= k < i ==> (#[trigger] out@[k + 1])@ == line(
                        self.rows()[k],
                        self.headers(),
                        self.rows(),
                    ),
            decreases self.rows.len() - i,
        {
            let next = self.render_line(&self.rows[i]);
            out.push(next);
            i += 1;
        }
        assert(texts(&out) =~= render_lines(self.headers(), self.rows())) by {
            let want = render_lines(self.headers(), self.rows());
            assert(texts(&out).len() == want.len());
            assert forall|k: int| 0 <= k < want.len() implies texts(&out)[k] == want[k] by {
                if k > 0 {
                    assert(out@[(k - 1) + 1]@ == line(
                        self.rows()[k - 1],
                        self.headers(),
                        self.rows(),
                    ));
                }
            }
        }
        out
    }
}

/// A cell as it is printed in a column of the given width.
pub fn pad(cell: &String, width: usize) -> (out: String)
    ensures
        out@ == padded(cell@, width as nat),
{
    let mut out = String::from_str(cell.as_str());
    let count = cell.as_str().unicode_len();
    let mut n: usize = count;
    assert(spaces(0) =~= Seq::<char>::empty());
    assert(out@ + Seq::<char>::empty() =~= out@);
    while n < width
        invariant
            count <= n,
            count == cell@.len(),
            n <= width || n == count,
            out@ == cell@ + spaces((n - count) as nat),
        decreases width - n,
    {
        proof {
            reveal_strlit(" ");
            assert(" "@ =~= seq![' ']);
            assert(spaces((n + 1 - count) as nat) =~= spaces((n - count) as nat) + seq![' ']);
        }
        out.append(" ");
        n += 1;
    }
    proof {
        reveal_strlit("\t");
        assert("\t"@ =~= seq!['\t']);
    }
    out.append("\t");
    out
}

} // verus!
