//! A document: rows in line order, an optional file name, and a dirty flag.

use crate::editor::Position;
use crate::row::{deleted, head_text, inserted, row_match, tail_text, Row};
use crate::segment::{chars_of, graphemes_of, push_char};
use crate::utils::SearchDirection;
use vstd::prelude::*;
use vstd::string::*;

verus! {

/// The text of an open document.
pub struct Document {
    rows: Vec<Row>,
    pub file_name: Option<String>,
    dirty: bool,
}

/// The lines of `text`: the stretches between line breaks, so that a text
/// with `n` line breaks has `n + 1` lines.
pub open spec fn lines_of(text: Seq<char>) -> Seq<Seq<char>>
    decreases text.len(),
{
    if text.len() == 0 {
        seq![Seq::empty()]
    } else {
        let before = lines_of(text.drop_last());
        if text.last() == '\n' {
            before.push(Seq::empty())
        } else {
            before.drop_last().push(before.last().push(text.last()))
        }
    }
}

/// The rows written out, each followed by a line break.
pub open spec fn written(rows: Seq<Seq<char>>) -> Seq<char>
    decreases rows.len(),
{
    if rows.len() == 0 {
        Seq::empty()
    } else {
        written(rows.drop_last()) + rows.last().push('\n')
    }
}

/// `at` is a place where something can be inserted: a column of an
/// existing row, its end included, or the row just below the last one.
pub open spec fn insertable(rows: Seq<Seq<char>>, at: Position) -> bool {
    ||| at.y == rows.len()
    ||| at.y < rows.len() && at.x <= width_of(rows, at.y as int)
}

/// The rows after `c` is inserted at `at`. A place that is not insertable
/// (a column beyond the end of its row, a row further down than just below
/// the last) changes nothing. Just below the last row a row is added. A
/// line break cuts the row in two at the column.
pub open spec fn rows_inserted(rows: Seq<Seq<char>>, at: Position, c: char) -> Seq<Seq<char>> {
    let y = at.y as int;
    let x = at.x as int;
    if !insertable(rows, at) {
        rows
    } else if y == rows.len() {
        if c == '\n' {
            rows.push(Seq::empty())
        } else {
            rows.push(seq![c])
        }
    } else if c == '\n' {
        rows.take(y).push(head_text(rows[y], x)).push(tail_text(rows[y], x)) + rows.skip(y + 1)
    } else {
        rows.update(y, inserted(rows[y], x, c))
    }
}

/// Deleting at `at` joins row `at.y` with the next one: the column is the
/// end of the row and a next row exists.
pub open spec fn joins_next(rows: Seq<Seq<char>>, at: Position) -> bool {
    &&& at.y + 1 < rows.len()
    &&& at.x == graphemes_of(rows[at.y as int]).len()
}

/// The rows after the cluster at `at` is deleted. At the end of a row that
/// has a successor the two rows become one; a position outside the document
/// changes nothing.
pub open spec fn rows_deleted(rows: Seq<Seq<char>>, at: Position) -> Seq<Seq<char>> {
    let y = at.y as int;
    let x = at.x as int;
    if y >= rows.len() {
        rows
    } else if joins_next(rows, at) {
        rows.take(y).push(rows[y] + rows[y + 1]) + rows.skip(y + 2)
    } else {
        rows.update(y, deleted(rows[y], x))
    }
}

/// The column from which row `y` is searched when the search began at `at`:
/// the starting column in the starting row; in any other row its beginning
/// going forward, its end going backward.
pub open spec fn search_column(
    rows: Seq<Seq<char>>,
    at: Position,
    direction: SearchDirection,
    y: int,
) -> int {
    if y == at.y {
        at.x as int
    } else {
        match direction {
            SearchDirection::Forward => 0,
            SearchDirection::Backward => graphemes_of(rows[y]).len() as int,
        }
    }
}

/// Row `y` holds no answer for the search.
pub open spec fn row_misses(
    rows: Seq<Seq<char>>,
    query: Seq<char>,
    at: Position,
    direction: SearchDirection,
    y: int,
) -> bool {
    forall|g: int|
        !row_match(rows[y], query, search_column(rows, at, direction, y), direction, g)
}

/// `found` is the answer of a search for `query` that starts at `at`: its
/// row answers the search, and every row walked before it misses.
pub open spec fn document_match(
    rows: Seq<Seq<char>>,
    query: Seq<char>,
    at: Position,
    direction: SearchDirection,
    found: Position,
) -> bool {
    let y = found.y as int;
    &&& at.y < rows.len()
    &&& row_match(
        rows[y],
        query,
        search_column(rows, at, direction, y),
        direction,
        found.x as int,
    )
    &&& match direction {
        SearchDirection::Forward => at.y <= y < rows.len() && forall|k: int|
            at.y <= k < y ==> row_misses(rows, query, at, direction, k),
        SearchDirection::Backward => y <= at.y && forall|k: int|
            y < k <= at.y ==> row_misses(rows, query, at, direction, k),
    }
}

/// The number of clusters in row `y` of `rows`; 0 where there is no such
/// row.
pub open spec fn width_of(rows: Seq<Seq<char>>, y: int) -> int {
    if 0 <= y < rows.len() {
        graphemes_of(rows[y]).len() as int
    } else {
        0
    }
}

impl Default for Document {
    /// A document without rows or file name.
    fn default() -> (doc: Document)
        ensures
            doc.wf(),
            doc.rows().len() == 0,
            doc.name() is None,
            !doc.dirty(),
    {
        Document { rows: Vec::new(), file_name: None, dirty: false }
    }
}

impl View for Document {
    type V = Seq<Seq<char>>;

    /// A document is seen as the texts of its rows.
    open spec fn view(&self) -> Seq<Seq<char>> {
        self.texts()
    }
}

impl Document {
    /// The rows, in line order.
    pub closed spec fn rows(&self) -> Seq<Row> {
        self.rows@
    }

    /// The texts of the rows, in line order.
    pub open spec fn texts(&self) -> Seq<Seq<char>> {
        self.rows().map_values(|r: Row| r.text())
    }

    /// The name of the file that the document belongs to, if it has one.
    pub closed spec fn name(&self) -> Option<String> {
        self.file_name
    }

    /// Whether the document was changed since it was opened or saved.
    pub closed spec fn dirty(&self) -> bool {
        self.dirty
    }

    /// The number of clusters in row `y`; 0 where the document has no such
    /// row.
    pub open spec fn width(&self, y: int) -> int {
        width_of(self.texts(), y)
    }

    /// Every row is well formed.
    pub open spec fn wf(&self) -> bool {
        forall|i: int| 0 <= i < self.rows().len() ==> (#[trigger] self.rows()[i]).wf()
    }

    /// The document that the file `filename` with the text `contents` holds:
    /// one row for each line.
    pub fn open(filename: &str, contents: &str) -> (doc: Document)
        ensures
            doc.wf(),
            doc.texts() == lines_of(contents@),
            doc.name() matches Some(name) && name@ == filename@,
            !doc.dirty(),
    {
        let chars = chars_of(contents);
        let mut rows: Vec<Row> = Vec::new();
        let mut line = String::new();
        let mut i: usize = 0;
        assert(chars@.take(0) =~= Seq::empty());
        assert(rows@.map_values(|r: Row| r.text()).push(line@) =~= seq![Seq::<char>::empty()]);
        while i < chars.len()
            invariant
                i <= chars.len(),
                forall|k: int| 0 <= k < rows.len() ==> (#[trigger] rows[k]).wf(),
                rows@.map_values(|r: Row| r.text()).push(line@) == lines_of(chars@.take(i as int)),
            decreases chars.len() - i,
        {
            let ghost before = rows@.map_values(|r: Row| r.text());
            let ghost prefix = chars@.take(i as int);
            proof {
                assert(chars@.take(i + 1).drop_last() =~= prefix);
                assert(before.push(line@).drop_last() =~= before);
            }
            if chars[i] == '\n' {
                let row = Row::from(line.as_str());
                rows.push(row);
                line = String::new();
                assert(rows@.map_values(|r: Row| r.text()).push(line@) =~= before.push(
                    row.text(),
                ).push(Seq::empty()));
            } else {
                push_char(&mut line, chars[i]);
            }
            i += 1;
        }
        assert(chars@.take(chars.len() as int) =~= chars@);
        let ghost before = rows@.map_values(|r: Row| r.text());
        let last = Row::from(line.as_str());
        rows.push(last);
        assert(rows@.map_values(|r: Row| r.text()) =~= before.push(line@));
        Document { rows, file_name: Some(String::from_str(filename)), dirty: false }
    }

    /// The text to write when the document is saved: each row followed by a
    /// line break.
    pub fn contents(&self) -> (out: String)
        ensures
            out@ == written(self.texts()),
    {
        let mut out = String::new();
        let mut i: usize = 0;
        assert(self.texts().take(0) =~= Seq::empty());
        while i < self.rows.len()
            invariant
                i <= self.rows.len(),
                out@ == written(self.texts().take(i as int)),
            decreases self.rows.len() - i,
        {
            proof {
                assert(self.texts().take(i + 1).drop_last() =~= self.texts().take(i as int));
                reveal_strlit("\n");
                assert("\n"@ =~= seq!['\n']);
                assert((out@ + self.rows[i as int].text()) + seq!['\n'] =~= out@
                    + self.rows[i as int].text().push('\n'));
            }
            out.append(self.rows[i].as_str());
            out.append("\n");
            i += 1;
        }
        assert(self.texts().take(self.rows.len() as int) =~= self.texts());
        out
    }

    /// Records that the document was written out: it is clean again.
    pub fn mark_saved(&mut self)
        ensures
            !final(self).dirty(),
            final(self).rows() == old(self).rows(),
            final(self).name() == old(self).name(),
    {
        self.dirty = false;
    }

    /// Row `index`, if the document has one.
    pub fn get_row(&self, index: usize) -> (row: Option<&Row>)
        ensures
            index < self.rows().len() ==> row == Some(&self.rows()[index as int]),
            index >= self.rows().len() ==> row is None,
    {
        if index < self.rows.len() {
            Some(&self.rows[index])
        } else {
            None
        }
    }

    /// The number of clusters in row `y`; 0 where the document has no such
    /// row.
    pub fn row_len(&self, y: usize) -> (n: usize)
        requires
            self.wf(),
        ensures
            n == self.width(y as int),
    {
        if y < self.rows.len() {
            self.rows[y].len()
        } else {
            0
        }
    }

    /// The number of rows.
    pub fn row_count(&self) -> (n: usize)
        ensures
            n == self.rows().len(),
    {
        self.rows.len()
    }

    /// Whether the document was changed since it was opened or saved.
    pub fn is_dirty(&self) -> (b: bool)
        ensures
            b == self.dirty(),
    {
        self.dirty
    }

    /// Breaks the line at `at`: below the last row a new empty row is added,
    /// inside the document row `at.y` is cut in front of column `at.x`.
    fn insert_newline(&mut self, at: &Position)
        requires
            old(self).wf(),
            insertable(old(self).texts(), *at),
        ensures
            final(self).wf(),
            final(self).texts() == rows_inserted(old(self).texts(), *at, '\n'),
            final(self).name() == old(self).name(),
            final(self).dirty() == old(self).dirty(),
    {
        if at.y == self.rows.len() {
            let row = Row::default();
            self.rows.push(row);
            assert(final(self).texts() =~= rows_inserted(old(self).texts(), *at, '\n'));
            return ;
        }
        let mut row = self.rows.remove(at.y);
        let tail = row.split(at.x);
        self.rows.insert(at.y, row);
        self.rows.insert(at.y + 1, tail);
        assert(final(self).texts() =~= rows_inserted(old(self).texts(), *at, '\n'));
    }

    /// Whether something can be inserted at `at`.
    fn can_insert(&self, at: &Position) -> (b: bool)
        requires
            self.wf(),
        ensures
            b == insertable(self.texts(), *at),
    {
        if at.y < self.rows.len() {
            assert(self.rows[at.y as int].text() == self.texts()[at.y as int]);
            at.x <= self.rows[at.y].len()
        } else {
            at.y == self.rows.len()
        }
    }

    /// Inserts `c` at `at`. A place beyond the bounds of the document (a
    /// column beyond the end of its row, a row further down than just below
    /// the last) is ignored: nothing changes, and the document is not marked
    /// dirty. Any other insertion marks it dirty.
    pub fn insert(&mut self, at: &Position, c: char)
        requires
            old(self).wf(),
        ensures
            final(self).wf(),
            final(self).texts() == rows_inserted(old(self).texts(), *at, c),
            final(self).dirty() == (old(self).dirty() || insertable(old(self).texts(), *at)),
            final(self).name() == old(self).name(),
            !insertable(old(self).texts(), *at) ==> final(self).rows() == old(self).rows(),
    {
        if !self.can_insert(at) {
            return ;
        }
        self.dirty = true;
        if c == '\n' {
            self.insert_newline(at);
            return ;
        }
        if at.y == self.rows.len() {
            let mut row = Row::default();
            row.insert(0, c);
            self.rows.push(row);
            assert(row.text() =~= seq![c]);
            assert(final(self).texts() =~= rows_inserted(old(self).texts(), *at, c));
        } else {
            let mut row = self.rows.remove(at.y);
            row.insert(at.x, c);
            self.rows.insert(at.y, row);
            assert(final(self).texts() =~= rows_inserted(old(self).texts(), *at, c));
        }
    }

    /// Deletes the cluster at `at`. At the end of a row that has a successor
    /// the next row is joined onto it. A position below the document is
    /// ignored; any other deletion marks the document dirty.
    pub fn delete(&mut self, at: &Position)
        requires
            old(self).wf(),
        ensures
            final(self).wf(),
            final(self).texts() == rows_deleted(old(self).texts(), *at),
            final(self).dirty() == (old(self).dirty() || at.y < old(self).rows().len()),
            final(self).name() == old(self).name(),
    {
        let len = self.rows.len();
        if at.y >= len {
            return ;
        }
        self.dirty = true;
        if at.x == self.rows[at.y].len() && at.y + 1 < len {
            let next_row = self.rows.remove(at.y + 1);
            let mut row = self.rows.remove(at.y);
            row.append(&next_row);
            self.rows.insert(at.y, row);
            assert(final(self).texts() =~= rows_deleted(old(self).texts(), *at));
        } else {
            let mut row = self.rows.remove(at.y);
            row.delete(at.x);
            self.rows.insert(at.y, row);
            assert(final(self).texts() =~= rows_deleted(old(self).texts(), *at));
        }
    }

    /// Searches for `query` from `at`, row by row in the given direction:
    /// the starting row from the starting column, every further row from
    /// its own edge. The answer is the first hit on the way; `None` when the
    /// walk reaches the edge of the document without one, or starts outside
    /// the document.
    pub fn find(&self, query: &str, at: &Position, direction: SearchDirection) -> (found: Option<
        Position,
    >)
        requires
            self.wf(),
        ensures
            match found {
                Some(p) => document_match(self.texts(), query@, *at, direction, p),
                None => forall|p: Position|
                    !document_match(self.texts(), query@, *at, direction, p),
            },
    {
        if at.y >= self.rows.len() {
            return None;
        }
        let ghost rows = self.texts();
        match direction {
            SearchDirection::Forward => {
                let mut y: usize = at.y;
                while y < self.rows.len()
                    invariant
                        self.wf(),
                        rows == self.texts(),
                        direction == SearchDirection::Forward,
                        at.y <= y <= self.rows.len(),
                        forall|k: int|
                            at.y <= k < y ==> row_misses(rows, query@, *at, direction, k),
                    decreases self.rows.len() - y,
                {
                    let column = if y == at.y {
                        at.x
                    } else {
                        0
                    };
                    assert(rows[y as int] == self.rows[y as int].text());
                    match self.rows[y].find(query, column, direction) {
                        Some(x) => {
                            return Some(Position { x, y });
                        },
                        None => {},
                    }
                    y += 1;
                }
                assert forall|p: Position| !document_match(rows, query@, *at, direction, p) by {
                    if document_match(rows, query@, *at, direction, p) {
                        assert(row_misses(rows, query@, *at, direction, p.y as int));
                    }
                }
                None
            },
            SearchDirection::Backward => {
                let mut below: usize = at.y + 1;
                while below > 0
                    invariant
                        self.wf(),
                        rows == self.texts(),
                        direction == SearchDirection::Backward,
                        at.y < self.rows.len(),
                        below <= at.y + 1,
                        forall|k: int|
                            below <= k <= at.y ==> row_misses(rows, query@, *at, direction, k),
                    decreases below,
                {
                    let y = below - 1;
                    let column = if y == at.y {
                        at.x
                    } else {
                        self.rows[y].len()
                    };
                    assert(rows[y as int] == self.rows[y as int].text());
                    match self.rows[y].find(query, column, direction) {
                        Some(x) => {
                            return Some(Position { x, y });
                        },
                        None => {},
                    }
                    below -= 1;
                }
                assert forall|p: Position| !document_match(rows, query@, *at, direction, p) by {
                    if document_match(rows, query@, *at, direction, p) {
                        assert(row_misses(rows, query@, *at, direction, p.y as int));
                    }
                }
                None
            },
        }
    }
}

} // verus!
