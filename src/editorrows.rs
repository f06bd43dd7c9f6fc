use vstd::prelude::*;
use crate::row::{Row, render_chars, render_of};

verus! {

/// Failures of the line store.
#[derive(PartialEq, Eq, Structural, Debug, Clone, Copy)]
pub enum EditorError {
    /// A row index is not below the number of rows.
    OutOfRange,
    /// The text cannot be saved because no file name was ever given.
    NoDestination,
}

/// The contents of each row, in order.
pub open spec fn row_texts(rows: Seq<Row>) -> Seq<Seq<char>> {
    rows.map_values(|r: Row| r.row_content@)
}

/// Every row's display form matches its content.
pub open spec fn rows_wf(rows: Seq<Row>) -> bool {
    forall|i: int| 0 <= i < rows.len() ==> #[trigger] rows[i].wf()
}

/// `l` without one carriage return at its end.
pub open spec fn strip_cr(l: Seq<char>) -> Seq<char> {
    if l.len() > 0 && l.last() == '\r' {
        l.drop_last()
    } else {
        l
    }
}

/// Lines completed so far, and the line still open, after reading `t`.
pub open spec fn split_acc(t: Seq<char>) -> (Seq<Seq<char>>, Seq<char>)
    decreases t.len(),
{
    if t.len() == 0 {
        (seq![], seq![])
    } else {
        let (done, cur) = split_acc(t.drop_last());
        if t.last() == '\n' {
            (done.push(strip_cr(cur)), seq![])
        } else {
            (done, cur.push(t.last()))
        }
    }
}

/// The lines of `t`: split at each `\n` (a `\r` just before it goes too); a final
/// line ending is optional.
pub open spec fn lines_of(t: Seq<char>) -> Seq<Seq<char>> {
    let (done, cur) = split_acc(t);
    if cur.len() == 0 {
        done
    } else {
        done.push(cur)
    }
}

/// The lines joined by one `\n` each, with none after the last.
pub open spec fn join_lines(lines: Seq<Seq<char>>) -> Seq<char>
    decreases lines.len(),
{
    if lines.len() == 0 {
        seq![]
    } else if lines.len() == 1 {
        lines[0]
    } else {
        join_lines(lines.drop_last()) + seq!['\n'] + lines.last()
    }
}

/// The part of `r` shown from display column `off` in a window `width` columns wide.
pub open spec fn visible_part(r: Seq<char>, off: nat, width: nat) -> Seq<char> {
    if off >= r.len() {
        seq![]
    } else if off + width <= r.len() {
        r.subrange(off as int, (off + width) as int)
    } else {
        r.subrange(off as int, r.len() as int)
    }
}

/// Joining row `at` onto the row before it, as `EditorRows::join_adjacent_rows`
/// does, leaves one row fewer, and that row holds the two contents in order.
pub proof fn lemma_join_effect(c: Seq<Seq<char>>, at: int)
    requires
        0 < at < c.len(),
    ensures
        ({
            let j = c.take(at - 1).push(c[at - 1] + c[at]) + c.skip(at + 1);
            &&& j.len() == c.len() - 1
            &&& j[at - 1] == c[at - 1] + c[at]
            &&& forall|i: int| 0 <= i < at - 1 ==> j[i] == c[i]
            &&& forall|i: int| at <= i < j.len() ==> j[i] == c[i + 1]
        }),
{
}

/// Appends `src` to `dst`.
fn append_chars(dst: &mut Vec<char>, src: &Vec<char>)
    ensures
        final(dst)@ == old(dst)@ + src@,
{
    let ghost start = dst@;
    let mut i: usize = 0;
    while i < src.len()
        invariant
            i <= src@.len(),
            dst@ == start + src@.take(i as int),
        decreases src@.len() - i,
    {
        dst.push(src[i]);
        i += 1;
        assert(dst@ =~= start + src@.take(i as int));
    }
    assert(src@.take(i as int) =~= src@);
}

/// The document: its rows in order, and the file it belongs to, if any.
pub struct EditorRows {
    pub row_contents: Vec<Row>,
    pub filename: Option<String>,
}

impl EditorRows {
    pub open spec fn wf(&self) -> bool {
        rows_wf(self.row_contents@)
    }

    /// The content of each row.
    pub open spec fn contents(&self) -> Seq<Seq<char>> {
        row_texts(self.row_contents@)
    }

    /// An empty document with no file name.
    pub fn new() -> (r: EditorRows)
        ensures
            r.wf(),
            r.contents() == Seq::<Seq<char>>::empty(),
            r.filename.is_none(),
    {
        let r = EditorRows { row_contents: Vec::new(), filename: None };
        assert(r.contents() =~= Seq::<Seq<char>>::empty());
        r
    }

    /// A document holding the lines of `text`.
    pub fn from_text(text: &Vec<char>, filename: Option<String>) -> (r: EditorRows)
        ensures
            r.wf(),
            r.contents() == lines_of(text@),
            r.filename == filename,
    {
        let mut rows: Vec<Row> = Vec::new();
        let mut cur: Vec<char> = Vec::new();
        let mut i: usize = 0;
        while i < text.len()
            invariant
                i <= text@.len(),
                rows_wf(rows@),
                row_texts(rows@) == split_acc(text@.take(i as int)).0,
                cur@ == split_acc(text@.take(i as int)).1,
            decreases text@.len() - i,
        {
            proof {
                crate::row::lemma_take_drop_last(text@, i as int + 1);
            }
            let c = text[i];
            if c == '\n' {
                let ghost open_line = cur@;
                let n = cur.len();
                if n > 0 && cur[n - 1] == '\r' {
                    cur.pop();
                }
                assert(cur@ =~= strip_cr(open_line));
                let mut line: Vec<char> = Vec::new();
                std::mem::swap(&mut cur, &mut line);
                let ghost before = rows@;
                rows.push(Row::new(line));
                assert(row_texts(rows@) =~= row_texts(before).push(strip_cr(open_line)));
                assert(cur@ =~= Seq::<char>::empty());
            } else {
                cur.push(c);
            }
            i += 1;
        }
        assert(text@.take(i as int) =~= text@);
        if cur.len() > 0 {
            let ghost before = rows@;
            let ghost last = cur@;
            rows.push(Row::new(cur));
            assert(row_texts(rows@) =~= row_texts(before).push(last));
        }
        EditorRows { row_contents: rows, filename }
    }

    /// Display form of row `at`.
    pub fn get_render(&self, at: usize) -> (r: Result<&Vec<char>, EditorError>)
        requires
            self.wf(),
        ensures
            at < self.contents().len() ==> r.is_ok() && r.unwrap()@ == render_of(
                self.contents()[at as int],
            ),
            at >= self.contents().len() ==> r == Err::<&Vec<char>, EditorError>(
                EditorError::OutOfRange,
            ),
    {
        if at < self.row_contents.len() {
            assert(self.row_contents@[at as int].wf());
            Ok(&self.row_contents[at].render)
        } else {
            Err(EditorError::OutOfRange)
        }
    }

    pub fn number_of_rows(&self) -> (r: usize)
        ensures
            r == self.contents().len(),
    {
        self.row_contents.len()
    }

    /// Content of row `at`.
    pub fn get_row(&self, at: usize) -> (r: Result<&Vec<char>, EditorError>)
        ensures
            at < self.contents().len() ==> r.is_ok() && r.unwrap()@ == self.contents()[at as int],
            at >= self.contents().len() ==> r == Err::<&Vec<char>, EditorError>(
                EditorError::OutOfRange,
            ),
    {
        if at < self.row_contents.len() {
            Ok(&self.row_contents[at].row_content)
        } else {
            Err(EditorError::OutOfRange)
        }
    }

    pub fn get_editor_row(&self, at: usize) -> (r: &Row)
        requires
            at < self.contents().len(),
        ensures
            *r == self.row_contents@[at as int],
    {
        &self.row_contents[at]
    }

    /// Recomputes the display form of `row` from its content.
    pub fn render_row(row: &mut Row)
        ensures
            final(row).wf(),
            final(row).row_content == old(row).row_content,
    {
        row.render = render_chars(&row.row_content);
    }

    pub fn get_editor_row_mut(&mut self, at: usize) -> (r: &mut Row)
        requires
            at < old(self).contents().len(),
        ensures
            *r == old(self).row_contents@[at as int],
            final(self).row_contents@ == old(self).row_contents@.update(at as int, *final(r)),
            final(self).filename == old(self).filename,
    {
        &mut self.row_contents[at]
    }

    /// Inserts a row holding `contents` before row `at` (`at` may be the row count).
    pub fn insert_row(&mut self, at: usize, contents: Vec<char>)
        requires
            old(self).wf(),
            at <= old(self).contents().len(),
        ensures
            final(self).wf(),
            final(self).contents() == old(self).contents().insert(at as int, contents@),
            final(self).filename == old(self).filename,
    {
        let ghost before = self.row_contents@;
        let new_row = Row::new(contents);
        self.row_contents.insert(at, new_row);
        assert(row_texts(self.row_contents@) =~= row_texts(before).insert(at as int, contents@));
        assert forall|i: int| 0 <= i < self.row_contents@.len() implies #[trigger] self.row_contents@[i].wf() by {
            if i > at as int {
                assert(self.row_contents@[i] == before[i - 1]);
            }
        }
    }

    /// Inserts `ch` before content column `at_col` of row `at_row`.
    pub fn insert_char(&mut self, at_row: usize, at_col: usize, ch: char)
        requires
            old(self).wf(),
            at_row < old(self).contents().len(),
            at_col <= old(self).contents()[at_row as int].len(),
        ensures
            final(self).wf(),
            final(self).contents() == old(self).contents().update(
                at_row as int,
                old(self).contents()[at_row as int].insert(at_col as int, ch),
            ),
            final(self).filename == old(self).filename,
    {
        let ghost before = self.row_contents@;
        let row = self.get_editor_row_mut(at_row);
        row.insert_char(at_col, ch);
        assert(row_texts(self.row_contents@) =~= row_texts(before).update(
            at_row as int,
            row_texts(before)[at_row as int].insert(at_col as int, ch),
        ));
    }

    /// Removes the character at content column `at_col` of row `at_row`.
    pub fn delete_char(&mut self, at_row: usize, at_col: usize)
        requires
            old(self).wf(),
            at_row < old(self).contents().len(),
            at_col < old(self).contents()[at_row as int].len(),
        ensures
            final(self).wf(),
            final(self).contents() == old(self).contents().update(
                at_row as int,
                old(self).contents()[at_row as int].remove(at_col as int),
            ),
            final(self).filename == old(self).filename,
    {
        let ghost before = self.row_contents@;
        let row = self.get_editor_row_mut(at_row);
        row.delete_char(at_col);
        assert(row_texts(self.row_contents@) =~= row_texts(before).update(
            at_row as int,
            row_texts(before)[at_row as int].remove(at_col as int),
        ));
    }

    /// Appends row `at` to the row before it and removes row `at`.
    pub fn join_adjacent_rows(&mut self, at: usize)
        requires
            old(self).wf(),
            0 < at < old(self).contents().len(),
        ensures
            final(self).wf(),
            final(self).contents() == old(self).contents().take(at - 1).push(
                old(self).contents()[at - 1] + old(self).contents()[at as int],
            ) + old(self).contents().skip(at + 1),
            final(self).filename == old(self).filename,
    {
        let ghost before = self.row_contents@;
        let current_row = self.row_contents.remove(at);
        let previous_row = self.get_editor_row_mut(at - 1);
        append_chars(&mut previous_row.row_content, &current_row.row_content);
        Self::render_row(previous_row);
        assert(row_texts(self.row_contents@) =~= row_texts(before).take(at - 1).push(
            row_texts(before)[at - 1] + row_texts(before)[at as int],
        ) + row_texts(before).skip(at + 1));
        assert forall|i: int| 0 <= i < self.row_contents@.len() implies #[trigger] self.row_contents@[i].wf() by {
            if i >= at as int {
                assert(self.row_contents@[i] == before[i + 1]);
            } else if i < at - 1 {
                assert(self.row_contents@[i] == before[i]);
            }
        }
    }

    /// The text to save: the rows' contents joined by `\n`.
    pub fn serialize(&self) -> (r: Result<Vec<char>, EditorError>)
        ensures
            self.filename.is_none() ==> r == Err::<Vec<char>, EditorError>(
                EditorError::NoDestination,
            ),
            self.filename.is_some() ==> r.is_ok() && r.unwrap()@ == join_lines(self.contents()),
    {
        if self.filename.is_none() {
            return Err(EditorError::NoDestination);
        }
        let mut out: Vec<char> = Vec::new();
        let mut i: usize = 0;
        while i < self.row_contents.len()
            invariant
                i <= self.contents().len(),
                out@ == join_lines(self.contents().take(i as int)),
            decreases self.contents().len() - i,
        {
            let ghost texts = self.contents();
            assert(texts.take(i as int + 1).drop_last() =~= texts.take(i as int));
            if i > 0 {
                out.push('\n');
            }
            append_chars(&mut out, &self.row_contents[i].row_content);
            i += 1;
            proof {
                if i > 1 {
                    assert(out@ =~= join_lines(texts.take(i as int - 1)) + seq!['\n'] + texts[i - 1]);
                } else {
                    assert(out@ =~= texts.take(1)[0]);
                }
            }
        }
        assert(self.contents().take(i as int) =~= self.contents());
        Ok(out)
    }

    /// What the window shows of row `file_row` from display column `col_offset`,
    /// `screen_cols` columns wide; `None` where the document has no such row.
    pub fn display_line(&self, file_row: usize, col_offset: usize, screen_cols: usize) -> (r:
        Option<Vec<char>>)
        requires
            self.wf(),
        ensures
            file_row >= self.contents().len() ==> r.is_none(),
            file_row < self.contents().len() ==> r.is_some() && r.unwrap()@ == visible_part(
                render_of(self.contents()[file_row as int]),
                col_offset as nat,
                screen_cols as nat,
            ),
    {
        if file_row >= self.row_contents.len() {
            return None;
        }
        let render = &self.row_contents[file_row].render;
        assert(self.row_contents@[file_row as int].wf());
        let mut out: Vec<char> = Vec::new();
        if col_offset >= render.len() {
            return Some(out);
        }
        let end: usize = if screen_cols <= render.len() - col_offset {
            col_offset + screen_cols
        } else {
            render.len()
        };
        let mut i: usize = col_offset;
        while i < end
            invariant
                col_offset <= i <= end <= render@.len(),
                out@ == render@.subrange(col_offset as int, i as int),
            decreases end - i,
        {
            out.push(render[i]);
            i += 1;
            assert(out@ =~= render@.subrange(col_offset as int, i as int));
        }
        Some(out)
    }
}

} // verus!
