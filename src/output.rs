use vstd::prelude::*;
use crate::cursorcontroller::{CursorController, CursorKey, row_len, step_cursor, vi_key};
use crate::editorcontents::EditorContents;
use crate::editorrows::EditorRows;
use crate::row::render_to_content;
use crate::searchindex::{SearchIndex, SearchKey, is_best, key_direction, no_hit, renders};
use crate::status::StatusMessage;

verus! {

/// The cursor stays on a row of the document or the append row after it, and
/// within its row's content.
pub open spec fn cursor_in_text(c: Seq<Seq<char>>, x: nat, y: nat) -> bool {
    y <= c.len() && x <= row_len(c, y)
}

/// A cursor move keeps a cursor that lies within the text within the text.
pub proof fn lemma_step_stays_in_text(c: Seq<Seq<char>>, x: nat, y: nat, key: CursorKey)
    requires
        cursor_in_text(c, x, y),
    ensures
        cursor_in_text(c, step_cursor(c, x, y, key).0, step_cursor(c, x, y, key).1),
{
}

/// One editing session: the document, the cursor and window, the search and the
/// status line.
pub struct Output {
    pub win_size: (usize, usize),
    pub editor_contents: EditorContents,
    pub cursor_controller: CursorController,
    pub editor_rows: EditorRows,
    pub status_message: StatusMessage,
    /// Number of edits since the last save.
    pub dirty: u64,
    pub search_index: SearchIndex,
}

impl Output {
    pub open spec fn wf(&self) -> bool {
        &&& self.editor_rows.wf()
        &&& cursor_in_text(
            self.editor_rows.contents(),
            self.cursor_controller.cursor_x as nat,
            self.cursor_controller.cursor_y as nat,
        )
    }

    /// A session on `editor_rows` in a window `win_size.0` columns by `win_size.1`
    /// rows, showing `initial_message` from time `now`.
    pub fn new(win_size: (usize, usize), editor_rows: EditorRows, initial_message: String, now: u64) -> (r: Output)
        requires
            editor_rows.wf(),
        ensures
            r.wf(),
            r.editor_rows == editor_rows,
            r.cursor_controller.cursor_x == 0 && r.cursor_controller.cursor_y == 0,
            r.cursor_controller.screen_columns == win_size.0,
            r.cursor_controller.screen_rows == win_size.1,
            r.cursor_controller.row_offset == 0 && r.cursor_controller.column_offset == 0,
            r.win_size == win_size,
            r.dirty == 0,
            r.status_message.message == Some(initial_message),
            r.status_message.set_time == Some(now),
            r.search_index.x_index == 0 && r.search_index.y_index == 0,
            r.search_index.y_direction.is_none(),
    {
        Output {
            win_size,
            editor_contents: EditorContents::new(),
            cursor_controller: CursorController::new(win_size),
            editor_rows,
            status_message: StatusMessage::new(initial_message, now),
            dirty: 0,
            search_index: SearchIndex::new(),
        }
    }

    /// Moves the cursor by a vi-style letter (see `CursorController::move_cursor`).
    pub fn move_cursor(&mut self, direction: char)
        requires
            old(self).wf(),
            direction == 'k' || direction == 'j' || direction == 'h' || direction == 'l'
                || direction == 'e',
        ensures
            final(self).wf(),
            (final(self).cursor_controller.cursor_x as nat, final(self).cursor_controller.cursor_y as nat)
                == step_cursor(
                old(self).editor_rows.contents(),
                old(self).cursor_controller.cursor_x as nat,
                old(self).cursor_controller.cursor_y as nat,
                vi_key(direction),
            ),
            final(self).editor_rows == old(self).editor_rows,
    {
        proof {
            lemma_step_stays_in_text(
                self.editor_rows.contents(),
                self.cursor_controller.cursor_x as nat,
                self.cursor_controller.cursor_y as nat,
                vi_key(direction),
            );
        }
        self.cursor_controller.move_cursor(direction, &self.editor_rows);
    }

    /// Moves the cursor by a movement key.
    pub fn move_cursor_arrows(&mut self, direction: CursorKey)
        requires
            old(self).wf(),
        ensures
            final(self).wf(),
            (final(self).cursor_controller.cursor_x as nat, final(self).cursor_controller.cursor_y as nat)
                == step_cursor(
                old(self).editor_rows.contents(),
                old(self).cursor_controller.cursor_x as nat,
                old(self).cursor_controller.cursor_y as nat,
                direction,
            ),
            final(self).editor_rows == old(self).editor_rows,
    {
        proof {
            lemma_step_stays_in_text(
                self.editor_rows.contents(),
                self.cursor_controller.cursor_x as nat,
                self.cursor_controller.cursor_y as nat,
                direction,
            );
        }
        self.cursor_controller.move_cursor_arrows(direction, &self.editor_rows);
    }

    /// Types `ch` at the cursor; on the append row a new empty row is made first.
    /// The cursor moves past the new character.
    pub fn insert_char(&mut self, ch: char)
        requires
            old(self).wf(),
        ensures
            final(self).wf(),
            ({
                let c = old(self).editor_rows.contents();
                let x = old(self).cursor_controller.cursor_x;
                let y = old(self).cursor_controller.cursor_y;
                let c1 = if y == c.len() { c.push(seq![]) } else { c };
                &&& final(self).editor_rows.contents() == c1.update(
                    y as int,
                    c1[y as int].insert(x as int, ch),
                )
                &&& final(self).cursor_controller.cursor_x == x + 1
                &&& final(self).cursor_controller.cursor_y == y
                &&& y == c.len() ==> final(self).dirty == old(self).dirty.saturating_add(1).saturating_add(1)
                &&& y < c.len() ==> final(self).dirty == old(self).dirty.saturating_add(1)
            }),
            final(self).editor_rows.filename == old(self).editor_rows.filename,
    {
        let n = self.editor_rows.number_of_rows();
        if self.cursor_controller.cursor_y == n {
            self.editor_rows.insert_row(n, Vec::new());
            assert(self.editor_rows.contents() =~= old(self).editor_rows.contents().push(seq![]));
            self.dirty = self.dirty.saturating_add(1);
        }
        let x = self.cursor_controller.cursor_x;
        let y = self.cursor_controller.cursor_y;
        self.editor_rows.insert_char(y, x, ch);
        assert(self.editor_rows.contents().len() == self.editor_rows.row_contents@.len());
        assert(self.editor_rows.contents()[y as int] == self.editor_rows.row_contents@[y as int].row_content@);
        let row_len = self.editor_rows.row_contents[y].row_content.len();
        assert(x < row_len);
        self.cursor_controller.cursor_x = x + 1;
        self.dirty = self.dirty.saturating_add(1);
    }

    /// Splits the cursor's row at the cursor: the text after it becomes a new row
    /// below. At column zero an empty row is put above instead. The cursor stays
    /// where it is.
    pub fn inser_newline(&mut self)
        requires
            old(self).wf(),
        ensures
            final(self).wf(),
            ({
                let c = old(self).editor_rows.contents();
                let x = old(self).cursor_controller.cursor_x;
                let y = old(self).cursor_controller.cursor_y;
                &&& x == 0 ==> final(self).editor_rows.contents() == c.insert(y as int, seq![])
                &&& x > 0 ==> final(self).editor_rows.contents() == c.update(
                    y as int,
                    c[y as int].take(x as int),
                ).insert(y + 1, c[y as int].skip(x as int))
            }),
            final(self).cursor_controller == old(self).cursor_controller,
            final(self).editor_rows.filename == old(self).editor_rows.filename,
            final(self).dirty == old(self).dirty,
    {
        let x = self.cursor_controller.cursor_x;
        let y = self.cursor_controller.cursor_y;
        if x == 0 {
            self.editor_rows.insert_row(y, Vec::new());
        } else {
            let ghost c = self.editor_rows.contents();
            let n = self.editor_rows.row_contents.len();
            assert(y < n);
            let current_row = self.editor_rows.get_editor_row_mut(y);
            let new_row_content = current_row.row_content.split_off(x);
            EditorRows::render_row(current_row);
            assert(self.editor_rows.contents() =~= c.update(y as int, c[y as int].take(x as int)));
            assert forall|i: int| 0 <= i < self.editor_rows.row_contents@.len() implies #[trigger] self.editor_rows.row_contents@[i].wf() by {
                if i != y as int {
                    assert(self.editor_rows.row_contents@[i] == old(self).editor_rows.row_contents@[i]);
                }
            }
            assert(new_row_content@ =~= c[y as int].skip(x as int));
            self.editor_rows.insert_row(y + 1, new_row_content);
        }
    }

    /// Backspace: removes the character before the cursor; at the start of a row,
    /// joins the row to the one above and puts the cursor at the join. Nothing
    /// happens at the very start of the text or on the append row.
    pub fn delete_char(&mut self)
        requires
            old(self).wf(),
        ensures
            final(self).wf(),
            ({
                let c = old(self).editor_rows.contents();
                let x = old(self).cursor_controller.cursor_x;
                let y = old(self).cursor_controller.cursor_y;
                &&& (y == c.len() || (y == 0 && x == 0)) ==> final(self).editor_rows
                    == old(self).editor_rows && final(self).cursor_controller
                    == old(self).cursor_controller && final(self).dirty == old(self).dirty
                &&& !(y == c.len() || (y == 0 && x == 0)) ==> final(self).dirty == old(self).dirty.saturating_add(1)
                &&& (y < c.len() && x > 0) ==> final(self).editor_rows.contents() == c.update(
                    y as int,
                    c[y as int].remove(x - 1),
                ) && final(self).cursor_controller.cursor_x == x - 1
                    && final(self).cursor_controller.cursor_y == y
                &&& (y < c.len() && y > 0 && x == 0) ==> final(self).editor_rows.contents()
                    == c.take(y - 1).push(c[y - 1] + c[y as int]) + c.skip(y + 1)
                    && final(self).cursor_controller.cursor_x == c[y - 1].len()
                    && final(self).cursor_controller.cursor_y == y - 1
            }),
            final(self).editor_rows.filename == old(self).editor_rows.filename,
    {
        let x = self.cursor_controller.cursor_x;
        let y = self.cursor_controller.cursor_y;
        if y == self.editor_rows.number_of_rows() {
            return;
        }
        if y == 0 && x == 0 {
            return;
        }
        if x > 0 {
            self.editor_rows.delete_char(y, x - 1);
            self.cursor_controller.cursor_x = x - 1;
        } else {
            let ghost c = self.editor_rows.contents();
            self.cursor_controller.cursor_x = self.editor_rows.row_contents[y - 1].row_content.len();
            self.editor_rows.join_adjacent_rows(y);
            self.cursor_controller.cursor_y = y - 1;
            assert(self.editor_rows.contents()[y - 1] == c[y - 1] + c[y as int]);
        }
        self.dirty = self.dirty.saturating_add(1);
    }

    /// One keystroke of an open search for `keyword` (see `SearchIndex::search_step`).
    /// On a match the cursor goes to it, and the window is set to scroll so that
    /// the match is shown.
    pub fn find_callback(&mut self, keyword: &Vec<char>, key_code: SearchKey)
        requires
            old(self).wf(),
        ensures
            final(self).wf(),
            final(self).editor_rows == old(self).editor_rows,
            (key_code == SearchKey::Escape || key_code == SearchKey::Enter) ==> {
                &&& final(self).search_index.x_index == 0
                &&& final(self).search_index.y_index == 0
                &&& final(self).search_index.y_direction.is_none()
                &&& final(self).cursor_controller == old(self).cursor_controller
            },
            !(key_code == SearchKey::Escape || key_code == SearchKey::Enter) ==> {
                let c = old(self).editor_rows.contents();
                let d = renders(c);
                let dir = key_direction(key_code);
                let lr = old(self).search_index.y_index as int;
                let lc = old(self).search_index.x_index as int;
                let s = final(self).search_index;
                let cc = final(self).cursor_controller;
                &&& s.y_direction == dir
                &&& no_hit(d, keyword@, dir, lr, lc) ==> s.y_index == lr && s.x_index == lc && cc
                    == old(self).cursor_controller
                &&& !no_hit(d, keyword@, dir, lr, lc) ==> {
                    &&& is_best(d, keyword@, dir, lr, lc, s.y_index as int, s.x_index as int)
                    &&& cc.cursor_y == s.y_index
                    &&& cc.cursor_x as nat == render_to_content(
                        c[s.y_index as int],
                        s.x_index as nat,
                    )
                    &&& cc.row_offset == c.len()
                    &&& cc.column_offset == old(self).cursor_controller.column_offset
                    &&& cc.screen_rows == old(self).cursor_controller.screen_rows
                    &&& cc.screen_columns == old(self).cursor_controller.screen_columns
                }
            },
    {
        let ghost c = self.editor_rows.contents();
        match self.search_index.search_step(&self.editor_rows, keyword, key_code) {
            Some((row, col)) => {
                proof {
                    assert(renders(c)[row as int] == crate::row::render_of(c[row as int]));
                }
                assert(self.editor_rows.row_contents@[row as int].wf());
                let content_x = self.editor_rows.row_contents[row].get_row_content_x(col);
                self.cursor_controller.cursor_y = row;
                self.cursor_controller.cursor_x = content_x;
                self.cursor_controller.row_offset = self.editor_rows.number_of_rows();
            },
            None => {},
        }
    }
}

} // verus!
