use vstd::prelude::*;
use crate::editorrows::EditorRows;
use crate::row::{Row, render_width};

verus! {

/// The movement keys the cursor understands.
#[derive(PartialEq, Eq, Structural, Debug, Clone, Copy)]
pub enum CursorKey {
    Up,
    Down,
    Left,
    Right,
    Home,
    End,
}

/// Content length of row `y`; zero for the append row past the end.
pub open spec fn row_len(c: Seq<Seq<char>>, y: nat) -> nat {
    if y < c.len() {
        c[y as int].len()
    } else {
        0
    }
}

/// Cursor position after `key`, before the column is clamped to the row.
pub open spec fn moved(c: Seq<Seq<char>>, x: nat, y: nat, key: CursorKey) -> (nat, nat) {
    let n = c.len();
    match key {
        CursorKey::Up => (x, if y > 0 { (y - 1) as nat } else { 0 }),
        CursorKey::Down => if y < n { (x, y + 1) } else { (x, y) },
        CursorKey::Left => if x > 0 {
            ((x - 1) as nat, y)
        } else if y > 0 {
            (row_len(c, (y - 1) as nat), (y - 1) as nat)
        } else {
            (x, y)
        },
        CursorKey::Right => if y < n && x < row_len(c, y) {
            (x + 1, y)
        } else if y < n && x == row_len(c, y) {
            (0, y + 1)
        } else {
            (x, y)
        },
        CursorKey::Home => (0, y),
        CursorKey::End => if y < n { (row_len(c, y), y) } else { (x, y) },
    }
}

/// Cursor position after `key`: the move, then the column clamped to the row's length.
pub open spec fn step_cursor(c: Seq<Seq<char>>, x: nat, y: nat, key: CursorKey) -> (nat, nat) {
    let (x1, y1) = moved(c, x, y, key);
    (if x1 <= row_len(c, y1) { x1 } else { row_len(c, y1) }, y1)
}

/// The movement key a vi-style letter stands for.
pub open spec fn vi_key(direction: char) -> CursorKey {
    if direction == 'k' {
        CursorKey::Up
    } else if direction == 'j' {
        CursorKey::Down
    } else if direction == 'h' {
        CursorKey::Left
    } else if direction == 'l' {
        CursorKey::Right
    } else {
        CursorKey::End
    }
}

/// New window offset: no further than needed to bring `pos` into a window `ext` wide.
/// A window with no room at all is put at `pos` itself.
pub open spec fn scroll_offset(off: nat, pos: nat, ext: nat) -> nat {
    let o = if off <= pos { off } else { pos };
    if pos >= o + ext {
        if ext > 0 {
            (pos - ext + 1) as nat
        } else {
            pos
        }
    } else {
        o
    }
}

/// Display column of content column `x` of `line`, the column clamped to the line.
pub open spec fn render_col(line: Seq<char>, x: nat) -> nat {
    if x <= line.len() {
        render_width(line.take(x as int))
    } else {
        render_width(line)
    }
}

/// A scrolled window always holds the position it was scrolled to.
pub proof fn lemma_scroll_keeps_visible(off: nat, pos: nat, ext: nat)
    requires
        ext > 0,
    ensures
        scroll_offset(off, pos, ext) <= pos < scroll_offset(off, pos, ext) + ext,
{
}

/// Cursor position, in content and display columns, and the window over the text.
#[derive(Copy, Clone)]
pub struct CursorController {
    pub cursor_x: usize,
    pub cursor_y: usize,
    pub screen_columns: usize,
    pub screen_rows: usize,
    pub row_offset: usize,
    pub column_offset: usize,
    pub render_x: usize,
}

impl CursorController {
    /// A cursor at the top left of a window `win_size.0` columns by `win_size.1` rows.
    pub fn new(win_size: (usize, usize)) -> (r: CursorController)
        ensures
            r.cursor_x == 0 && r.cursor_y == 0,
            r.screen_columns == win_size.0,
            r.screen_rows == win_size.1,
            r.row_offset == 0 && r.column_offset == 0 && r.render_x == 0,
    {
        CursorController {
            cursor_x: 0,
            cursor_y: 0,
            screen_columns: win_size.0,
            screen_rows: win_size.1,
            row_offset: 0,
            column_offset: 0,
            render_x: 0,
        }
    }

    /// Moves the cursor by a vi-style letter: `k` up, `j` down, `h` left, `l` right,
    /// `e` to the end of the row.
    pub fn move_cursor(&mut self, direction: char, editor_rows: &EditorRows)
        requires
            direction == 'k' || direction == 'j' || direction == 'h' || direction == 'l'
                || direction == 'e',
        ensures
            (final(self).cursor_x as nat, final(self).cursor_y as nat) == step_cursor(
                editor_rows.contents(),
                old(self).cursor_x as nat,
                old(self).cursor_y as nat,
                vi_key(direction),
            ),
            final(self).screen_columns == old(self).screen_columns,
            final(self).screen_rows == old(self).screen_rows,
            final(self).row_offset == old(self).row_offset,
            final(self).column_offset == old(self).column_offset,
            final(self).render_x == old(self).render_x,
    {
        let key = if direction == 'k' {
            CursorKey::Up
        } else if direction == 'j' {
            CursorKey::Down
        } else if direction == 'h' {
            CursorKey::Left
        } else if direction == 'l' {
            CursorKey::Right
        } else {
            CursorKey::End
        };
        self.move_cursor_arrows(key, editor_rows);
    }

    /// Moves the cursor by one movement key; the column is then clamped to the row.
    pub fn move_cursor_arrows(&mut self, direction: CursorKey, editor_rows: &EditorRows)
        ensures
            (final(self).cursor_x as nat, final(self).cursor_y as nat) == step_cursor(
                editor_rows.contents(),
                old(self).cursor_x as nat,
                old(self).cursor_y as nat,
                direction,
            ),
            final(self).screen_columns == old(self).screen_columns,
            final(self).screen_rows == old(self).screen_rows,
            final(self).row_offset == old(self).row_offset,
            final(self).column_offset == old(self).column_offset,
            final(self).render_x == old(self).render_x,
    {
        let number_of_rows = editor_rows.row_contents.len();
        match direction {
            CursorKey::Up => {
                if self.cursor_y > 0 {
                    self.cursor_y = self.cursor_y - 1;
                }
            },
            CursorKey::Left => {
                if self.cursor_x != 0 {
                    self.cursor_x = self.cursor_x - 1;
                } else if self.cursor_y > 0 {
                    self.cursor_y = self.cursor_y - 1;
                    self.cursor_x = Self::length_of(editor_rows, self.cursor_y);
                }
            },
            CursorKey::Down => {
                if self.cursor_y < number_of_rows {
                    self.cursor_y = self.cursor_y + 1;
                }
            },
            CursorKey::Right => {
                if self.cursor_y < number_of_rows {
                    let len = editor_rows.row_contents[self.cursor_y].row_content.len();
                    if self.cursor_x < len {
                        self.cursor_x = self.cursor_x + 1;
                    } else if self.cursor_x == len {
                        self.cursor_y = self.cursor_y + 1;
                        self.cursor_x = 0;
                    }
                }
            },
            CursorKey::End => {
                if self.cursor_y < number_of_rows {
                    self.cursor_x = editor_rows.row_contents[self.cursor_y].row_content.len();
                }
            },
            CursorKey::Home => {
                self.cursor_x = 0;
            },
        }
        let row_len = Self::length_of(editor_rows, self.cursor_y);
        if self.cursor_x > row_len {
            self.cursor_x = row_len;
        }
    }

    /// Content length of row `y`, zero past the last row.
    fn length_of(editor_rows: &EditorRows, y: usize) -> (r: usize)
        ensures
            r as nat == row_len(editor_rows.contents(), y as nat),
    {
        if y < editor_rows.row_contents.len() {
            editor_rows.row_contents[y].row_content.len()
        } else {
            0
        }
    }

    /// Recomputes the display column of the cursor and moves the window as little as
    /// needed to show the cursor.
    pub fn scroll(&mut self, editor_rows: &EditorRows)
        requires
            editor_rows.wf(),
        ensures
            final(self).render_x == (if old(self).cursor_y < editor_rows.contents().len() {
                render_col(
                    editor_rows.contents()[old(self).cursor_y as int],
                    old(self).cursor_x as nat,
                )
            } else {
                0
            }),
            final(self).row_offset as nat == scroll_offset(
                old(self).row_offset as nat,
                old(self).cursor_y as nat,
                old(self).screen_rows as nat,
            ),
            final(self).column_offset as nat == scroll_offset(
                old(self).column_offset as nat,
                final(self).render_x as nat,
                old(self).screen_columns as nat,
            ),
            final(self).screen_rows > 0 ==> final(self).row_offset <= final(self).cursor_y
                < final(self).row_offset + final(self).screen_rows,
            final(self).screen_columns > 0 ==> final(self).column_offset <= final(self).render_x
                < final(self).column_offset + final(self).screen_columns,
            final(self).row_offset <= final(self).cursor_y,
            final(self).column_offset <= final(self).render_x,
            final(self).cursor_x == old(self).cursor_x,
            final(self).cursor_y == old(self).cursor_y,
            final(self).screen_rows == old(self).screen_rows,
            final(self).screen_columns == old(self).screen_columns,
    {
        self.render_x = 0;
        if self.cursor_y < editor_rows.row_contents.len() {
            assert(editor_rows.row_contents@[self.cursor_y as int].wf());
            self.render_x = self.get_render_x(&editor_rows.row_contents[self.cursor_y]);
        }
        if self.cursor_y < self.row_offset {
            self.row_offset = self.cursor_y;
        }
        if self.cursor_y - self.row_offset >= self.screen_rows {
            self.row_offset = if self.screen_rows > 0 {
                self.cursor_y - (self.screen_rows - 1)
            } else {
                self.cursor_y
            };
        }
        if self.render_x < self.column_offset {
            self.column_offset = self.render_x;
        }
        if self.render_x - self.column_offset >= self.screen_columns {
            self.column_offset = if self.screen_columns > 0 {
                self.render_x - (self.screen_columns - 1)
            } else {
                self.render_x
            };
        }
        proof {
            if self.screen_rows > 0 {
                lemma_scroll_keeps_visible(
                    old(self).row_offset as nat,
                    self.cursor_y as nat,
                    self.screen_rows as nat,
                );
            }
            if self.screen_columns > 0 {
                lemma_scroll_keeps_visible(
                    old(self).column_offset as nat,
                    self.render_x as nat,
                    self.screen_columns as nat,
                );
            }
        }
    }

    /// Display column of the cursor in `row`.
    pub fn get_render_x(&self, row: &Row) -> (r: usize)
        requires
            row.wf(),
        ensures
            r as nat == render_col(row.row_content@, self.cursor_x as nat),
    {
        row.content_col_to_render_col(self.cursor_x)
    }

    /// Where the cursor sits inside the window: (column, row).
    pub fn screen_position(&self) -> (r: (usize, usize))
        requires
            self.column_offset <= self.render_x,
            self.row_offset <= self.cursor_y,
        ensures
            r.0 == self.render_x - self.column_offset,
            r.1 == self.cursor_y - self.row_offset,
    {
        (self.render_x - self.column_offset, self.cursor_y - self.row_offset)
    }
}

} // verus!
