use vstd::prelude::*;
use crate::editorrows::EditorRows;
use crate::row::render_of;

verus! {

/// Which way a search moves through the document.
#[derive(PartialEq, Eq, Structural, Debug, Clone, Copy)]
pub enum SearchDirection {
    Forward,
    Backward,
}

/// A key pressed while a search prompt is open.
#[derive(PartialEq, Eq, Structural, Debug, Clone, Copy)]
pub enum SearchKey {
    /// Next match.
    Down,
    /// Previous match.
    Up,
    /// Cancels the search.
    Escape,
    /// Confirms the search.
    Enter,
    /// Any other key: the query was edited.
    Other,
}

/// The display form of every row.
pub open spec fn renders(c: Seq<Seq<char>>) -> Seq<Seq<char>> {
    c.map_values(|l: Seq<char>| render_of(l))
}

/// `q` occurs in `line` starting at column `col`.
pub open spec fn occurs_at(line: Seq<char>, q: Seq<char>, col: int) -> bool {
    0 <= col && col + q.len() <= line.len() && line.subrange(col, col + q.len()) == q
}

/// `q` occurs in row `r` of `d` at column `c`.
pub open spec fn is_hit(d: Seq<Seq<char>>, q: Seq<char>, r: int, c: int) -> bool {
    0 <= r < d.len() && occurs_at(d[r], q, c)
}

/// Position `(r1, c1)` comes before `(r2, c2)` in reading order.
pub open spec fn lex_lt(r1: int, c1: int, r2: int, c2: int) -> bool {
    r1 < r2 || (r1 == r2 && c1 < c2)
}

/// A hit that a search in direction `dir` from the last match `(lr, lc)` may land on:
/// any hit when no direction is set; one in a row below the last match going
/// forward; one that ends at or before the last match going backward.
pub open spec fn eligible(
    d: Seq<Seq<char>>,
    q: Seq<char>,
    dir: Option<SearchDirection>,
    lr: int,
    lc: int,
    r: int,
    c: int,
) -> bool {
    is_hit(d, q, r, c) && match dir {
        None => true,
        Some(SearchDirection::Forward) => r > lr,
        Some(SearchDirection::Backward) => r < lr || (r == lr && c + q.len() <= lc),
    }
}

/// `(r, c)` is where the search lands: the first eligible hit in reading order, or
/// the last one when going backward.
pub open spec fn is_best(
    d: Seq<Seq<char>>,
    q: Seq<char>,
    dir: Option<SearchDirection>,
    lr: int,
    lc: int,
    r: int,
    c: int,
) -> bool {
    &&& eligible(d, q, dir, lr, lc, r, c)
    &&& forall|r2: int, c2: int| #[trigger]
        eligible(d, q, dir, lr, lc, r2, c2) ==> if dir == Some(SearchDirection::Backward) {
            !lex_lt(r, c, r2, c2)
        } else {
            !lex_lt(r2, c2, r, c)
        }
}

/// No hit is eligible.
pub open spec fn no_hit(
    d: Seq<Seq<char>>,
    q: Seq<char>,
    dir: Option<SearchDirection>,
    lr: int,
    lc: int,
) -> bool {
    forall|r2: int, c2: int| !#[trigger] eligible(d, q, dir, lr, lc, r2, c2)
}

/// The direction a key asks for.
pub open spec fn key_direction(key: SearchKey) -> Option<SearchDirection> {
    match key {
        SearchKey::Down => Some(SearchDirection::Forward),
        SearchKey::Up => Some(SearchDirection::Backward),
        _ => None,
    }
}

/// A search forward from a match, then a search backward from where it landed,
/// comes back to the first match when no occurrence lies between the two.
pub proof fn lemma_forward_then_backward(
    d: Seq<Seq<char>>,
    q: Seq<char>,
    pr: int,
    pc: int,
    cr: int,
    cc: int,
)
    requires
        q.len() > 0,
        is_hit(d, q, pr, pc),
        is_best(d, q, Some(SearchDirection::Forward), pr, pc, cr, cc),
        forall|r2: int, c2: int|
            #![trigger is_hit(d, q, r2, c2)]
            is_hit(d, q, r2, c2) && lex_lt(pr, pc, r2, c2) ==> !lex_lt(r2, c2, cr, cc),
    ensures
        is_best(d, q, Some(SearchDirection::Backward), cr, cc, pr, pc),
        !no_hit(d, q, Some(SearchDirection::Backward), cr, cc),
        forall|br: int, bc: int|
            is_best(d, q, Some(SearchDirection::Backward), cr, cc, br, bc) ==> br == pr && bc
                == pc,
{
    let back = Some(SearchDirection::Backward);
    assert(eligible(d, q, back, cr, cc, pr, pc));
    assert forall|r2: int, c2: int| #[trigger] eligible(d, q, back, cr, cc, r2, c2) implies !lex_lt(
        pr,
        pc,
        r2,
        c2,
    ) by {
        if lex_lt(pr, pc, r2, c2) {
            assert(is_hit(d, q, r2, c2));
            assert(lex_lt(r2, c2, cr, cc));
        }
    }
    assert forall|br: int, bc: int|
        is_best(d, q, back, cr, cc, br, bc) implies br == pr && bc == pc by {
        assert(eligible(d, q, back, cr, cc, br, bc));
    }
}

/// Whether `q` occurs in `line` at column `col`.
fn matches_at(line: &Vec<char>, q: &Vec<char>, col: usize) -> (r: bool)
    requires
        col + q@.len() <= line@.len(),
    ensures
        r == occurs_at(line@, q@, col as int),
{
    let ln = line.len();
    let mut k: usize = 0;
    while k < q.len()
        invariant
            ln == line@.len(),
            col + q@.len() <= line@.len(),
            k <= q@.len(),
            forall|j: int| 0 <= j < k ==> line@[col + j] == q@[j],
        decreases q@.len() - k,
    {
        if line[col + k] != q[k] {
            assert(line@.subrange(col as int, col + q@.len())[k as int] != q@[k as int]);
            return false;
        }
        k += 1;
    }
    assert(line@.subrange(col as int, col + q@.len()) =~= q@);
    true
}

/// Leftmost column at or after `from` where `q` occurs in `line`.
fn find_from(line: &Vec<char>, q: &Vec<char>, from: usize) -> (r: Option<usize>)
    ensures
        r.is_some() ==> r.unwrap() >= from && occurs_at(line@, q@, r.unwrap() as int) && forall|
            c: int,
        | from <= c < r.unwrap() ==> !occurs_at(line@, q@, c),
        r.is_none() ==> forall|c: int| c >= from ==> !occurs_at(line@, q@, c),
{
    if q.len() > line.len() {
        return None;
    }
    let last = line.len() - q.len();
    let mut c: usize = from;
    while c <= last
        invariant
            last + q@.len() == line@.len(),
            from <= c,
            forall|c2: int| from <= c2 < c ==> !occurs_at(line@, q@, c2),
        decreases last + 1 - c,
    {
        if matches_at(line, q, c) {
            return Some(c);
        }
        if c == last {
            return None;
        }
        c += 1;
    }
    None
}

/// Rightmost column where `q` occurs in `line` and ends at or before `limit`.
fn find_before(line: &Vec<char>, q: &Vec<char>, limit: usize) -> (r: Option<usize>)
    ensures
        r.is_some() ==> r.unwrap() + q@.len() <= limit && occurs_at(line@, q@, r.unwrap() as int)
            && forall|c: int|
            r.unwrap() < c && c + q@.len() <= limit ==> !occurs_at(line@, q@, c),
        r.is_none() ==> forall|c: int| c + q@.len() <= limit ==> !occurs_at(line@, q@, c),
{
    let end = if limit < line.len() {
        limit
    } else {
        line.len()
    };
    if q.len() > end {
        return None;
    }
    let mut c: usize = end - q.len();
    loop
        invariant
            c + q@.len() <= end,
            end <= limit,
            end <= line@.len(),
            forall|c2: int| c < c2 && c2 + q@.len() <= limit ==> !occurs_at(line@, q@, c2),
        decreases c,
    {
        if matches_at(line, q, c) {
            return Some(c);
        }
        if c == 0 {
            return None;
        }
        c -= 1;
    }
}

/// Last search match and the direction of the current search step.
pub struct SearchIndex {
    /// Display column of the last match.
    pub x_index: usize,
    /// Row of the last match.
    pub y_index: usize,
    /// Direction of the current step; none means search from the top.
    pub y_direction: Option<SearchDirection>,
}

impl SearchIndex {
    pub fn new() -> (r: SearchIndex)
        ensures
            r.x_index == 0 && r.y_index == 0 && r.y_direction.is_none(),
    {
        SearchIndex { x_index: 0, y_index: 0, y_direction: None }
    }

    /// Forgets the last match and the direction.
    pub fn reset(&mut self)
        ensures
            final(self).x_index == 0 && final(self).y_index == 0 && final(self).y_direction.is_none(),
    {
        self.y_index = 0;
        self.x_index = 0;
        self.y_direction = None;
    }

    /// Finds where a search for `query` in direction `dir` from the last match
    /// `(lr, lc)` lands: `(row, display column)`.
    pub fn find_match(
        editor_rows: &EditorRows,
        query: &Vec<char>,
        dir: Option<SearchDirection>,
        lr: usize,
        lc: usize,
    ) -> (r: Option<(usize, usize)>)
        requires
            editor_rows.wf(),
        ensures
            r.is_some() ==> is_best(
                renders(editor_rows.contents()),
                query@,
                dir,
                lr as int,
                lc as int,
                r.unwrap().0 as int,
                r.unwrap().1 as int,
            ),
            r.is_none() ==> no_hit(renders(editor_rows.contents()), query@, dir, lr as int, lc as int),
    {
        let ghost d = renders(editor_rows.contents());
        let n = editor_rows.row_contents.len();
        assert(d.len() == n);
        assert forall|i: int| 0 <= i < n implies d[i] == #[trigger] editor_rows.row_contents@[i].render@ by {
            assert(editor_rows.row_contents@[i].wf());
        }
        match dir {
            Some(SearchDirection::Backward) => {
                let mut r: usize = if lr < n {
                    lr + 1
                } else {
                    n
                };
                while r > 0
                    invariant
                        r <= n,
                        n == d.len(),
                        d == renders(editor_rows.contents()),
                        n == editor_rows.row_contents@.len(),
                        dir == Some(SearchDirection::Backward),
                        lr < n ==> r <= lr + 1,
                        forall|i: int| 0 <= i < n ==> d[i] == #[trigger] editor_rows.row_contents@[i].render@,
                        forall|r2: int, c2: int|
                            r <= r2 && #[trigger] eligible(d, query@, dir, lr as int, lc as int, r2, c2)
                                ==> false,
                    decreases r,
                {
                    r -= 1;
                    let line = &editor_rows.row_contents[r].render;
                    assert(d[r as int] == line@);
                    let limit = if r == lr {
                        lc
                    } else {
                        line.len()
                    };
                    match find_before(line, query, limit) {
                        Some(c) => {
                            assert forall|r2: int, c2: int| #[trigger]
                                eligible(d, query@, dir, lr as int, lc as int, r2, c2) implies !lex_lt(
                                r as int,
                                c as int,
                                r2,
                                c2,
                            ) by {
                                assert(occurs_at(d[r2], query@, c2));
                                if r2 == r as int && c2 > c as int {
                                    assert(c2 + query@.len() <= limit);
                                }
                            }
                            assert(eligible(d, query@, dir, lr as int, lc as int, r as int, c as int));
                            return Some((r, c));
                        },
                        None => {
                            assert forall|r2: int, c2: int|
                                r <= r2 && #[trigger] eligible(
                                    d,
                                    query@,
                                    dir,
                                    lr as int,
                                    lc as int,
                                    r2,
                                    c2,
                                ) implies false by {
                                if r2 == r as int {
                                    assert(c2 + query@.len() <= limit);
                                }
                            }
                        },
                    }
                }
                None
            },
            _ => {
                let mut r: usize = 0;
                if dir.is_some() {
                    if lr >= n {
                        return None;
                    }
                    r = lr + 1;
                }
                while r < n
                    invariant
                        r <= n,
                        n == d.len(),
                        d == renders(editor_rows.contents()),
                        n == editor_rows.row_contents@.len(),
                        forall|i: int| 0 <= i < n ==> d[i] == #[trigger] editor_rows.row_contents@[i].render@,
                        dir.is_some() ==> dir == Some(SearchDirection::Forward) && r > lr,
                        forall|r2: int, c2: int|
                            r2 < r && #[trigger] eligible(d, query@, dir, lr as int, lc as int, r2, c2)
                                ==> false,
                    decreases n - r,
                {
                    let line = &editor_rows.row_contents[r].render;
                    assert(d[r as int] == line@);
                    match find_from(line, query, 0) {
                        Some(c) => {
                            assert forall|r2: int, c2: int| #[trigger]
                                eligible(d, query@, dir, lr as int, lc as int, r2, c2) implies !lex_lt(
                                r2,
                                c2,
                                r as int,
                                c as int,
                            ) by {
                                assert(occurs_at(d[r2], query@, c2));
                            }
                            assert(eligible(d, query@, dir, lr as int, lc as int, r as int, c as int));
                            return Some((r, c));
                        },
                        None => {
                            assert forall|r2: int, c2: int|
                                r2 < r + 1 && #[trigger] eligible(
                                    d,
                                    query@,
                                    dir,
                                    lr as int,
                                    lc as int,
                                    r2,
                                    c2,
                                ) implies false by {
                                if r2 == r as int {
                                    assert(occurs_at(d[r2], query@, c2));
                                }
                            }
                        },
                    }
                    r += 1;
                }
                None
            },
        }
    }

    /// One keystroke of an open search. Escape and Enter end the search and forget
    /// its state. Any other key searches for `query`: Down moves to the leftmost
    /// match in the first row below the last match, Up to the rightmost match that
    /// ends at or before the last match (in its row or the rows above), and any
    /// other key starts again from the top. None of them wraps around. On a match
    /// the last match becomes `(row, display column)` and is returned; without one
    /// the last match stays as it was. An empty query occurs everywhere, so Up with
    /// an empty query lands on the last match itself.
    pub fn search_step(&mut self, editor_rows: &EditorRows, query: &Vec<char>, key: SearchKey) -> (r:
        Option<(usize, usize)>)
        requires
            editor_rows.wf(),
        ensures
            (key == SearchKey::Escape || key == SearchKey::Enter) ==> r.is_none() && final(self).x_index == 0 && final(self).y_index == 0 && final(self).y_direction.is_none(),
            !(key == SearchKey::Escape || key == SearchKey::Enter) ==> {
                &&& final(self).y_direction == key_direction(key)
                &&& r.is_some() ==> is_best(
                    renders(editor_rows.contents()),
                    query@,
                    key_direction(key),
                    old(self).y_index as int,
                    old(self).x_index as int,
                    r.unwrap().0 as int,
                    r.unwrap().1 as int,
                ) && final(self).y_index == r.unwrap().0 && final(self).x_index == r.unwrap().1
                &&& r.is_none() ==> no_hit(
                    renders(editor_rows.contents()),
                    query@,
                    key_direction(key),
                    old(self).y_index as int,
                    old(self).x_index as int,
                ) && final(self).y_index == old(self).y_index && final(self).x_index == old(self).x_index
            },
    {
        let dir = match key {
            SearchKey::Escape | SearchKey::Enter => {
                self.reset();
                return None;
            },
            SearchKey::Down => Some(SearchDirection::Forward),
            SearchKey::Up => Some(SearchDirection::Backward),
            SearchKey::Other => None,
        };
        self.y_direction = dir;
        let found = Self::find_match(editor_rows, query, dir, self.y_index, self.x_index);
        if let Some((row, col)) = found {
            self.y_index = row;
            self.x_index = col;
        }
        found
    }
}

} // verus!
