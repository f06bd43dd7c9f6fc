use vstd::prelude::*;

verus! {

/// Width of a tab stop, in display columns.
pub const TAB_STOP: usize = 4;

/// Number of spaces a tab expands to when it starts at display column `w`.
pub open spec fn tab_fill(w: nat) -> nat {
    (4 - w % 4) as nat
}

/// Display width of `s` once every tab is expanded.
pub open spec fn render_width(s: Seq<char>) -> nat
    decreases s.len(),
{
    if s.len() == 0 {
        0
    } else {
        let w = render_width(s.drop_last());
        if s.last() == '\t' {
            w + tab_fill(w)
        } else {
            w + 1
        }
    }
}

/// `n` spaces.
pub open spec fn spaces(n: nat) -> Seq<char> {
    Seq::new(n, |i: int| ' ')
}

/// The display form of `s`: each tab becomes the spaces up to the next tab stop.
pub open spec fn render_of(s: Seq<char>) -> Seq<char>
    decreases s.len(),
{
    if s.len() == 0 {
        seq![]
    } else {
        let prev = s.drop_last();
        if s.last() == '\t' {
            render_of(prev) + spaces(tab_fill(render_width(prev)))
        } else {
            render_of(prev).push(s.last())
        }
    }
}

/// Content index reached by scanning `s` from index `i` for the first character
/// whose display span ends past column `rx`; the length of `s` if there is none.
pub open spec fn scan_past(s: Seq<char>, rx: nat, i: nat) -> nat
    decreases s.len() - i,
{
    if i >= s.len() {
        s.len()
    } else if render_width(s.take(i as int + 1)) > rx {
        i
    } else {
        scan_past(s, rx, i + 1)
    }
}

/// Content column under display column `rx`; end of row when `rx` lies past the text.
pub open spec fn render_to_content(s: Seq<char>, rx: nat) -> nat {
    scan_past(s, rx, 0)
}

pub proof fn lemma_take_drop_last(s: Seq<char>, i: int)
    requires
        0 < i <= s.len(),
    ensures
        s.take(i).drop_last() == s.take(i - 1),
        s.take(i).last() == s[i - 1],
{
    assert(s.take(i).drop_last() =~= s.take(i - 1));
}

/// The display width is never below the number of characters.
pub proof fn lemma_width_at_least_len(s: Seq<char>)
    ensures
        render_width(s) >= s.len(),
    decreases s.len(),
{
    if s.len() > 0 {
        lemma_width_at_least_len(s.drop_last());
    }
}

/// The rendered text is exactly as long as the display width.
pub proof fn lemma_render_len(s: Seq<char>)
    ensures
        render_of(s).len() == render_width(s),
    decreases s.len(),
{
    if s.len() > 0 {
        lemma_render_len(s.drop_last());
    }
}

/// Each character widens its prefix by at least one column.
pub proof fn lemma_width_step(s: Seq<char>, i: int)
    requires
        0 <= i < s.len(),
    ensures
        render_width(s.take(i + 1)) > render_width(s.take(i)),
        render_width(s.take(i + 1)) <= render_width(s.take(i)) + 4,
{
    lemma_take_drop_last(s, i + 1);
}

/// Display width of prefixes never decreases as the prefix grows.
pub proof fn lemma_width_monotonic(s: Seq<char>, i: int, j: int)
    requires
        0 <= i <= j <= s.len(),
    ensures
        render_width(s.take(i)) <= render_width(s.take(j)),
    decreases j - i,
{
    if i < j {
        lemma_width_step(s, j - 1);
        lemma_width_monotonic(s, i, j - 1);
    }
}

/// Rendering a prefix gives a prefix of the rendering.
pub proof fn lemma_render_prefix(s: Seq<char>, i: int)
    requires
        0 <= i <= s.len(),
    ensures
        render_of(s.take(i)) == render_of(s).take(render_width(s.take(i)) as int),
    decreases s.len() - i,
{
    lemma_render_len(s);
    lemma_render_len(s.take(i));
    if i == s.len() {
        assert(s.take(i) =~= s);
        assert(render_of(s).take(render_width(s) as int) =~= render_of(s));
    } else {
        lemma_render_prefix(s, i + 1);
        lemma_take_drop_last(s, i + 1);
        lemma_render_len(s.take(i + 1));
        let r = render_of(s);
        let w = render_width(s.take(i)) as int;
        let w1 = render_width(s.take(i + 1)) as int;
        lemma_width_step(s, i);
        lemma_width_monotonic(s, i + 1, s.len() as int);
        assert(s.take(s.len() as int) =~= s);
        assert(render_of(s.take(i + 1)) == r.take(w1));
        assert(render_of(s.take(i)) =~= render_of(s.take(i + 1)).take(w));
        assert(r.take(w1).take(w) =~= r.take(w));
    }
}

/// Scanning from `i` lands on `c` when every span before `c` ends at or before `rx`
/// and the span of `c` ends past it.
proof fn lemma_scan_lands(s: Seq<char>, rx: nat, i: nat, c: nat)
    requires
        i <= c <= s.len(),
        forall|j: int| i <= j < c ==> render_width(#[trigger] s.take(j + 1)) <= rx,
        c < s.len() ==> render_width(s.take(c as int + 1)) > rx,
    ensures
        scan_past(s, rx, i) == c,
    decreases c - i,
{
    if i < c {
        lemma_scan_lands(s, rx, i + 1, c);
    }
}

/// Mapping a content column to its display column and back gives the content
/// column again.
pub proof fn lemma_col_round_trip(s: Seq<char>, c: nat)
    requires
        c <= s.len(),
    ensures
        render_to_content(s, render_width(s.take(c as int))) == c,
{
    let rx = render_width(s.take(c as int));
    assert forall|j: int| 0 <= j < c implies render_width(#[trigger] s.take(j + 1)) <= rx by {
        lemma_width_monotonic(s, j + 1, c as int);
    }
    if c < s.len() {
        lemma_width_step(s, c as int);
    }
    lemma_scan_lands(s, rx, 0, c);
}

/// The display column of a content column never decreases as the content column grows.
pub proof fn lemma_content_to_render_monotonic(s: Seq<char>, i: nat, j: nat)
    requires
        i <= j <= s.len(),
    ensures
        render_width(s.take(i as int)) <= render_width(s.take(j as int)),
{
    lemma_width_monotonic(s, i as int, j as int);
}

/// The rendering is at least as long as the content, and each tab becomes one to
/// four spaces that end on a tab stop.
pub proof fn lemma_render_expands_tabs(s: Seq<char>, k: int)
    requires
        0 <= k < s.len(),
        s[k] == '\t',
    ensures
        render_of(s).len() >= s.len(),
        ({
            let w = render_width(s.take(k));
            let w1 = render_width(s.take(k + 1));
            &&& 1 <= w1 - w <= 4
            &&& w1 % 4 == 0
            &&& render_of(s).subrange(w as int, w1 as int) == spaces((w1 - w) as nat)
        }),
{
    lemma_render_len(s);
    lemma_width_at_least_len(s);
    lemma_take_drop_last(s, k + 1);
    lemma_render_prefix(s, k + 1);
    lemma_render_len(s.take(k));
    lemma_width_monotonic(s, k + 1, s.len() as int);
    assert(s.take(s.len() as int) =~= s);
    let w = render_width(s.take(k));
    let w1 = render_width(s.take(k + 1));
    assert(render_of(s).subrange(w as int, w1 as int) =~= render_of(s.take(k + 1)).subrange(
        w as int,
        w1 as int,
    ));
    assert(render_of(s.take(k + 1)).subrange(w as int, w1 as int) =~= spaces((w1 - w) as nat));
}

/// Expands the tabs of `content`.
pub fn render_chars(content: &Vec<char>) -> (r: Vec<char>)
    ensures
        r@ == render_of(content@),
{
    let mut out: Vec<char> = Vec::new();
    let mut i: usize = 0;
    while i < content.len()
        invariant
            i <= content@.len(),
            out@ == render_of(content@.take(i as int)),
        decreases content@.len() - i,
    {
        proof {
            lemma_take_drop_last(content@, i as int + 1);
            lemma_render_len(content@.take(i as int));
        }
        let c = content[i];
        if c == '\t' {
            let idx = out.len();
            let n: usize = TAB_STOP - idx % TAB_STOP;
            let ghost before = out@;
            let mut k: usize = 0;
            while k < n
                invariant
                    k <= n,
                    n == tab_fill(before.len()),
                    out@ == before + spaces(k as nat),
                decreases n - k,
            {
                out.push(' ');
                k += 1;
                assert(out@ =~= before + spaces(k as nat));
            }
        } else {
            out.push(c);
        }
        i += 1;
    }
    assert(content@.take(i as int) =~= content@);
    out
}

/// One line of text and its display form.
pub struct Row {
    pub row_content: Vec<char>,
    pub render: Vec<char>,
}

impl Row {
    /// The display form is the tab expansion of the content.
    pub open spec fn wf(&self) -> bool {
        self.render@ == render_of(self.row_content@)
    }

    pub fn new(row_content: Vec<char>) -> (r: Row)
        ensures
            r.wf(),
            r.row_content@ == row_content@,
    {
        let render = render_chars(&row_content);
        Row { row_content, render }
    }

    pub fn insert_char(&mut self, at: usize, ch: char)
        requires
            at <= old(self).row_content@.len(),
        ensures
            final(self).wf(),
            final(self).row_content@ == old(self).row_content@.insert(at as int, ch),
    {
        self.row_content.insert(at, ch);
        self.render = render_chars(&self.row_content);
    }

    pub fn delete_char(&mut self, at: usize)
        requires
            at < old(self).row_content@.len(),
        ensures
            final(self).wf(),
            final(self).row_content@ == old(self).row_content@.remove(at as int),
    {
        self.row_content.remove(at);
        self.render = render_chars(&self.row_content);
    }

    /// Display column of content column `content_col` (clamped to the row's end).
    pub fn content_col_to_render_col(&self, content_col: usize) -> (r: usize)
        requires
            self.wf(),
        ensures
            content_col <= self.row_content@.len() ==> r == render_width(
                self.row_content@.take(content_col as int),
            ),
            content_col > self.row_content@.len() ==> r == render_width(self.row_content@),
    {
        let s = Ghost(self.row_content@);
        let end: usize = if content_col < self.row_content.len() {
            content_col
        } else {
            self.row_content.len()
        };
        let total = self.render.len();
        let mut rx: usize = 0;
        let mut i: usize = 0;
        proof {
            lemma_render_len(s@);
            assert(s@.take(s@.len() as int) =~= s@);
        }
        while i < end
            invariant
                end <= s@.len(),
                s@ == self.row_content@,
                self.wf(),
                i <= end,
                total == render_width(s@),
                rx == render_width(s@.take(i as int)),
            decreases end - i,
        {
            proof {
                lemma_take_drop_last(s@, i as int + 1);
                lemma_width_monotonic(s@, i as int + 1, s@.len() as int);
                lemma_render_len(s@);
                assert(s@.take(s@.len() as int) =~= s@);
            }
            if self.row_content[i] == '\t' {
                rx = rx + (TAB_STOP - rx % TAB_STOP);
            } else {
                rx = rx + 1;
            }
            i += 1;
        }
        proof {
            if content_col > s@.len() {
                assert(s@.take(s@.len() as int) =~= s@);
            }
        }
        rx
    }

    /// Content column under display column `render_x`; the end of the row when
    /// `render_x` lies past the rendered text.
    pub fn get_row_content_x(&self, render_x: usize) -> (r: usize)
        requires
            self.wf(),
        ensures
            r == render_to_content(self.row_content@, render_x as nat),
            r <= self.row_content@.len(),
    {
        let s = Ghost(self.row_content@);
        let total = self.render.len();
        proof {
            lemma_render_len(s@);
        }
        let mut current_render_x: usize = 0;
        let mut i: usize = 0;
        while i < self.row_content.len()
            invariant
                s@ == self.row_content@,
                self.wf(),
                i <= s@.len(),
                total == render_width(s@),
                current_render_x == render_width(s@.take(i as int)),
                current_render_x <= render_x,
                scan_past(s@, render_x as nat, 0) == scan_past(s@, render_x as nat, i as nat),
            decreases s@.len() - i,
        {
            proof {
                lemma_take_drop_last(s@, i as int + 1);
                lemma_width_monotonic(s@, i as int + 1, s@.len() as int);
                lemma_render_len(s@);
                assert(s@.take(s@.len() as int) =~= s@);
            }
            if self.row_content[i] == '\t' {
                current_render_x = current_render_x + (TAB_STOP - current_render_x % TAB_STOP);
            } else {
                current_render_x = current_render_x + 1;
            }
            if current_render_x > render_x {
                return i;
            }
            i += 1;
        }
        i
    }
}

} // verus!
