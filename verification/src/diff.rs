//! Scroll arithmetic of the diff pane, with and without wrapping, and the
//! hunk headers of a unified diff.
use vstd::prelude::*;

use crate::model::DiffHunk;
use crate::text::{
    char_is_white_space, chars_of, has_prefix, is_white_space, lemma_lines_from_cost,
    lines_of, parse_usize, parse_usize_spec, slice_chars, split_lines, starts_with_str,
    line_span, total_line_cost,
};

verus! {

// ---------------------------------------------------------------------------
// Rows
// ---------------------------------------------------------------------------

/// How many screen rows a line takes in a pane `width` columns wide: one
/// without wrapping; with wrapping, its characters (at least one) divided by
/// the width, rounded up.
pub open spec fn rows_for_line(line: Seq<char>, width: nat, wrap: bool) -> nat {
    if !wrap {
        1
    } else {
        let w: nat = if line.len() > 0 {
            line.len()
        } else {
            1
        };
        w / width + if w % width > 0 {
            1nat
        } else {
            0nat
        }
    }
}

/// The rows taken by the first `k` lines.
pub open spec fn rows_before(lines: Seq<Seq<char>>, width: nat, wrap: bool, k: int) -> nat
    decreases k,
{
    if k <= 0 {
        0
    } else {
        rows_before(lines, width, wrap, k - 1) + rows_for_line(lines[k - 1], width, wrap)
    }
}

/// The rows taken by all lines.
pub open spec fn total_rows(lines: Seq<Seq<char>>, width: nat, wrap: bool) -> nat {
    rows_before(lines, width, wrap, lines.len() as int)
}

proof fn lemma_rows_bounds(w: nat, width: nat)
    requires
        w >= 1,
        width >= 1,
    ensures
        1 <= w / width + (if w % width > 0 {
            1nat
        } else {
            0nat
        }) <= w,
{
    assert(w / width <= w) by (nonlinear_arith)
        requires
            w >= 1,
            width >= 1,
    ;
    assert(w == width * (w / width) + w % width) by (nonlinear_arith)
        requires
            width >= 1,
    ;
    assert(0 <= w % width < width) by (nonlinear_arith)
        requires
            width >= 1,
    ;
    if w % width > 0 {
        if width == 1 {
        } else {
            assert(w / width + 1 <= w) by (nonlinear_arith)
                requires
                    width >= 2,
                    w >= 1,
                    w == width * (w / width) + w % width,
                    0 < w % width < width,
            ;
        }
    } else {
        assert(w / width >= 1) by (nonlinear_arith)
            requires
                w >= 1,
                width >= 1,
                w == width * (w / width) + w % width,
                w % width == 0,
        ;
    }
}

/// A line takes at least one row and no more than its length, or one row
/// when it is empty.
pub proof fn lemma_rows_for_line(line: Seq<char>, width: nat, wrap: bool)
    requires
        width >= 1,
    ensures
        1 <= rows_for_line(line, width, wrap) <= line_span(line),
{
    if wrap {
        let w: nat = if line.len() > 0 {
            line.len()
        } else {
            1
        };
        lemma_rows_bounds(w, width);
    }
}

/// Row offsets grow by at least one per line, and stay within the text.
pub proof fn lemma_rows_before(lines: Seq<Seq<char>>, width: nat, wrap: bool, k: int)
    requires
        width >= 1,
        0 <= k <= lines.len(),
    ensures
        rows_before(lines, width, wrap, k) <= total_line_cost(lines.take(k)),
        rows_before(lines, width, wrap, k) >= k,
        forall|j: int| 0 <= j <= k ==> rows_before(lines, width, wrap, j) + (k - j) <= rows_before(
            lines,
            width,
            wrap,
            k,
        ),
    decreases k,
{
    if k > 0 {
        lemma_rows_before(lines, width, wrap, k - 1);
        lemma_rows_for_line(lines[k - 1], width, wrap);
        assert(lines.take(k).drop_last() =~= lines.take(k - 1));
        assert(lines.take(k).last() == lines[k - 1]);
    }
}

/// The rows of the lines of a text add up to at most its length.
pub proof fn lemma_total_rows_bound(text: Seq<char>, width: nat, wrap: bool)
    requires
        width >= 1,
    ensures
        total_rows(lines_of(text), width, wrap) <= text.len(),
{
    let lines = lines_of(text);
    lemma_rows_before(lines, width, wrap, lines.len() as int);
    assert(lines.take(lines.len() as int) =~= lines);
    lemma_lines_from_cost(text, 0);
}

/// The rows a line takes.
fn displayed_rows_for_line(line: &Vec<char>, content_width: usize, wrap: bool) -> (r: usize)
    requires
        wrap ==> content_width > 0,
    ensures
        r == rows_for_line(line@, content_width as nat, wrap),
{
    if !wrap {
        return 1;
    }
    let width = if line.len() > 0 {
        line.len()
    } else {
        1
    };
    proof {
        lemma_rows_bounds(width as nat, content_width as nat);
    }
    width / content_width + if width % content_width > 0 {
        1
    } else {
        0
    }
}

/// The number of screen rows that `body` takes in a pane `content_width`
/// columns wide: none in a pane of no width, else at least one.
pub fn displayed_row_count(body: &str, content_width: usize, wrap: bool) -> (r: usize)
    ensures
        r == row_count(body@, content_width as nat, wrap),
{
    if content_width == 0 {
        return 0;
    }
    let text = chars_of(body);
    let lines = split_lines(&text);
    let ghost ls = lines_of(body@);
    proof {
        lemma_total_rows_bound(body@, content_width as nat, wrap);
        lemma_rows_before(ls, content_width as nat, wrap, ls.len() as int);
    }
    let mut total: usize = 0;
    let n = lines.len();
    for i in 0..n
        invariant
            content_width > 0,
            n == ls.len() == lines@.len(),
            forall|k: int| 0 <= k < n ==> #[trigger] lines@[k]@ == ls[k],
            total == rows_before(ls, content_width as nat, wrap, i as int),
            total_rows(ls, content_width as nat, wrap) <= body@.len(),
            body@.len() <= usize::MAX,
            forall|j: int|
                0 <= j <= n ==> rows_before(ls, content_width as nat, wrap, j) + (n - j)
                    <= rows_before(ls, content_width as nat, wrap, n as int),
    {
        let rows = displayed_rows_for_line(&lines[i], content_width, wrap);
        assert(lines@[i as int]@ == ls[i as int]);
        assert(rows_before(ls, content_width as nat, wrap, i + 1) <= rows_before(
            ls,
            content_width as nat,
            wrap,
            n as int,
        ));
        total = total + rows;
    }
    if total < 1 {
        1
    } else {
        total
    }
}

/// What [`displayed_row_count`] gives.
pub open spec fn row_count(text: Seq<char>, width: nat, wrap: bool) -> nat {
    if width == 0 {
        0
    } else {
        let t = total_rows(lines_of(text), width, wrap);
        if t < 1 {
            1
        } else {
            t
        }
    }
}

/// The scroll offset the diff pane shows: the requested one, but no further
/// than the rows of the text beyond one screenful, a limit held at the
/// largest `u16`; zero in a pane of no width or height.
pub open spec fn effective_scroll(
    text: Seq<char>,
    requested: nat,
    width: nat,
    height: nat,
    wrap: bool,
) -> nat {
    if width == 0 || height == 0 {
        0
    } else {
        let count = row_count(text, width, wrap);
        let beyond: nat = if count > height {
            (count - height) as nat
        } else {
            0
        };
        let max_scroll: nat = if beyond < 0xFFFF {
            beyond
        } else {
            0xFFFF
        };
        if requested < max_scroll {
            requested
        } else {
            max_scroll
        }
    }
}

/// The scroll offset to show for a request, kept within the text.
pub fn effective_diff_scroll(
    body: &str,
    requested: u16,
    content_width: usize,
    content_height: usize,
    wrap: bool,
) -> (r: u16)
    ensures
        r == effective_scroll(
            body@,
            requested as nat,
            content_width as nat,
            content_height as nat,
            wrap,
        ),
{
    if content_width == 0 || content_height == 0 {
        return 0;
    }
    let total_rows = displayed_row_count(body, content_width, wrap);
    let beyond = total_rows.saturating_sub(content_height);
    let max_scroll: u16 = if beyond < 0xFFFF {
        beyond as u16
    } else {
        0xFFFF
    };
    if requested < max_scroll {
        requested
    } else {
        max_scroll
    }
}

/// The pane never scrolls further than asked, nor at all when the whole
/// text fits on one screen.
pub proof fn lemma_effective_scroll_bounds(
    text: Seq<char>,
    requested: nat,
    width: nat,
    height: nat,
    wrap: bool,
)
    ensures
        effective_scroll(text, requested, width, height, wrap) <= requested,
        row_count(text, width, wrap) <= height ==> effective_scroll(
            text,
            requested,
            width,
            height,
            wrap,
        ) == 0,
{
}

// ---------------------------------------------------------------------------
// Lines and rows
// ---------------------------------------------------------------------------

/// The line shown at screen row `row`: the one whose rows hold it; past the
/// end of the text, the last line (line zero for an empty text or a pane of
/// no width).
pub open spec fn line_at_row(lines: Seq<Seq<char>>, width: nat, wrap: bool, row: int) -> int {
    if width == 0 {
        0
    } else if row < total_rows(lines, width, wrap) {
        choose|i: int|
            0 <= i < lines.len() && #[trigger] rows_before(lines, width, wrap, i) <= row < rows_before(
                lines,
                width,
                wrap,
                i + 1,
            )
    } else if lines.len() > 0 {
        lines.len() - 1
    } else {
        0
    }
}

/// At most one line holds a given row.
proof fn lemma_line_at_row_unique(lines: Seq<Seq<char>>, width: nat, wrap: bool, row: int, i: int)
    requires
        width >= 1,
        0 <= i < lines.len(),
        rows_before(lines, width, wrap, i) <= row < rows_before(lines, width, wrap, i + 1),
    ensures
        line_at_row(lines, width, wrap, row) == i,
{
    lemma_rows_before(lines, width, wrap, lines.len() as int);
    lemma_rows_before(lines, width, wrap, i + 1);
    assert(row < total_rows(lines, width, wrap));
    let c = line_at_row(lines, width, wrap, row);
    assert(0 <= c < lines.len() && rows_before(lines, width, wrap, c) <= row < rows_before(
        lines,
        width,
        wrap,
        c + 1,
    ));
    if c < i {
        lemma_rows_before(lines, width, wrap, i);
    } else if c > i {
        lemma_rows_before(lines, width, wrap, c);
    }
}

/// Any row at or past the end of the text, in a pane of some width, shows
/// the last line (line 0 of a text without lines).
pub proof fn lemma_scroll_past_end_shows_last_line(text: Seq<char>, width: nat, wrap: bool, row: int)
    requires
        width > 0,
        row >= row_count(text, width, wrap),
    ensures
        line_at_row(lines_of(text), width, wrap, row) == if lines_of(text).len() > 0 {
            lines_of(text).len() - 1
        } else {
            0
        },
{
}

/// The index of the line that the screen row `scroll` shows.
pub fn raw_line_index_for_scroll(body: &str, scroll: u16, content_width: usize, wrap: bool) -> (r:
    usize)
    ensures
        r == line_at_row(lines_of(body@), content_width as nat, wrap, scroll as int),
{
    if content_width == 0 {
        return 0;
    }
    let text = chars_of(body);
    let lines = split_lines(&text);
    let ghost ls = lines_of(body@);
    let ghost w = content_width as nat;
    proof {
        lemma_total_rows_bound(body@, w, wrap);
        lemma_rows_before(ls, w, wrap, ls.len() as int);
    }
    let mut current_offset: usize = 0;
    let n = lines.len();
    for index in 0..n
        invariant
            content_width > 0,
            w == content_width as nat,
            n == ls.len() == lines@.len(),
            ls == lines_of(body@),
            forall|k: int| 0 <= k < n ==> #[trigger] lines@[k]@ == ls[k],
            current_offset == rows_before(ls, w, wrap, index as int),
            current_offset <= scroll,
            total_rows(ls, w, wrap) <= body@.len(),
            body@.len() <= usize::MAX,
            forall|j: int|
                0 <= j <= n ==> rows_before(ls, w, wrap, j) + (n - j) <= rows_before(
                    ls,
                    w,
                    wrap,
                    n as int,
                ),
    {
        let line_rows = displayed_rows_for_line(&lines[index], content_width, wrap);
        proof {
            lemma_rows_for_line(ls[index as int], w, wrap);
            assert(rows_before(ls, w, wrap, index + 1) <= rows_before(ls, w, wrap, n as int));
        }
        if (scroll as usize) <= current_offset + (line_rows - 1) {
            proof {
                lemma_line_at_row_unique(ls, w, wrap, scroll as int, index as int);
            }
            assert(line_at_row(ls, w, wrap, scroll as int) == index);
            return index;
        }
        current_offset = current_offset + line_rows;
    }
    proof {
        assert(!(scroll < total_rows(ls, w, wrap)));
    }
    if n > 0 {
        n - 1
    } else {
        0
    }
}

/// The scroll offset at which line `target` starts: the rows of the lines
/// before it (of all lines, when it is past the end), at most `u16::MAX`;
/// zero in a pane of no width.
pub open spec fn scroll_of_line(lines: Seq<Seq<char>>, width: nat, wrap: bool, target: int) -> nat {
    if width == 0 {
        0
    } else {
        let k = if target < lines.len() {
            target
        } else {
            lines.len() as int
        };
        let rows = rows_before(lines, width, wrap, k);
        if rows < 0xFFFF {
            rows
        } else {
            0xFFFF
        }
    }
}

/// The scroll offset that brings line `target_line` to the top.
pub fn scroll_for_raw_line(body: &str, target_line: usize, content_width: usize, wrap: bool) -> (r:
    u16)
    ensures
        r == scroll_of_line(lines_of(body@), content_width as nat, wrap, target_line as int),
{
    if content_width == 0 {
        return 0;
    }
    let text = chars_of(body);
    let lines = split_lines(&text);
    let ghost ls = lines_of(body@);
    let ghost w = content_width as nat;
    proof {
        lemma_total_rows_bound(body@, w, wrap);
        lemma_rows_before(ls, w, wrap, ls.len() as int);
    }
    let mut current_offset: usize = 0;
    let n = lines.len();
    for index in 0..n
        invariant
            content_width > 0,
            w == content_width as nat,
            n == ls.len() == lines@.len(),
            ls == lines_of(body@),
            forall|k: int| 0 <= k < n ==> #[trigger] lines@[k]@ == ls[k],
            current_offset == rows_before(ls, w, wrap, index as int),
            index <= target_line,
            total_rows(ls, w, wrap) <= body@.len(),
            body@.len() <= usize::MAX,
            forall|j: int|
                0 <= j <= n ==> rows_before(ls, w, wrap, j) + (n - j) <= rows_before(
                    ls,
                    w,
                    wrap,
                    n as int,
                ),
    {
        if index == target_line {
            assert(scroll_of_line(ls, w, wrap, target_line as int) == (if current_offset < 0xFFFF {
                current_offset
            } else {
                0xFFFF
            }));
            return if current_offset < 0xFFFF {
                current_offset as u16
            } else {
                0xFFFF
            };
        }
        let rows = displayed_rows_for_line(&lines[index], content_width, wrap);
        proof {
            assert(rows_before(ls, w, wrap, index + 1) <= rows_before(ls, w, wrap, n as int));
        }
        current_offset = current_offset + rows;
    }
    if current_offset < 0xFFFF {
        current_offset as u16
    } else {
        0xFFFF
    }
}

/// Scrolling to the start of a line and asking which line is at the top
/// gives back that line, for every line that starts at an offset a `u16`
/// can hold and a pane of some width, wrapped or not.
pub proof fn lemma_scroll_to_line_roundtrip(
    lines: Seq<Seq<char>>,
    width: nat,
    wrap: bool,
    target: int,
)
    requires
        width > 0,
        0 <= target < lines.len(),
        rows_before(lines, width, wrap, target) <= 0xFFFF,
    ensures
        line_at_row(lines, width, wrap, scroll_of_line(lines, width, wrap, target) as int)
            == target,
{
    lemma_rows_for_line(lines[target], width, wrap);
    lemma_line_at_row_unique(lines, width, wrap, rows_before(lines, width, wrap, target) as int, target);
}

// ---------------------------------------------------------------------------
// Hunks
// ---------------------------------------------------------------------------

/// The first position at or after `from` where `" +"` starts, or the length
/// of `s` when there is none.
pub open spec fn find_plus_marker(s: Seq<char>, from: int) -> int
    decreases s.len() - from,
{
    if from + 1 >= s.len() {
        s.len() as int
    } else if from >= 0 && s[from] == ' ' && s[from + 1] == '+' {
        from
    } else {
        find_plus_marker(s, from + 1)
    }
}

/// The end of the first piece of `s` from `from` on, cut at a comma or white
/// space.
pub open spec fn token_end(s: Seq<char>, from: int) -> int
    decreases s.len() - from,
{
    if from >= s.len() {
        s.len() as int
    } else if from >= 0 && (s[from] == ',' || is_white_space(s[from])) {
        from
    } else {
        token_end(s, from + 1)
    }
}

/// The first line of the new file that a hunk header (`"@@ -a,b +c,d @@"`)
/// names: the number after the first `" +"`, up to a comma or white space.
pub open spec fn hunk_new_start(line: Seq<char>) -> Option<nat> {
    if !has_prefix(line, "@@"@) {
        None
    } else {
        let p = find_plus_marker(line, 0);
        if p >= line.len() {
            None
        } else {
            let rest = line.skip(p + 2);
            parse_usize_spec(rest.take(token_end(rest, 0)))
        }
    }
}

/// The hunks of a diff: for each hunk header, in order, its line and its
/// first line in the new file.
pub open spec fn hunks_of(lines: Seq<Seq<char>>) -> Seq<DiffHunk>
    decreases lines.len(),
{
    if lines.len() == 0 {
        Seq::empty()
    } else {
        hunks_of(lines.drop_last()) + match hunk_new_start(lines.last()) {
            Some(n) => seq![DiffHunk { line_index: (lines.len() - 1) as usize, new_start: n as usize }],
            None => Seq::empty(),
        }
    }
}

/// The start in the new file that a hunk header line names.
fn parse_hunk_new_start(line: &Vec<char>) -> (r: Option<usize>)
    ensures
        match r {
            Some(n) => hunk_new_start(line@) == Some(n as nat),
            None => hunk_new_start(line@) is None,
        },
{
    if !starts_with_str(line, "@@") {
        return None;
    }
    let n = line.len();
    let mut p: usize = 0;
    while p < n && p + 1 < n && !(line[p] == ' ' && line[p + 1] == '+')
        invariant
            n == line@.len(),
            p <= n,
            find_plus_marker(line@, 0) == find_plus_marker(line@, p as int),
        decreases n - p,
    {
        p = p + 1;
    }
    if n == 0 || p >= n - 1 {
        return None;
    }
    let rest = slice_chars(line, p + 2, n);
    assert(rest@ =~= line@.skip(p + 2));
    let mut e: usize = 0;
    while e < rest.len() && !(rest[e] == ',' || char_is_white_space(rest[e]))
        invariant
            e <= rest@.len(),
            token_end(rest@, 0) == token_end(rest@, e as int),
        decreases rest@.len() - e,
    {
        e = e + 1;
    }
    let token = slice_chars(&rest, 0, e);
    assert(token@ =~= rest@.take(e as int));
    parse_usize(&token)
}

/// The hunks of a unified diff.
pub fn parse_diff_hunks(body: &str) -> (r: Vec<DiffHunk>)
    ensures
        r@ == hunks_of(lines_of(body@)),
{
    let text = chars_of(body);
    let lines = split_lines(&text);
    let ghost ls = lines_of(body@);
    let mut hunks: Vec<DiffHunk> = Vec::new();
    let n = lines.len();
    assert(ls.take(0) =~= Seq::<Seq<char>>::empty());
    for line_index in 0..n
        invariant
            n == ls.len() == lines@.len(),
            forall|k: int| 0 <= k < n ==> #[trigger] lines@[k]@ == ls[k],
            hunks@ == hunks_of(ls.take(line_index as int)),
    {
        let ghost before = hunks@;
        assert(ls.take(line_index + 1).drop_last() =~= ls.take(line_index as int));
        assert(ls.take(line_index + 1).last() == lines@[line_index as int]@);
        match parse_hunk_new_start(&lines[line_index]) {
            Some(new_start) => {
                hunks.push(DiffHunk { line_index, new_start });
            },
            None => {},
        }
        assert(hunks@ =~= hunks_of(ls.take(line_index + 1)));
    }
    assert(ls.take(n as int) =~= ls);
    hunks
}

} // verus!
