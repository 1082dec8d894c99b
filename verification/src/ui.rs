//! What the screen's panes show: pane titles, the kind, padding and colours
//! of diff lines, the widths of line counts, truncation to a width, the
//! styled pieces of a row of the change list, the rows of that list with
//! its highlighted row, and the key hints. Drawing them is the renderer's
//! part.
use vstd::prelude::*;

use crate::app::AppState;
use crate::model::{
    count_char, entries_view, entry_id, opt_view, path_leaf, path_parent, section_title, ChangeEntry,
    ChangeSection, EntryView, FocusArea,
};
use crate::text::{
    chars_of, decimal, decimal_chars, extend_chars, extend_str, has_prefix, lemma_decimal_nonempty,
    lemma_rfind, lines_of, slice_chars, split_lines, starts_with_str, string_from_chars,
};

verus! {

/// A pane's title, marked when the pane has the keyboard.
pub open spec fn pane_title_text(title: Seq<char>, active: bool) -> Seq<char> {
    if active {
        title + " • active"@
    } else {
        title
    }
}

/// A pane's title, marked when the pane has the keyboard.
pub fn pane_title(title: &str, active: bool) -> (r: String)
    ensures
        r@ == pane_title_text(title@, active),
{
    let mut s = title.to_owned();
    if active {
        s.append(" • active");
    }
    s
}

/// The kinds of line in a unified diff, each shown in its own style.
#[derive(Clone, Copy, Debug, PartialEq, Eq, Structural)]
pub enum DiffLineKind {
    Header,
    Hunk,
    Added,
    Removed,
    Plain,
}

/// The kind of a diff line: file headers first (so that `"+++ "` and
/// `"--- "` lines are headers), then hunk headers, added and removed lines,
/// and everything else.
pub open spec fn diff_line_kind(line: Seq<char>) -> DiffLineKind {
    if has_prefix(line, "diff --git "@) || has_prefix(line, "index "@) || has_prefix(
        line,
        "new file mode "@,
    ) || has_prefix(line, "deleted file mode "@) || has_prefix(line, "similarity index "@)
        || has_prefix(line, "rename from "@) || has_prefix(line, "rename to "@) || has_prefix(
        line,
        "--- "@,
    ) || has_prefix(line, "+++ "@) {
        DiffLineKind::Header
    } else if has_prefix(line, "@@"@) {
        DiffLineKind::Hunk
    } else if line.len() > 0 && line[0] == '+' {
        DiffLineKind::Added
    } else if line.len() > 0 && line[0] == '-' {
        DiffLineKind::Removed
    } else {
        DiffLineKind::Plain
    }
}

fn classify_chars(line: &Vec<char>) -> (r: DiffLineKind)
    ensures
        r == diff_line_kind(line@),
{
    if starts_with_str(line, "diff --git ") || starts_with_str(line, "index ") || starts_with_str(
        line,
        "new file mode ",
    ) || starts_with_str(line, "deleted file mode ") || starts_with_str(line, "similarity index ")
        || starts_with_str(line, "rename from ") || starts_with_str(line, "rename to ")
        || starts_with_str(line, "--- ") || starts_with_str(line, "+++ ") {
        DiffLineKind::Header
    } else if starts_with_str(line, "@@") {
        DiffLineKind::Hunk
    } else if line.len() > 0 && line[0] == '+' {
        DiffLineKind::Added
    } else if line.len() > 0 && line[0] == '-' {
        DiffLineKind::Removed
    } else {
        DiffLineKind::Plain
    }
}

/// The kind of a diff line.
pub fn classify_diff_line(line: &str) -> (r: DiffLineKind)
    ensures
        r == diff_line_kind(line@),
{
    let chars = chars_of(line);
    classify_chars(&chars)
}

/// `n` spaces.
pub open spec fn spaces(n: nat) -> Seq<char> {
    Seq::new(n, |i: int| ' ')
}

fn push_spaces(v: &mut Vec<char>, n: usize)
    ensures
        final(v)@ == old(v)@ + spaces(n as nat),
{
    for i in 0..n
        invariant
            v@ == old(v)@ + spaces(i as nat),
    {
        v.push(' ');
        assert(spaces((i + 1) as nat) =~= spaces(i as nat).push(' '));
    }
}

/// A line padded with spaces to `width` characters, so that its background
/// fills the pane; a line as wide already, or a pane of no width, leaves it
/// as it is.
pub open spec fn padded_line(line: Seq<char>, width: nat) -> Seq<char> {
    if width == 0 || line.len() >= width {
        line
    } else {
        line + spaces((width - line.len()) as nat)
    }
}

fn pad_chars(line: &Vec<char>, content_width: usize) -> (r: Vec<char>)
    ensures
        r@ == padded_line(line@, content_width as nat),
{
    let mut r = slice_chars(line, 0, line.len());
    assert(r@ =~= line@);
    if content_width == 0 || line.len() >= content_width {
        return r;
    }
    push_spaces(&mut r, content_width - line.len());
    r
}

/// A line padded to the width of the pane.
pub fn pad_line_for_background(line: &str, content_width: usize) -> (r: String)
    ensures
        r@ == padded_line(line@, content_width as nat),
{
    let chars = chars_of(line);
    let padded = pad_chars(&chars, content_width);
    string_from_chars(&padded)
}

/// The shown text of a diff line: added and removed lines padded to the
/// pane's width.
pub open spec fn styled_line_text(line: Seq<char>, width: nat) -> Seq<char> {
    match diff_line_kind(line) {
        DiffLineKind::Added | DiffLineKind::Removed => padded_line(line, width),
        _ => line,
    }
}

/// A colour of the screen.
#[derive(Clone, Copy, Debug, PartialEq, Eq, Structural)]
pub enum Paint {
    Yellow,
    Cyan,
    Rgb(u8, u8, u8),
}

/// How a line is painted: its foreground and background colours (none for
/// the terminal's own) and whether it is bold.
#[derive(Clone, Copy, Debug, PartialEq, Eq, Structural)]
pub struct LineStyle {
    pub fg: Option<Paint>,
    pub bg: Option<Paint>,
    pub bold: bool,
}

/// The style of each kind of diff line: headers bold yellow, hunk headers
/// bold cyan, added lines light green on dark green, removed lines light red
/// on dark red, other lines plain.
pub open spec fn line_style_of(kind: DiffLineKind) -> LineStyle {
    match kind {
        DiffLineKind::Header => LineStyle { fg: Some(Paint::Yellow), bg: None, bold: true },
        DiffLineKind::Hunk => LineStyle { fg: Some(Paint::Cyan), bg: None, bold: true },
        DiffLineKind::Added => LineStyle {
            fg: Some(Paint::Rgb(214, 255, 214)),
            bg: Some(Paint::Rgb(21, 68, 42)),
            bold: false,
        },
        DiffLineKind::Removed => LineStyle {
            fg: Some(Paint::Rgb(255, 217, 217)),
            bg: Some(Paint::Rgb(96, 34, 40)),
            bold: false,
        },
        DiffLineKind::Plain => LineStyle { fg: None, bg: None, bold: false },
    }
}

/// The style of a kind of diff line.
pub fn diff_line_style(kind: DiffLineKind) -> (r: LineStyle)
    ensures
        r == line_style_of(kind),
{
    match kind {
        DiffLineKind::Header => LineStyle { fg: Some(Paint::Yellow), bg: None, bold: true },
        DiffLineKind::Hunk => LineStyle { fg: Some(Paint::Cyan), bg: None, bold: true },
        DiffLineKind::Added => LineStyle {
            fg: Some(Paint::Rgb(214, 255, 214)),
            bg: Some(Paint::Rgb(21, 68, 42)),
            bold: false,
        },
        DiffLineKind::Removed => LineStyle {
            fg: Some(Paint::Rgb(255, 217, 217)),
            bg: Some(Paint::Rgb(96, 34, 40)),
            bold: false,
        },
        DiffLineKind::Plain => LineStyle { fg: None, bg: None, bold: false },
    }
}

/// One line of the diff pane: its kind, its text and its style.
pub struct StyledLine {
    pub kind: DiffLineKind,
    pub text: String,
    pub style: LineStyle,
}

/// The lines of the diff pane for a diff text, each with its kind, the text
/// shown and the style of its kind; an empty text shows one empty plain line.
pub fn styled_diff_text(body: &str, content_width: usize) -> (r: Vec<StyledLine>)
    ensures
        lines_of(body@).len() == 0 ==> r@.len() == 1 && r@[0].kind == DiffLineKind::Plain
            && r@[0].text@.len() == 0 && r@[0].style == line_style_of(DiffLineKind::Plain),
        lines_of(body@).len() > 0 ==> r@.len() == lines_of(body@).len() && forall|i: int|
            0 <= i < r@.len() ==> (#[trigger] r@[i]).kind == diff_line_kind(lines_of(body@)[i])
                && r@[i].text@ == styled_line_text(lines_of(body@)[i], content_width as nat)
                && r@[i].style == line_style_of(r@[i].kind),
{
    let text = chars_of(body);
    let lines = split_lines(&text);
    let ghost ls = lines_of(body@);
    let mut r: Vec<StyledLine> = Vec::new();
    let n = lines.len();
    for i in 0..n
        invariant
            n == ls.len() == lines@.len(),
            forall|k: int| 0 <= k < n ==> #[trigger] lines@[k]@ == ls[k],
            r@.len() == i,
            forall|k: int|
                0 <= k < i ==> (#[trigger] r@[k]).kind == diff_line_kind(ls[k]) && r@[k].text@
                    == styled_line_text(ls[k], content_width as nat) && r@[k].style
                    == line_style_of(r@[k].kind),
    {
        let line = &lines[i];
        let kind = classify_chars(line);
        let shown = match kind {
            DiffLineKind::Added | DiffLineKind::Removed => pad_chars(line, content_width),
            _ => slice_chars(line, 0, line.len()),
        };
        assert(line@.subrange(0, line@.len() as int) =~= line@);
        r.push(StyledLine { kind, text: string_from_chars(&shown), style: diff_line_style(kind) });
    }
    if n == 0 {
        r.push(
            StyledLine {
                kind: DiffLineKind::Plain,
                text: String::new(),
                style: diff_line_style(DiffLineKind::Plain),
            },
        );
    }
    r
}

// ---------------------------------------------------------------------------
// Widths
// ---------------------------------------------------------------------------

/// Ten to the power `k`.
pub open spec fn pow10(k: nat) -> nat
    decreases k,
{
    if k == 0 {
        1
    } else {
        10 * pow10((k - 1) as nat)
    }
}

proof fn lemma_decimal_len_bound(n: nat, k: nat)
    requires
        n < pow10(k),
        k >= 1,
    ensures
        decimal(n).len() <= k,
    decreases k,
{
    if n >= 10 {
        assert(k >= 2) by {
            if k == 1 {
                reveal_with_fuel(pow10, 2);
                assert(pow10(1) == 10);
            }
        }
        lemma_decimal_len_bound(n / 10, (k - 1) as nat);
    }
}

/// A `usize` has at most twenty decimal digits.
pub proof fn lemma_usize_digits(n: usize)
    ensures
        1 <= decimal(n as nat).len() <= 20,
{
    assert(pow10(20) == 100000000000000000000nat) by {
        reveal_with_fuel(pow10, 21);
    }
    lemma_decimal_len_bound(n as nat, 20);
    lemma_decimal_nonempty(n as nat);
}

/// The number of decimal digits of `value` (one for zero).
pub open spec fn digits_of(value: nat) -> nat {
    decimal(if value < 1 {
        1nat
    } else {
        value
    }).len()
}

/// The number of decimal digits of `value`, counting zero as one digit.
pub fn digit_count(value: usize) -> (r: usize)
    ensures
        r == digits_of(value as nat),
        1 <= r <= 20,
{
    let v = if value < 1 {
        1
    } else {
        value
    };
    proof {
        lemma_usize_digits(v);
    }
    decimal_chars(v).len()
}

/// The width of an entry's line counts: `"+a"` for added lines, `"-d"` for
/// deleted ones, a space between when both are there, and nothing for
/// counts of zero.
pub open spec fn stats_width_of(additions: nat, deletions: nat) -> nat {
    if additions > 0 && deletions > 0 {
        3 + digits_of(additions) + digits_of(deletions)
    } else if additions > 0 {
        1 + digits_of(additions)
    } else if deletions > 0 {
        1 + digits_of(deletions)
    } else {
        0
    }
}

/// The width of an entry's line counts.
pub fn stats_width(entry: &ChangeEntry) -> (r: usize)
    ensures
        r == stats_width_of(entry.additions as nat, entry.deletions as nat),
        r <= 43,
{
    if entry.additions > 0 && entry.deletions > 0 {
        3 + digit_count(entry.additions) + digit_count(entry.deletions)
    } else if entry.additions > 0 {
        1 + digit_count(entry.additions)
    } else if entry.deletions > 0 {
        1 + digit_count(entry.deletions)
    } else {
        0
    }
}

/// A text cut to `max_width` characters: whole when it fits, else its first
/// `max_width - 1` characters and an ellipsis; nothing for no width.
pub open spec fn truncated(value: Seq<char>, max_width: nat) -> Seq<char> {
    if max_width == 0 {
        Seq::empty()
    } else if value.len() <= max_width {
        value
    } else if max_width == 1 {
        seq!['…']
    } else {
        value.take(max_width - 1).push('…')
    }
}

fn truncate_chars(value: &Vec<char>, max_width: usize) -> (r: Vec<char>)
    ensures
        r@ == truncated(value@, max_width as nat),
{
    if max_width == 0 {
        return Vec::new();
    }
    if value.len() <= max_width {
        let r = slice_chars(value, 0, value.len());
        assert(r@ =~= value@);
        return r;
    }
    if max_width == 1 {
        let mut r: Vec<char> = Vec::new();
        r.push('…');
        assert(r@ =~= seq!['…']);
        return r;
    }
    let mut r = slice_chars(value, 0, max_width - 1);
    r.push('…');
    r
}

/// A text cut to fit `max_width` characters.
pub fn truncate_for_width(value: &str, max_width: usize) -> (r: String)
    ensures
        r@ == truncated(value@, max_width as nat),
{
    let chars = chars_of(value);
    let cut = truncate_chars(&chars, max_width);
    string_from_chars(&cut)
}

/// A truncated text never takes more than the width it was cut to, and a
/// text that fits is left whole.
pub proof fn lemma_truncated_fits(value: Seq<char>, max_width: nat)
    ensures
        truncated(value, max_width).len() <= max_width,
        truncated(value, max_width).len() <= value.len(),
        value.len() <= max_width ==> truncated(value, max_width) == value,
{
}

// ---------------------------------------------------------------------------
// Rows of the change list
// ---------------------------------------------------------------------------

/// The pieces of a row of the change list, in order: the indent, the file
/// name, the parent directory (with where a rename came from), the spacer
/// that pushes the line counts to the right edge, and the line counts.
pub struct ChangeRow {
    pub indent: String,
    pub name: String,
    pub parent: String,
    pub spacer: String,
    pub additions: Option<String>,
    pub deletions: Option<String>,
}

/// The parent text of a row before it is cut to fit: the file's
/// directories, and for a rename `"← "` and the original path after them.
pub open spec fn row_parent_text(e: EntryView) -> Seq<char> {
    let base = match path_parent(e.path) {
        Some(p) => p,
        None => Seq::empty(),
    };
    match e.original_path {
        Some(o) => if base.len() == 0 {
            "← "@ + o
        } else {
            base + "  ← "@ + o
        },
        None => base,
    }
}

/// The indent of a row: two spaces per level of depth, up to four levels,
/// and two more.
pub open spec fn row_indent_len(e: EntryView) -> nat {
    let depth = count_char(e.path, '/');
    2 * ((if depth < 4 {
        depth
    } else {
        4
    }) + 1)
}

/// `a - b`, or zero when `b` is larger.
pub open spec fn sat_sub(a: int, b: int) -> nat {
    if a > b {
        (a - b) as nat
    } else {
        0
    }
}

/// The width left for the parent text in a row `width` characters wide:
/// what the indent, the name, the line counts and the gap before them leave.
pub open spec fn row_parent_budget(e: EntryView, width: nat) -> nat {
    let stat = stats_width_of(e.additions, e.deletions);
    let gap: nat = if stat > 0 {
        1
    } else {
        0
    };
    let base = row_indent_len(e) + path_leaf(e.path).len();
    sat_sub(sat_sub(width as int, stat as int) as int, (base + gap) as int)
}

/// The parent text shown in a row.
pub open spec fn row_parent(e: EntryView, width: nat) -> Seq<char> {
    truncated(row_parent_text(e), row_parent_budget(e, width))
}

/// The spaces between the parent text and the line counts.
pub open spec fn row_spacer_len(e: EntryView, width: nat) -> nat {
    sat_sub(width as int, (row_used(e, width) + stats_width_of(e.additions, e.deletions)) as int)
}

/// The width that a row takes before its spacer: indent, name, the parent
/// text with a space before it, and the gap before the line counts.
pub open spec fn row_used(e: EntryView, width: nat) -> nat {
    let stat = stats_width_of(e.additions, e.deletions);
    let gap: nat = if stat > 0 {
        1
    } else {
        0
    };
    let parent = row_parent(e, width);
    row_indent_len(e) + path_leaf(e.path).len() + (if parent.len() == 0 {
        0
    } else {
        1 + parent.len()
    }) + gap
}

/// The row of the change list for an entry, in a list `content_width`
/// characters wide.
#[verifier::rlimit(40)]
pub fn change_entry_row(entry: &ChangeEntry, content_width: usize) -> (r: ChangeRow)
    requires
        2 * entry.path@.len() + match entry@.original_path {
            Some(o) => o.len(),
            None => 0,
        } + 64 <= usize::MAX,
    ensures
        r.indent@ == spaces(row_indent_len(entry@)),
        r.name@ == path_leaf(entry.path@),
        r.parent@ == row_parent(entry@, content_width as nat),
        r.spacer@ == spaces(row_spacer_len(entry@, content_width as nat)),
        entry.additions > 0 ==> (r.additions matches Some(a) && a@ == seq!['+'] + decimal(
            entry.additions as nat,
        )),
        entry.additions == 0 ==> r.additions is None,
        entry.deletions > 0 ==> (r.deletions matches Some(d) && d@ == seq!['-'] + decimal(
            entry.deletions as nat,
        )),
        entry.deletions == 0 ==> r.deletions is None,
{
    let depth = entry.tree_depth();
    let levels = if depth < 4 {
        depth
    } else {
        4
    };
    let mut indent: Vec<char> = Vec::new();
    push_spaces(&mut indent, 2 * (levels + 1));
    let name = entry.file_name();
    let name_chars = chars_of(name.as_str());
    proof {
        lemma_rfind(entry.path@, '/');
        assert(path_leaf(entry.path@).len() <= entry.path@.len());
    }
    let mut parent: Vec<char> = match entry.parent_path() {
        Some(p) => chars_of(p.as_str()),
        None => Vec::new(),
    };
    match &entry.original_path {
        Some(original) => {
            if parent.len() == 0 {
                let mut text: Vec<char> = Vec::new();
                extend_str(&mut text, "← ");
                extend_str(&mut text, original.as_str());
                parent = text;
            } else {
                extend_str(&mut parent, "  ← ");
                extend_str(&mut parent, original.as_str());
            }
        },
        None => {},
    }
    assert(parent@ =~= row_parent_text(entry@));
    proof {
        lemma_rfind(entry.path@, '/');
        reveal_strlit("← ");
        reveal_strlit("  ← ");
        assert(parent@.len() <= entry.path@.len() + 4 + match entry@.original_path {
            Some(o) => o.len(),
            None => 0,
        });
    }
    let stat_width = stats_width(entry);
    let left_budget = if content_width > stat_width {
        content_width - stat_width
    } else {
        0
    };
    let min_gap: usize = if stat_width > 0 {
        1
    } else {
        0
    };
    let base_width = indent.len() + name_chars.len();
    let parent_budget = if left_budget > base_width + min_gap {
        left_budget - (base_width + min_gap)
    } else {
        0
    };
    let shown_parent = truncate_chars(&parent, parent_budget);
    proof {
        lemma_truncated_fits(parent@, parent_budget as nat);
    }
    let used_width = base_width + if shown_parent.len() == 0 {
        0
    } else {
        1 + shown_parent.len()
    } + min_gap;
    let spacer_len = if content_width > used_width + stat_width {
        content_width - (used_width + stat_width)
    } else {
        0
    };
    let mut spacer: Vec<char> = Vec::new();
    push_spaces(&mut spacer, spacer_len);
    let additions = if entry.additions > 0 {
        let mut a: Vec<char> = Vec::new();
        a.push('+');
        let digits = decimal_chars(entry.additions);
        extend_chars(&mut a, &digits);
        Some(string_from_chars(&a))
    } else {
        None
    };
    let deletions = if entry.deletions > 0 {
        let mut d: Vec<char> = Vec::new();
        d.push('-');
        let digits = decimal_chars(entry.deletions);
        extend_chars(&mut d, &digits);
        Some(string_from_chars(&d))
    } else {
        None
    };
    ChangeRow {
        indent: string_from_chars(&indent),
        name,
        parent: string_from_chars(&shown_parent),
        spacer: string_from_chars(&spacer),
        additions,
        deletions,
    }
}

/// How a piece of a row is shown.
#[derive(Clone, Copy, Debug, PartialEq, Eq, Structural)]
pub enum SpanStyle {
    Plain,
    Bold,
    Dim,
    Added,
    Removed,
}

/// A piece of a row and how it is shown.
pub struct RowSpan {
    pub text: String,
    pub style: SpanStyle,
}

/// The line counts of an entry as shown: `"+a"`, a space, `"-d"`, each only
/// when its count is not zero, the space only when both are there.
pub open spec fn stats_spans(e: EntryView) -> Seq<(SpanStyle, Seq<char>)> {
    (if e.additions > 0 {
        seq![(SpanStyle::Added, seq!['+'] + decimal(e.additions))]
    } else {
        Seq::empty()
    }) + (if e.additions > 0 && e.deletions > 0 {
        seq![(SpanStyle::Plain, seq![' '])]
    } else {
        Seq::empty()
    }) + (if e.deletions > 0 {
        seq![(SpanStyle::Removed, seq!['-'] + decimal(e.deletions))]
    } else {
        Seq::empty()
    })
}

/// The pieces of a row of the change list, in order: the indent, the name
/// in bold, then, when there is a parent text, a space and that text dimmed,
/// then, when there are line counts, a space, the spacer and the counts.
pub open spec fn row_spans(e: EntryView, width: nat) -> Seq<(SpanStyle, Seq<char>)> {
    let parent = row_parent(e, width);
    seq![(SpanStyle::Plain, spaces(row_indent_len(e))), (SpanStyle::Bold, path_leaf(e.path))]
        + (if parent.len() > 0 {
        seq![(SpanStyle::Plain, seq![' ']), (SpanStyle::Dim, parent)]
    } else {
        Seq::empty()
    }) + (if stats_width_of(e.additions, e.deletions) > 0 {
        seq![
            (SpanStyle::Plain, seq![' ']),
            (SpanStyle::Plain, spaces(row_spacer_len(e, width))),
        ] + stats_spans(e)
    } else {
        Seq::empty()
    })
}

/// The text of a sequence of pieces, one after the other.
pub open spec fn spans_text(spans: Seq<(SpanStyle, Seq<char>)>) -> Seq<char>
    decreases spans.len(),
{
    if spans.len() == 0 {
        Seq::empty()
    } else {
        spans_text(spans.drop_last()) + spans.last().1
    }
}

/// The text of a row of the change list.
pub open spec fn row_text(e: EntryView, width: nat) -> Seq<char> {
    spans_text(row_spans(e, width))
}

/// The text of two runs of pieces is the text of the first, then the
/// second.
pub proof fn lemma_spans_text_concat(a: Seq<(SpanStyle, Seq<char>)>, b: Seq<(SpanStyle, Seq<char>)>)
    ensures
        spans_text(a + b) == spans_text(a) + spans_text(b),
    decreases b.len(),
{
    if b.len() == 0 {
        assert(a + b =~= a);
        assert(spans_text(a) + spans_text(b) =~= spans_text(a));
    } else {
        assert((a + b).drop_last() =~= a + b.drop_last());
        assert((a + b).last() == b.last());
        lemma_spans_text_concat(a, b.drop_last());
        assert(spans_text(a) + spans_text(b.drop_last()) + b.last().1 =~= spans_text(a) + (
        spans_text(b.drop_last()) + b.last().1));
    }
}

proof fn lemma_spans_text_one(x: (SpanStyle, Seq<char>))
    ensures
        spans_text(seq![x]) == x.1,
{
    assert(seq![x].drop_last() =~= Seq::<(SpanStyle, Seq<char>)>::empty());
    assert(spans_text(Seq::<(SpanStyle, Seq<char>)>::empty()) == Seq::<char>::empty());
    assert(seq![x].last() == x);
    assert(Seq::<char>::empty() + x.1 =~= x.1);
}

proof fn lemma_spans_text_two(x: (SpanStyle, Seq<char>), y: (SpanStyle, Seq<char>))
    ensures
        spans_text(seq![x, y]) == x.1 + y.1,
{
    lemma_spans_text_one(x);
    lemma_spans_text_one(y);
    assert(seq![x, y] =~= seq![x] + seq![y]);
    lemma_spans_text_concat(seq![x], seq![y]);
}

/// The text of the line counts of an entry.
pub open spec fn stats_text(e: EntryView) -> Seq<char> {
    spans_text(stats_spans(e))
}

proof fn lemma_stats_text_len(e: EntryView)
    ensures
        stats_text(e).len() == stats_width_of(e.additions, e.deletions),
{
    let a = if e.additions > 0 {
        seq![(SpanStyle::Added, seq!['+'] + decimal(e.additions))]
    } else {
        Seq::empty()
    };
    let sp = if e.additions > 0 && e.deletions > 0 {
        seq![(SpanStyle::Plain, seq![' '])]
    } else {
        Seq::empty()
    };
    let d = if e.deletions > 0 {
        seq![(SpanStyle::Removed, seq!['-'] + decimal(e.deletions))]
    } else {
        Seq::empty()
    };
    lemma_spans_text_concat(a + sp, d);
    lemma_spans_text_concat(a, sp);
    assert(spans_text(Seq::<(SpanStyle, Seq<char>)>::empty()) == Seq::<char>::empty());
    if e.additions > 0 {
        lemma_spans_text_one(a[0]);
        assert(a =~= seq![a[0]]);
    }
    if e.additions > 0 && e.deletions > 0 {
        lemma_spans_text_one(sp[0]);
        assert(sp =~= seq![sp[0]]);
    }
    if e.deletions > 0 {
        lemma_spans_text_one(d[0]);
        assert(d =~= seq![d[0]]);
    }
}

/// A row with line counts ends with them and is as wide as the list, or
/// wider when its name and parent leave too little room; a row without
/// counts is as wide as its indent, name and parent text.
pub proof fn lemma_row_width(e: EntryView, width: nat)
    ensures
        stats_width_of(e.additions, e.deletions) > 0 ==> ({
            let t = row_text(e, width);
            let stat = stats_width_of(e.additions, e.deletions);
            let need = row_used(e, width) + stat;
            &&& t.len() == if need < width {
                width
            } else {
                need
            }
            &&& t.skip(t.len() - stat) == stats_text(e)
            &&& t[t.len() - stat - 1] == ' '
        }),
        stats_width_of(e.additions, e.deletions) == 0 ==> row_text(e, width).len() == row_used(
            e,
            width,
        ),
{
    let parent = row_parent(e, width);
    let head = seq![(SpanStyle::Plain, spaces(row_indent_len(e))), (SpanStyle::Bold, path_leaf(e.path))];
    let mid: Seq<(SpanStyle, Seq<char>)> = if parent.len() > 0 {
        seq![(SpanStyle::Plain, seq![' ']), (SpanStyle::Dim, parent)]
    } else {
        Seq::empty()
    };
    let stat = stats_width_of(e.additions, e.deletions);
    let lead = seq![(SpanStyle::Plain, seq![' ']), (SpanStyle::Plain, spaces(row_spacer_len(e, width)))];
    let tail: Seq<(SpanStyle, Seq<char>)> = if stat > 0 {
        lead + stats_spans(e)
    } else {
        Seq::empty()
    };
    assert(row_spans(e, width) == head + mid + tail);
    lemma_spans_text_concat(head + mid, tail);
    lemma_spans_text_concat(head, mid);
    lemma_spans_text_two(head[0], head[1]);
    assert(head =~= seq![head[0], head[1]]);
    if parent.len() > 0 {
        lemma_spans_text_two(mid[0], mid[1]);
        assert(mid =~= seq![mid[0], mid[1]]);
    } else {
        assert(spans_text(mid) =~= Seq::<char>::empty());
    }
    if stat > 0 {
        lemma_spans_text_concat(lead, stats_spans(e));
        lemma_spans_text_two(lead[0], lead[1]);
        assert(lead =~= seq![lead[0], lead[1]]);
        lemma_stats_text_len(e);
        let t = row_text(e, width);
        let pre = spans_text(head + mid) + seq![' '] + spaces(row_spacer_len(e, width));
        assert(t =~= pre + stats_text(e));
        assert(t.skip(t.len() - stat) =~= stats_text(e));
        let sl = row_spacer_len(e, width);
        if sl > 0 {
            assert(t[t.len() - stat - 1] == spaces(sl)[sl - 1]);
        } else {
            assert(t[t.len() - stat - 1] == pre[pre.len() - 1]);
        }
    } else {
        assert(spans_text(tail) =~= Seq::<char>::empty());
    }
}

/// The styles and texts of pieces.
pub open spec fn spans_view(spans: Seq<RowSpan>) -> Seq<(SpanStyle, Seq<char>)> {
    spans.map_values(|s: RowSpan| (s.style, s.text@))
}

fn push_span(spans: &mut Vec<RowSpan>, text: String, style: SpanStyle)
    ensures
        spans_view(final(spans)@) == spans_view(old(spans)@).push((style, text@)),
{
    let ghost t = text@;
    spans.push(RowSpan { text, style });
    assert(spans_view(spans@) =~= spans_view(old(spans)@).push((style, t)));
}

/// The pieces of the row of the change list for an entry, in a list
/// `content_width` characters wide.
pub fn change_entry_line(entry: &ChangeEntry, content_width: usize) -> (r: Vec<RowSpan>)
    requires
        2 * entry.path@.len() + match entry@.original_path {
            Some(o) => o.len(),
            None => 0,
        } + 64 <= usize::MAX,
    ensures
        spans_view(r@) == row_spans(entry@, content_width as nat),
        stats_width_of(entry@.additions, entry@.deletions) > 0 ==> ({
            let t = spans_text(spans_view(r@));
            let stat = stats_width_of(entry@.additions, entry@.deletions);
            let need = row_used(entry@, content_width as nat) + stat;
            &&& t.len() == if need < content_width {
                content_width as nat
            } else {
                need
            }
            &&& t.skip(t.len() - stat) == stats_text(entry@)
            &&& t[t.len() - stat - 1] == ' '
        }),
        stats_width_of(entry@.additions, entry@.deletions) == 0 ==> spans_text(spans_view(r@)).len()
            == row_used(entry@, content_width as nat),
{
    let ghost e = entry@;
    proof {
        lemma_row_width(entry@, content_width as nat);
    }
    let ghost w = content_width as nat;
    let row = change_entry_row(entry, content_width);
    let mut spans: Vec<RowSpan> = Vec::new();
    let has_parent = !row.parent.as_str().is_empty();
    let has_stats = entry.additions > 0 || entry.deletions > 0;
    proof {
        reveal_strlit(" ");
        assert(" "@ =~= seq![' ']);
        lemma_usize_digits(entry.additions);
        lemma_usize_digits(entry.deletions);
    }
    let ghost parent = row_parent(e, w);
    push_span(&mut spans, row.indent, SpanStyle::Plain);
    push_span(&mut spans, row.name, SpanStyle::Bold);
    let ghost head = seq![(SpanStyle::Plain, spaces(row_indent_len(e))), (SpanStyle::Bold, path_leaf(e.path))];
    assert(spans_view(spans@) =~= head);
    let ghost mid: Seq<(SpanStyle, Seq<char>)> = if parent.len() > 0 {
        seq![(SpanStyle::Plain, seq![' ']), (SpanStyle::Dim, parent)]
    } else {
        Seq::empty()
    };
    if has_parent {
        push_span(&mut spans, " ".to_owned(), SpanStyle::Plain);
        push_span(&mut spans, row.parent, SpanStyle::Dim);
    }
    assert(spans_view(spans@) =~= head + mid);
    let ghost before_stats = spans_view(spans@);
    if has_stats {
        push_span(&mut spans, " ".to_owned(), SpanStyle::Plain);
        push_span(&mut spans, row.spacer, SpanStyle::Plain);
        let ghost lead = spans_view(spans@);
        match row.additions {
            Some(a) => push_span(&mut spans, a, SpanStyle::Added),
            None => {},
        }
        if entry.additions > 0 && entry.deletions > 0 {
            push_span(&mut spans, " ".to_owned(), SpanStyle::Plain);
        }
        match row.deletions {
            Some(d) => push_span(&mut spans, d, SpanStyle::Removed),
            None => {},
        }
        assert(spans_view(spans@) =~= lead + stats_spans(e));
        assert(lead =~= before_stats + seq![
            (SpanStyle::Plain, seq![' ']),
            (SpanStyle::Plain, spaces(row_spacer_len(e, w))),
        ]);
    }
    assert(spans_view(spans@) =~= row_spans(e, w));
    spans
}


/// How many entries of `es` are in `section`.
pub open spec fn section_size(es: Seq<EntryView>, section: ChangeSection) -> nat {
    es.filter(|e: EntryView| e.section == section).len()
}

/// A label and its value as the header shows them: `" label: value "`.
pub open spec fn badge_text(label: Seq<char>, value: Seq<char>) -> Seq<char> {
    seq![' '] + label + ": "@ + value + seq![' ']
}

/// The summary counts of the header.
pub open spec fn counts_text(staged: nat, unstaged: nat, untracked: nat) -> Seq<char> {
    "  staged "@ + decimal(staged) + "  unstaged "@ + decimal(unstaged) + "  untracked "@ + decimal(
        untracked,
    )
}

/// The name of the pane that has the keyboard, as the header shows it.
pub open spec fn focus_label(focus: FocusArea) -> Seq<char> {
    match focus {
        FocusArea::FileList => "files"@,
        FocusArea::CommitInput => "commit"@,
    }
}

/// The texts of the header: the repository's name with a space after it and
/// its root on the first line; the branch and the summary counts on the
/// second; the pane that has the keyboard on the third.
pub struct HeaderText {
    pub name: String,
    pub root: String,
    pub branch: String,
    pub counts: String,
    pub focus: String,
}

/// The texts of the header for a screen.
pub fn header_text(app: &AppState) -> (r: HeaderText)
    ensures
        r.name@ == app.repo_name@ + seq![' '],
        r.root@ == app.repo_root@,
        r.branch@ == badge_text("branch"@, app.branch@),
        r.counts@ == counts_text(
            section_size(app.entries(), ChangeSection::Staged),
            section_size(app.entries(), ChangeSection::Unstaged),
            section_size(app.entries(), ChangeSection::Untracked),
        ),
        r.focus@ == badge_text("focus"@, focus_label(app.focus)),
{
    let mut name = chars_of(app.repo_name.as_str());
    name.push(' ');
    let root = chars_of(app.repo_root.as_str());

    let mut branch: Vec<char> = Vec::new();
    branch.push(' ');
    extend_str(&mut branch, "branch");
    extend_str(&mut branch, ": ");
    extend_str(&mut branch, app.branch.as_str());
    branch.push(' ');

    let staged = decimal_chars(app.section_count(ChangeSection::Staged));
    let unstaged = decimal_chars(app.section_count(ChangeSection::Unstaged));
    let untracked = decimal_chars(app.section_count(ChangeSection::Untracked));
    let mut counts: Vec<char> = Vec::new();
    extend_str(&mut counts, "  staged ");
    extend_chars(&mut counts, &staged);
    extend_str(&mut counts, "  unstaged ");
    extend_chars(&mut counts, &unstaged);
    extend_str(&mut counts, "  untracked ");
    extend_chars(&mut counts, &untracked);

    let label = match app.focus {
        FocusArea::FileList => "files",
        FocusArea::CommitInput => "commit",
    };
    let mut focus: Vec<char> = Vec::new();
    focus.push(' ');
    extend_str(&mut focus, "focus");
    extend_str(&mut focus, ": ");
    extend_str(&mut focus, label);
    focus.push(' ');

    HeaderText {
        name: string_from_chars(&name),
        root: string_from_chars(&root),
        branch: string_from_chars(&branch),
        counts: string_from_chars(&counts),
        focus: string_from_chars(&focus),
    }
}

/// The key hints of the status bar for the pane that has the keyboard.
pub open spec fn help_text(focus: FocusArea) -> Seq<char> {
    match focus {
        FocusArea::FileList => "j/k move  s stage  u unstage  c commit  o open  r refresh  tab next"@,
        FocusArea::CommitInput => "type message  Enter commit  tab files  Esc files"@,
    }
}

/// The key hints of the status bar.
pub fn help_line(focus: FocusArea) -> (r: &'static str)
    ensures
        r@ == help_text(focus),
{
    match focus {
        FocusArea::FileList => "j/k move  s stage  u unstage  c commit  o open  r refresh  tab next",
        FocusArea::CommitInput => "type message  Enter commit  tab files  Esc files",
    }
}

// ---------------------------------------------------------------------------
// The change list
// ---------------------------------------------------------------------------

/// The heading of a section in the change list: its title and, in brackets,
/// how many entries it holds.
pub open spec fn heading_text(section: ChangeSection, count: nat) -> Seq<char> {
    section_title(section) + seq![' ', '('] + decimal(count) + seq![')']
}

/// The heading of a section holding `count` entries.
pub fn section_heading(section: ChangeSection, count: usize) -> (r: String)
    ensures
        r@ == heading_text(section, count as nat),
{
    let mut v: Vec<char> = Vec::new();
    extend_str(&mut v, section.title());
    v.push(' ');
    v.push('(');
    let digits = decimal_chars(count);
    extend_chars(&mut v, &digits);
    v.push(')');
    string_from_chars(&v)
}

/// A row of the change list.
pub enum ListRow {
    /// A section's heading and its text.
    Heading(ChangeSection, String),
    /// An entry of the section above.
    Entry(ChangeEntry),
    /// The row that stands for the entries of a section that has none.
    Empty,
}

/// The mathematical value of a [`ListRow`].
pub enum ListRowView {
    Heading(ChangeSection, Seq<char>),
    Entry(EntryView),
    Empty,
}

/// The value of a row.
pub open spec fn row_view(row: ListRow) -> ListRowView {
    match row {
        ListRow::Heading(section, text) => ListRowView::Heading(section, text@),
        ListRow::Entry(e) => ListRowView::Entry(e@),
        ListRow::Empty => ListRowView::Empty,
    }
}

/// The values of rows.
pub open spec fn rows_view(rows: Seq<ListRow>) -> Seq<ListRowView> {
    rows.map_values(|row: ListRow| row_view(row))
}

/// The rows of one section: its heading, then its entries in list order, or
/// one empty row when it has none.
pub open spec fn section_rows(es: Seq<EntryView>, section: ChangeSection) -> Seq<ListRowView> {
    let ins = es.filter(|e: EntryView| e.section == section);
    seq![ListRowView::Heading(section, heading_text(section, ins.len()))] + ins.map_values(
        |e: EntryView| ListRowView::Entry(e),
    ) + if ins.len() == 0 {
        seq![ListRowView::Empty]
    } else {
        Seq::empty()
    }
}

/// The rows of the change list: the staged, unstaged and untracked sections,
/// in that order.
pub open spec fn list_rows(es: Seq<EntryView>) -> Seq<ListRowView> {
    section_rows(es, ChangeSection::Staged) + section_rows(es, ChangeSection::Unstaged)
        + section_rows(es, ChangeSection::Untracked)
}

/// The last row that shows an entry with the id `id`.
pub open spec fn last_row_with_id(rows: Seq<ListRowView>, id: Seq<char>) -> Option<int>
    decreases rows.len(),
{
    if rows.len() == 0 {
        None
    } else if rows.last() matches ListRowView::Entry(e) && entry_id(e) == id {
        Some(rows.len() - 1)
    } else {
        last_row_with_id(rows.drop_last(), id)
    }
}

/// The highlighted row of the change list: the last row that shows an
/// entry with the selected id; none when nothing is selected.
pub open spec fn highlighted_row(rows: Seq<ListRowView>, selected: Option<Seq<char>>) -> Option<int> {
    match selected {
        Some(id) => last_row_with_id(rows, id),
        None => None,
    }
}

/// The change list as drawn: its rows and the row that is highlighted.
pub struct ChangeList {
    pub rows: Vec<ListRow>,
    pub highlighted: Option<usize>,
}

fn push_row(rows: &mut Vec<ListRow>, row: ListRow, highlighted: &mut Option<usize>, id: &Option<String>)
    requires
        old(rows)@.len() < usize::MAX,
        highlight_matches(*old(highlighted), rows_view(old(rows)@), opt_view(*id)),
    ensures
        rows_view(final(rows)@) == rows_view(old(rows)@).push(row_view(row)),
        highlight_matches(*final(highlighted), rows_view(final(rows)@), opt_view(*id)),
{
    let ghost before = rows_view(rows@);
    let ghost rv = row_view(row);
    let n = rows.len();
    let hit = match (&row, id) {
        (ListRow::Entry(e), Some(id)) => e.id() == *id,
        _ => false,
    };
    rows.push(row);
    let ghost after = rows_view(rows@);
    assert(after =~= before.push(rv));
    assert(after.drop_last() =~= before);
    if hit {
        *highlighted = Some(n);
    }
}

/// Whether a highlighted row is the one [`highlighted_row`] names.
pub open spec fn highlight_matches(h: Option<usize>, rows: Seq<ListRowView>, selected: Option<Seq<char>>) -> bool {
    match h {
        Some(h) => highlighted_row(rows, selected) == Some(h as int),
        None => highlighted_row(rows, selected) is None,
    }
}

fn push_section_rows(
    rows: &mut Vec<ListRow>,
    highlighted: &mut Option<usize>,
    app: &AppState,
    section: ChangeSection,
)
    requires
        old(rows)@.len() + app.entries().filter(|e: EntryView| e.section == section).len() + 2
            < usize::MAX,
        highlight_matches(*old(highlighted), rows_view(old(rows)@), app.selected()),
    ensures
        rows_view(final(rows)@) == rows_view(old(rows)@) + section_rows(app.entries(), section),
        final(rows)@.len() == old(rows)@.len() + section_rows(app.entries(), section).len(),
        highlight_matches(*final(highlighted), rows_view(final(rows)@), app.selected()),
{
    let ghost es = app.entries();
    let entries = app.entries_in_section(section);
    let ghost ins = es.filter(|e: EntryView| e.section == section);
    assert(entries_view(entries@) == ins);
    assert(entries@.len() == ins.len());
    let ghost start = rows_view(rows@);
    let ghost start_len = rows@.len();
    assert(app.selected() == opt_view(app.selected_entry_id));
    push_row(rows, ListRow::Heading(section, section_heading(section, entries.len())), highlighted, &app.selected_entry_id);
    let m = entries.len();
    for j in 0..m
        invariant
            m == entries@.len() == ins.len(),
            entries_view(entries@) == ins,
            rows_view(rows@) == start + seq![ListRowView::Heading(section, heading_text(section, m as nat))]
                + ins.take(j as int).map_values(|e: EntryView| ListRowView::Entry(e)),
            rows@.len() == start_len + 1 + j,
            start_len + m + 2 < usize::MAX,
            highlight_matches(*highlighted, rows_view(rows@), opt_view(app.selected_entry_id)),
    {
        assert(entries_view(entries@)[j as int] == entries@[j as int]@);
        push_row(rows, ListRow::Entry(entries[j].duplicate()), highlighted, &app.selected_entry_id);
        assert(ins.take(j + 1).map_values(|e: EntryView| ListRowView::Entry(e)) =~= ins.take(
            j as int,
        ).map_values(|e: EntryView| ListRowView::Entry(e)).push(ListRowView::Entry(ins[j as int])));
    }
    assert(ins.take(m as int) =~= ins);
    if m == 0 {
        push_row(rows, ListRow::Empty, highlighted, &app.selected_entry_id);
    }
    assert(rows_view(rows@) =~= start + section_rows(es, section));
}

/// The rows of the change list for the screen's entries, and the row that
/// is highlighted.
pub fn change_list(app: &AppState) -> (r: ChangeList)
    requires
        app.changes@.len() + 6 < usize::MAX,
    ensures
        rows_view(r.rows@) == list_rows(app.entries()),
        highlight_matches(r.highlighted, list_rows(app.entries()), app.selected()),
{
    let mut rows: Vec<ListRow> = Vec::new();
    let mut highlighted: Option<usize> = None;
    let ghost es = app.entries();
    proof {
        crate::app::lemma_section_counts_sum(es);
    }
    assert(rows_view(rows@) =~= Seq::<ListRowView>::empty());
    assert(highlighted_row(Seq::<ListRowView>::empty(), app.selected()) is None);
    push_section_rows(&mut rows, &mut highlighted, app, ChangeSection::Staged);
    push_section_rows(&mut rows, &mut highlighted, app, ChangeSection::Unstaged);
    push_section_rows(&mut rows, &mut highlighted, app, ChangeSection::Untracked);
    assert(rows_view(rows@) =~= list_rows(es));
    ChangeList { rows, highlighted }
}


proof fn lemma_last_row_with_id(rows: Seq<ListRowView>, id: Seq<char>, i: int)
    requires
        0 <= i < rows.len(),
        rows[i] matches ListRowView::Entry(e) && entry_id(e) == id,
    ensures
        last_row_with_id(rows, id) matches Some(h) && 0 <= h < rows.len() && (rows[h] matches ListRowView::Entry(
            e,
        ) && entry_id(e) == id),
    decreases rows.len(),
{
    if !(rows.last() matches ListRowView::Entry(e) && entry_id(e) == id) {
        assert(i < rows.len() - 1);
        let init = rows.drop_last();
        assert(init[i] == rows[i]);
        lemma_last_row_with_id(init, id, i);
        let h = last_row_with_id(init, id)->0;
        assert(init[h] == rows[h]);
    }
}

proof fn lemma_entry_row_in_section(es: Seq<EntryView>, k: int)
    requires
        0 <= k < es.len(),
    ensures
        exists|j: int|
            0 <= j < section_rows(es, es[k].section).len() && #[trigger] section_rows(
                es,
                es[k].section,
            )[j] == ListRowView::Entry(es[k]),
{
    let section = es[k].section;
    let pred = |e: EntryView| e.section == section;
    es.lemma_filter_contains(pred, k);
    let ins = es.filter(pred);
    let j = choose|j: int| 0 <= j < ins.len() && ins[j] == es[k];
    let rows = section_rows(es, section);
    let mapped = ins.map_values(|e: EntryView| ListRowView::Entry(e));
    assert(rows[1 + j] == mapped[j]);
    assert(rows[1 + j] == ListRowView::Entry(es[k]));
}

/// The selected entry is always in view: with a valid selection, a list
/// with entries has its highlighted row on an entry with the selected id,
/// and an empty list has no highlighted row.
pub proof fn lemma_selected_entry_is_highlighted(app: AppState)
    requires
        app.selection_valid(),
    ensures
        app.changes@.len() == 0 ==> highlighted_row(list_rows(app.entries()), app.selected()) is None,
        app.changes@.len() > 0 ==> ({
            let rows = list_rows(app.entries());
            highlighted_row(rows, app.selected()) matches Some(h) && 0 <= h < rows.len() && (
            rows[h] matches ListRowView::Entry(e) && Some(entry_id(e)) == app.selected())
        }),
{
    let es = app.entries();
    assert(es.len() == app.changes@.len());
    if app.changes@.len() > 0 {
        let id = app.selected()->0;
        let k = choose|k: int| 0 <= k < es.len() && entry_id(#[trigger] es[k]) == id;
        lemma_entry_row_in_section(es, k);
        let section = es[k].section;
        let sr = section_rows(es, section);
        let j = choose|j: int| 0 <= j < sr.len() && #[trigger] sr[j] == ListRowView::Entry(es[k]);
        let a = section_rows(es, ChangeSection::Staged);
        let b = section_rows(es, ChangeSection::Unstaged);
        let c = section_rows(es, ChangeSection::Untracked);
        let rows = list_rows(es);
        assert(rows == a + b + c);
        let i = match section {
            ChangeSection::Staged => j,
            ChangeSection::Unstaged => a.len() + j,
            ChangeSection::Untracked => a.len() + b.len() + j,
        };
        assert(rows[i] == ListRowView::Entry(es[k]));
        lemma_last_row_with_id(rows, id, i);
    }
}


/// Every line that starts with `'+'` but not with the file header `"+++ "`
/// is an added line, whatever follows the `'+'` (nothing included); every
/// line that starts with `'-'` but not with `"--- "` is a removed line.
pub proof fn lemma_marked_lines_are_added_or_removed(line: Seq<char>)
    requires
        line.len() >= 1,
        line[0] == '+' || line[0] == '-',
        !(line.len() >= 4 && line[1] == line[0] && line[2] == line[0] && line[3] == ' '),
    ensures
        line[0] == '+' ==> diff_line_kind(line) == DiffLineKind::Added,
        line[0] == '-' ==> diff_line_kind(line) == DiffLineKind::Removed,
{
    reveal_strlit("diff --git ");
    reveal_strlit("index ");
    reveal_strlit("new file mode ");
    reveal_strlit("deleted file mode ");
    reveal_strlit("similarity index ");
    reveal_strlit("rename from ");
    reveal_strlit("rename to ");
    reveal_strlit("--- ");
    reveal_strlit("+++ ");
    reveal_strlit("@@");
    assert forall|p: Seq<char>| p.len() >= 1 && p[0] != line[0] implies !has_prefix(line, p) by {
        if has_prefix(line, p) {
            assert(line.take(p.len() as int)[0] == line[0]);
        }
    }
    assert forall|p: Seq<char>| p.len() == 4 && p[0] == line[0] && p[1] == line[0] && p[2]
        == line[0] && p[3] == ' ' implies !has_prefix(line, p) by {
        if has_prefix(line, p) {
            assert(line.take(4)[1] == line[1]);
            assert(line.take(4)[2] == line[2]);
            assert(line.take(4)[3] == line[3]);
        }
    }
    assert("--- "@[0] == '-' && "+++ "@[0] == '+');
    assert("diff --git "@[0] == 'd');
    assert("index "@[0] == 'i');
    assert("new file mode "@[0] == 'n');
    assert("deleted file mode "@[0] == 'd');
    assert("similarity index "@[0] == 's');
    assert("rename from "@[0] == 'r');
    assert("rename to "@[0] == 'r');
    assert("@@"@[0] == '@');
}

/// The parent text of a renamed entry's row ends with `"← "` and the
/// original path, whether or not the new path has a directory; that of an
/// entry that was not renamed is its directory, or nothing.
pub proof fn lemma_renamed_rows_show_their_origin(e: EntryView)
    ensures
        e.original_path matches Some(o) ==> {
            let t = row_parent_text(e);
            &&& t.len() >= o.len() + 2
            &&& t.skip(t.len() - o.len() - 2) == "← "@ + o
        },
        e.original_path is None ==> row_parent_text(e) == match path_parent(e.path) {
            Some(p) => p,
            None => Seq::empty(),
        },
{
    reveal_strlit("← ");
    reveal_strlit("  ← ");
    match e.original_path {
        Some(o) => {
            let t = row_parent_text(e);
            let base = match path_parent(e.path) {
                Some(p) => p,
                None => Seq::<char>::empty(),
            };
            if base.len() == 0 {
                assert(t.skip(t.len() - o.len() - 2) =~= "← "@ + o);
            } else {
                assert("  ← "@ =~= seq![' ', ' '] + "← "@);
                assert(t =~= (base + seq![' ', ' ']) + ("← "@ + o));
                assert(t.skip(t.len() - o.len() - 2) =~= "← "@ + o);
            }
        },
        None => {},
    }
}

} // verus!
