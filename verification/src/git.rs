//! What the library reads from and asks of `git`: the porcelain status and
//! numstat parsers, the order of the change list, the diff pane built from a
//! diff's text, and the command lines and exit-code checks of the adapter.
use vstd::prelude::*;

use crate::diff::{hunks_of, parse_diff_hunks};
use crate::model::{
    entries_view, entry_display_path, section_rank, section_title, ChangeEntry, ChangeSection,
    DiffContent, EntryView, StatusSnapshot,
};
use crate::text::{
    chars_equal, chars_of, extend_chars, file_name_of, find_char, find_from, has_prefix,
    i32_decimal_chars, lemma_find_from, lemma_lex_lt_total, lemma_lex_lt_transitive, lex_less,
    lex_lt, lines_of, parse_usize, parse_usize_spec, path_file_name, signed_decimal, slice_chars,
    split_lines, starts_with, starts_with_str, string_from_chars, trim, trim_chars,
};

verus! {

broadcast use vstd::seq_lib::group_filter_ensures;

// ---------------------------------------------------------------------------
// The order of the change list
// ---------------------------------------------------------------------------

/// `a` comes before `b` in the change list: by section, then by path.
pub open spec fn entry_lt(a: EntryView, b: EntryView) -> bool {
    section_rank(a.section) < section_rank(b.section) || (a.section == b.section && lex_lt(
        a.path,
        b.path,
    ))
}

/// No entry of `s` comes before one that precedes it.
pub open spec fn sorted_entries(s: Seq<EntryView>) -> bool {
    forall|i: int, j: int| 0 <= i < j < s.len() ==> !entry_lt(#[trigger] s[j], #[trigger] s[i])
}

/// The entries of `s` with the given section and path, in their order in `s`.
pub open spec fn with_key(s: Seq<EntryView>, section: ChangeSection, path: Seq<char>) -> Seq<
    EntryView,
> {
    s.filter(|e: EntryView| e.section == section && e.path == path)
}

/// `r` is `s` sorted by section and path, entries with the same section and
/// path keeping their order: `r` is sorted, and for each section and path it
/// holds the same entries with them, in the same order, as `s`.
pub open spec fn stable_sort_of(r: Seq<EntryView>, s: Seq<EntryView>) -> bool {
    &&& sorted_entries(r)
    &&& forall|section: ChangeSection, path: Seq<char>| #[trigger]
        with_key(r, section, path) == with_key(s, section, path)
}

proof fn lemma_entry_lt_order(a: EntryView, b: EntryView, c: EntryView)
    ensures
        !entry_lt(a, a),
        entry_lt(a, b) ==> !entry_lt(b, a),
        !(a.section == b.section && a.path == b.path) ==> entry_lt(a, b) || entry_lt(b, a),
        entry_lt(a, b) && entry_lt(b, c) ==> entry_lt(a, c),
        entry_lt(a, b) && !entry_lt(c, b) ==> entry_lt(a, c),
{
    lemma_lex_lt_total(a.path, a.path);
    lemma_lex_lt_total(a.path, b.path);
    lemma_lex_lt_total(b.path, c.path);
    lemma_lex_lt_total(a.path, c.path);
    if entry_lt(a, b) && entry_lt(b, c) && a.section == b.section && b.section == c.section {
        lemma_lex_lt_transitive(a.path, b.path, c.path);
    }
    if entry_lt(a, b) && !entry_lt(c, b) {
        if !(b.section == c.section && b.path == c.path) {
            if a.section == b.section && b.section == c.section {
                lemma_lex_lt_transitive(a.path, b.path, c.path);
            }
        }
    }
}

proof fn lemma_insert_sorted(r: Seq<EntryView>, p: int, x: EntryView)
    requires
        sorted_entries(r),
        0 <= p <= r.len(),
        forall|k: int| 0 <= k < p ==> !entry_lt(x, #[trigger] r[k]),
        forall|k: int| p <= k < r.len() ==> entry_lt(x, #[trigger] r[k]),
    ensures
        sorted_entries(r.insert(p, x)),
        forall|section: ChangeSection, path: Seq<char>| #[trigger]
            with_key(r.insert(p, x), section, path) == if x.section == section && x.path
                == path {
                with_key(r, section, path).push(x)
            } else {
                with_key(r, section, path)
            },
{
    let q = r.insert(p, x);
    assert forall|i: int, j: int| 0 <= i < j < q.len() implies !entry_lt(
        #[trigger] q[j],
        #[trigger] q[i],
    ) by {
        if i < p && j == p {
            assert(q[i] == r[i]);
        } else if i < p && j > p {
            assert(q[i] == r[i]);
            assert(q[j] == r[j - 1]);
            lemma_entry_lt_order(x, r[j - 1], r[i]);
            lemma_entry_lt_order(r[j - 1], r[i], x);
            if entry_lt(r[j - 1], r[i]) {
                lemma_entry_lt_order(x, r[j - 1], r[i]);
            }
        } else if i == p {
            assert(q[j] == r[j - 1]);
            lemma_entry_lt_order(x, r[j - 1], x);
        } else if i < p {
            assert(q[i] == r[i] && q[j] == r[j]);
        } else {
            assert(q[i] == r[i - 1] && q[j] == r[j - 1]);
        }
    }
    assert(q =~= r.take(p) + seq![x] + r.skip(p));
    assert(r =~= r.take(p) + r.skip(p));
    assert forall|section: ChangeSection, path: Seq<char>| #[trigger]
        with_key(q, section, path) == if x.section == section && x.path == path {
            with_key(r, section, path).push(x)
        } else {
            with_key(r, section, path)
        } by {
        let pred = |e: EntryView| e.section == section && e.path == path;
        Seq::filter_distributes_over_add(r.take(p) + seq![x], r.skip(p), pred);
        Seq::filter_distributes_over_add(r.take(p), seq![x], pred);
        Seq::filter_distributes_over_add(r.take(p), r.skip(p), pred);
        reveal_with_fuel(Seq::filter, 2);
        if x.section == section && x.path == path {
            assert forall|k: int| 0 <= k < r.skip(p).len() implies !pred(
                #[trigger] r.skip(p)[k],
            ) by {
                assert(r.skip(p)[k] == r[p + k]);
                lemma_entry_lt_order(x, r[p + k], x);
            }
            r.skip(p).lemma_all_neg_filter_empty(pred);
            assert(seq![x].filter(pred) =~= seq![x]);
        } else {
            assert(seq![x].filter(pred) =~= Seq::<EntryView>::empty());
        }
    }
}

/// `a` comes before `b` in the change list.
pub fn entry_less(a: &ChangeEntry, b: &ChangeEntry) -> (r: bool)
    ensures
        r == entry_lt(a@, b@),
{
    let ra = a.section.rank();
    let rb = b.section.rank();
    if ra != rb {
        return ra < rb;
    }
    assert(a.section == b.section);
    let pa = chars_of(a.path.as_str());
    let pb = chars_of(b.path.as_str());
    lex_less(&pa, &pb)
}

/// The entries sorted by section and then path, entries with equal section
/// and path in the order they came in.
pub fn sort_entries(v: &Vec<ChangeEntry>) -> (r: Vec<ChangeEntry>)
    ensures
        stable_sort_of(entries_view(r@), entries_view(v@)),
{
    let mut r: Vec<ChangeEntry> = Vec::new();
    let n = v.len();
    assert(entries_view(r@) =~= entries_view(v@.take(0)));
    for i in 0..n
        invariant
            n == v@.len(),
            stable_sort_of(entries_view(r@), entries_view(v@.take(i as int))),
    {
        let x = v[i].duplicate();
        let mut p = r.len();
        while p > 0 && entry_less(&x, &r[p - 1])
            invariant
                p <= r@.len(),
                forall|k: int| p <= k < r@.len() ==> entry_lt(x@, #[trigger] r@[k]@),
            decreases p,
        {
            p = p - 1;
        }
        let ghost rv = entries_view(r@);
        proof {
            assert forall|k: int| 0 <= k < p implies !entry_lt(x@, #[trigger] rv[k]) by {
                assert(rv[k] == r@[k]@);
                assert(rv[p - 1] == r@[p - 1]@);
                if k < p - 1 {
                    assert(!entry_lt(rv[p - 1], rv[k]));
                }
                lemma_entry_lt_order(x@, rv[k], rv[p - 1]);
            }
            assert forall|k: int| p <= k < rv.len() implies entry_lt(x@, #[trigger] rv[k]) by {
                assert(rv[k] == r@[k]@);
            }
            lemma_insert_sorted(rv, p as int, x@);
        }
        r.insert(p, x);
        proof {
            let sv = entries_view(v@.take(i as int));
            let sv2 = entries_view(v@.take(i + 1));
            assert(entries_view(r@) =~= rv.insert(p as int, x@));
            assert(sv2 =~= sv.push(x@));
            assert forall|section: ChangeSection, path: Seq<char>| #[trigger]
                with_key(entries_view(r@), section, path) == with_key(sv2, section, path) by {
                let pred = |e: EntryView| e.section == section && e.path == path;
                sv.lemma_filter_push(x@, pred);
                assert(with_key(rv, section, path) == with_key(sv, section, path));
            }
        }
    }
    assert(v@.take(n as int) =~= v@);
    r
}

// ---------------------------------------------------------------------------
// `git status --porcelain=v2 --branch`
// ---------------------------------------------------------------------------

/// Where the text after the first `n` occurrences of `c` at or after `from`
/// starts, when there are that many.
pub open spec fn field_after(s: Seq<char>, c: char, n: nat, from: int) -> Option<int>
    decreases n,
{
    if n == 0 {
        Some(from)
    } else {
        let p = find_from(s, c, from);
        if p >= s.len() {
            None
        } else {
            field_after(s, c, (n - 1) as nat, p + 1)
        }
    }
}

/// The start of the text after the first `n` occurrences of `c` in `v` at or
/// after `from`.
fn field_after_exec(v: &Vec<char>, c: char, n: usize, from: usize) -> (r: Option<usize>)
    requires
        from <= v@.len(),
    ensures
        match r {
            Some(q) => field_after(v@, c, n as nat, from as int) == Some(q as int) && q <= v@.len(),
            None => field_after(v@, c, n as nat, from as int) is None,
        },
{
    let mut cur = from;
    let mut k: usize = 0;
    while k < n
        invariant
            k <= n,
            cur <= v@.len(),
            field_after(v@, c, n as nat, from as int) == field_after(
                v@,
                c,
                (n - k) as nat,
                cur as int,
            ),
        decreases n - k,
    {
        let p = find_char(v, c, cur);
        proof {
            lemma_find_from(v@, c, cur as int);
        }
        if p >= v.len() {
            return None;
        }
        cur = p + 1;
        k = k + 1;
    }
    Some(cur)
}

/// The fields of an ordinary change record (the text after `"1 "`): its
/// `XY` status and its path, after seven space-separated fields.
pub open spec fn ordinary_record(rest: Seq<char>) -> Option<(Seq<char>, Seq<char>)> {
    match field_after(rest, ' ', 7, 0) {
        Some(q) => Some((rest.take(find_from(rest, ' ', 0)), rest.skip(q))),
        None => None,
    }
}

/// The fields of a rename or copy record (the text after `"2 "`): its `XY`
/// status, its path, and its original path after a tab, after eight
/// space-separated fields.
pub open spec fn rename_record(rest: Seq<char>) -> Option<(Seq<char>, Seq<char>, Seq<char>)> {
    match field_after(rest, ' ', 8, 0) {
        Some(q) => {
            let t = find_from(rest, '\t', q);
            if t < rest.len() {
                Some((rest.take(find_from(rest, ' ', 0)), rest.subrange(q, t), rest.skip(t + 1)))
            } else {
                None
            }
        },
        None => None,
    }
}

/// The entries of one tracked path with status `xy`: a staged one when its
/// first character (`'.'` when missing) is not `'.'`, then an unstaged one
/// when its second is not.
pub open spec fn xy_entries(xy: Seq<char>, path: Seq<char>, original: Option<Seq<char>>) -> Seq<
    EntryView,
> {
    let staged = if xy.len() > 0 {
        xy[0]
    } else {
        '.'
    };
    let unstaged = if xy.len() > 1 {
        xy[1]
    } else {
        '.'
    };
    (if staged != '.' {
        seq![
            EntryView {
                section: ChangeSection::Staged,
                path: path,
                original_path: original,
                staged_status: Some(staged),
                unstaged_status: None,
                additions: 0,
                deletions: 0,
            },
        ]
    } else {
        Seq::empty()
    }) + (if unstaged != '.' {
        seq![
            EntryView {
                section: ChangeSection::Unstaged,
                path: path,
                original_path: original,
                staged_status: None,
                unstaged_status: Some(unstaged),
                additions: 0,
                deletions: 0,
            },
        ]
    } else {
        Seq::empty()
    })
}

/// The untracked entry for `path`.
pub open spec fn untracked_entry(path: Seq<char>) -> EntryView {
    EntryView {
        section: ChangeSection::Untracked,
        path: path,
        original_path: None,
        staged_status: None,
        unstaged_status: None,
        additions: 0,
        deletions: 0,
    }
}

/// The entries that one line of porcelain v2 output adds to the change list.
pub open spec fn line_entries(line: Seq<char>) -> Seq<EntryView> {
    if has_prefix(line, "# branch.head "@) {
        Seq::empty()
    } else if has_prefix(line, "? "@) {
        seq![untracked_entry(line.skip(2))]
    } else if has_prefix(line, "1 "@) {
        match ordinary_record(line.skip(2)) {
            Some((xy, path)) => xy_entries(xy, path, None),
            None => Seq::empty(),
        }
    } else if has_prefix(line, "2 "@) {
        match rename_record(line.skip(2)) {
            Some((xy, path, original)) => xy_entries(xy, path, Some(original)),
            None => Seq::empty(),
        }
    } else {
        Seq::empty()
    }
}

/// The entries of all lines, in the order of the lines, before sorting.
pub open spec fn status_entries(lines: Seq<Seq<char>>) -> Seq<EntryView>
    decreases lines.len(),
{
    if lines.len() == 0 {
        Seq::empty()
    } else {
        status_entries(lines.drop_last()) + line_entries(lines.last())
    }
}

/// The text without as many leading copies of `p` as it starts with.
pub open spec fn strip_repeated(s: Seq<char>, p: Seq<char>) -> Seq<char>
    decreases s.len(),
{
    if p.len() > 0 && has_prefix(s, p) {
        strip_repeated(s.skip(p.len() as int), p)
    } else {
        s
    }
}

/// The branch that a `"# branch.head "` line names; a detached head is
/// called `"detached"`.
pub open spec fn branch_of_line(line: Seq<char>) -> Seq<char> {
    let value = trim(strip_repeated(line, "# branch.head "@));
    if value == "(detached)"@ {
        "detached"@
    } else {
        value
    }
}

/// The branch that the last `"# branch.head "` line names, or `"detached"`
/// when there is none.
pub open spec fn branch_of(lines: Seq<Seq<char>>) -> Seq<char>
    decreases lines.len(),
{
    if lines.len() == 0 {
        "detached"@
    } else if has_prefix(lines.last(), "# branch.head "@) {
        branch_of_line(lines.last())
    } else {
        branch_of(lines.drop_last())
    }
}

/// A new change entry.
fn new_entry(
    section: ChangeSection,
    path: &Vec<char>,
    original: &Option<Vec<char>>,
    staged_status: Option<char>,
    unstaged_status: Option<char>,
) -> (r: ChangeEntry)
    ensures
        r@ == (EntryView {
            section: section,
            path: path@,
            original_path: match original {
                Some(o) => Some(o@),
                None => None,
            },
            staged_status: staged_status,
            unstaged_status: unstaged_status,
            additions: 0,
            deletions: 0,
        }),
{
    let original_path = match original {
        Some(o) => Some(string_from_chars(o)),
        None => None,
    };
    ChangeEntry {
        section: section,
        path: string_from_chars(path),
        original_path: original_path,
        staged_status: staged_status,
        unstaged_status: unstaged_status,
        additions: 0,
        deletions: 0,
    }
}

/// The entries of one tracked path whose two-letter status is `xy`.
pub fn status_entries_from_xy(xy: &Vec<char>, path: &Vec<char>, original: &Option<Vec<char>>) -> (r:
    Vec<ChangeEntry>)
    ensures
        entries_view(r@) == xy_entries(
            xy@,
            path@,
            match original {
                Some(o) => Some(o@),
                None => None,
            },
        ),
{
    let mut entries: Vec<ChangeEntry> = Vec::new();
    let staged = if xy.len() > 0 {
        xy[0]
    } else {
        '.'
    };
    let unstaged = if xy.len() > 1 {
        xy[1]
    } else {
        '.'
    };
    if staged != '.' {
        entries.push(new_entry(ChangeSection::Staged, path, original, Some(staged), None));
    }
    if unstaged != '.' {
        entries.push(new_entry(ChangeSection::Unstaged, path, original, None, Some(unstaged)));
    }
    assert(entries_view(entries@) =~= xy_entries(
        xy@,
        path@,
        match original {
            Some(o) => Some(o@),
            None => None,
        },
    ));
    entries
}

/// The status and path of an ordinary change record.
pub fn parse_ordinary_record(rest: &Vec<char>) -> (r: Option<(Vec<char>, Vec<char>)>)
    ensures
        match r {
            Some((xy, path)) => ordinary_record(rest@) == Some((xy@, path@)),
            None => ordinary_record(rest@) is None,
        },
{
    match field_after_exec(rest, ' ', 7, 0) {
        Some(q) => {
            let e = find_char(rest, ' ', 0);
            proof {
                lemma_find_from(rest@, ' ', 0);
            }
            let xy = slice_chars(rest, 0, e);
            let path = slice_chars(rest, q, rest.len());
            assert(xy@ =~= rest@.take(e as int));
            assert(path@ =~= rest@.skip(q as int));
            Some((xy, path))
        },
        None => None,
    }
}

/// The status, path and original path of a rename or copy record.
pub fn parse_rename_record(rest: &Vec<char>) -> (r: Option<(Vec<char>, Vec<char>, Vec<char>)>)
    ensures
        match r {
            Some((xy, path, original)) => rename_record(rest@) == Some((xy@, path@, original@)),
            None => rename_record(rest@) is None,
        },
{
    match field_after_exec(rest, ' ', 8, 0) {
        Some(q) => {
            let t = find_char(rest, '\t', q);
            proof {
                lemma_find_from(rest@, '\t', q as int);
            }
            if t >= rest.len() {
                return None;
            }
            let e = find_char(rest, ' ', 0);
            proof {
                lemma_find_from(rest@, ' ', 0);
            }
            let xy = slice_chars(rest, 0, e);
            let path = slice_chars(rest, q, t);
            let original = slice_chars(rest, t + 1, rest.len());
            assert(xy@ =~= rest@.take(e as int));
            assert(original@ =~= rest@.skip(t + 1));
            Some((xy, path, original))
        },
        None => None,
    }
}

/// The entries that one line of status output adds.
fn parse_status_line(line: &Vec<char>) -> (r: Vec<ChangeEntry>)
    ensures
        entries_view(r@) == line_entries(line@),
{
    proof {
        reveal_strlit("? ");
        reveal_strlit("1 ");
        reveal_strlit("2 ");
    }
    if starts_with_str(line, "# branch.head ") {
        let r: Vec<ChangeEntry> = Vec::new();
        assert(entries_view(r@) =~= Seq::<EntryView>::empty());
        return r;
    }
    if starts_with_str(line, "? ") {
        let path = slice_chars(line, 2, line.len());
        let mut r: Vec<ChangeEntry> = Vec::new();
        r.push(new_entry(ChangeSection::Untracked, &path, &None, None, None));
        assert(path@ =~= line@.skip(2));
        assert(entries_view(r@) =~= seq![untracked_entry(line@.skip(2))]);
        return r;
    }
    if starts_with_str(line, "1 ") {
        let rest = slice_chars(line, 2, line.len());
        assert(rest@ =~= line@.skip(2));
        match parse_ordinary_record(&rest) {
            Some((xy, path)) => {
                return status_entries_from_xy(&xy, &path, &None);
            },
            None => {
                let r: Vec<ChangeEntry> = Vec::new();
                assert(entries_view(r@) =~= Seq::<EntryView>::empty());
                return r;
            },
        }
    }
    if starts_with_str(line, "2 ") {
        let rest = slice_chars(line, 2, line.len());
        assert(rest@ =~= line@.skip(2));
        match parse_rename_record(&rest) {
            Some((xy, path, original)) => {
                return status_entries_from_xy(&xy, &path, &Some(original));
            },
            None => {
                let r: Vec<ChangeEntry> = Vec::new();
                assert(entries_view(r@) =~= Seq::<EntryView>::empty());
                return r;
            },
        }
    }
    let r: Vec<ChangeEntry> = Vec::new();
    assert(entries_view(r@) =~= Seq::<EntryView>::empty());
    r
}

/// The branch named by a `"# branch.head "` line.
fn parse_branch_line(line: &Vec<char>) -> (r: Vec<char>)
    ensures
        r@ == branch_of_line(line@),
{
    let prefix = chars_of("# branch.head ");
    proof {
        reveal_strlit("# branch.head ");
    }
    let mut start: usize = 0;
    let mut rest = slice_chars(line, 0, line.len());
    assert(rest@ =~= line@);
    while starts_with(&rest, &prefix)
        invariant
            prefix@ == "# branch.head "@,
            prefix@.len() == 14,
            strip_repeated(line@, prefix@) == strip_repeated(rest@, prefix@),
        decreases rest@.len(),
    {
        rest = slice_chars(&rest, prefix.len(), rest.len());
    }
    let value = trim_chars(&rest);
    let detached = chars_of("(detached)");
    if chars_equal(&value, &detached) {
        chars_of("detached")
    } else {
        value
    }
}

/// The branch and the sorted change list that `git status --porcelain=v2
/// --branch` output describes. Lines of other kinds, and records too short
/// to read, add nothing.
pub fn parse_status_output(output: &str) -> (r: (String, Vec<ChangeEntry>))
    ensures
        r.0@ == branch_of(lines_of(output@)),
        stable_sort_of(entries_view(r.1@), status_entries(lines_of(output@))),
{
    let text = chars_of(output);
    let lines = split_lines(&text);
    let ghost ls = lines_of(output@);
    let mut branch = chars_of("detached");
    let mut raw: Vec<ChangeEntry> = Vec::new();
    let n = lines.len();
    assert(ls.take(0) =~= Seq::<Seq<char>>::empty());
    assert(entries_view(raw@) =~= Seq::<EntryView>::empty());
    for k in 0..n
        invariant
            n == ls.len() == lines@.len(),
            ls == lines_of(text@),
            forall|i: int| 0 <= i < n ==> #[trigger] lines@[i]@ == ls[i],
            branch@ == branch_of(ls.take(k as int)),
            entries_view(raw@) == status_entries(ls.take(k as int)),
    {
        let line = &lines[k];
        assert(ls.take(k + 1).drop_last() =~= ls.take(k as int));
        assert(ls.take(k + 1).last() == line@);
        if starts_with_str(line, "# branch.head ") {
            branch = parse_branch_line(line);
        }
        let found = parse_status_line(line);
        let ghost before = entries_view(raw@);
        let m = found.len();
        for j in 0..m
            invariant
                m == found@.len(),
                entries_view(raw@) == before + entries_view(found@).take(j as int),
        {
            let ghost prev = raw@;
            raw.push(found[j].duplicate());
            assert(entries_view(found@).take(j + 1) =~= entries_view(found@).take(j as int).push(
                found@[j as int]@,
            ));
            assert(entries_view(raw@) =~= entries_view(prev).push(found@[j as int]@));
        }
        assert(entries_view(found@).take(m as int) =~= entries_view(found@));
    }
    assert(ls.take(n as int) =~= ls);
    let sorted = sort_entries(&raw);
    (string_from_chars(&branch), sorted)
}

/// The status snapshot of the repository at `repo_root`, from the output of
/// `git status --porcelain=v2 --branch`: the repository is named by the
/// last component of its root (`"repo"` when it has none), and the branch
/// and change list are those that the output gives.
pub fn build_snapshot(repo_root: String, status_output: &str, has_commits: bool) -> (r:
    StatusSnapshot)
    ensures
        r.repo_root@ == repo_root@,
        r.repo_name@ == match path_file_name(repo_root@) {
            Some(name) => name,
            None => "repo"@,
        },
        r.branch@ == branch_of(lines_of(status_output@)),
        r.has_commits == has_commits,
        stable_sort_of(entries_view(r.entries@), status_entries(lines_of(status_output@))),
{
    let root = chars_of(repo_root.as_str());
    let repo_name = match file_name_of(&root) {
        Some(name) => string_from_chars(&name),
        None => "repo".to_owned(),
    };
    let (branch, entries) = parse_status_output(status_output);
    StatusSnapshot { repo_root, repo_name, branch, has_commits, entries }
}

// ---------------------------------------------------------------------------
// `git diff --numstat`
// ---------------------------------------------------------------------------

/// A count of changed lines; `"-"` (a binary file) or anything else that is
/// not a number counts as zero.
pub open spec fn value_or_zero(s: Seq<char>) -> nat {
    match parse_usize_spec(s) {
        Some(n) => n,
        None => 0,
    }
}

/// The added and deleted line counts of a numstat line: its first two
/// tab-separated fields, when a third follows.
pub open spec fn numstat_line(line: Seq<char>) -> Option<(nat, nat)> {
    let t1 = find_from(line, '\t', 0);
    if t1 >= line.len() {
        None
    } else {
        let t2 = find_from(line, '\t', t1 + 1);
        if t2 >= line.len() {
            None
        } else {
            Some((value_or_zero(line.take(t1)), value_or_zero(line.subrange(t1 + 1, t2))))
        }
    }
}

/// The counts of the first numstat line among `lines`, or zero and zero.
pub open spec fn numstat_of(lines: Seq<Seq<char>>) -> (nat, nat)
    decreases lines.len(),
{
    if lines.len() == 0 {
        (0, 0)
    } else {
        match numstat_line(lines[0]) {
            Some(counts) => counts,
            None => numstat_of(lines.drop_first()),
        }
    }
}

/// A numstat count.
fn parse_numstat_value(value: &Vec<char>) -> (r: usize)
    ensures
        r as nat == value_or_zero(value@),
{
    match parse_usize(value) {
        Some(n) => n,
        None => 0,
    }
}

/// The counts of one numstat line.
pub fn parse_numstat_line(line: &Vec<char>) -> (r: Option<(usize, usize)>)
    ensures
        match r {
            Some((a, d)) => numstat_line(line@) == Some((a as nat, d as nat)),
            None => numstat_line(line@) is None,
        },
{
    let t1 = find_char(line, '\t', 0);
    proof {
        lemma_find_from(line@, '\t', 0);
    }
    if t1 >= line.len() {
        return None;
    }
    let t2 = find_char(line, '\t', t1 + 1);
    proof {
        lemma_find_from(line@, '\t', t1 + 1);
    }
    if t2 >= line.len() {
        return None;
    }
    let additions = slice_chars(line, 0, t1);
    let deletions = slice_chars(line, t1 + 1, t2);
    assert(additions@ =~= line@.take(t1 as int));
    Some((parse_numstat_value(&additions), parse_numstat_value(&deletions)))
}

/// The added and deleted line counts that `git diff --numstat` output gives
/// for one file.
pub fn parse_numstat_output(output: &str) -> (r: (usize, usize))
    ensures
        (r.0 as nat, r.1 as nat) == numstat_of(lines_of(output@)),
{
    let text = chars_of(output);
    let lines = split_lines(&text);
    let ghost ls = lines_of(output@);
    let n = lines.len();
    assert(ls.skip(0) =~= ls);
    for k in 0..n
        invariant
            n == ls.len() == lines@.len(),
            ls == lines_of(output@),
            forall|i: int| 0 <= i < n ==> #[trigger] lines@[i]@ == ls[i],
            numstat_of(ls) == numstat_of(ls.skip(k as int)),
    {
        assert(ls.skip(k as int)[0] == lines@[k as int]@);
        assert(ls.skip(k as int).drop_first() =~= ls.skip(k + 1));
        match parse_numstat_line(&lines[k]) {
            Some(counts) => {
                return counts;
            },
            None => {},
        }
    }
    assert(ls.skip(n as int) =~= Seq::<Seq<char>>::empty());
    (0, 0)
}

// ---------------------------------------------------------------------------
// Running git
// ---------------------------------------------------------------------------

/// A git command that failed, with what it said.
#[derive(Debug)]
pub enum GitError {
    CommandFailed(String),
}

/// The message of a failed git command: what it wrote to standard error,
/// else to standard output, trimmed, else its exit status.
pub open spec fn failure_message(code: int, stdout: Seq<char>, stderr: Seq<char>) -> Seq<char> {
    if trim(stderr).len() > 0 {
        trim(stderr)
    } else if trim(stdout).len() > 0 {
        trim(stdout)
    } else {
        "git exited with status "@ + signed_decimal(code)
    }
}

/// The exit code of a process, -1 when a signal ended it.
pub open spec fn exit_code(code: Option<i32>) -> i32 {
    match code {
        Some(c) => c,
        None => -1i32,
    }
}

/// The outcome of a git command that exited with `code` (`None` when a
/// signal ended it, which counts as -1): its standard output when the code
/// is one of `allowed`, else the failure with its message.
pub fn git_command_result(code: Option<i32>, allowed: &Vec<i32>, stdout: String, stderr: String) -> (r:
    Result<String, GitError>)
    ensures
        allowed@.contains(exit_code(code)) ==> (r matches Ok(out) && out@ == stdout@),
        !allowed@.contains(exit_code(code)) ==> (r matches Err(GitError::CommandFailed(message))
            && message@ == failure_message(exit_code(code) as int, stdout@, stderr@)),
{
    let c: i32 = match code {
        Some(c) => c,
        None => -1,
    };
    let n = allowed.len();
    for i in 0..n
        invariant
            n == allowed@.len(),
            c == exit_code(code),
            forall|k: int| 0 <= k < i ==> allowed@[k] != c,
    {
        if allowed[i] == c {
            assert(allowed@[i as int] == c);
            assert(allowed@.contains(c));
            return Ok(stdout);
        }
    }
    assert(!allowed@.contains(c));
    let err = chars_of(stderr.as_str());
    let trimmed_err = trim_chars(&err);
    if trimmed_err.len() > 0 {
        return Err(GitError::CommandFailed(string_from_chars(&trimmed_err)));
    }
    let out = chars_of(stdout.as_str());
    let trimmed_out = trim_chars(&out);
    if trimmed_out.len() > 0 {
        return Err(GitError::CommandFailed(string_from_chars(&trimmed_out)));
    }
    let mut message = chars_of("git exited with status ");
    let digits = i32_decimal_chars(c);
    extend_chars(&mut message, &digits);
    Err(GitError::CommandFailed(string_from_chars(&message)))
}

/// A failure to start a process is worth retrying when the system said the
/// operation would block, or gave error 35 (`EAGAIN` on macOS).
pub fn is_retryable_spawn_error(would_block: bool, raw_os_error: Option<i32>) -> (r: bool)
    ensures
        r == (would_block || raw_os_error == Some(35i32)),
{
    would_block || match raw_os_error {
        Some(code) => code == 35,
        None => false,
    }
}

/// How long to wait before trying again to start a process whose attempt
/// number `attempt` (from zero) failed: 25 ms, doubled after each try, for
/// the first three failures that are worth retrying; after that, or for
/// another failure, the error stands.
pub fn retry_delay_ms(attempt: u32, retryable: bool) -> (r: Option<u64>)
    ensures
        retryable && attempt < 3 ==> r == Some((if attempt == 0 {
            25u64
        } else if attempt == 1 {
            50u64
        } else {
            100u64
        })),
        !(retryable && attempt < 3) ==> r is None,
{
    if !retryable || attempt >= 3 {
        return None;
    }
    let mut delay: u64 = 25;
    let mut k: u32 = 0;
    while k < attempt
        invariant
            k <= attempt < 3,
            delay == (if k == 0 {
                25u64
            } else if k == 1 {
                50u64
            } else {
                100u64
            }),
        decreases attempt - k,
    {
        delay = delay * 2;
        k = k + 1;
    }
    Some(delay)
}

/// The text that a failed diff leaves to show: the fallback when the output
/// is only white space.
pub fn empty_diff_fallback(output: String, fallback: &str) -> (r: String)
    ensures
        r@ == if trim(output@).len() == 0 {
            fallback@
        } else {
            output@
        },
{
    let text = chars_of(output.as_str());
    let trimmed = trim_chars(&text);
    if trimmed.len() == 0 {
        fallback.to_owned()
    } else {
        output
    }
}

/// What the diff pane says when a section's diff is empty.
pub open spec fn empty_diff_message(section: ChangeSection) -> Seq<char> {
    match section {
        ChangeSection::Staged => "No staged diff for the selected file."@,
        ChangeSection::Unstaged => "No unstaged diff for the selected file."@,
        ChangeSection::Untracked => "Untracked file preview is not available."@,
    }
}

/// The title of an entry's diff: its section's heading, `" · "`, and its
/// displayed path.
pub open spec fn diff_title(e: EntryView) -> Seq<char> {
    section_title(e.section) + " · "@ + entry_display_path(e)
}

/// The diff pane for an entry, from what its diff command printed: the
/// section's message when that is only white space, and the hunks of the
/// text shown.
pub fn diff_content_for_entry(entry: &ChangeEntry, output: String) -> (r: DiffContent)
    ensures
        r.title@ == diff_title(entry@),
        r.body@ == if trim(output@).len() == 0 {
            empty_diff_message(entry.section)
        } else {
            output@
        },
        r.hunks@ == hunks_of(lines_of(r.body@)),
{
    let mut title = entry.section.title().to_owned();
    title.append(" · ");
    let shown = entry.display_path();
    title.append(shown.as_str());
    let fallback = match entry.section {
        ChangeSection::Staged => "No staged diff for the selected file.",
        ChangeSection::Unstaged => "No unstaged diff for the selected file.",
        ChangeSection::Untracked => "Untracked file preview is not available.",
    };
    let body = empty_diff_fallback(output, fallback);
    let hunks = parse_diff_hunks(body.as_str());
    DiffContent { title, body, hunks }
}

// ---------------------------------------------------------------------------
// Command lines
// ---------------------------------------------------------------------------

/// A git invocation: its arguments, and the exit codes that count as
/// success.
pub struct GitCommand {
    pub args: Vec<String>,
    pub allowed_exit_codes: Vec<i32>,
}

/// The arguments of a command as texts.
pub open spec fn args_view(args: Seq<String>) -> Seq<Seq<char>> {
    args.map_values(|a: String| a@)
}

fn push_arg(args: &mut Vec<String>, arg: &str)
    ensures
        args_view(final(args)@) == args_view(old(args)@).push(arg@),
{
    args.push(arg.to_owned());
    assert(args_view(args@) =~= args_view(old(args)@).push(arg@));
}

fn command(args: Vec<String>, tolerate_one: bool) -> (r: GitCommand)
    ensures
        r.args@ == args@,
        r.allowed_exit_codes@ == if tolerate_one {
            seq![0i32, 1i32]
        } else {
            seq![0i32]
        },
{
    let mut codes: Vec<i32> = Vec::new();
    codes.push(0);
    if tolerate_one {
        codes.push(1);
    }
    assert(codes@ =~= if tolerate_one {
        seq![0i32, 1i32]
    } else {
        seq![0i32]
    });
    GitCommand { args, allowed_exit_codes: codes }
}

/// The arguments of the diff of an entry, or of its line counts with
/// `--numstat`: staged changes against `HEAD` (against the empty tree, with
/// `--root`, before the first commit), unstaged ones against the index, and
/// an untracked file against `/dev/null`.
pub open spec fn diff_args(e: EntryView, has_commits: bool, numstat: bool) -> Seq<Seq<char>> {
    let stat: Seq<Seq<char>> = if numstat {
        seq!["--numstat"@]
    } else {
        Seq::empty()
    };
    match e.section {
        ChangeSection::Staged => (if has_commits {
            seq!["diff"@, "--cached"@]
        } else {
            seq!["diff"@, "--cached"@, "--root"@]
        }) + stat + seq!["--"@, e.path],
        ChangeSection::Unstaged => seq!["diff"@] + stat + seq!["--"@, e.path],
        ChangeSection::Untracked => seq!["diff"@, "--no-index"@] + stat + seq![
            "--"@,
            "/dev/null"@,
            e.path,
        ],
    }
}

/// The git command that shows an entry's diff (`numstat` false) or counts
/// its changed lines (`numstat` true); `git diff --no-index` exits with 1
/// when the files differ, which is no failure.
pub fn diff_command(entry: &ChangeEntry, has_commits: bool, numstat: bool) -> (r: GitCommand)
    ensures
        args_view(r.args@) == diff_args(entry@, has_commits, numstat),
        r.allowed_exit_codes@ == if entry.section == ChangeSection::Untracked {
            seq![0i32, 1i32]
        } else {
            seq![0i32]
        },
{
    let mut args: Vec<String> = Vec::new();
    push_arg(&mut args, "diff");
    match entry.section {
        ChangeSection::Staged => {
            push_arg(&mut args, "--cached");
            if !has_commits {
                push_arg(&mut args, "--root");
            }
        },
        ChangeSection::Unstaged => {},
        ChangeSection::Untracked => {
            push_arg(&mut args, "--no-index");
        },
    }
    if numstat {
        push_arg(&mut args, "--numstat");
    }
    push_arg(&mut args, "--");
    if entry.section == ChangeSection::Untracked {
        push_arg(&mut args, "/dev/null");
    }
    push_arg(&mut args, entry.path.as_str());
    assert(args_view(args@) =~= diff_args(entry@, has_commits, numstat));
    command(args, entry.section == ChangeSection::Untracked)
}

/// The options given to git before every subcommand that the adapter runs:
/// no pager, and no colours.
pub open spec fn global_options() -> Seq<Seq<char>> {
    seq!["--no-pager"@, "-c"@, "color.ui=never"@]
}

/// The whole argument list of a git invocation: the global options, then
/// the command's own arguments, each one argument.
pub fn invocation_args(command: &GitCommand) -> (r: Vec<String>)
    ensures
        args_view(r@) == global_options() + args_view(command.args@),
{
    let mut args: Vec<String> = Vec::new();
    push_arg(&mut args, "--no-pager");
    push_arg(&mut args, "-c");
    push_arg(&mut args, "color.ui=never");
    let n = command.args.len();
    for i in 0..n
        invariant
            n == command.args@.len(),
            args_view(args@) == global_options() + args_view(command.args@).take(i as int),
    {
        push_arg(&mut args, command.args[i].as_str());
        assert(args_view(command.args@).take(i + 1) =~= args_view(command.args@).take(
            i as int,
        ).push(command.args@[i as int]@));
    }
    assert(args_view(command.args@).take(n as int) =~= args_view(command.args@));
    args
}

/// The environment variable set for every git invocation of the adapter:
/// `GIT_PAGER=cat`.
pub fn pager_environment() -> (r: (String, String))
    ensures
        r.0@ == "GIT_PAGER"@,
        r.1@ == "cat"@,
{
    ("GIT_PAGER".to_owned(), "cat".to_owned())
}

/// `git status --porcelain=v2 --branch`.
pub fn status_command() -> (r: GitCommand)
    ensures
        args_view(r.args@) == seq!["status"@, "--porcelain=v2"@, "--branch"@],
        r.allowed_exit_codes@ == seq![0i32],
{
    let mut args: Vec<String> = Vec::new();
    push_arg(&mut args, "status");
    push_arg(&mut args, "--porcelain=v2");
    push_arg(&mut args, "--branch");
    assert(args_view(args@) =~= seq!["status"@, "--porcelain=v2"@, "--branch"@]);
    command(args, false)
}

/// `git rev-parse --show-toplevel`, which prints the root of the repository.
pub fn toplevel_command() -> (r: GitCommand)
    ensures
        args_view(r.args@) == seq!["rev-parse"@, "--show-toplevel"@],
        r.allowed_exit_codes@ == seq![0i32],
{
    let mut args: Vec<String> = Vec::new();
    push_arg(&mut args, "rev-parse");
    push_arg(&mut args, "--show-toplevel");
    assert(args_view(args@) =~= seq!["rev-parse"@, "--show-toplevel"@]);
    command(args, false)
}

/// `git rev-parse --verify HEAD`, which succeeds once there is a commit.
pub fn head_command() -> (r: GitCommand)
    ensures
        args_view(r.args@) == seq!["rev-parse"@, "--verify"@, "HEAD"@],
        r.allowed_exit_codes@ == seq![0i32],
{
    let mut args: Vec<String> = Vec::new();
    push_arg(&mut args, "rev-parse");
    push_arg(&mut args, "--verify");
    push_arg(&mut args, "HEAD");
    assert(args_view(args@) =~= seq!["rev-parse"@, "--verify"@, "HEAD"@]);
    command(args, false)
}

/// `git add -- path`.
pub fn stage_command(path: &str) -> (r: GitCommand)
    ensures
        args_view(r.args@) == seq!["add"@, "--"@, path@],
        r.allowed_exit_codes@ == seq![0i32],
{
    let mut args: Vec<String> = Vec::new();
    push_arg(&mut args, "add");
    push_arg(&mut args, "--");
    push_arg(&mut args, path);
    assert(args_view(args@) =~= seq!["add"@, "--"@, path@]);
    command(args, false)
}

/// `git restore --staged -- path`.
pub fn unstage_command(path: &str) -> (r: GitCommand)
    ensures
        args_view(r.args@) == seq!["restore"@, "--staged"@, "--"@, path@],
        r.allowed_exit_codes@ == seq![0i32],
{
    let mut args: Vec<String> = Vec::new();
    push_arg(&mut args, "restore");
    push_arg(&mut args, "--staged");
    push_arg(&mut args, "--");
    push_arg(&mut args, path);
    assert(args_view(args@) =~= seq!["restore"@, "--staged"@, "--"@, path@]);
    command(args, false)
}

/// `git commit -m message`.
pub fn commit_command(message: &str) -> (r: GitCommand)
    ensures
        args_view(r.args@) == seq!["commit"@, "-m"@, message@],
        r.allowed_exit_codes@ == seq![0i32],
{
    let mut args: Vec<String> = Vec::new();
    push_arg(&mut args, "commit");
    push_arg(&mut args, "-m");
    push_arg(&mut args, message);
    assert(args_view(args@) =~= seq!["commit"@, "-m"@, message@]);
    command(args, false)
}


/// A line starting with `"2 "` is no branch line, no untracked line and no
/// ordinary record.
proof fn lemma_rename_prefix_is_its_own(line: Seq<char>)
    requires
        has_prefix(line, "2 "@),
    ensures
        !has_prefix(line, "# branch.head "@),
        !has_prefix(line, "? "@),
        !has_prefix(line, "1 "@),
{
    reveal_strlit("2 ");
    reveal_strlit("# branch.head ");
    reveal_strlit("? ");
    reveal_strlit("1 ");
    assert("2 "@[0] == '2');
    assert(line.take(2)[0] == line[0]);
    assert(line[0] == '2');
    lemma_first_char_excludes(line, "# branch.head "@);
    lemma_first_char_excludes(line, "? "@);
    lemma_first_char_excludes(line, "1 "@);
    assert("# branch.head "@[0] == '#' && "? "@[0] == '?' && "1 "@[0] == '1');
}

/// A text does not start with a prefix whose first character is not its own.
proof fn lemma_first_char_excludes(line: Seq<char>, p: Seq<char>)
    requires
        line.len() >= 1,
        p.len() >= 1,
    ensures
        p[0] != line[0] ==> !has_prefix(line, p),
{
    if has_prefix(line, p) {
        assert(line.take(p.len() as int)[0] == line[0]);
    }
}

/// Every entry that a rename record `2 XY ... <path>\t<orig>` adds to the
/// change list, staged or unstaged, is for `path` and keeps `orig` as its
/// original path; there is one for each of the two status letters that is
/// not `'.'`, and none is untracked.
pub proof fn lemma_rename_entries_keep_their_origin(line: Seq<char>)
    requires
        has_prefix(line, "2 "@),
    ensures
        rename_record(line.skip(2)) matches Some((xy, path, original)) ==> {
            let es = line_entries(line);
            &&& forall|i: int|
                0 <= i < es.len() ==> (#[trigger] es[i]).path == path && es[i].original_path
                    == Some(original) && es[i].section != ChangeSection::Untracked
            &&& es.len() == (if xy.len() > 0 && xy[0] != '.' {
                1int
            } else {
                0
            }) + (if xy.len() > 1 && xy[1] != '.' {
                1int
            } else {
                0
            })
        },
{
    lemma_rename_prefix_is_its_own(line);
}

/// A line starting with `"1 "` is no branch line and no untracked line.
proof fn lemma_ordinary_prefix_is_its_own(line: Seq<char>)
    requires
        has_prefix(line, "1 "@),
    ensures
        !has_prefix(line, "# branch.head "@),
        !has_prefix(line, "? "@),
{
    reveal_strlit("1 ");
    reveal_strlit("# branch.head ");
    reveal_strlit("? ");
    assert("1 "@[0] == '1');
    assert(line.take(2)[0] == line[0]);
    assert(line[0] == '1');
    lemma_first_char_excludes(line, "# branch.head "@);
    lemma_first_char_excludes(line, "? "@);
    assert("# branch.head "@[0] == '#' && "? "@[0] == '?');
}

/// Every entry that an ordinary record `1 XY ... <path>` adds is for `path`
/// and has no original path.
pub proof fn lemma_ordinary_entries_have_no_origin(line: Seq<char>)
    requires
        has_prefix(line, "1 "@),
    ensures
        ordinary_record(line.skip(2)) matches Some((xy, path)) ==> {
            let es = line_entries(line);
            forall|i: int|
                0 <= i < es.len() ==> (#[trigger] es[i]).path == path && es[i].original_path
                    is None && es[i].section != ChangeSection::Untracked
        },
{
    lemma_ordinary_prefix_is_its_own(line);
}

/// The line-count command of an entry is its diff command with exactly one
/// `--numstat` put in among the options, whatever the section and history.
pub proof fn lemma_numstat_adds_one_option(e: EntryView, has_commits: bool)
    ensures
        exists|k: int|
            1 <= k <= 3 && #[trigger] diff_args(e, has_commits, true) == diff_args(
                e,
                has_commits,
                false,
            ).take(k).push("--numstat"@) + diff_args(e, has_commits, false).skip(k),
        diff_args(e, has_commits, true).len() == diff_args(e, has_commits, false).len() + 1,
{
    let t = diff_args(e, has_commits, true);
    let f = diff_args(e, has_commits, false);
    let k: int = match e.section {
        ChangeSection::Staged => if has_commits {
            2
        } else {
            3
        },
        ChangeSection::Unstaged => 1,
        ChangeSection::Untracked => 2,
    };
    assert(t =~= f.take(k).push("--numstat"@) + f.skip(k));
}

} // verus!
