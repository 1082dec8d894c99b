//! The domain types shared by the library: change sections and entries, the
//! status snapshot of a working tree, diff contents, focus and status lines.
use vstd::prelude::*;

use crate::text::{chars_of, rfind, slice_chars, string_from_chars};

verus! {

/// The section of the change list that an entry belongs to.
#[derive(Clone, Copy, Debug, PartialEq, Eq, Structural, Hash, PartialOrd, Ord)]
pub enum ChangeSection {
    Staged,
    Unstaged,
    Untracked,
}

/// The heading of a section.
pub open spec fn section_title(section: ChangeSection) -> Seq<char> {
    match section {
        ChangeSection::Staged => "Staged"@,
        ChangeSection::Unstaged => "Unstaged"@,
        ChangeSection::Untracked => "Untracked"@,
    }
}

/// The lower-case name of a section, as it is written into entry ids.
pub open spec fn section_label(section: ChangeSection) -> Seq<char> {
    match section {
        ChangeSection::Staged => "staged"@,
        ChangeSection::Unstaged => "unstaged"@,
        ChangeSection::Untracked => "untracked"@,
    }
}

/// The place of a section in the change list: staged first, then unstaged,
/// then untracked.
pub open spec fn section_rank(section: ChangeSection) -> int {
    match section {
        ChangeSection::Staged => 0,
        ChangeSection::Unstaged => 1,
        ChangeSection::Untracked => 2,
    }
}

impl ChangeSection {
    /// All sections, in display order.
    pub fn all() -> (r: [ChangeSection; 3])
        ensures
            r@ == seq![ChangeSection::Staged, ChangeSection::Unstaged, ChangeSection::Untracked],
    {
        [ChangeSection::Staged, ChangeSection::Unstaged, ChangeSection::Untracked]
    }

    /// The heading of the section.
    pub fn title(self) -> (r: &'static str)
        ensures
            r@ == section_title(self),
    {
        match self {
            ChangeSection::Staged => "Staged",
            ChangeSection::Unstaged => "Unstaged",
            ChangeSection::Untracked => "Untracked",
        }
    }

    /// The lower-case name of the section.
    pub fn as_str(self) -> (r: &'static str)
        ensures
            r@ == section_label(self),
    {
        match self {
            ChangeSection::Staged => "staged",
            ChangeSection::Unstaged => "unstaged",
            ChangeSection::Untracked => "untracked",
        }
    }

    /// The place of the section in the change list.
    pub fn rank(self) -> (r: u8)
        ensures
            r as int == section_rank(self),
    {
        match self {
            ChangeSection::Staged => 0,
            ChangeSection::Unstaged => 1,
            ChangeSection::Untracked => 2,
        }
    }
}

/// One changed file in one section of the change list.
#[derive(Clone, Debug, PartialEq, Eq)]
pub struct ChangeEntry {
    pub section: ChangeSection,
    pub path: String,
    pub original_path: Option<String>,
    pub staged_status: Option<char>,
    pub unstaged_status: Option<char>,
    pub additions: usize,
    pub deletions: usize,
}

/// The mathematical value of a [`ChangeEntry`].
pub struct EntryView {
    pub section: ChangeSection,
    pub path: Seq<char>,
    pub original_path: Option<Seq<char>>,
    pub staged_status: Option<char>,
    pub unstaged_status: Option<char>,
    pub additions: nat,
    pub deletions: nat,
}

/// The view of an optional string.
pub open spec fn opt_view(s: Option<String>) -> Option<Seq<char>> {
    match s {
        Some(s) => Some(s@),
        None => None,
    }
}

impl View for ChangeEntry {
    type V = EntryView;

    open spec fn view(&self) -> EntryView {
        EntryView {
            section: self.section,
            path: self.path@,
            original_path: opt_view(self.original_path),
            staged_status: self.staged_status,
            unstaged_status: self.unstaged_status,
            additions: self.additions as nat,
            deletions: self.deletions as nat,
        }
    }
}

/// The id of an entry: its section's name, `':'` and its path.
pub open spec fn entry_id(e: EntryView) -> Seq<char> {
    section_label(e.section) + seq![':'] + e.path
}

/// The path shown for an entry: `"original -> path"` for a rename.
pub open spec fn entry_display_path(e: EntryView) -> Seq<char> {
    match e.original_path {
        Some(original) => original + " -> "@ + e.path,
        None => e.path,
    }
}

/// The views of a sequence of entries.
pub open spec fn entries_view(entries: Seq<ChangeEntry>) -> Seq<EntryView> {
    entries.map_values(|e: ChangeEntry| e@)
}

/// A copy of an optional string.
pub fn copy_opt_string(s: &Option<String>) -> (r: Option<String>)
    ensures
        opt_view(r) == opt_view(*s),
{
    match s {
        Some(t) => Some(t.clone()),
        None => None,
    }
}

impl ChangeEntry {
    /// A copy of the entry.
    pub fn duplicate(&self) -> (r: ChangeEntry)
        ensures
            r@ == self@,
    {
        ChangeEntry {
            section: self.section,
            path: self.path.clone(),
            original_path: copy_opt_string(&self.original_path),
            staged_status: self.staged_status,
            unstaged_status: self.unstaged_status,
            additions: self.additions,
            deletions: self.deletions,
        }
    }

    /// The id that names the entry in the change list.
    pub fn id(&self) -> (r: String)
        ensures
            r@ == entry_id(self@),
    {
        let mut s = self.section.as_str().to_owned();
        s.append(":");
        s.append(self.path.as_str());
        proof {
            reveal_strlit(":");
        }
        assert(s@ =~= entry_id(self@));
        s
    }

    /// The path shown for the entry; a rename shows where it came from.
    pub fn display_path(&self) -> (r: String)
        ensures
            r@ == entry_display_path(self@),
    {
        match &self.original_path {
            Some(original) => {
                let mut s = original.clone();
                s.append(" -> ");
                s.append(self.path.as_str());
                s
            },
            None => self.path.clone(),
        }
    }
}

/// How many times `c` occurs in `s`.
pub open spec fn count_char(s: Seq<char>, c: char) -> nat
    decreases s.len(),
{
    if s.len() == 0 {
        0
    } else {
        count_char(s.drop_last(), c) + if s.last() == c {
            1nat
        } else {
            0nat
        }
    }
}

/// The part of a path after its last `'/'`: the file's own name.
pub open spec fn path_leaf(path: Seq<char>) -> Seq<char> {
    path.skip(rfind(path, '/') + 1)
}

/// The part of a path before its last `'/'`, when it has one.
pub open spec fn path_parent(path: Seq<char>) -> Option<Seq<char>> {
    if rfind(path, '/') >= 0 {
        Some(path.take(rfind(path, '/')))
    } else {
        None
    }
}

impl ChangeEntry {
    /// The name of the entry's file, without its directories.
    pub fn file_name(&self) -> (r: String)
        ensures
            r@ == path_leaf(self.path@),
    {
        let chars = chars_of(self.path.as_str());
        let mut i = chars.len();
        assert(chars@.take(i as int) =~= chars@);
        while i > 0 && chars[i - 1] != '/'
            invariant
                i <= chars@.len(),
                rfind(chars@, '/') == rfind(chars@.take(i as int), '/'),
            decreases i,
        {
            assert(chars@.take(i as int).drop_last() =~= chars@.take(i - 1));
            i = i - 1;
        }
        proof {
            if i == 0 {
                assert(chars@.take(0) =~= Seq::<char>::empty());
            } else {
                assert(chars@.take(i as int).last() == '/');
            }
        }
        let leaf = slice_chars(&chars, i, chars.len());
        assert(leaf@ =~= path_leaf(self.path@));
        string_from_chars(&leaf)
    }

    /// The directories of the entry's path, when it has any.
    pub fn parent_path(&self) -> (r: Option<String>)
        ensures
            opt_view(r) == path_parent(self.path@),
    {
        let chars = chars_of(self.path.as_str());
        let mut i = chars.len();
        assert(chars@.take(i as int) =~= chars@);
        while i > 0 && chars[i - 1] != '/'
            invariant
                i <= chars@.len(),
                rfind(chars@, '/') == rfind(chars@.take(i as int), '/'),
            decreases i,
        {
            assert(chars@.take(i as int).drop_last() =~= chars@.take(i - 1));
            i = i - 1;
        }
        if i == 0 {
            assert(chars@.take(0) =~= Seq::<char>::empty());
            None
        } else {
            assert(chars@.take(i as int).last() == '/');
            let parent = slice_chars(&chars, 0, i - 1);
            Some(string_from_chars(&parent))
        }
    }

    /// How many directories deep the entry's file lies: the `'/'`s of its
    /// path.
    pub fn tree_depth(&self) -> (r: usize)
        ensures
            r == count_char(self.path@, '/'),
    {
        let chars = chars_of(self.path.as_str());
        let n = chars.len();
        let mut depth: usize = 0;
        for i in 0..n
            invariant
                n == chars@.len(),
                depth == count_char(chars@.take(i as int), '/'),
                depth <= i,
        {
            assert(chars@.take(i + 1).drop_last() =~= chars@.take(i as int));
            if chars[i] == '/' {
                depth = depth + 1;
            }
        }
        assert(chars@.take(n as int) =~= chars@);
        depth
    }
}

/// What `git status` says of a working tree.
#[derive(Clone, Debug, PartialEq, Eq)]
pub struct StatusSnapshot {
    pub repo_root: String,
    pub repo_name: String,
    pub branch: String,
    pub has_commits: bool,
    pub entries: Vec<ChangeEntry>,
}

/// Where a hunk starts: the line of its header in the diff text, and its
/// first line in the new version of the file.
#[derive(Clone, Copy, Debug, PartialEq, Eq, Structural)]
pub struct DiffHunk {
    pub line_index: usize,
    pub new_start: usize,
}

/// The diff shown for the selected file.
#[derive(Clone, Debug, PartialEq, Eq)]
pub struct DiffContent {
    pub title: String,
    pub body: String,
    pub hunks: Vec<DiffHunk>,
}

impl DiffContent {
    /// A diff pane that holds only a message.
    pub fn empty(message: &str) -> (r: DiffContent)
        ensures
            r.title@ == "Diff"@,
            r.body@ == message@,
            r.hunks@.len() == 0,
    {
        DiffContent { title: "Diff".to_owned(), body: message.to_owned(), hunks: Vec::new() }
    }
}

/// The pane that has the keyboard.
#[derive(Clone, Copy, Debug, PartialEq, Eq, Structural)]
pub enum FocusArea {
    FileList,
    CommitInput,
}

/// How a status message is shown.
#[derive(Clone, Copy, Debug, PartialEq, Eq, Structural)]
pub enum StatusLevel {
    Info,
    Success,
    Error,
}

/// The message in the status bar.
#[derive(Clone, Debug, PartialEq, Eq)]
pub struct StatusMessage {
    pub level: StatusLevel,
    pub text: String,
}

impl StatusMessage {
    /// An informational message.
    pub fn info(text: &str) -> (r: StatusMessage)
        ensures
            r.level == StatusLevel::Info,
            r.text@ == text@,
    {
        StatusMessage { level: StatusLevel::Info, text: text.to_owned() }
    }

    /// A message that reports success.
    pub fn success(text: &str) -> (r: StatusMessage)
        ensures
            r.level == StatusLevel::Success,
            r.text@ == text@,
    {
        StatusMessage { level: StatusLevel::Success, text: text.to_owned() }
    }

    /// A message that reports an error.
    pub fn error(text: &str) -> (r: StatusMessage)
        ensures
            r.level == StatusLevel::Error,
            r.text@ == text@,
    {
        StatusMessage { level: StatusLevel::Error, text: text.to_owned() }
    }
}

/// Two ids are equal exactly when the entries have the same section and
/// path: an id names one entry of the change list.
pub proof fn lemma_entry_id_injective(a: EntryView, b: EntryView)
    ensures
        entry_id(a) == entry_id(b) <==> (a.section == b.section && a.path == b.path),
{
    reveal_strlit("staged");
    reveal_strlit("unstaged");
    reveal_strlit("untracked");
    let ia = entry_id(a);
    let ib = entry_id(b);
    let la = section_label(a.section);
    let lb = section_label(b.section);
    if ia == ib {
        if a.section != b.section {
            if a.section == ChangeSection::Staged || b.section == ChangeSection::Staged {
                assert(ia[0] != ib[0]);
            } else {
                assert(ia[2] != ib[2]);
            }
        }
        assert(la == lb);
        assert(a.path =~= ia.skip(la.len() + 1int));
        assert(b.path =~= ib.skip(lb.len() + 1int));
    }
}

} // verus!
