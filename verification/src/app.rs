//! The state of the review screen and the decisions made on it: which entry
//! is selected after a refresh or a move, what the status bar says, and which
//! git command an action asks for. Running the commands, and loading the
//! status and diffs they change, is the caller's part: an action hands back
//! a [`PendingAction`], and [`AppState::finish_action`] takes what came of it.
use vstd::prelude::*;

use crate::model::{
    entries_view, entry_id, opt_view, ChangeEntry, ChangeSection,
    DiffContent, EntryView, FocusArea, StatusLevel, StatusMessage, StatusSnapshot,
};
use crate::keys::{handle_key, key_command, KeyCommand, KeyInput};
use crate::text::{chars_of, push_char, string_from_chars, string_pop, trim, trim_chars};

verus! {

/// The commit message being written.
#[derive(Clone, Debug, PartialEq, Eq)]
pub struct CommitState {
    pub message: String,
}

impl Default for CommitState {
    fn default() -> (r: CommitState)
        ensures
            r.message@ == Seq::<char>::empty(),
    {
        CommitState { message: String::new() }
    }
}

/// What the review screen shows and remembers.
#[derive(Clone, Debug)]
pub struct AppState {
    pub repo_name: String,
    pub repo_root: String,
    pub branch: String,
    pub has_commits: bool,
    pub changes: Vec<ChangeEntry>,
    pub selected_entry_id: Option<String>,
    pub diff: DiffContent,
    pub focus: FocusArea,
    pub commit: CommitState,
    pub status: StatusMessage,
}

/// A git command that an action of the screen asks for.
pub enum GitRequest {
    /// Stage the file at this path.
    Stage(String),
    /// Unstage the file at this path.
    Unstage(String),
    /// Commit the staged changes with this message.
    Commit(String),
}

/// An action waiting for its git command: once the command has run and the
/// status has been loaded again, [`AppState::finish_action`] selects
/// `preferred` if it is there and reports `success`.
pub struct PendingAction {
    pub request: GitRequest,
    pub preferred: Option<(String, ChangeSection)>,
    pub success: String,
}

/// What the caller is to do after a key press.
pub enum KeyOutcome {
    /// End the program.
    Quit,
    /// Nothing more.
    Continue,
    /// Load this entry's diff and hand it to [`AppState::set_diff`].
    LoadDiff(ChangeEntry),
    /// Load the status and hand it to [`AppState::refresh`], with no
    /// preferred entry.
    RefreshStatus,
    /// Run this action's git command, load the status and hand it to
    /// [`AppState::finish_action`].
    Perform(PendingAction),
    /// Open this entry's file in an editor.
    OpenEditor(ChangeEntry),
}

/// One thing that happens to the screen, as far as its selection goes.
pub enum Step {
    /// A key press, carried out by [`AppState::apply_key`], and its outcome.
    Key(KeyInput, KeyOutcome),
    /// A status taken by [`AppState::refresh`], [`AppState::apply_snapshot`]
    /// or [`AppState::finish_action`], with the entry it prefers.
    Status(Option<(Seq<char>, ChangeSection)>),
    /// A diff shown by [`AppState::set_diff`].
    Diff,
}

/// The entry whose diff an outcome asks to load.
pub open spec fn outcome_entry(r: KeyOutcome) -> Option<ChangeEntry> {
    match r {
        KeyOutcome::LoadDiff(e) => Some(e),
        _ => None,
    }
}

/// The action an outcome asks to perform.
pub open spec fn outcome_action(r: KeyOutcome) -> Option<PendingAction> {
    match r {
        KeyOutcome::Perform(a) => Some(a),
        _ => None,
    }
}

/// The view of a preferred selection.
pub open spec fn preferred_view(p: Option<(String, ChangeSection)>) -> Option<(Seq<char>, ChangeSection)> {
    match p {
        Some((path, section)) => Some((path@, section)),
        None => None,
    }
}

/// The first position at or after `from` of an entry whose id is `id`.
pub open spec fn find_id_from(es: Seq<EntryView>, id: Seq<char>, from: int) -> Option<int>
    decreases es.len() - from,
{
    if from < 0 || from >= es.len() {
        None
    } else if entry_id(es[from]) == id {
        Some(from)
    } else {
        find_id_from(es, id, from + 1)
    }
}

/// The position of the selected entry: the first entry with the selected id.
pub open spec fn selected_index(es: Seq<EntryView>, selected: Option<Seq<char>>) -> Option<int> {
    match selected {
        Some(id) => find_id_from(es, id, 0),
        None => None,
    }
}

/// Some entry has this id.
pub open spec fn has_id(es: Seq<EntryView>, id: Seq<char>) -> bool {
    exists|i: int| 0 <= i < es.len() && entry_id(#[trigger] es[i]) == id
}

/// The selection after the change list becomes `es`: the preferred entry if
/// it is in the list; else the entry selected before, if it is still there;
/// else the first entry; else none.
pub open spec fn selection_after(
    es: Seq<EntryView>,
    preferred: Option<(Seq<char>, ChangeSection)>,
    previous: Option<Seq<char>>,
) -> Option<Seq<char>> {
    let from_preferred = match preferred {
        Some((path, section)) => if exists|i: int|
            0 <= i < es.len() && (#[trigger] es[i]).path == path && es[i].section == section {
            Some(
                entry_id(
                    EntryView {
                        section: section,
                        path: path,
                        original_path: None,
                        staged_status: None,
                        unstaged_status: None,
                        additions: 0,
                        deletions: 0,
                    },
                ),
            )
        } else {
            None
        },
        None => None,
    };
    let kept = match previous {
        Some(id) => if has_id(es, id) {
            Some(id)
        } else {
            None
        },
        None => None,
    };
    if from_preferred is Some {
        from_preferred
    } else if kept is Some {
        kept
    } else if es.len() > 0 {
        Some(entry_id(es[0]))
    } else {
        None
    }
}

/// The position a move by `delta` from `current` reaches in a list of `len`
/// entries: it stops at the first and the last entry.
pub open spec fn moved_index(current: int, delta: int, len: int) -> int {
    let t = current + delta;
    if t < 0 {
        0
    } else if t > len - 1 {
        len - 1
    } else {
        t
    }
}

/// What the status bar says of a selection.
pub open spec fn selection_text(section: Option<ChangeSection>) -> Seq<char> {
    match section {
        Some(ChangeSection::Staged) => "Staged file selected."@,
        Some(ChangeSection::Unstaged) => "Unstaged file selected."@,
        Some(ChangeSection::Untracked) => "Untracked file selected."@,
        None => "Working tree is clean."@,
    }
}

/// The focus after a switch: the other pane.
pub open spec fn toggled(focus: FocusArea) -> FocusArea {
    match focus {
        FocusArea::FileList => FocusArea::CommitInput,
        FocusArea::CommitInput => FocusArea::FileList,
    }
}

/// The message of the diff pane when nothing is selected.
pub open spec fn clean_tree_message() -> Seq<char> {
    "Working tree is clean. Local changes will appear here."@
}

impl AppState {
    /// The entries of the change list.
    pub open spec fn entries(&self) -> Seq<EntryView> {
        entries_view(self.changes@)
    }

    /// The selected id.
    pub open spec fn selected(&self) -> Option<Seq<char>> {
        opt_view(self.selected_entry_id)
    }

    /// The section of the selected entry, if any.
    pub open spec fn selected_section(&self) -> Option<ChangeSection> {
        match selected_index(self.entries(), self.selected()) {
            Some(i) => Some(self.entries()[i].section),
            None => None,
        }
    }

    /// Everything but the change list, the selection, the diff and the
    /// status line is as in `other`.
    pub open spec fn same_setup(&self, other: &AppState) -> bool {
        &&& self.repo_name == other.repo_name
        &&& self.repo_root == other.repo_root
        &&& self.branch == other.branch
        &&& self.has_commits == other.has_commits
        &&& self.focus == other.focus
        &&& self.commit == other.commit
    }

    /// What `move_selection` does to the screen.
    pub open spec fn move_post(before: AppState, after: AppState, delta: isize, r: Option<ChangeEntry>) -> bool {
        &&& (before.changes@.len() == 0 ==> r is None && after == before)
        &&& (before.changes@.len() > 0 ==> ({
                let es = before.entries();
                let current = match selected_index(es, before.selected()) {
                    Some(i) => i,
                    None => 0,
                };
                let next = moved_index(current, delta as int, es.len() as int);
                &&& after.selected() == Some(entry_id(es[next]))
                &&& after.status.level == StatusLevel::Info
                &&& after.status.text@ == selection_text(Some(es[next].section))
                &&& (r matches Some(e) && e@ == es[selected_index(es, after.selected())->0])
                &&& selected_index(es, after.selected()) is Some
            }))
        &&& (after.same_setup(&before))
        &&& (after.changes == before.changes)
        &&& (after.diff == before.diff)
    }

    /// What `toggle_focus` does to the screen.
    pub open spec fn toggle_focus_post(before: AppState, after: AppState) -> bool {
        &&& (after.focus == toggled(before.focus))
        &&& (after.commit == before.commit)
        &&& (after.changes == before.changes)
        &&& (after.selected_entry_id == before.selected_entry_id)
        &&& (after.status == before.status)
        &&& (after.diff == before.diff)
        &&& (after.same_repo(&before))
    }

    /// What `focus_commit` does to the screen.
    pub open spec fn focus_commit_post(before: AppState, after: AppState) -> bool {
        &&& (after.focus == FocusArea::CommitInput)
        &&& (after.commit == before.commit)
        &&& (after.changes == before.changes)
        &&& (after.selected_entry_id == before.selected_entry_id)
        &&& (after.status == before.status)
        &&& (after.diff == before.diff)
        &&& (after.same_repo(&before))
    }

    /// What `focus_file_list` does to the screen.
    pub open spec fn focus_file_list_post(before: AppState, after: AppState) -> bool {
        &&& (after.focus == FocusArea::FileList)
        &&& (after.status.level == StatusLevel::Info)
        &&& (after.status.text@ == selection_text(before.selected_section()))
        &&& (after.commit == before.commit)
        &&& (after.changes == before.changes)
        &&& (after.selected_entry_id == before.selected_entry_id)
        &&& (after.diff == before.diff)
        &&& (after.same_repo(&before))
    }

    /// What `stage_selected` does to the screen.
    pub open spec fn stage_post(before: AppState, after: AppState, r: Option<PendingAction>) -> bool {
        &&& (after.same_setup(&before))
        &&& (after.changes == before.changes)
        &&& (after.selected_entry_id == before.selected_entry_id)
        &&& (after.diff == before.diff)
        &&& (match before.selected_section() {
                None => r is None && after.status == before.status,
                Some(ChangeSection::Staged) => r is None && after.status.level
                    == StatusLevel::Info && after.status.text@
                    == "Selected file is already staged."@,
                Some(_) => after.status == before.status && (r matches Some(a) && ({
                    let e = before.entries()[selected_index(
                        before.entries(),
                        before.selected(),
                    )->0];
                    &&& a.request matches GitRequest::Stage(path) && path@ == e.path
                    &&& preferred_view(a.preferred) == Some((e.path, ChangeSection::Staged))
                    &&& a.success@ == "Staged selected file."@
                })),
            })
    }

    /// What `unstage_selected` does to the screen.
    pub open spec fn unstage_post(before: AppState, after: AppState, r: Option<PendingAction>) -> bool {
        &&& (after.same_setup(&before))
        &&& (after.changes == before.changes)
        &&& (after.selected_entry_id == before.selected_entry_id)
        &&& (after.diff == before.diff)
        &&& (match before.selected_section() {
                None => r is None && after.status == before.status,
                Some(ChangeSection::Staged) => after.status == before.status && (r matches Some(
                    a,
                ) && ({
                    let e = before.entries()[selected_index(
                        before.entries(),
                        before.selected(),
                    )->0];
                    &&& a.request matches GitRequest::Unstage(path) && path@ == e.path
                    &&& preferred_view(a.preferred) == Some((e.path, ChangeSection::Unstaged))
                    &&& a.success@ == "Unstaged selected file."@
                })),
                Some(_) => r is None && after.status.level == StatusLevel::Info
                    && after.status.text@ == "Selected file is not in the staged section."@,
            })
    }

    /// What `commit` does to the screen.
    pub open spec fn commit_post(before: AppState, after: AppState, r: Option<PendingAction>) -> bool {
        &&& (after.same_setup(&before))
        &&& (after.changes == before.changes)
        &&& (after.selected_entry_id == before.selected_entry_id)
        &&& (after.diff == before.diff)
        &&& (trim(before.commit.message@).len() == 0 ==> r is None && after.status.level
                == StatusLevel::Error && after.status.text@
                == "Commit message cannot be empty."@)
        &&& (trim(before.commit.message@).len() > 0 && before.entries().filter(
                |e: EntryView| e.section == ChangeSection::Staged,
            ).len() == 0 ==> r is None && after.status.level == StatusLevel::Error
                && after.status.text@ == "No staged changes to commit."@)
        &&& (trim(before.commit.message@).len() > 0 && before.entries().filter(
                |e: EntryView| e.section == ChangeSection::Staged,
            ).len() > 0 ==> after.status == before.status && (r matches Some(a) && a.request matches GitRequest::Commit(
                message,
            ) && message@ == trim(before.commit.message@) && a.preferred is None
                && a.success@ == "Created commit from staged changes."@))
    }

    /// What `push_commit_char` does to the screen.
    pub open spec fn push_post(before: AppState, after: AppState, ch: char) -> bool {
        &&& (after.commit.message@ == before.commit.message@.push(ch))
        &&& (after.focus == before.focus)
        &&& (after.changes == before.changes)
        &&& (after.selected_entry_id == before.selected_entry_id)
        &&& (after.status == before.status)
        &&& (after.diff == before.diff)
        &&& (after.same_repo(&before))
    }

    /// What `backspace_commit` does to the screen.
    pub open spec fn backspace_post(before: AppState, after: AppState) -> bool {
        &&& (after.commit.message@ == if before.commit.message@.len() > 0 {
                before.commit.message@.drop_last()
            } else {
                before.commit.message@
            })
        &&& (after.focus == before.focus)
        &&& (after.changes == before.changes)
        &&& (after.selected_entry_id == before.selected_entry_id)
        &&& (after.status == before.status)
        &&& (after.diff == before.diff)
        &&& (after.same_repo(&before))
    }

    /// What a step does to the screen's list and selection: a key press what
    /// [`AppState::key_post`] says; a new status the selection that
    /// [`selection_after`] gives for the new list; a diff leaves both as they
    /// were.
    pub open spec fn step_post(before: AppState, step: Step, after: AppState) -> bool {
        match step {
            Step::Key(key, r) => Self::key_post(before, after, key, r),
            Step::Status(preferred) => after.selected() == selection_after(
                after.entries(),
                preferred,
                before.selected(),
            ),
            Step::Diff => after.changes == before.changes && after.selected_entry_id
                == before.selected_entry_id,
        }
    }

    /// What a key press does to the screen: what the method of the command
    /// that [`key_command`] gives does, and the outcome that is left to the
    /// caller.
    pub open spec fn key_post(before: AppState, after: AppState, key: KeyInput, r: KeyOutcome) -> bool {
        match key_command(before.focus, key) {
            KeyCommand::Quit => r is Quit && after == before,
            KeyCommand::Ignore => r is Continue && after == before,
            KeyCommand::Refresh => r is RefreshStatus && after == before,
            KeyCommand::MoveSelection(delta) => (r is LoadDiff || r is Continue)
                && Self::move_post(before, after, delta, outcome_entry(r)),
            KeyCommand::Stage => (r is Perform || r is Continue) && Self::stage_post(
                before,
                after,
                outcome_action(r),
            ),
            KeyCommand::Unstage => (r is Perform || r is Continue) && Self::unstage_post(
                before,
                after,
                outcome_action(r),
            ),
            KeyCommand::Commit => (r is Perform || r is Continue) && Self::commit_post(
                before,
                after,
                outcome_action(r),
            ),
            KeyCommand::FocusCommit => r is Continue && Self::focus_commit_post(
                before,
                after,
            ),
            KeyCommand::FocusFileList => r is Continue && Self::focus_file_list_post(
                before,
                after,
            ),
            KeyCommand::ToggleFocus => r is Continue && Self::toggle_focus_post(
                before,
                after,
            ),
            KeyCommand::Backspace => r is Continue && Self::backspace_post(
                before,
                after,
            ),
            KeyCommand::Type(c) => r is Continue && Self::push_post(before, after, c),
            KeyCommand::OpenEditor => after == before && match selected_index(
                before.entries(),
                before.selected(),
            ) {
                Some(i) => r matches KeyOutcome::OpenEditor(e) && e@ == before.entries()[i],
                None => r is Continue,
            },
        }
    }

    /// The selection names an entry of the list, and there is one exactly
    /// when the list is not empty.
    pub open spec fn selection_valid(&self) -> bool {
        &&& (self.selected() is None <==> self.changes@.len() == 0)
        &&& (self.selected() matches Some(id) ==> has_id(self.entries(), id))
    }

    /// The repository's name, root, branch and history are as in `other`.
    pub open spec fn same_repo(&self, other: &AppState) -> bool {
        &&& self.repo_name == other.repo_name
        &&& self.repo_root == other.repo_root
        &&& self.branch == other.branch
        &&& self.has_commits == other.has_commits
    }

    /// The screen before the first status has been loaded.
    pub fn new() -> (r: AppState)
        ensures
            r.repo_name@.len() == 0,
            r.repo_root@.len() == 0,
            r.branch@.len() == 0,
            !r.has_commits,
            r.changes@.len() == 0,
            r.selected_entry_id is None,
            r.diff.title@ == "Diff"@,
            r.diff.body@ == "Loading diff…"@,
            r.diff.hunks@.len() == 0,
            r.focus == FocusArea::FileList,
            r.commit.message@.len() == 0,
            r.status.level == StatusLevel::Info,
            r.status.text@ == "Ready."@,
            r.selection_valid(),
    {
        AppState {
            repo_name: String::new(),
            repo_root: String::new(),
            branch: String::new(),
            has_commits: false,
            changes: Vec::new(),
            selected_entry_id: None,
            diff: DiffContent::empty("Loading diff…"),
            focus: FocusArea::FileList,
            commit: CommitState::default(),
            status: StatusMessage::info("Ready."),
        }
    }

    /// The position of the first entry with the id `id`.
    fn position_of_id(&self, id: &String) -> (r: Option<usize>)
        ensures
            match r {
                Some(i) => find_id_from(self.entries(), id@, 0) == Some(i as int) && i
                    < self.changes@.len(),
                None => find_id_from(self.entries(), id@, 0) is None,
            },
    {
        let n = self.changes.len();
        let ghost es = self.entries();
        for i in 0..n
            invariant
                n == self.changes@.len(),
                es == self.entries(),
                find_id_from(es, id@, 0) == find_id_from(es, id@, i as int),
        {
            let candidate = self.changes[i].id();
            assert(es[i as int] == self.changes@[i as int]@);
            if candidate == *id {
                return Some(i);
            }
        }
        None
    }

    /// The position of the first entry with this path and section.
    fn position_of_key(&self, path: &String, section: ChangeSection) -> (r: Option<usize>)
        ensures
            match r {
                Some(i) => i < self.changes@.len() && self.entries()[i as int].path == path@
                    && self.entries()[i as int].section == section,
                None => !exists|k: int|
                    0 <= k < self.entries().len() && (#[trigger] self.entries()[k]).path == path@
                        && self.entries()[k].section == section,
            },
    {
        let n = self.changes.len();
        let ghost es = self.entries();
        for i in 0..n
            invariant
                n == self.changes@.len(),
                es == self.entries(),
                forall|k: int| 0 <= k < i ==> !(#[trigger] es[k].path == path@ && es[k].section
                    == section),
        {
            assert(es[i as int] == self.changes@[i as int]@);
            if self.changes[i].path == *path && self.changes[i].section == section {
                return Some(i);
            }
        }
        None
    }

    /// The position of the selected entry.
    fn selected_position(&self) -> (r: Option<usize>)
        ensures
            match r {
                Some(i) => selected_index(self.entries(), self.selected()) == Some(i as int) && i
                    < self.changes@.len(),
                None => selected_index(self.entries(), self.selected()) is None,
            },
    {
        match &self.selected_entry_id {
            Some(id) => self.position_of_id(id),
            None => None,
        }
    }

    /// The selected entry: the first entry whose id is the selected id.
    pub fn selected_entry(&self) -> (r: Option<&ChangeEntry>)
        ensures
            match selected_index(self.entries(), self.selected()) {
                Some(i) => r matches Some(e) && *e == self.changes@[i],
                None => r is None,
            },
    {
        match self.selected_position() {
            Some(i) => Some(&self.changes[i]),
            None => None,
        }
    }

    /// A copy of the selected entry.
    fn selected_copy(&self) -> (r: Option<ChangeEntry>)
        ensures
            match selected_index(self.entries(), self.selected()) {
                Some(i) => r matches Some(e) && e@ == self.entries()[i],
                None => r is None,
            },
    {
        match self.selected_position() {
            Some(i) => {
                assert(self.entries()[i as int] == self.changes@[i as int]@);
                Some(self.changes[i].duplicate())
            },
            None => None,
        }
    }

    /// The entries of one section, in list order.
    pub fn entries_in_section(&self, section: ChangeSection) -> (r: Vec<ChangeEntry>)
        ensures
            entries_view(r@) == self.entries().filter(|e: EntryView| e.section == section),
    {
        let mut r: Vec<ChangeEntry> = Vec::new();
        let n = self.changes.len();
        let ghost es = self.entries();
        let ghost pred = |e: EntryView| e.section == section;
        assert(es.take(0).filter(pred) =~= Seq::<EntryView>::empty());
        assert(entries_view(r@) =~= Seq::<EntryView>::empty());
        for i in 0..n
            invariant
                n == self.changes@.len(),
                es == self.entries(),
                pred == (|e: EntryView| e.section == section),
                entries_view(r@) == es.take(i as int).filter(pred),
        {
            assert(es.take(i + 1) =~= es.take(i as int).push(es[i as int]));
            proof { es.take(i as int).lemma_filter_push(es[i as int], pred); }
            if self.changes[i].section == section {
                let ghost before = r@;
                r.push(self.changes[i].duplicate());
                assert(entries_view(r@) =~= entries_view(before).push(es[i as int]));
            }
        }
        assert(es.take(n as int) =~= es);
        r
    }

    /// How many entries the section holds.
    pub fn section_count(&self, section: ChangeSection) -> (r: usize)
        ensures
            r == self.entries().filter(|e: EntryView| e.section == section).len(),
    {
        self.entries_in_section(section).len()
    }

    /// What the status bar says of the current selection.
    fn selection_status_text(&self) -> (r: String)
        ensures
            r@ == selection_text(self.selected_section()),
    {
        match self.selected_position() {
            Some(i) => {
                assert(self.entries()[i as int] == self.changes@[i as int]@);
                match self.changes[i].section {
                    ChangeSection::Staged => "Staged file selected.".to_owned(),
                    ChangeSection::Unstaged => "Unstaged file selected.".to_owned(),
                    ChangeSection::Untracked => "Untracked file selected.".to_owned(),
                }
            },
            None => "Working tree is clean.".to_owned(),
        }
    }

    /// The selected entry whose diff is to be loaded; with nothing selected,
    /// the diff pane says that the working tree is clean.
    fn reload_selected_diff(&mut self) -> (r: Option<ChangeEntry>)
        ensures
            final(self).same_setup(old(self)),
            final(self).changes == old(self).changes,
            final(self).selected_entry_id == old(self).selected_entry_id,
            final(self).status == old(self).status,
            match selected_index(old(self).entries(), old(self).selected()) {
                Some(i) => r matches Some(e) && e@ == old(self).entries()[i] && final(self).diff
                    == old(self).diff,
                None => r is None && final(self).diff.body@ == clean_tree_message()
                    && final(self).diff.title@ == "Diff"@ && final(self).diff.hunks@.len() == 0,
            },
    {
        match self.selected_position() {
            Some(i) => {
                assert(self.entries()[i as int] == self.changes@[i as int]@);
                Some(self.changes[i].duplicate())
            },
            None => {
                self.diff = DiffContent::empty(
                    "Working tree is clean. Local changes will appear here.",
                );
                None
            },
        }
    }

    /// Takes a new status: the repository's name, root, branch and change
    /// list, and the selection that [`selection_after`] gives. Gives back the
    /// selected entry, whose diff is then to be loaded.
    pub fn apply_snapshot(
        &mut self,
        snapshot: StatusSnapshot,
        preferred: Option<(String, ChangeSection)>,
    ) -> (r: Option<ChangeEntry>)
        ensures
            final(self).repo_name == snapshot.repo_name,
            final(self).repo_root == snapshot.repo_root,
            final(self).branch == snapshot.branch,
            final(self).has_commits == snapshot.has_commits,
            final(self).changes == snapshot.entries,
            final(self).selection_valid(),
            Self::step_post(*old(self), Step::Status(preferred_view(preferred)), *final(self)),
            final(self).selected() == selection_after(
                entries_view(snapshot.entries@),
                preferred_view(preferred),
                old(self).selected(),
            ),
            final(self).focus == old(self).focus,
            final(self).commit == old(self).commit,
            final(self).status == old(self).status,
            match selected_index(final(self).entries(), final(self).selected()) {
                Some(i) => r matches Some(e) && e@ == final(self).entries()[i] && final(self).diff
                    == old(self).diff,
                None => r is None && final(self).diff.body@ == clean_tree_message()
                    && final(self).diff.title@ == "Diff"@ && final(self).diff.hunks@.len() == 0,
            },
    {
        self.repo_name = snapshot.repo_name;
        self.repo_root = snapshot.repo_root;
        self.branch = snapshot.branch;
        self.has_commits = snapshot.has_commits;
        self.changes = snapshot.entries;
        let ghost es = self.entries();
        let ghost pref = preferred_view(preferred);
        let ghost previous = old(self).selected();
        let n = self.changes.len();
        let mut chosen: Option<String> = None;
        match &preferred {
            Some((path, section)) => {
                match self.position_of_key(path, *section) {
                    Some(i) => {
                        chosen = Some(self.changes[i].id());
                        proof {
                            assert(es[i as int] == self.changes@[i as int]@);
                        }
                    },
                    None => {},
                }
            },
            None => {},
        }
        let ghost from_preferred = opt_view(chosen);
        if chosen.is_none() {
            match &self.selected_entry_id {
                Some(existing) => {
                    match self.position_of_id(existing) {
                        Some(i) => {
                            chosen = Some(self.changes[i].id());
                            proof {
                                lemma_find_id_result(es, existing@, 0);
                                assert(es[i as int] == self.changes@[i as int]@);
                                assert(has_id(es, existing@));
                            }
                        },
                        None => {
                            proof {
                                if has_id(es, existing@) {
                                    let k = choose|k: int|
                                        0 <= k < es.len() && entry_id(#[trigger] es[k]) == existing@;
                                    lemma_find_id_some(es, existing@, k);
                                }
                            }
                        },
                    }
                },
                None => {},
            }
        }
        let ghost kept = opt_view(chosen);
        if chosen.is_none() && n > 0 {
            chosen = Some(self.changes[0].id());
            proof {
                assert(es[0] == self.changes@[0]@);
            }
        }
        proof {
            assert(opt_view(chosen) == selection_after(es, pref, previous));
            lemma_selection_after_is_valid(es, pref, previous);
        }
        self.selected_entry_id = chosen;
        self.reload_selected_diff()
    }

    /// Takes a freshly loaded status, keeping or choosing the selection as
    /// [`AppState::apply_snapshot`] does, and says so in the status bar.
    pub fn refresh(&mut self, snapshot: StatusSnapshot, preferred: Option<(String, ChangeSection)>) -> (r:
        Option<ChangeEntry>)
        ensures
            final(self).repo_name == snapshot.repo_name,
            final(self).repo_root == snapshot.repo_root,
            final(self).branch == snapshot.branch,
            final(self).has_commits == snapshot.has_commits,
            final(self).changes == snapshot.entries,
            final(self).selection_valid(),
            Self::step_post(*old(self), Step::Status(preferred_view(preferred)), *final(self)),
            final(self).selected() == selection_after(
                entries_view(snapshot.entries@),
                preferred_view(preferred),
                old(self).selected(),
            ),
            final(self).focus == old(self).focus,
            final(self).commit == old(self).commit,
            final(self).status.level == StatusLevel::Info,
            final(self).status.text@ == "Refreshed local changes."@,
            match selected_index(final(self).entries(), final(self).selected()) {
                Some(i) => r matches Some(e) && e@ == final(self).entries()[i] && final(self).diff
                    == old(self).diff,
                None => r is None && final(self).diff.body@ == clean_tree_message(),
            },
    {
        let r = self.apply_snapshot(snapshot, preferred);
        self.status = StatusMessage::info("Refreshed local changes.");
        r
    }

    /// Shows the diff loaded for the selected entry.
    pub fn set_diff(&mut self, diff: DiffContent)
        ensures
            final(self).diff == diff,
            Self::step_post(*old(self), Step::Diff, *final(self)),
            old(self).selection_valid() ==> final(self).selection_valid(),
            final(self).same_setup(old(self)),
            final(self).changes == old(self).changes,
            final(self).selected_entry_id == old(self).selected_entry_id,
            final(self).status == old(self).status,
    {
        self.diff = diff;
    }

    /// Moves the selection by `delta` entries, stopping at the ends of the
    /// list (from the first entry when the selection is not in the list),
    /// and says in the status bar what is selected. Gives back the newly
    /// selected entry, whose diff is then to be loaded; with an empty list
    /// nothing changes.
    pub fn move_selection(&mut self, delta: isize) -> (r: Option<ChangeEntry>)
        ensures
            Self::move_post(*old(self), *final(self), delta, r),
            old(self).selection_valid() ==> final(self).selection_valid(),
    {
        if self.changes.len() == 0 {
            return None;
        }
        let len = self.changes.len();
        let current = match self.selected_position() {
            Some(i) => i,
            None => 0,
        };
        let next = if delta >= 0 {
            let d = delta as usize;
            if d > len - 1 - current {
                len - 1
            } else {
                current + d
            }
        } else {
            let back: usize = if delta == isize::MIN {
                (isize::MAX as usize) + 1
            } else {
                (-delta) as usize
            };
            if back > current {
                0
            } else {
                current - back
            }
        };
        let id = self.changes[next].id();
        self.selected_entry_id = Some(id);
        proof {
            let es = self.entries();
            assert(es[next as int] == self.changes@[next as int]@);
            assert(next as int == moved_index(current as int, delta as int, len as int));
            lemma_find_id_some(es, entry_id(es[next as int]), next as int);
            let j = find_id_from(es, entry_id(es[next as int]), 0)->0;
            crate::model::lemma_entry_id_injective(es[j], es[next as int]);
            assert(self.selected_section() == Some(es[next as int].section));
        }
        let text = self.selection_status_text();
        self.status = StatusMessage::info(text.as_str());
        self.selected_copy()
    }

    /// Gives the keyboard to the other pane.
    pub fn toggle_focus(&mut self)
        ensures
            Self::toggle_focus_post(*old(self), *final(self)),
            old(self).selection_valid() ==> final(self).selection_valid(),
    {
        self.focus = match self.focus {
            FocusArea::FileList => FocusArea::CommitInput,
            FocusArea::CommitInput => FocusArea::FileList,
        };
    }

    /// Gives the keyboard to the commit message.
    pub fn focus_commit(&mut self)
        ensures
            Self::focus_commit_post(*old(self), *final(self)),
            old(self).selection_valid() ==> final(self).selection_valid(),
    {
        self.focus = FocusArea::CommitInput;
    }

    /// Gives the keyboard to the file list and says what is selected.
    pub fn focus_file_list(&mut self)
        ensures
            Self::focus_file_list_post(*old(self), *final(self)),
            old(self).selection_valid() ==> final(self).selection_valid(),
    {
        self.focus = FocusArea::FileList;
        let text = self.selection_status_text();
        self.status = StatusMessage::info(text.as_str());
    }

    /// Asks to stage the selected entry when it is unstaged or untracked,
    /// and then to select its staged entry; an entry that is already staged
    /// is only reported. Nothing selected, nothing happens.
    pub fn stage_selected(&mut self) -> (r: Option<PendingAction>)
        ensures
            Self::stage_post(*old(self), *final(self), r),
            old(self).selection_valid() ==> final(self).selection_valid(),
    {
        let entry = match self.selected_copy() {
            Some(e) => e,
            None => {
                return None;
            },
        };
        match entry.section {
            ChangeSection::Unstaged | ChangeSection::Untracked => {
                let path = entry.path.clone();
                Some(
                    PendingAction {
                        request: GitRequest::Stage(entry.path),
                        preferred: Some((path, ChangeSection::Staged)),
                        success: "Staged selected file.".to_owned(),
                    },
                )
            },
            ChangeSection::Staged => {
                self.status = StatusMessage::info("Selected file is already staged.");
                None
            },
        }
    }

    /// Asks to unstage the selected entry when it is staged, and then to
    /// select its unstaged entry; any other entry is only reported. Nothing
    /// selected, nothing happens.
    pub fn unstage_selected(&mut self) -> (r: Option<PendingAction>)
        ensures
            Self::unstage_post(*old(self), *final(self), r),
            old(self).selection_valid() ==> final(self).selection_valid(),
    {
        let entry = match self.selected_copy() {
            Some(e) => e,
            None => {
                return None;
            },
        };
        if entry.section != ChangeSection::Staged {
            self.status = StatusMessage::info("Selected file is not in the staged section.");
            return None;
        }
        let path = entry.path.clone();
        Some(
            PendingAction {
                request: GitRequest::Unstage(entry.path),
                preferred: Some((path, ChangeSection::Unstaged)),
                success: "Unstaged selected file.".to_owned(),
            },
        )
    }

    /// Asks to commit the staged changes with the trimmed message; refuses,
    /// with an error in the status bar, an empty message or an empty staged
    /// section.
    pub fn commit(&mut self) -> (r: Option<PendingAction>)
        ensures
            Self::commit_post(*old(self), *final(self), r),
            old(self).selection_valid() ==> final(self).selection_valid(),
    {
        let message = chars_of(self.commit.message.as_str());
        let trimmed = trim_chars(&message);
        if trimmed.len() == 0 {
            self.status = StatusMessage::error("Commit message cannot be empty.");
            return None;
        }
        if self.section_count(ChangeSection::Staged) == 0 {
            self.status = StatusMessage::error("No staged changes to commit.");
            return None;
        }
        Some(
            PendingAction {
                request: GitRequest::Commit(string_from_chars(&trimmed)),
                preferred: None,
                success: "Created commit from staged changes.".to_owned(),
            },
        )
    }

    /// Takes the status loaded after an action's command succeeded: a
    /// commit clears the message and gives the keyboard to the file list;
    /// then the status is applied as [`AppState::apply_snapshot`] does, with
    /// the action's preferred selection, and the action's success reported.
    pub fn finish_action(&mut self, action: &PendingAction, snapshot: StatusSnapshot) -> (r:
        Option<ChangeEntry>)
        ensures
            final(self).repo_name == snapshot.repo_name,
            final(self).repo_root == snapshot.repo_root,
            final(self).branch == snapshot.branch,
            final(self).has_commits == snapshot.has_commits,
            final(self).changes == snapshot.entries,
            final(self).selection_valid(),
            Self::step_post(*old(self), Step::Status(preferred_view(action.preferred)), *final(self)),
            final(self).selected() == selection_after(
                entries_view(snapshot.entries@),
                preferred_view(action.preferred),
                old(self).selected(),
            ),
            action.request is Commit ==> final(self).commit.message@.len() == 0 && final(self).focus
                == FocusArea::FileList,
            !(action.request is Commit) ==> final(self).commit == old(self).commit
                && final(self).focus == old(self).focus,
            final(self).status.level == StatusLevel::Success,
            final(self).status.text@ == action.success@,
            match selected_index(final(self).entries(), final(self).selected()) {
                Some(i) => r matches Some(e) && e@ == final(self).entries()[i] && final(self).diff
                    == old(self).diff,
                None => r is None && final(self).diff.body@ == clean_tree_message(),
            },
    {
        match &action.request {
            GitRequest::Commit(_) => {
                self.commit.message = String::new();
                self.focus = FocusArea::FileList;
            },
            _ => {},
        }
        let preferred = match &action.preferred {
            Some((path, section)) => Some((path.clone(), *section)),
            None => None,
        };
        let r = self.apply_snapshot(snapshot, preferred);
        self.status = StatusMessage::success(action.success.as_str());
        r
    }

    /// Carries out a key press in the pane that has the keyboard: the
    /// command that [`key_command`] gives is done by the method of that name,
    /// and the outcome says what is left to the caller.
    pub fn apply_key(&mut self, key: KeyInput) -> (r: KeyOutcome)
        ensures
            Self::key_post(*old(self), *final(self), key, r),
            Self::step_post(*old(self), Step::Key(key, r), *final(self)),
            old(self).selection_valid() ==> final(self).selection_valid(),
    {
        match handle_key(self.focus, key) {
            KeyCommand::Quit => KeyOutcome::Quit,
            KeyCommand::Ignore => KeyOutcome::Continue,
            KeyCommand::Refresh => KeyOutcome::RefreshStatus,
            KeyCommand::MoveSelection(delta) => match self.move_selection(delta) {
                Some(entry) => KeyOutcome::LoadDiff(entry),
                None => KeyOutcome::Continue,
            },
            KeyCommand::Stage => match self.stage_selected() {
                Some(action) => KeyOutcome::Perform(action),
                None => KeyOutcome::Continue,
            },
            KeyCommand::Unstage => match self.unstage_selected() {
                Some(action) => KeyOutcome::Perform(action),
                None => KeyOutcome::Continue,
            },
            KeyCommand::Commit => match self.commit() {
                Some(action) => KeyOutcome::Perform(action),
                None => KeyOutcome::Continue,
            },
            KeyCommand::FocusCommit => {
                self.focus_commit();
                KeyOutcome::Continue
            },
            KeyCommand::FocusFileList => {
                self.focus_file_list();
                KeyOutcome::Continue
            },
            KeyCommand::ToggleFocus => {
                self.toggle_focus();
                KeyOutcome::Continue
            },
            KeyCommand::Backspace => {
                self.backspace_commit();
                KeyOutcome::Continue
            },
            KeyCommand::Type(c) => {
                self.push_commit_char(c);
                KeyOutcome::Continue
            },
            KeyCommand::OpenEditor => match self.selected_copy() {
                Some(entry) => KeyOutcome::OpenEditor(entry),
                None => KeyOutcome::Continue,
            },
        }
    }

    /// Types a character into the commit message.
    pub fn push_commit_char(&mut self, ch: char)
        ensures
            Self::push_post(*old(self), *final(self), ch),
            old(self).selection_valid() ==> final(self).selection_valid(),
    {
        push_char(&mut self.commit.message, ch);
    }

    /// Deletes the last character of the commit message, if any.
    pub fn backspace_commit(&mut self)
        ensures
            Self::backspace_post(*old(self), *final(self)),
            old(self).selection_valid() ==> final(self).selection_valid(),
    {
        string_pop(&mut self.commit.message);
    }
}

/// Switching the focus twice gives it back to the pane that had it.
pub proof fn lemma_toggle_focus_twice(focus: FocusArea)
    ensures
        toggled(toggled(focus)) == focus,
{
}

/// Deleting the last character of a message just typed into gives back
/// the message as it was.
pub proof fn lemma_backspace_undoes_push(message: Seq<char>, ch: char)
    ensures
        ({
            let typed = message.push(ch);
            (if typed.len() > 0 {
                typed.drop_last()
            } else {
                typed
            }) == message
        }),
{
    assert(message.push(ch).drop_last() =~= message);
}

/// After a new status the selection names an entry of the list, and there
/// is a selection exactly when the list is not empty.
pub proof fn lemma_selection_after_is_valid(
    es: Seq<EntryView>,
    preferred: Option<(Seq<char>, ChangeSection)>,
    previous: Option<Seq<char>>,
)
    ensures
        selection_after(es, preferred, previous) is None <==> es.len() == 0,
        selection_after(es, preferred, previous) matches Some(id) ==> has_id(es, id)
            && selected_index(es, Some(id)) is Some,
{
    match selection_after(es, preferred, previous) {
        Some(id) => {
            let from_preferred = match preferred {
                Some((path, section)) => if exists|i: int|
                    0 <= i < es.len() && (#[trigger] es[i]).path == path && es[i].section
                        == section {
                    true
                } else {
                    false
                },
                None => false,
            };
            if from_preferred {
                let (path, section) = preferred->0;
                let i = choose|i: int|
                    0 <= i < es.len() && (#[trigger] es[i]).path == path && es[i].section
                        == section;
                assert(entry_id(es[i]) == id);
                lemma_find_id_some(es, id, i);
            } else if previous is Some && has_id(es, previous->0) {
                let p = previous->0;
                let i = choose|i: int| 0 <= i < es.len() && entry_id(#[trigger] es[i]) == p;
                lemma_find_id_some(es, id, i);
            } else {
                lemma_find_id_some(es, id, 0);
            }
        },
        None => {},
    }
}

/// When the preferred entry is in the new list, it is the one selected:
/// the selection points at an entry with the preferred path and section.
pub proof fn lemma_preferred_entry_is_selected(
    es: Seq<EntryView>,
    path: Seq<char>,
    section: ChangeSection,
    previous: Option<Seq<char>>,
    k: int,
)
    requires
        0 <= k < es.len(),
        es[k].path == path,
        es[k].section == section,
    ensures
        ({
            let selected = selection_after(es, Some((path, section)), previous);
            &&& selected is Some
            &&& selected_index(es, selected) matches Some(i) && es[i].path == path
                && es[i].section == section
        }),
{
    let id = entry_id(es[k]);
    assert(selection_after(es, Some((path, section)), previous) == Some(id));
    lemma_find_id_some(es, id, k);
    let i = find_id_from(es, id, 0)->0;
    crate::model::lemma_entry_id_injective(es[i], es[k]);
}

/// No key press breaks the selection: if it named an entry of the list
/// (or nothing, for an empty list) before the key, it does after it.
pub proof fn lemma_keys_keep_selection_valid(before: AppState, after: AppState, key: KeyInput, r: KeyOutcome)
    requires
        before.selection_valid(),
        AppState::key_post(before, after, key, r),
    ensures
        after.selection_valid(),
{
    match key_command(before.focus, key) {
        KeyCommand::MoveSelection(delta) => {
            if before.changes@.len() > 0 {
                let es = before.entries();
                let current = match selected_index(es, before.selected()) {
                    Some(i) => i,
                    None => 0,
                };
                let next = moved_index(current, delta as int, es.len() as int);
                lemma_moved_index_in_list(current, delta as int, es.len() as int);
                assert(es.len() == before.changes@.len());
                assert(after.entries() == es);
                assert(entry_id(after.entries()[next]) == after.selected()->0);
            }
        },
        _ => {},
    }
}

/// Unstaging right after staging undoes the staging request: when `s`
/// staged the selected unstaged or untracked file at `path` (`before` to
/// `staged`), and the status taken afterwards (`staged` to `refreshed`, as
/// [`AppState::finish_action`] takes it) lists `path` as staged, then `u`
/// (`refreshed` to `after`) asks git to unstage that same path, prefers its
/// unstaged entry next, and reports "Unstaged selected file.".
pub proof fn lemma_unstage_after_stage_names_the_same_file(
    before: AppState,
    staged: AppState,
    stage: PendingAction,
    refreshed: AppState,
    after: AppState,
    unstage: Option<PendingAction>,
)
    requires
        before.selection_valid(),
        before.selected_section() matches Some(section) && section != ChangeSection::Staged,
        AppState::stage_post(before, staged, Some(stage)),
        refreshed.selection_valid(),
        refreshed.selected() == selection_after(
            refreshed.entries(),
            preferred_view(stage.preferred),
            staged.selected(),
        ),
        stage.request matches GitRequest::Stage(path) && exists|i: int|
            0 <= i < refreshed.entries().len() && (#[trigger] refreshed.entries()[i]).path == path@
                && refreshed.entries()[i].section == ChangeSection::Staged,
        AppState::unstage_post(refreshed, after, unstage),
    ensures
        stage.request matches GitRequest::Stage(path) && (unstage matches Some(u) && u.request matches GitRequest::Unstage(
            back,
        ) && back@ == path@ && preferred_view(u.preferred) == Some((path@, ChangeSection::Unstaged))
            && u.success@ == "Unstaged selected file."@),
{
    let path = stage.request->Stage_0;
    let es = refreshed.entries();
    let target = EntryView {
        section: ChangeSection::Staged,
        path: path@,
        original_path: None,
        staged_status: None,
        unstaged_status: None,
        additions: 0,
        deletions: 0,
    };
    assert(refreshed.selected() == Some(entry_id(target)));
    lemma_valid_selection_finds_an_entry(refreshed);
    let i = selected_index(es, refreshed.selected())->0;
    crate::model::lemma_entry_id_injective(es[i], target);
    assert(es[i].section == ChangeSection::Staged && es[i].path == path@);
}

/// No step breaks the selection: if it named an entry of the list (or
/// nothing, for an empty list) before the step, it does after it.
pub proof fn lemma_step_keeps_selection_valid(before: AppState, step: Step, after: AppState)
    requires
        before.selection_valid(),
        AppState::step_post(before, step, after),
    ensures
        after.selection_valid(),
{
    match step {
        Step::Key(key, r) => lemma_keys_keep_selection_valid(before, after, key, r),
        Step::Status(preferred) => {
            lemma_selection_after_is_valid(after.entries(), preferred, before.selected());
            assert(after.entries().len() == after.changes@.len());
        },
        Step::Diff => {
            assert(after.entries() == before.entries());
        },
    }
}

/// The selection stays valid through any run of steps: from a screen whose
/// selection is valid, such as the one [`AppState::new`] gives, every
/// screen that the steps lead to has a valid selection, so
/// [`AppState::selected_entry`] finds the first entry with the selected id
/// whenever the list is not empty.
pub proof fn lemma_selection_valid_through_steps(states: Seq<AppState>, steps: Seq<Step>)
    requires
        states.len() == steps.len() + 1,
        states[0].selection_valid(),
        forall|i: int|
            0 <= i < steps.len() ==> AppState::step_post(states[i], #[trigger] steps[i], states[i + 1]),
    ensures
        forall|i: int| 0 <= i < states.len() ==> (#[trigger] states[i]).selection_valid(),
{
    assert forall|i: int| 0 <= i < states.len() implies (#[trigger] states[i]).selection_valid() by {
        lemma_valid_at(states, steps, i);
    }
}

proof fn lemma_valid_at(states: Seq<AppState>, steps: Seq<Step>, k: int)
    requires
        states.len() == steps.len() + 1,
        states[0].selection_valid(),
        forall|i: int|
            0 <= i < steps.len() ==> AppState::step_post(states[i], #[trigger] steps[i], states[i + 1]),
        0 <= k < states.len(),
    ensures
        states[k].selection_valid(),
    decreases k,
{
    if k > 0 {
        lemma_valid_at(states, steps, k - 1);
        assert(AppState::step_post(states[k - 1], steps[k - 1], states[k]));
        lemma_step_keeps_selection_valid(states[k - 1], steps[k - 1], states[k]);
    }
}

/// A valid selection always finds its entry: the first one with the
/// selected id, and there is one exactly when the list is not empty.
pub proof fn lemma_valid_selection_finds_an_entry(app: AppState)
    requires
        app.selection_valid(),
    ensures
        selected_index(app.entries(), app.selected()) is Some <==> app.changes@.len() > 0,
        selected_index(app.entries(), app.selected()) matches Some(i) ==> 0 <= i
            < app.changes@.len() && Some(entry_id(app.entries()[i])) == app.selected(),
{
    let es = app.entries();
    assert(es.len() == app.changes@.len());
    match app.selected() {
        Some(id) => {
            let k = choose|k: int| 0 <= k < es.len() && entry_id(#[trigger] es[k]) == id;
            lemma_find_id_some(es, id, k);
        },
        None => {},
    }
}

/// A move stays within the list.
pub proof fn lemma_moved_index_in_list(current: int, delta: int, len: int)
    requires
        len > 0,
    ensures
        0 <= moved_index(current, delta, len) < len,
{
}

/// The three sections together hold every entry of the list.
pub proof fn lemma_section_counts_sum(es: Seq<EntryView>)
    ensures
        es.filter(|e: EntryView| e.section == ChangeSection::Staged).len() + es.filter(
            |e: EntryView| e.section == ChangeSection::Unstaged,
        ).len() + es.filter(|e: EntryView| e.section == ChangeSection::Untracked).len()
            == es.len(),
    decreases es.len(),
{
    let p0 = |e: EntryView| e.section == ChangeSection::Staged;
    let p1 = |e: EntryView| e.section == ChangeSection::Unstaged;
    let p2 = |e: EntryView| e.section == ChangeSection::Untracked;
    if es.len() > 0 {
        let init = es.drop_last();
        lemma_section_counts_sum(init);
        assert(es =~= init.push(es.last()));
        init.lemma_filter_push(es.last(), p0);
        init.lemma_filter_push(es.last(), p1);
        init.lemma_filter_push(es.last(), p2);
    } else {
        assert(es.filter(p0) =~= Seq::<EntryView>::empty());
        assert(es.filter(p1) =~= Seq::<EntryView>::empty());
        assert(es.filter(p2) =~= Seq::<EntryView>::empty());
    }
}

/// What the search for an id finds is an entry with that id.
proof fn lemma_find_id_result(es: Seq<EntryView>, id: Seq<char>, from: int)
    requires
        0 <= from,
    ensures
        find_id_from(es, id, from) matches Some(k) ==> from <= k < es.len() && entry_id(es[k]) == id,
    decreases es.len() - from,
{
    if from < es.len() && entry_id(es[from]) != id {
        lemma_find_id_result(es, id, from + 1);
    }
}

/// An entry with the id `id` at position `i`, and none before it, is the
/// one that the search from the start finds.
proof fn lemma_find_id_some(es: Seq<EntryView>, id: Seq<char>, i: int)
    requires
        0 <= i < es.len(),
        entry_id(es[i]) == id,
    ensures
        find_id_from(es, id, 0) is Some,
        0 <= find_id_from(es, id, 0)->0 <= i,
        entry_id(es[find_id_from(es, id, 0)->0]) == id,
{
    lemma_find_id_from(es, id, 0, i);
}

proof fn lemma_find_id_from(es: Seq<EntryView>, id: Seq<char>, from: int, i: int)
    requires
        0 <= from <= i < es.len(),
        entry_id(es[i]) == id,
    ensures
        find_id_from(es, id, from) is Some,
        from <= find_id_from(es, id, from)->0 <= i,
        entry_id(es[find_id_from(es, id, from)->0]) == id,
    decreases i - from,
{
    if entry_id(es[from]) != id {
        lemma_find_id_from(es, id, from + 1, i);
    }
}


/// In the file list `k` and Up move the selection one entry up, stopping at
/// the first entry, and `j` and Down one entry down, stopping at the last;
/// the list itself stays as it was.
pub proof fn lemma_vertical_keys_move_one_entry(
    before: AppState,
    after: AppState,
    key: KeyInput,
    r: KeyOutcome,
)
    requires
        before.focus == FocusArea::FileList,
        before.selection_valid(),
        before.changes@.len() > 0,
        key == KeyInput::Char('k') || key == KeyInput::Up || key == KeyInput::Char('j') || key
            == KeyInput::Down,
        AppState::key_post(before, after, key, r),
    ensures
        ({
            let es = before.entries();
            let i = selected_index(es, before.selected())->0;
            let j = if key == KeyInput::Char('k') || key == KeyInput::Up {
                if i > 0 {
                    i - 1
                } else {
                    0
                }
            } else {
                if i + 1 < es.len() {
                    i + 1
                } else {
                    i
                }
            };
            &&& 0 <= i < es.len()
            &&& after.selected() == Some(entry_id(es[j]))
            &&& after.changes == before.changes
        }),
{
    lemma_valid_selection_finds_an_entry(before);
    assert(before.entries().len() == before.changes@.len());
}

} // verus!
