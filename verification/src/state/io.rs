//! Opening a project and keeping the state in step with the disk: the
//! tree, git's view of the files, and the files that disappeared.
use super::selection::search_query;
use super::{next_generation, opt_view, AppState, GitStatus};
use crate::collections::{lemma_push_no_duplicates, lemma_push_to_set, string_views, PathMap};
use crate::fs_tree::{capped, match_count, match_paths, TreeNode};
use crate::text::push_str;
use vstd::prelude::*;

verus! {

/// What git reports for one path, as flags: new (in the work tree or the
/// index), modified, deleted.
pub struct GitEntry {
    pub path: String,
    pub is_new: bool,
    pub is_modified: bool,
    pub is_deleted: bool,
}

/// The status shown for a git entry: new files count as untracked, then
/// modified, then deleted; other entries get none.
pub open spec fn git_status_of(is_new: bool, is_modified: bool, is_deleted: bool) -> Option<GitStatus> {
    if is_new {
        Some(GitStatus::Untracked)
    } else if is_modified {
        Some(GitStatus::Modified)
    } else if is_deleted {
        Some(GitStatus::Deleted)
    } else {
        None
    }
}

/// The status shown for a git entry.
pub fn classify_git_status(is_new: bool, is_modified: bool, is_deleted: bool) -> (res: Option<GitStatus>)
    ensures
        res == git_status_of(is_new, is_modified, is_deleted),
{
    if is_new {
        Some(GitStatus::Untracked)
    } else if is_modified {
        Some(GitStatus::Modified)
    } else if is_deleted {
        Some(GitStatus::Deleted)
    } else {
        None
    }
}

/// The statuses of the first `n` entries, later entries overriding earlier
/// ones for the same path.
pub open spec fn git_map(entries: Seq<GitEntry>, n: int) -> Map<Seq<char>, GitStatus>
    decreases n,
{
    if n <= 0 {
        Map::empty()
    } else {
        let before = git_map(entries, n - 1);
        let e = entries[n - 1];
        match git_status_of(e.is_new, e.is_modified, e.is_deleted) {
            Some(s) => before.insert(e.path@, s),
            None => before,
        }
    }
}

/// What each combination of git flags shows: any new file is untracked,
/// whatever else is set; otherwise a modified file is modified, otherwise a
/// deleted file is deleted, and a file with no flag shows nothing.
pub proof fn lemma_git_status_flags(m: bool, d: bool)
    ensures
        git_status_of(true, m, d) == Some(GitStatus::Untracked),
        git_status_of(false, true, d) == Some(GitStatus::Modified),
        git_status_of(false, false, true) == Some(GitStatus::Deleted),
        git_status_of(false, false, false) is None,
{
}

/// The statuses recorded for git's entries: a path is recorded only when an
/// entry names it with some flag set; and the last entry for a path decides
/// its status: untracked when new (whatever else is set), modified when
/// modified, deleted when deleted.
pub proof fn lemma_git_map_entries(entries: Seq<GitEntry>, i: int)
    requires
        0 <= i < entries.len(),
        forall|j: int| i < j < entries.len() ==> (#[trigger] entries[j]).path@ != entries[i].path@,
    ensures
        ({
            let e = entries[i];
            let m = git_map(entries, entries.len() as int);
            &&& e.is_new ==> m.dom().contains(e.path@) && m[e.path@] == GitStatus::Untracked
            &&& !e.is_new && e.is_modified ==> m.dom().contains(e.path@) && m[e.path@]
                == GitStatus::Modified
            &&& !e.is_new && !e.is_modified && e.is_deleted ==> m.dom().contains(e.path@)
                && m[e.path@] == GitStatus::Deleted
        }),
{
    let n = entries.len() as int;
    lemma_git_map_keeps_later(entries, i, n);
}

/// Between the entry at `i` and position `n`, no entry names its path
/// again, so the status the entry set stays.
proof fn lemma_git_map_keeps_later(entries: Seq<GitEntry>, i: int, n: int)
    requires
        0 <= i < n <= entries.len(),
        forall|j: int| i < j < n ==> (#[trigger] entries[j]).path@ != entries[i].path@,
    ensures
        ({
            let e = entries[i];
            let m = git_map(entries, n);
            git_status_of(e.is_new, e.is_modified, e.is_deleted) matches Some(st) ==> m.dom().contains(
                e.path@,
            ) && m[e.path@] == st
        }),
    decreases n,
{
    if n > i + 1 {
        lemma_git_map_keeps_later(entries, i, n - 1);
    }
}

/// A path is recorded only when some entry names it with a flag set.
pub proof fn lemma_git_map_only_flagged(entries: Seq<GitEntry>, n: int, p: Seq<char>)
    requires
        0 <= n <= entries.len(),
        git_map(entries, n).dom().contains(p),
    ensures
        exists|j: int|
            0 <= j < n && (#[trigger] entries[j]).path@ == p && (entries[j].is_new
                || entries[j].is_modified || entries[j].is_deleted),
    decreases n,
{
    if n > 0 {
        let e = entries[n - 1];
        if e.path@ == p && (e.is_new || e.is_modified || e.is_deleted) {
        } else {
            lemma_git_map_only_flagged(entries, n - 1, p);
        }
    }
}

/// The entries of `s` whose flag is set, in order.
pub open spec fn keep_flagged(s: Seq<Seq<char>>, flags: Seq<bool>) -> Seq<Seq<char>>
    decreases s.len(),
{
    if s.len() == 0 {
        s
    } else {
        let rest = keep_flagged(s.drop_last(), flags);
        if flags[s.len() - 1] {
            rest.push(s.last())
        } else {
            rest
        }
    }
}

proof fn lemma_keep_flagged(s: Seq<Seq<char>>, flags: Seq<bool>)
    requires
        s.no_duplicates(),
    ensures
        keep_flagged(s, flags).no_duplicates(),
        keep_flagged(s, flags).to_set().subset_of(s.to_set()),
        keep_flagged(s, flags).len() <= s.len(),
    decreases s.len(),
{
    if s.len() > 0 {
        let d = s.drop_last();
        assert(d.no_duplicates()) by {
            assert forall|a: int, b: int| 0 <= a < d.len() && 0 <= b < d.len() && a != b implies d[a]
                != d[b] by {
                assert(d[a] == s[a]);
                assert(d[b] == s[b]);
            }
        }
        lemma_keep_flagged(d, flags);
        let r = keep_flagged(d, flags);
        lemma_push_to_set(d, s.last());
        assert(s =~= d.push(s.last()));
        if flags[s.len() - 1] {
            assert(!d.contains(s.last())) by {
                if d.contains(s.last()) {
                    let k = choose|k: int| 0 <= k < d.len() && d[k] == s.last();
                    assert(s[k] == s[s.len() - 1]);
                }
            }
            assert(!r.contains(s.last())) by {
                if r.contains(s.last()) {
                    assert(r.to_set().contains(s.last()));
                }
            }
            lemma_push_no_duplicates(r, s.last());
            lemma_push_to_set(r, s.last());
        }
    }
}

/// The status after opening a folder.
pub open spec fn opened_status(path: Seq<char>) -> Seq<char> {
    "Opened folder: "@ + path
}

/// The status after a folder could not be opened.
pub open spec fn open_error_status(e: Seq<char>) -> Seq<char> {
    "Error opening folder: "@ + e
}

/// An item dropped on the window: its path and whether it is a directory.
pub struct DroppedItem {
    pub path: String,
    pub is_dir: bool,
}

/// The position, from `i` on, of the first dropped item with a path that is
/// a directory, or the number of items when there is none.
pub open spec fn first_folder(items: Seq<DroppedItem>, i: int) -> int
    decreases items.len() - i,
{
    if i < 0 || i >= items.len() {
        items.len() as int
    } else if items[i].path@.len() > 0 && items[i].is_dir {
        i
    } else {
        first_folder(items, i + 1)
    }
}

/// The last dropped item before position `k` with a path that is not a
/// directory.
pub open spec fn last_rejected(items: Seq<DroppedItem>, k: int) -> Option<int>
    decreases k,
{
    if k <= 0 {
        None
    } else if items[k - 1].path@.len() > 0 && !items[k - 1].is_dir {
        Some(k - 1)
    } else {
        last_rejected(items, k - 1)
    }
}

impl<T> AppState<T> {
    /// Replaces the git statuses with those of `entries` (nothing without a
    /// project).
    pub fn refresh_git_status(&mut self, entries: &Vec<GitEntry>)
        requires
            old(self).wf(),
        ensures
            final(self).wf(),
            old(self).project_root is None ==> final(self).git_statuses.view() == Map::<
                Seq<char>,
                GitStatus,
            >::empty(),
            old(self).project_root is Some ==> final(self).git_statuses.view() == git_map(
                entries@,
                entries@.len() as int,
            ),
            final(self).config == old(self).config,
            final(self).project_root == old(self).project_root,
            final(self).file_tree == old(self).file_tree,
            final(self).output_path == old(self).output_path,
            final(self).filter_ignored == old(self).filter_ignored,
            final(self).preview_mode == old(self).preview_mode,
            final(self).same_list(&*old(self)),
            final(self).same_tree_marks(&*old(self)),
            final(self).same_preview(&*old(self)),
            final(self).status == old(self).status,
    {
        self.git_statuses.clear();
        if self.project_root.is_none() {
            return;
        }
        let n = entries.len();
        for i in 0..n
            invariant
                n == entries@.len(),
                self.wf(),
                self.project_root is Some,
                self.git_statuses.view() == git_map(entries@, i as int),
                self.config == old(self).config,
                self.project_root == old(self).project_root,
                self.file_tree == old(self).file_tree,
                self.output_path == old(self).output_path,
                self.filter_ignored == old(self).filter_ignored,
                self.preview_mode == old(self).preview_mode,
                self.same_list(&*old(self)),
                self.same_tree_marks(&*old(self)),
                self.same_preview(&*old(self)),
                self.status == old(self).status,
        {
            let e = &entries[i];
            match classify_git_status(e.is_new, e.is_modified, e.is_deleted) {
                Some(s) => self.git_statuses.insert(e.path.clone(), s),
                None => {},
            }
        }
    }

    /// Opens the folder `path`, given what git reports for it and the tree a
    /// walk of it gave (or the walk's error). On success the project starts
    /// afresh: nothing selected, listed, checked, previewed or searched, no
    /// output file, an empty highlight cache.
    pub fn open_folder(&mut self, path: String, git: &Vec<GitEntry>, tree: Result<TreeNode, String>)
        requires
            old(self).wf(),
        ensures
            final(self).wf(),
            opt_view(final(self).project_root) == Some(path@),
            final(self).git_statuses.view() == git_map(git@, git@.len() as int),
            tree matches Ok(t) ==> {
                &&& final(self).file_tree == Some(t)
                &&& final(self).selected_tree_file is None
                &&& final(self).preview_path is None
                &&& final(self).preview_content is None
                &&& final(self).selected_files@.len() == 0
                &&& final(self).export_modes.view() == Map::<Seq<char>, super::ExportMode>::empty()
                &&& final(self).active_list_index is None
                &&& final(self).highlight_cache.sizes() == Map::<Seq<char>, usize>::empty()
                &&& !final(self).highlight_pending
                &&& final(self).highlight_generation == next_generation(old(self).highlight_generation)
                &&& final(self).checked_files@ == Set::<Seq<char>>::empty()
                &&& final(self).checked_dirs@ == Set::<Seq<char>>::empty()
                &&& final(self).output_path is None
                &&& final(self).tree_search@.len() == 0
                &&& final(self).search_matches is None
                &&& final(self).search_match_count == 0
                &&& final(self).status@ == opened_status(path@)
                &&& final(self).checked_export_files == old(self).checked_export_files
            },
            tree matches Err(e) ==> {
                &&& final(self).status@ == open_error_status(e@)
                &&& final(self).file_tree == old(self).file_tree
                &&& final(self).output_path == old(self).output_path
                &&& final(self).same_list(&*old(self))
                &&& final(self).same_tree_marks(&*old(self))
                &&& final(self).same_preview(&*old(self))
            },
            final(self).config == old(self).config,
            final(self).filter_ignored == old(self).filter_ignored,
            final(self).preview_mode == old(self).preview_mode,
    {
        let label = path.clone();
        self.project_root = Some(path);
        self.refresh_git_status(git);
        match tree {
            Ok(t) => {
                self.file_tree = Some(t);
                self.selected_tree_file = None;
                self.preview_path = None;
                self.preview_content = None;
                self.selected_files.clear();
                self.export_modes.clear();
                self.active_list_index = None;
                assert(self.selected() =~= Seq::<Seq<char>>::empty());
                assert(self.selected().to_set() =~= Set::<Seq<char>>::empty());
                self.clear_preview_cache();
                self.clear_checked();
                self.output_path = None;
                self.tree_search = String::new();
                self.recompute_search();
                let mut status = String::new();
                push_str(&mut status, "Opened folder: ");
                push_str(&mut status, label.as_str());
                self.status = status;
            },
            Err(e) => {
                let mut status = String::new();
                push_str(&mut status, "Error opening folder: ");
                push_str(&mut status, e.as_str());
                self.status = status;
            },
        }
    }

    /// Brings the state in step with the disk, given what git reports, the
    /// tree a new walk gave (`None` where it failed), whether each listed
    /// file still exists, and whether the previewed file does. Vanished
    /// files leave the list with their modes and checks, the active entry
    /// is kept within the list, and a vanished preview is closed. Without a
    /// project nothing changes.
    pub fn refresh_tree(&mut self, git: &Vec<GitEntry>, tree: Option<TreeNode>, exists: &Vec<bool>, preview_exists: bool)
        requires
            old(self).wf(),
            exists@.len() == old(self).selected_files@.len(),
        ensures
            final(self).wf(),
            old(self).project_root is None ==> *final(self) == *old(self),
            old(self).project_root is Some ==> {
                let kept = keep_flagged(old(self).selected(), exists@);
                &&& final(self).git_statuses.view() == git_map(git@, git@.len() as int)
                &&& (tree matches Some(t) ==> final(self).file_tree == Some(t))
                &&& (tree is None ==> final(self).file_tree == old(self).file_tree)
                &&& final(self).selected() == kept
                &&& final(self).export_modes.view() == old(self).export_modes.view().restrict(kept.to_set())
                &&& final(self).checked_export_files@ == (if kept.len() < old(self).selected().len() {
                    old(self).checked_export_files@.intersect(kept.to_set())
                } else {
                    old(self).checked_export_files@
                })
                &&& (old(self).preview_path is Some && !preview_exists) ==> {
                    &&& final(self).preview_path is None
                    &&& final(self).preview_content is None
                    &&& final(self).selected_tree_file is None
                    &&& final(self).active_list_index is None
                    &&& !final(self).highlight_pending
                    &&& final(self).highlight_generation == next_generation(old(self).highlight_generation)
                }
                &&& !(old(self).preview_path is Some && !preview_exists) ==> {
                    &&& final(self).preview_path == old(self).preview_path
                    &&& final(self).preview_content == old(self).preview_content
                    &&& final(self).selected_tree_file == old(self).selected_tree_file
                    &&& final(self).highlight_pending == old(self).highlight_pending
                    &&& final(self).highlight_generation == old(self).highlight_generation
                    &&& final(self).active_list_index == match old(self).active_list_index {
                        Some(i) => if i >= kept.len() && kept.len() < old(self).selected().len() {
                            if kept.len() == 0 {
                                None
                            } else {
                                Some((kept.len() - 1) as usize)
                            }
                        } else {
                            Some(i)
                        },
                        None => None,
                    }
                }
                &&& final(self).highlight_cache == old(self).highlight_cache
                &&& final(self).checked_files == old(self).checked_files
                &&& final(self).checked_dirs == old(self).checked_dirs
                &&& final(self).tree_search == old(self).tree_search
                &&& (tree is None ==> final(self).search_matches == old(self).search_matches
                    && final(self).search_match_count == old(self).search_match_count)
                &&& (tree matches Some(t) ==> {
                    let q = search_query(old(self).tree_search@);
                    if q.len() == 0 {
                        final(self).search_matches is None && final(self).search_match_count == 0
                    } else {
                        &&& final(self).search_matches matches Some(m)
                        &&& m@ == match_paths(t, q)
                        &&& final(self).search_match_count == capped(match_count(t, q) as int)
                    }
                })
                &&& final(self).status == old(self).status
            },
            final(self).config == old(self).config,
            final(self).project_root == old(self).project_root,
            final(self).output_path == old(self).output_path,
            final(self).filter_ignored == old(self).filter_ignored,
            final(self).preview_mode == old(self).preview_mode,
    {
        if self.project_root.is_none() {
            return;
        }
        self.refresh_git_status(git);
        match tree {
            Some(t) => {
                self.file_tree = Some(t);
                self.recompute_search();
            },
            None => {},
        }
        let ghost sel0 = self.selected();
        let ghost modes0 = self.export_modes.view();
        proof {
            lemma_keep_flagged(sel0, exists@);
        }
        let before_len = self.selected_files.len();
        let mut kept: Vec<String> = Vec::new();
        for i in 0..before_len
            invariant
                before_len == self.selected_files@.len(),
                exists@.len() == before_len,
                self.selected() == sel0,
                string_views(kept@) == keep_flagged(sel0.take(i as int), exists@),
        {
            proof {
                assert(sel0.take(i + 1).drop_last() =~= sel0.take(i as int));
                assert(sel0.take(i + 1).last() == self.selected_files@[i as int]@);
            }
            if exists[i] {
                let ghost prev = kept@;
                kept.push(self.selected_files[i].clone());
                assert(string_views(kept@) =~= string_views(prev).push(self.selected_files@[i as int]@));
            }
        }
        assert(sel0.take(before_len as int) =~= sel0);
        self.selected_files = kept;
        proof {
            assert(modes0.dom() == sel0.to_set());
        }
        if self.selected_files.len() < before_len {
            self.checked_export_files.retain_in(&self.selected_files);
            self.export_modes.retain_keys(&self.selected_files);
            match self.active_list_index {
                Some(idx) => {
                    if idx >= self.selected_files.len() {
                        self.active_list_index = if self.selected_files.len() == 0 {
                            None
                        } else {
                            Some(self.selected_files.len() - 1)
                        };
                    }
                },
                None => {},
            }
        } else {
            proof {
                // nothing was dropped: the kept list is the old one
                lemma_keep_all(sel0, exists@);
                assert(modes0 =~= modes0.restrict(self.selected().to_set()));
            }
        }
        proof {
            assert(self.export_modes.view().dom() =~= self.selected().to_set());
        }
        let vanished = match &self.preview_path {
            Some(_) => !preview_exists,
            None => false,
        };
        if vanished {
            self.close_preview();
        }
    }

    /// Sets whether ignored and hidden files are left out of the tree; when
    /// that changes, the checks are cleared, the status says so, and `true`
    /// tells the caller to refresh the tree.
    pub fn set_filter_ignored(&mut self, on: bool) -> (res: bool)
        requires
            old(self).wf(),
        ensures
            final(self).wf(),
            res == (old(self).filter_ignored != on),
            !res ==> *final(self) == *old(self),
            res ==> {
                &&& final(self).filter_ignored == on
                &&& final(self).checked_files@ == Set::<Seq<char>>::empty()
                &&& final(self).checked_dirs@ == Set::<Seq<char>>::empty()
                &&& final(self).status@ == if on {
                    "Tree filter: hiding ignored + hidden files"@
                } else {
                    "Tree filter: showing all files"@
                }
                &&& final(self).selected_tree_file == old(self).selected_tree_file
                &&& final(self).tree_search == old(self).tree_search
                &&& final(self).search_matches == old(self).search_matches
                &&& final(self).search_match_count == old(self).search_match_count
                &&& final(self).same_list(&*old(self))
                &&& final(self).same_preview(&*old(self))
                &&& final(self).config == old(self).config
                &&& final(self).project_root == old(self).project_root
                &&& final(self).file_tree == old(self).file_tree
                &&& final(self).output_path == old(self).output_path
                &&& final(self).git_statuses == old(self).git_statuses
                &&& final(self).preview_mode == old(self).preview_mode
            },
    {
        if self.filter_ignored == on {
            return false;
        }
        self.filter_ignored = on;
        self.clear_checked();
        self.status = if on {
            "Tree filter: hiding ignored + hidden files".to_string()
        } else {
            "Tree filter: showing all files".to_string()
        };
        true
    }

    /// Reports a folder given on the command line that is not a directory.
    pub fn reject_cli_folder(&mut self, folder: &str)
        requires
            old(self).wf(),
        ensures
            final(self).wf(),
            final(self).status@ == "Error: CLI argument is not a valid directory: "@ + folder@,
            final(self).same_project(&*old(self)),
            final(self).same_list(&*old(self)),
            final(self).same_tree_marks(&*old(self)),
            final(self).same_preview(&*old(self)),
    {
        let mut status = String::new();
        push_str(&mut status, "Error: CLI argument is not a valid directory: ");
        push_str(&mut status, folder);
        self.status = status;
    }

    /// Reports a dropped item that is not a directory.
    pub fn reject_dropped_item(&mut self, item: &str)
        requires
            old(self).wf(),
        ensures
            final(self).wf(),
            final(self).status@ == "Error: Dropped item is not a directory: "@ + item@,
            final(self).same_project(&*old(self)),
            final(self).same_list(&*old(self)),
            final(self).same_tree_marks(&*old(self)),
            final(self).same_preview(&*old(self)),
    {
        let mut status = String::new();
        push_str(&mut status, "Error: Dropped item is not a directory: ");
        push_str(&mut status, item);
        self.status = status;
    }

    /// Takes the items dropped on the window, in order: items with an empty
    /// path are passed over, the first directory is returned to be opened
    /// and the items after it are not looked at; every file before it is
    /// reported, so the status names the last of them.
    pub fn take_dropped_items(&mut self, items: &Vec<DroppedItem>) -> (res: Option<String>)
        requires
            old(self).wf(),
        ensures
            final(self).wf(),
            ({
                let k = first_folder(items@, 0);
                &&& (k < items@.len() ==> (res matches Some(p) && p@ == items@[k].path@))
                &&& (k >= items@.len() ==> res is None)
                &&& match last_rejected(items@, k) {
                    Some(j) => final(self).status@ == "Error: Dropped item is not a directory: "@
                        + items@[j].path@,
                    None => final(self).status == old(self).status,
                }
            }),
            final(self).same_project(&*old(self)),
            final(self).same_list(&*old(self)),
            final(self).same_tree_marks(&*old(self)),
            final(self).same_preview(&*old(self)),
    {
        let n = items.len();
        let mut i: usize = 0;
        while i < n
            invariant
                n == items@.len(),
                i <= n,
                self.wf(),
                first_folder(items@, i as int) == first_folder(items@, 0),
                match last_rejected(items@, i as int) {
                    Some(j) => self.status@ == "Error: Dropped item is not a directory: "@
                        + items@[j].path@,
                    None => self.status == old(self).status,
                },
                self.same_project(&*old(self)),
                self.same_list(&*old(self)),
                self.same_tree_marks(&*old(self)),
                self.same_preview(&*old(self)),
            decreases n - i,
        {
            let item = &items[i];
            if item.path.as_str().is_empty() {
                i = i + 1;
                continue;
            }
            if item.is_dir {
                return Some(item.path.clone());
            }
            self.reject_dropped_item(item.path.as_str());
            i = i + 1;
        }
        None
    }

    /// Whether the export commands are available: a project is open and
    /// files are listed.
    pub fn can_export(&self) -> (res: bool)
        ensures
            res == (self.project_root is Some && self.selected_files@.len() > 0),
    {
        self.project_root.is_some() && self.selected_files.len() > 0
    }
}

/// Keeping entries without losing any keeps the whole list.
proof fn lemma_keep_all(s: Seq<Seq<char>>, flags: Seq<bool>)
    requires
        keep_flagged(s, flags).len() >= s.len(),
    ensures
        keep_flagged(s, flags) == s,
    decreases s.len(),
{
    if s.len() > 0 {
        let d = s.drop_last();
        lemma_keep_len(d, flags);
        if flags[s.len() - 1] {
            lemma_keep_all(d, flags);
            assert(s =~= d.push(s.last()));
        }
    }
}

proof fn lemma_keep_len(s: Seq<Seq<char>>, flags: Seq<bool>)
    ensures
        keep_flagged(s, flags).len() <= s.len(),
    decreases s.len(),
{
    if s.len() > 0 {
        lemma_keep_len(s.drop_last(), flags);
    }
}

} // verus!
