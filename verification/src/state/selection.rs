//! The export list and the checks in the tree and in the list.
use super::preview::PreviewLoad;
use super::{next_generation, opt_view, AppState, ExportMode, PreviewMode};
use crate::collections::{
    lemma_push_no_duplicates, lemma_push_to_set, lemma_remove_no_duplicates, string_views,
    PathSet,
};
use crate::pathname::{rel_path_label, to_rel_path_string};
use crate::fs_tree::{
    capped, checked_dirs_of, mark_checked_dirs, mark_matches, match_count, match_paths,
    TreeNode,
};
use crate::pathname::{lemma_sort_paths, sort_paths, sort_paths_in_order};
use crate::text::{chars_of, decimal, push_decimal, push_str, spec_to_lowercase, spec_trim, to_lowercase, trim};
use vstd::prelude::*;

verus! {

/// The status after adding a file with the label `label`.
pub open spec fn added_status(label: Seq<char>) -> Seq<char> {
    "Added file: "@ + label
}

/// The status after trying to add a file that is already listed.
pub open spec fn already_listed_status(label: Seq<char>) -> Seq<char> {
    "File already in export list: "@ + label
}

/// The status after removing a file from the list.
pub open spec fn removed_status(label: Seq<char>) -> Seq<char> {
    "Removed file: "@ + label
}

/// `paths` as a set of character sequences.
pub open spec fn path_set(paths: Seq<String>) -> Set<Seq<char>> {
    string_views(paths).to_set()
}

/// The export mode of a path: as recorded, or `Full`.
pub open spec fn mode_of(modes: Map<Seq<char>, ExportMode>, p: Seq<char>) -> ExportMode {
    if modes.dom().contains(p) {
        modes[p]
    } else {
        ExportMode::Full
    }
}

/// The export list `sel` after adding the files `paths` one by one:
/// directories (those in `dirs`) and files already listed are skipped.
pub open spec fn add_paths(sel: Seq<Seq<char>>, paths: Seq<Seq<char>>, dirs: Set<Seq<char>>) -> Seq<
    Seq<char>,
>
    decreases paths.len(),
{
    if paths.len() == 0 {
        sel
    } else {
        let prev = add_paths(sel, paths.drop_last(), dirs);
        let p = paths.last();
        if dirs.contains(p) || prev.contains(p) {
            prev
        } else {
            prev.push(p)
        }
    }
}

/// `s` without the elements in `drop`, in order.
pub open spec fn without(s: Seq<Seq<char>>, drop: Set<Seq<char>>) -> Seq<Seq<char>>
    decreases s.len(),
{
    if s.len() == 0 {
        s
    } else {
        let rest = without(s.drop_last(), drop);
        if drop.contains(s.last()) {
            rest
        } else {
            rest.push(s.last())
        }
    }
}

/// Dropping elements keeps a list free of repeats, and its set of elements
/// loses exactly the dropped ones.
pub proof fn lemma_without(s: Seq<Seq<char>>, drop: Set<Seq<char>>)
    requires
        s.no_duplicates(),
    ensures
        without(s, drop).no_duplicates(),
        without(s, drop).to_set() == s.to_set().difference(drop),
    decreases s.len(),
{
    if s.len() > 0 {
        let d = s.drop_last();
        assert(d.no_duplicates()) by {
            assert forall|a: int, b: int| 0 <= a < d.len() && 0 <= b < d.len() && a != b implies d[a]
                != d[b] by {
                assert(d[a] == s[a]);
                assert(d[b] == s[b]);
            }
        }
        lemma_without(d, drop);
        let r = without(d, drop);
        assert(!d.contains(s.last())) by {
            if d.contains(s.last()) {
                let k = choose|k: int| 0 <= k < d.len() && d[k] == s.last();
                assert(s[k] == s[s.len() - 1]);
            }
        }
        lemma_push_to_set(d, s.last());
        assert(s =~= d.push(s.last()));
        if !drop.contains(s.last()) {
            assert(!r.contains(s.last())) by {
                if r.contains(s.last()) {
                    assert(r.to_set().contains(s.last()));
                }
            }
            lemma_push_no_duplicates(r, s.last());
            lemma_push_to_set(r, s.last());
            assert(r.push(s.last()).to_set() =~= s.to_set().difference(drop));
        } else {
            assert(r.to_set() =~= s.to_set().difference(drop));
        }
    }
}

/// Adding files keeps the list free of repeats and adds the new files to
/// its set of elements.
pub proof fn lemma_add_paths(sel: Seq<Seq<char>>, paths: Seq<Seq<char>>, dirs: Set<Seq<char>>)
    requires
        sel.no_duplicates(),
    ensures
        add_paths(sel, paths, dirs).no_duplicates(),
        sel.to_set().subset_of(add_paths(sel, paths, dirs).to_set()),
        forall|k: Seq<char>| #[trigger] add_paths(sel, paths, dirs).to_set().contains(k)
            ==> sel.to_set().contains(k) || (paths.to_set().contains(k) && !dirs.contains(k)),
    decreases paths.len(),
{
    if paths.len() > 0 {
        let d = paths.drop_last();
        lemma_add_paths(sel, d, dirs);
        let prev = add_paths(sel, d, dirs);
        let p = paths.last();
        assert(paths =~= d.push(p));
        lemma_push_to_set(d, p);
        if !(dirs.contains(p) || prev.contains(p)) {
            lemma_push_no_duplicates(prev, p);
            lemma_push_to_set(prev, p);
        }
    }
}

/// The export mode that toggling switches `m` to.
pub open spec fn other_mode(m: ExportMode) -> ExportMode {
    match m {
        ExportMode::Full => ExportMode::Diff,
        ExportMode::Diff => ExportMode::Full,
    }
}

/// Switching a listed file's export mode twice gives back the modes as they
/// were.
pub proof fn lemma_toggle_twice(
    m0: Map<Seq<char>, ExportMode>,
    m1: Map<Seq<char>, ExportMode>,
    m2: Map<Seq<char>, ExportMode>,
    path: Seq<char>,
)
    requires
        m0.dom().contains(path),
        m1 == m0.insert(path, other_mode(m0[path])),
        m2 == m1.insert(path, other_mode(m1[path])),
    ensures
        m2 == m0,
{
    assert(m2 =~= m0);
}

/// Adding a file that is not listed yet and then removing the last entry of
/// the list gives back the list and the export modes as they were.
pub proof fn lemma_add_then_remove<T>(
    s0: AppState<T>,
    s1: AppState<T>,
    s2: AppState<T>,
    path: Seq<char>,
    idx: usize,
    res: Option<PreviewLoad>,
)
    requires
        s0.wf(),
        !s0.selected().contains(path),
        s1.selected() == s0.selected().push(path),
        s1.export_modes.view() == s0.export_modes.view().insert(path, ExportMode::Full),
        idx == s0.selected_files@.len(),
        AppState::<T>::removed_entry(s1, s2, idx, res),
    ensures
        s2.selected() == s0.selected(),
        s2.export_modes.view() == s0.export_modes.view(),
{
    assert(s1.selected()[idx as int] == path);
    assert(s0.selected().push(path).remove(idx as int) =~= s0.selected());
    assert(!s0.export_modes.view().dom().contains(path)) by {
        if s0.selected().to_set().contains(path) {
            assert(s0.selected().contains(path));
        }
    }
    assert(s0.export_modes.view().insert(path, ExportMode::Full).remove(path) =~= s0.export_modes.view());
}

impl<T> AppState<T> {
    /// The label of `path` in messages and in the list.
    pub open spec fn label(&self, path: Seq<char>) -> Seq<char> {
        rel_path_label(opt_view(self.project_root), path)
    }

    /// Selects `path` in the tree and starts its preview; the list loses its
    /// active entry.
    pub fn select_tree_file(&mut self, path: String) -> (res: PreviewLoad)
        requires
            old(self).wf(),
            old(self).preview_mode == PreviewMode::Diff ==> old(self).project_root is Some,
        ensures
            final(self).wf(),
            opt_view(final(self).selected_tree_file) == Some(path@),
            final(self).active_list_index is None,
            final(self).started_preview(&*old(self), path@, res),
            final(self).selected_files == old(self).selected_files,
            final(self).export_modes == old(self).export_modes,
            final(self).checked_export_files == old(self).checked_export_files,
            final(self).tree_search == old(self).tree_search,
            final(self).search_matches == old(self).search_matches,
            final(self).search_match_count == old(self).search_match_count,
            final(self).checked_files == old(self).checked_files,
            final(self).checked_dirs == old(self).checked_dirs,
            final(self).same_project(&*old(self)),
            final(self).status == old(self).status,
    {
        self.selected_tree_file = Some(path.clone());
        self.active_list_index = None;
        self.load_preview(path)
    }

    /// Makes entry `idx` of the export list the active one and starts its
    /// preview; out-of-range positions change nothing.
    pub fn select_export_file(&mut self, idx: usize) -> (res: Option<PreviewLoad>)
        requires
            old(self).wf(),
            idx < old(self).selected_files@.len() && old(self).preview_mode == PreviewMode::Diff
                ==> old(self).project_root is Some,
        ensures
            final(self).wf(),
            idx >= old(self).selected_files@.len() ==> res is None && *final(self) == *old(self),
            idx < old(self).selected_files@.len() ==> {
                &&& final(self).active_list_index == Some(idx)
                &&& final(self).selected_tree_file is None
                &&& res matches Some(load) && final(self).started_preview(
                    &*old(self),
                    old(self).selected()[idx as int],
                    load,
                )
                &&& final(self).selected_files == old(self).selected_files
                &&& final(self).export_modes == old(self).export_modes
                &&& final(self).checked_export_files == old(self).checked_export_files
                &&& final(self).tree_search == old(self).tree_search
                &&& final(self).search_matches == old(self).search_matches
                &&& final(self).search_match_count == old(self).search_match_count
                &&& final(self).checked_files == old(self).checked_files
                &&& final(self).checked_dirs == old(self).checked_dirs
                &&& final(self).same_project(&*old(self))
                &&& final(self).status == old(self).status
            },
    {
        if idx < self.selected_files.len() {
            self.active_list_index = Some(idx);
            self.selected_tree_file = None;
            let path = self.selected_files[idx].clone();
            Some(self.load_preview(path))
        } else {
            None
        }
    }

    /// Adds a file to the end of the export list in `Full` mode. Directories
    /// are ignored; a file already listed is not added again.
    pub fn add_file_to_export(&mut self, path: String, is_dir: bool)
        requires
            old(self).wf(),
        ensures
            final(self).wf(),
            is_dir ==> *final(self) == *old(self),
            !is_dir && old(self).selected().contains(path@) ==> {
                &&& final(self).status@ == already_listed_status(old(self).label(path@))
                &&& final(self).selected_files == old(self).selected_files
                &&& final(self).export_modes == old(self).export_modes
            },
            !is_dir && !old(self).selected().contains(path@) ==> {
                &&& final(self).selected() == old(self).selected().push(path@)
                &&& final(self).export_modes.view() == old(self).export_modes.view().insert(
                    path@,
                    ExportMode::Full,
                )
                &&& final(self).status@ == added_status(old(self).label(path@))
            },
            final(self).active_list_index == old(self).active_list_index,
            final(self).checked_export_files == old(self).checked_export_files,
            final(self).same_tree_marks(&*old(self)),
            final(self).same_preview(&*old(self)),
            final(self).same_project(&*old(self)),
    {
        if is_dir {
            return;
        }
        let label = to_rel_path_string(self.project_root.as_ref(), path.as_str());
        proof {
            self.export_modes.lemma_keys();
        }
        if self.export_modes.contains_key(path.as_str()) {
            let mut status = String::new();
            push_str(&mut status, "File already in export list: ");
            push_str(&mut status, label.as_str());
            self.status = status;
            return;
        }
        let ghost old_sel = self.selected();
        self.selected_files.push(path.clone());
        self.export_modes.insert(path, ExportMode::Full);
        let mut status = String::new();
        push_str(&mut status, "Added file: ");
        push_str(&mut status, label.as_str());
        self.status = status;
        proof {
            let p = self.selected_files@.last()@;
            assert(self.selected() =~= old_sel.push(p));
            lemma_push_no_duplicates(old_sel, p);
            lemma_push_to_set(old_sel, p);
        }
    }

    /// Removes the active entry of the export list, if there is one (see
    /// `remove_file_by_index`).
    pub fn remove_selected_from_export(&mut self) -> (res: Option<PreviewLoad>)
        requires
            old(self).wf(),
            old(self).active_list_index is Some && old(self).selected_files@.len() > 1
                && old(self).preview_mode == PreviewMode::Diff ==> old(self).project_root is Some,
        ensures
            final(self).wf(),
            old(self).active_list_index is None ==> res is None && *final(self) == *old(self),
            old(self).active_list_index matches Some(i) ==> Self::removed_entry(
                *old(self),
                *final(self),
                i,
                res,
            ),
    {
        match self.active_list_index {
            Some(idx) => self.remove_file_by_index(idx),
            None => None,
        }
    }

    /// `new` is `old` after removing entry `idx` of the export list, which
    /// returned `res`: the file leaves the list, its mode and its check; the
    /// status says so; then the entry now at the same position (or the last
    /// one) becomes active and its preview starts, or, with the list empty,
    /// the preview is closed, the highlight cache emptied and the list's
    /// checks cleared.
    pub open spec fn removed_entry(old: Self, new: Self, idx: usize, res: Option<PreviewLoad>) -> bool {
        let removed = old.selected()[idx as int];
        &&& idx < old.selected_files@.len()
        &&& new.selected() == old.selected().remove(idx as int)
        &&& new.export_modes.view() == old.export_modes.view().remove(removed)
        &&& new.status@ == removed_status(old.label(removed))
        &&& new.same_project(&old)
        &&& if new.selected_files@.len() == 0 {
            &&& res is None
            &&& new.active_list_index is None
            &&& new.preview_path is None
            &&& new.preview_content is None
            &&& new.highlight_cache.sizes() == Map::<Seq<char>, usize>::empty()
            &&& !new.highlight_pending
            &&& new.highlight_generation == next_generation(old.highlight_generation)
            &&& new.checked_export_files@ == Set::<Seq<char>>::empty()
            &&& new.same_tree_marks(&old)
        } else {
            let next = if idx >= new.selected_files@.len() {
                (new.selected_files@.len() - 1) as usize
            } else {
                idx
            };
            &&& new.active_list_index == Some(next)
            &&& new.selected_tree_file is None
            &&& res matches Some(load) && new.started_preview(&old, new.selected()[next as int], load)
            &&& new.checked_export_files@ == old.checked_export_files@.remove(removed)
            &&& new.tree_search == old.tree_search
            &&& new.search_matches == old.search_matches
            &&& new.search_match_count == old.search_match_count
            &&& new.checked_files == old.checked_files
            &&& new.checked_dirs == old.checked_dirs
        }
    }

    /// Removes entry `idx` of the export list (see `removed_entry`); an
    /// out-of-range position changes nothing.
    pub fn remove_file_by_index(&mut self, idx: usize) -> (res: Option<PreviewLoad>)
        requires
            old(self).wf(),
            idx < old(self).selected_files@.len() && old(self).selected_files@.len() > 1
                && old(self).preview_mode == PreviewMode::Diff ==> old(self).project_root is Some,
        ensures
            final(self).wf(),
            idx >= old(self).selected_files@.len() ==> res is None && *final(self) == *old(self),
            idx < old(self).selected_files@.len() ==> Self::removed_entry(
                *old(self),
                *final(self),
                idx,
                res,
            ),
    {
        if idx >= self.selected_files.len() {
            return None;
        }
        let ghost old_sel = self.selected();
        proof {
            lemma_remove_no_duplicates(old_sel, idx as int);
        }
        let removed = self.selected_files.remove(idx);
        assert(self.selected() =~= old_sel.remove(idx as int));
        self.checked_export_files.remove(removed.as_str());
        self.export_modes.remove(removed.as_str());
        let label = to_rel_path_string(self.project_root.as_ref(), removed.as_str());
        let mut status = String::new();
        push_str(&mut status, "Removed file: ");
        push_str(&mut status, label.as_str());
        self.status = status;
        if self.selected_files.len() == 0 {
            self.active_list_index = None;
            self.preview_path = None;
            self.preview_content = None;
            self.clear_preview_cache();
            self.clear_export_checked();
            return None;
        }
        let new_idx = if idx >= self.selected_files.len() {
            self.selected_files.len() - 1
        } else {
            idx
        };
        self.active_list_index = None;
        self.select_export_file(new_idx)
    }

    /// Empties the export list and its modes and checks, and the highlight
    /// cache.
    pub fn clear_all_export_files(&mut self)
        requires
            old(self).wf(),
        ensures
            final(self).wf(),
            final(self).selected_files@.len() == 0,
            final(self).checked_export_files@ == Set::<Seq<char>>::empty(),
            final(self).export_modes.view() == Map::<Seq<char>, ExportMode>::empty(),
            final(self).active_list_index is None,
            final(self).highlight_cache.sizes() == Map::<Seq<char>, usize>::empty(),
            !final(self).highlight_pending,
            final(self).highlight_generation == next_generation(old(self).highlight_generation),
            final(self).preview_path == old(self).preview_path,
            final(self).preview_content == old(self).preview_content,
            final(self).status@ == "Cleared all selected files"@,
            final(self).same_tree_marks(&*old(self)),
            final(self).same_project(&*old(self)),
    {
        self.selected_files.clear();
        self.checked_export_files.clear();
        self.export_modes.clear();
        self.active_list_index = None;
        assert(self.selected() =~= Seq::<Seq<char>>::empty());
        assert(self.selected().to_set() =~= Set::<Seq<char>>::empty());
        self.clear_preview_cache();
        self.status = "Cleared all selected files".to_string();
    }

    /// Checks (or unchecks) the files `paths` in the tree.
    pub fn set_checked(&mut self, paths: Vec<String>, checked: bool)
        requires
            old(self).wf(),
        ensures
            final(self).wf(),
            checked ==> final(self).checked_files@ == old(self).checked_files@.union(
                path_set(paths@),
            ),
            !checked ==> final(self).checked_files@ == old(self).checked_files@.difference(
                path_set(paths@),
            ),
            final(self).checked_dirs == old(self).checked_dirs,
            final(self).selected_tree_file == old(self).selected_tree_file,
            final(self).tree_search == old(self).tree_search,
            final(self).search_matches == old(self).search_matches,
            final(self).search_match_count == old(self).search_match_count,
            final(self).same_list(&*old(self)),
            final(self).same_preview(&*old(self)),
            final(self).same_project(&*old(self)),
            final(self).status == old(self).status,
    {
        let n = paths.len();
        let ghost start = self.checked_files@;
        for i in 0..n
            invariant
                n == paths@.len(),
                self.wf(),
                checked ==> self.checked_files@ == start.union(path_set(paths@.take(i as int))),
                !checked ==> self.checked_files@ == start.difference(
                    path_set(paths@.take(i as int)),
                ),
                self.checked_dirs == old(self).checked_dirs,
                self.selected_tree_file == old(self).selected_tree_file,
                self.tree_search == old(self).tree_search,
                self.search_matches == old(self).search_matches,
                self.search_match_count == old(self).search_match_count,
                self.same_list(&*old(self)),
                self.same_preview(&*old(self)),
                self.same_project(&*old(self)),
                self.status == old(self).status,
        {
            let p = paths[i].clone();
            proof {
                assert(string_views(paths@.take(i + 1)) =~= string_views(paths@.take(i as int)).push(
                    p@,
                ));
                lemma_push_to_set(string_views(paths@.take(i as int)), p@);
            }
            if checked {
                self.checked_files.insert(p);
            } else {
                self.checked_files.remove(p.as_str());
            }
            assert(checked ==> self.checked_files@ =~= start.union(path_set(paths@.take(i + 1))));
            assert(!checked ==> self.checked_files@ =~= start.difference(
                path_set(paths@.take(i + 1)),
            ));
        }
        assert(paths@.take(n as int) =~= paths@);
    }

    /// Clears the checks in the tree.
    pub fn clear_checked(&mut self)
        requires
            old(self).wf(),
        ensures
            final(self).wf(),
            final(self).checked_files@ == Set::<Seq<char>>::empty(),
            final(self).checked_dirs@ == Set::<Seq<char>>::empty(),
            final(self).selected_tree_file == old(self).selected_tree_file,
            final(self).tree_search == old(self).tree_search,
            final(self).search_matches == old(self).search_matches,
            final(self).search_match_count == old(self).search_match_count,
            final(self).same_list(&*old(self)),
            final(self).same_preview(&*old(self)),
            final(self).same_project(&*old(self)),
            final(self).status == old(self).status,
    {
        self.checked_files.clear();
        self.checked_dirs.clear();
    }

    /// Checks (or unchecks) `path` in the export list.
    pub fn set_export_checked(&mut self, path: String, checked: bool)
        requires
            old(self).wf(),
        ensures
            final(self).wf(),
            checked ==> final(self).checked_export_files@ == old(self).checked_export_files@.insert(
                path@,
            ),
            !checked ==> final(self).checked_export_files@
                == old(self).checked_export_files@.remove(path@),
            final(self).selected_files == old(self).selected_files,
            final(self).active_list_index == old(self).active_list_index,
            final(self).export_modes == old(self).export_modes,
            final(self).same_tree_marks(&*old(self)),
            final(self).same_preview(&*old(self)),
            final(self).same_project(&*old(self)),
            final(self).status == old(self).status,
    {
        if checked {
            self.checked_export_files.insert(path);
        } else {
            self.checked_export_files.remove(path.as_str());
        }
    }

    /// Clears the checks in the export list.
    pub fn clear_export_checked(&mut self)
        requires
            old(self).wf(),
        ensures
            final(self).wf(),
            final(self).checked_export_files@ == Set::<Seq<char>>::empty(),
            final(self).selected_files == old(self).selected_files,
            final(self).active_list_index == old(self).active_list_index,
            final(self).export_modes == old(self).export_modes,
            final(self).same_tree_marks(&*old(self)),
            final(self).same_preview(&*old(self)),
            final(self).same_project(&*old(self)),
            final(self).status == old(self).status,
    {
        self.checked_export_files.clear();
    }

    /// The export mode of `path`: as recorded, or `Full`.
    pub fn export_mode_of(&self, path: &str) -> (res: ExportMode)
        requires
            self.wf(),
        ensures
            res == mode_of(self.export_modes.view(), path@),
    {
        match self.export_modes.get(path) {
            Some(m) => *m,
            None => ExportMode::Full,
        }
    }

    /// Switches a listed file between `Full` and `Diff` export; paths not in
    /// the list are left alone.
    pub fn toggle_export_mode(&mut self, path: &str)
        requires
            old(self).wf(),
        ensures
            final(self).wf(),
            old(self).export_modes.view().dom().contains(path@)
                ==> final(self).export_modes.view() == old(self).export_modes.view().insert(
                path@,
                other_mode(old(self).export_modes.view()[path@]),
            ),
            !old(self).export_modes.view().dom().contains(path@) ==> *final(self) == *old(self),
            final(self).selected_files == old(self).selected_files,
            final(self).active_list_index == old(self).active_list_index,
            final(self).checked_export_files == old(self).checked_export_files,
            final(self).same_tree_marks(&*old(self)),
            final(self).same_preview(&*old(self)),
            final(self).same_project(&*old(self)),
            final(self).status == old(self).status,
    {
        let current = match self.export_modes.get(path) {
            Some(m) => *m,
            None => {
                return ;
            },
        };
        let next = match current {
            ExportMode::Full => ExportMode::Diff,
            ExportMode::Diff => ExportMode::Full,
        };
        self.export_modes.insert(path.to_string(), next);
        assert(self.export_modes.view().dom() =~= old(self).export_modes.view().dom());
    }
}

/// The status after adding `n` checked files.
pub open spec fn added_checked_status(n: nat) -> Seq<char> {
    "Added "@ + decimal(n) + " checked file(s) to export list"@
}

/// The status after removing `n` checked files.
pub open spec fn removed_checked_status(n: nat) -> Seq<char> {
    "Removed "@ + decimal(n) + " checked file(s) from export list"@
}

/// The query the tree search uses: the search text trimmed and lowercased.
pub open spec fn search_query(search: Seq<char>) -> Seq<char> {
    spec_to_lowercase(spec_trim(search))
}

impl<T> AppState<T> {
    /// Recomputes which directories of `tree` count as checked: those that
    /// hold files, all of them checked.
    pub fn recompute_checked_dirs(&mut self, tree: &TreeNode)
        requires
            old(self).wf(),
        ensures
            final(self).wf(),
            final(self).checked_dirs@ == checked_dirs_of(*tree, old(self).checked_files@),
            final(self).checked_files == old(self).checked_files,
            final(self).selected_tree_file == old(self).selected_tree_file,
            final(self).tree_search == old(self).tree_search,
            final(self).search_matches == old(self).search_matches,
            final(self).search_match_count == old(self).search_match_count,
            final(self).same_list(&*old(self)),
            final(self).same_preview(&*old(self)),
            final(self).same_project(&*old(self)),
            final(self).status == old(self).status,
    {
        let mut dirs = PathSet::new();
        let _ = mark_checked_dirs(tree, &self.checked_files, &mut dirs);
        assert(dirs@ =~= checked_dirs_of(*tree, self.checked_files@));
        self.checked_dirs = dirs;
    }

    /// Recomputes the tree search: with an empty query nothing is filtered;
    /// otherwise the shown paths are the files whose lowercased names contain
    /// the query and the directories holding one, and the count is the
    /// number of matching files.
    pub fn recompute_search(&mut self)
        requires
            old(self).wf(),
        ensures
            final(self).wf(),
            ({
                let q = search_query(old(self).tree_search@);
                if q.len() == 0 {
                    final(self).search_matches is None && final(self).search_match_count == 0
                } else {
                    &&& final(self).search_matches matches Some(m)
                    &&& m@ == match old(self).file_tree {
                        Some(t) => match_paths(t, q),
                        None => Set::<Seq<char>>::empty(),
                    }
                    &&& final(self).search_match_count == match old(self).file_tree {
                        Some(t) => capped(match_count(t, q) as int),
                        None => 0,
                    }
                }
            }),
            old(self).tree_search@.len() == 0 ==> final(self).search_matches is None
                && final(self).search_match_count == 0,
            final(self).selected_tree_file == old(self).selected_tree_file,
            final(self).tree_search == old(self).tree_search,
            final(self).checked_files == old(self).checked_files,
            final(self).checked_dirs == old(self).checked_dirs,
            final(self).same_list(&*old(self)),
            final(self).same_preview(&*old(self)),
            final(self).same_project(&*old(self)),
            final(self).status == old(self).status,
    {
        let trimmed = trim(self.tree_search.as_str());
        assert(self.tree_search@.len() == 0 ==> trimmed@.len() == 0);
        let lowered = to_lowercase(trimmed.as_str());
        let q = chars_of(lowered.as_str());
        if q.len() == 0 {
            self.search_matches = None;
            self.search_match_count = 0;
            return;
        }
        let mut set = PathSet::new();
        let mut count: usize = 0;
        match &self.file_tree {
            Some(tree) => {
                let _ = mark_matches(tree, &q, &mut set, &mut count);
                assert(set@ =~= match_paths(*tree, q@));
            },
            None => {},
        }
        self.search_matches = Some(set);
        self.search_match_count = count;
    }

    /// Adds the checked files of the tree to the export list in path order
    /// (directories, given in `dirs`, and files already listed are skipped),
    /// clears the checks and reports how many files were checked.
    pub fn add_checked_to_export(&mut self, dirs: &PathSet)
        requires
            old(self).wf(),
            dirs.wf(),
        ensures
            final(self).wf(),
            ({
                let order = sort_paths(old(self).checked_files.member_views());
                &&& final(self).selected() == add_paths(old(self).selected(), order, dirs@)
                &&& forall|k: Seq<char>| #[trigger]
                    final(self).export_modes.view().dom().contains(k)
                        ==> final(self).export_modes.view()[k] == mode_of(
                        old(self).export_modes.view(),
                        k,
                    )
                &&& final(self).status@ == added_checked_status(old(self).checked_files@.len())
            }),
            final(self).checked_files@ == Set::<Seq<char>>::empty(),
            final(self).checked_dirs@ == Set::<Seq<char>>::empty(),
            final(self).active_list_index == old(self).active_list_index,
            final(self).checked_export_files == old(self).checked_export_files,
            final(self).selected_tree_file == old(self).selected_tree_file,
            final(self).tree_search == old(self).tree_search,
            final(self).search_matches == old(self).search_matches,
            final(self).search_match_count == old(self).search_match_count,
            final(self).same_preview(&*old(self)),
            final(self).same_project(&*old(self)),
    {
        proof {
            self.checked_files.lemma_members();
        }
        let members = self.checked_files.to_vec();
        let paths = sort_paths_in_order(members);
        let ghost order = sort_paths(self.checked_files.member_views());
        proof {
            lemma_sort_paths(self.checked_files.member_views());
        }
        let count = paths.len();
        let n = paths.len();
        let ghost sel0 = self.selected();
        let ghost modes0 = self.export_modes.view();
        for i in 0..n
            invariant
                n == paths@.len(),
                string_views(paths@) == order,
                dirs.wf(),
                self.wf(),
                self.selected() == add_paths(sel0, order.take(i as int), dirs@),
                forall|k: Seq<char>| #[trigger]
                    self.export_modes.view().dom().contains(k) ==> self.export_modes.view()[k]
                        == mode_of(modes0, k),
                modes0.dom() == sel0.to_set(),
                sel0.no_duplicates(),
                self.active_list_index == old(self).active_list_index,
                self.checked_export_files == old(self).checked_export_files,
                self.checked_files == old(self).checked_files,
                self.same_tree_marks(&*old(self)),
                self.same_preview(&*old(self)),
                self.same_project(&*old(self)),
        {
            let p = paths[i].clone();
            let is_dir = dirs.contains(p.as_str());
            proof {
                assert(order.take(i + 1).drop_last() =~= order.take(i as int));
                assert(order.take(i + 1).last() == p@);
            }
            let ghost modes_before = self.export_modes.view();
            self.add_file_to_export(p, is_dir);
            proof {
                assert forall|k: Seq<char>| #[trigger]
                    self.export_modes.view().dom().contains(k) implies self.export_modes.view()[k]
                    == mode_of(modes0, k) by {
                    if modes_before.dom().contains(k) {
                    } else {
                        lemma_add_paths(sel0, order.take(i as int), dirs@);
                        assert(!sel0.to_set().contains(k));
                    }
                }
            }
        }
        assert(order.take(n as int) =~= order);
        self.clear_checked();
        let mut status = String::new();
        push_str(&mut status, "Added ");
        push_decimal(&mut status, count as u64);
        push_str(&mut status, " checked file(s) to export list");
        self.status = status;
    }

    /// Removes the files checked in the export list from it, with their
    /// modes; clears those checks, the active entry and the highlight cache;
    /// reports how many files were checked.
    pub fn remove_checked_from_export(&mut self)
        requires
            old(self).wf(),
        ensures
            final(self).wf(),
            final(self).selected() == without(old(self).selected(), old(self).checked_export_files@),
            final(self).export_modes.view() == old(self).export_modes.view().restrict(
                final(self).selected().to_set(),
            ),
            final(self).checked_export_files@ == Set::<Seq<char>>::empty(),
            final(self).active_list_index is None,
            final(self).highlight_cache.sizes() == Map::<Seq<char>, usize>::empty(),
            !final(self).highlight_pending,
            final(self).highlight_generation == next_generation(old(self).highlight_generation),
            final(self).preview_path == old(self).preview_path,
            final(self).preview_content == old(self).preview_content,
            final(self).status@ == removed_checked_status(old(self).checked_export_files@.len()),
            final(self).same_tree_marks(&*old(self)),
            final(self).same_project(&*old(self)),
    {
        let count = self.checked_export_files.len();
        let ghost drop = self.checked_export_files@;
        let ghost sel0 = self.selected();
        let mut kept: Vec<String> = Vec::new();
        let n = self.selected_files.len();
        for i in 0..n
            invariant
                n == self.selected_files@.len(),
                self.wf(),
                self.selected() == sel0,
                drop == self.checked_export_files@,
                string_views(kept@) == without(sel0.take(i as int), drop),
        {
            let p = &self.selected_files[i];
            proof {
                assert(sel0.take(i + 1).drop_last() =~= sel0.take(i as int));
                assert(sel0.take(i + 1).last() == p@);
            }
            if !self.checked_export_files.contains(p.as_str()) {
                let ghost prev = kept@;
                kept.push(p.clone());
                assert(string_views(kept@) =~= string_views(prev).push(p@));
            }
        }
        assert(sel0.take(n as int) =~= sel0);
        proof {
            lemma_without(sel0, drop);
        }
        self.selected_files = kept;
        self.export_modes.retain_keys(&self.selected_files);
        self.checked_export_files.clear();
        self.active_list_index = None;
        proof {
            assert(self.export_modes.view().dom() =~= self.selected().to_set());
        }
        self.clear_preview_cache();
        let mut status = String::new();
        push_str(&mut status, "Removed ");
        push_decimal(&mut status, count as u64);
        push_str(&mut status, " checked file(s) from export list");
        self.status = status;
    }
}

} // verus!
