//! The application's state: the project, the export list, the checks in the
//! file tree, the preview and its highlighting. The operations that change
//! it take what the file system or a dialog answered as arguments and tell
//! the caller what to read or show next.
pub mod export;
pub mod io;
pub mod preview;
pub mod selection;

use crate::collections::{string_views, PathMap, PathSet};
use crate::fs_tree::TreeNode;
use crate::highlight_cache::HighlightCache;
use crate::preview::FilePreview;
use vstd::prelude::*;

verus! {

/// What git reports for a file of the project.
#[derive(Clone, Copy, PartialEq, Eq, Structural, Debug)]
pub enum GitStatus {
    Modified,
    Untracked,
    Deleted,
    Added,
}

/// Whether a file is exported in full or as its git diff.
#[derive(Clone, Copy, PartialEq, Eq, Structural, Debug)]
pub enum ExportMode {
    Full,
    Diff,
}

/// Whether the preview shows a file's source or its git diff.
#[derive(Clone, Copy, PartialEq, Eq, Structural, Debug)]
pub enum PreviewMode {
    Source,
    Diff,
}

/// The settings kept between runs.
#[derive(Debug)]
pub struct AppConfig {
    pub last_project_root: Option<String>,
    pub last_output_path: Option<String>,
    pub was_maximized: bool,
}

impl Default for AppConfig {
    fn default() -> (res: Self)
        ensures
            res.last_project_root is None,
            res.last_output_path is None,
            !res.was_maximized,
    {
        AppConfig { last_project_root: None, last_output_path: None, was_maximized: false }
    }
}

/// The state of the application. `T` is the highlighter's output kept for
/// each highlighted preview.
pub struct AppState<T> {
    pub config: AppConfig,
    pub status: String,
    pub project_root: Option<String>,
    pub file_tree: Option<TreeNode>,
    pub selected_tree_file: Option<String>,
    pub preview_path: Option<String>,
    pub preview_content: Option<FilePreview>,
    pub selected_files: Vec<String>,
    pub active_list_index: Option<usize>,
    pub output_path: Option<String>,
    pub highlight_cache: HighlightCache<T>,
    /// A highlight job is running whose result is awaited.
    pub highlight_pending: bool,
    pub highlight_generation: u64,
    pub filter_ignored: bool,
    pub tree_search: String,
    pub search_matches: Option<PathSet>,
    pub search_match_count: usize,
    pub checked_files: PathSet,
    pub checked_dirs: PathSet,
    pub checked_export_files: PathSet,
    pub git_statuses: PathMap<GitStatus>,
    pub export_modes: PathMap<ExportMode>,
    pub preview_mode: PreviewMode,
}

/// The option's contents as characters.
pub open spec fn opt_view(o: Option<String>) -> Option<Seq<char>> {
    match o {
        Some(s) => Some(s@),
        None => None,
    }
}

/// The generation after `g`, wrapping around past the largest value.
pub open spec fn next_generation(g: u64) -> u64 {
    if g == u64::MAX {
        0
    } else {
        (g + 1) as u64
    }
}

/// The generation after `g`, wrapping around past the largest value.
pub fn bump_generation(g: u64) -> (res: u64)
    ensures
        res == next_generation(g),
{
    if g == u64::MAX {
        0
    } else {
        g + 1
    }
}

impl<T> AppState<T> {
    /// The project settings, the tree and the git statuses are as in `other`.
    pub open spec fn same_project(&self, other: &Self) -> bool {
        &&& self.config == other.config
        &&& self.project_root == other.project_root
        &&& self.file_tree == other.file_tree
        &&& self.output_path == other.output_path
        &&& self.filter_ignored == other.filter_ignored
        &&& self.git_statuses == other.git_statuses
        &&& self.preview_mode == other.preview_mode
    }

    /// The export list, its active entry, modes and checks are as in `other`.
    pub open spec fn same_list(&self, other: &Self) -> bool {
        &&& self.selected_files == other.selected_files
        &&& self.active_list_index == other.active_list_index
        &&& self.export_modes == other.export_modes
        &&& self.checked_export_files == other.checked_export_files
    }

    /// The tree selection, search and checks are as in `other`.
    pub open spec fn same_tree_marks(&self, other: &Self) -> bool {
        &&& self.selected_tree_file == other.selected_tree_file
        &&& self.tree_search == other.tree_search
        &&& self.search_matches == other.search_matches
        &&& self.search_match_count == other.search_match_count
        &&& self.checked_files == other.checked_files
        &&& self.checked_dirs == other.checked_dirs
    }

    /// The preview, its highlighting and the cache are as in `other`.
    pub open spec fn same_preview(&self, other: &Self) -> bool {
        &&& self.preview_path == other.preview_path
        &&& self.preview_content == other.preview_content
        &&& self.highlight_cache == other.highlight_cache
        &&& self.highlight_pending == other.highlight_pending
        &&& self.highlight_generation == other.highlight_generation
    }

    /// The export list as characters, in order.
    pub open spec fn selected(&self) -> Seq<Seq<char>> {
        string_views(self.selected_files@)
    }

    /// The state is consistent: the export list holds each file once, every
    /// listed file has an export mode and nothing else has one, the active
    /// list entry exists, and the sets, maps and cache are well formed.
    pub open spec fn wf(&self) -> bool {
        &&& self.selected().no_duplicates()
        &&& self.export_modes.wf()
        &&& self.export_modes.view().dom() == self.selected().to_set()
        &&& (self.active_list_index matches Some(i) ==> i < self.selected_files@.len())
        &&& self.checked_files.wf()
        &&& self.checked_dirs.wf()
        &&& self.checked_export_files.wf()
        &&& self.git_statuses.wf()
        &&& (self.search_matches matches Some(m) ==> m.wf())
        &&& self.highlight_cache.wf()
    }

    /// A fresh state: no project, nothing selected, status `Ready`, ignored
    /// files hidden, the preview showing sources.
    pub fn new() -> (res: Self)
        ensures
            res.wf(),
            res.status@ == "Ready"@,
            res.project_root is None,
            res.file_tree is None,
            res.selected_files@.len() == 0,
            res.active_list_index is None,
            res.output_path is None,
            res.preview_path is None,
            res.preview_content is None,
            res.filter_ignored,
            res.tree_search@.len() == 0,
            res.search_matches is None,
            res.highlight_generation == 0,
            !res.highlight_pending,
            res.preview_mode == PreviewMode::Source,
            res.config.last_project_root is None,
            res.config.last_output_path is None,
            !res.config.was_maximized,
            res.selected_tree_file is None,
            res.export_modes.view() == Map::<Seq<char>, ExportMode>::empty(),
            res.search_match_count == 0,
            res.checked_files@ == Set::<Seq<char>>::empty(),
            res.checked_dirs@ == Set::<Seq<char>>::empty(),
            res.checked_export_files@ == Set::<Seq<char>>::empty(),
            res.git_statuses.view() == Map::<Seq<char>, GitStatus>::empty(),
            res.highlight_cache.sizes() == Map::<Seq<char>, usize>::empty(),
            res.highlight_cache.payloads() == Map::<Seq<char>, T>::empty(),
            res.highlight_cache.total_size() == 0,
    {
        let res = AppState {
            config: AppConfig::default(),
            status: "Ready".to_string(),
            project_root: None,
            file_tree: None,
            selected_tree_file: None,
            preview_path: None,
            preview_content: None,
            selected_files: Vec::new(),
            active_list_index: None,
            output_path: None,
            highlight_cache: HighlightCache::new(),
            highlight_pending: false,
            highlight_generation: 0,
            filter_ignored: true,
            tree_search: String::new(),
            search_matches: None,
            search_match_count: 0,
            checked_files: PathSet::new(),
            checked_dirs: PathSet::new(),
            checked_export_files: PathSet::new(),
            git_statuses: PathMap::new(),
            export_modes: PathMap::new(),
            preview_mode: PreviewMode::Source,
        };
        assert(res.selected() =~= Seq::<Seq<char>>::empty());
        assert(res.selected().to_set() =~= Set::<Seq<char>>::empty());
        res
    }
}

} // verus!
