//! Opening a file in the preview pane and caching its highlighting.
use super::{bump_generation, next_generation, opt_view, AppState, PreviewMode};
use crate::highlight_cache::MAX_HIGHLIGHT_CACHE_SIZE;
use crate::pathname::{relative_path, relative_to, spec_with_extension, with_extension};
use crate::preview::{FilePreview, PreviewContent};
use crate::text::{push_decimal, push_str, decimal, str_eq};
use vstd::prelude::*;
use vstd::utf8::encode_utf8;

verus! {

/// Where the contents of a preview come from.
pub enum PreviewSource {
    /// The file as it is on disk.
    File,
    /// The file's git diff against the repository at `root`.
    Diff { root: String },
}

/// A preview to be loaded: the file, the key its highlighting is cached
/// under, and where its contents come from.
pub struct PreviewLoad {
    pub path: String,
    pub key: String,
    pub source: PreviewSource,
}

/// Text to highlight in the background, with the cache key and the preview
/// generation it belongs to.
pub struct HighlightJob {
    pub text: String,
    pub key: String,
    pub generation: u64,
}

/// A finished highlight: the generation and cache key it was started for,
/// the size of the highlighted text and the highlighter's output.
pub struct HighlightResult<T> {
    pub generation: u64,
    pub path: String,
    pub size: usize,
    pub payload: T,
}

/// The key under which the highlighting of `path` is cached in `mode`: the
/// path itself for sources, the path with the extension `diff` for diffs.
pub open spec fn cache_key(path: Seq<char>, mode: PreviewMode) -> Seq<char> {
    if mode == PreviewMode::Diff {
        spec_with_extension(path, "diff"@)
    } else {
        path
    }
}

/// The cache key for `path` in `mode`.
pub fn cache_key_for(path: &str, mode: PreviewMode) -> (res: String)
    ensures
        res@ == cache_key(path@, mode),
{
    if mode == PreviewMode::Diff {
        proof {
            reveal_strlit("diff");
            assert("diff"@[0] == 'd' && "diff"@[1] == 'i' && "diff"@[2] == 'f' && "diff"@[3] == 'f');
        }
        with_extension(path, "diff")
    } else {
        path.to_string()
    }
}

/// The text shown for a file without changes in diff mode.
pub open spec fn no_changes_text() -> Seq<char> {
    "No changes or file untracked."@
}

/// The preview of a file's git diff: the diff and its size in bytes, or,
/// without one, a note that there is nothing to show.
pub fn diff_preview(path: &str, diff: Option<String>) -> (res: FilePreview)
    ensures
        res.path@ == path@,
        diff matches Some(d) ==> res.size == (encode_utf8(d@).len() as usize) as u64 && (res.content matches PreviewContent::Text(t) && t@ == d@),
        diff is None ==> res.size == 0 && (res.content matches PreviewContent::Text(t) && t@ == no_changes_text()),
{
    match diff {
        Some(d) => {
            let size = d.as_str().len() as u64;
            FilePreview { path: path.to_string(), size, content: PreviewContent::Text(d) }
        },
        None => FilePreview {
            path: path.to_string(),
            size: 0,
            content: PreviewContent::Text("No changes or file untracked.".to_string()),
        },
    }
}

/// The status line after loading a preview of `size` bytes of the file with
/// the label `rel`.
pub open spec fn loaded_status(size: u64, rel: Seq<char>) -> Seq<char> {
    "Loaded "@ + decimal(size as nat) + " bytes: "@ + rel
}

/// The status line after a preview failed to load with the message `e`.
pub open spec fn load_error_status(e: Seq<char>) -> Seq<char> {
    "Error loading preview: "@ + e
}

/// The path the preview is showing, or the empty path.
pub open spec fn shown_path(p: Option<String>) -> Seq<char> {
    match p {
        Some(s) => s@,
        None => Seq::empty(),
    }
}

impl<T> AppState<T> {
    /// This state is `old` after starting the preview of `path` (see
    /// `load_preview`), which returned `res`.
    pub open spec fn started_preview(&self, old: &Self, path: Seq<char>, res: PreviewLoad) -> bool {
        &&& opt_view(self.preview_path) == Some(path)
        &&& !self.highlight_pending
        &&& self.highlight_generation == next_generation(old.highlight_generation)
        &&& res.path@ == path
        &&& res.key@ == cache_key(path, old.preview_mode)
        &&& (old.preview_mode == PreviewMode::Diff ==> (res.source matches PreviewSource::Diff {
            root,
        } && opt_view(old.project_root) == Some(root@)))
        &&& (old.preview_mode == PreviewMode::Source ==> res.source is File)
        &&& self.preview_content == old.preview_content
        &&& self.highlight_cache == old.highlight_cache
    }

    /// Empties the highlight cache, forgets a running highlight job and moves
    /// to the next generation, so that its result is ignored.
    pub fn clear_preview_cache(&mut self)
        requires
            old(self).wf(),
        ensures
            final(self).wf(),
            final(self).highlight_cache.sizes() == Map::<Seq<char>, usize>::empty(),
            final(self).highlight_cache.payloads() == Map::<Seq<char>, T>::empty(),
            !final(self).highlight_pending,
            final(self).highlight_generation == next_generation(old(self).highlight_generation),
            final(self).preview_path == old(self).preview_path,
            final(self).preview_content == old(self).preview_content,
            final(self).same_project(&*old(self)),
            final(self).same_list(&*old(self)),
            final(self).same_tree_marks(&*old(self)),
            final(self).status == old(self).status,
    {
        self.highlight_cache.clear();
        self.highlight_pending = false;
        self.highlight_generation = bump_generation(self.highlight_generation);
    }

    /// Closes the preview: nothing is shown or selected, and a running
    /// highlight job is forgotten.
    pub fn close_preview(&mut self)
        requires
            old(self).wf(),
        ensures
            final(self).wf(),
            final(self).preview_path is None,
            final(self).preview_content is None,
            final(self).selected_tree_file is None,
            final(self).active_list_index is None,
            !final(self).highlight_pending,
            final(self).highlight_generation == next_generation(old(self).highlight_generation),
            final(self).highlight_cache == old(self).highlight_cache,
            final(self).selected_files == old(self).selected_files,
            final(self).export_modes == old(self).export_modes,
            final(self).checked_export_files == old(self).checked_export_files,
            final(self).tree_search == old(self).tree_search,
            final(self).search_matches == old(self).search_matches,
            final(self).search_match_count == old(self).search_match_count,
            final(self).checked_files == old(self).checked_files,
            final(self).checked_dirs == old(self).checked_dirs,
            final(self).same_project(&*old(self)),
            final(self).status == old(self).status,
    {
        self.preview_path = None;
        self.preview_content = None;
        self.selected_tree_file = None;
        self.active_list_index = None;
        self.highlight_pending = false;
        self.highlight_generation = bump_generation(self.highlight_generation);
    }

    /// Starts showing `path`: a new generation begins (a running highlight
    /// job is forgotten) and the caller is told where to read the contents
    /// from and under which key their highlighting is cached.
    pub fn load_preview(&mut self, path: String) -> (res: PreviewLoad)
        requires
            old(self).wf(),
            old(self).preview_mode == PreviewMode::Diff ==> old(self).project_root is Some,
        ensures
            final(self).wf(),
            final(self).started_preview(&*old(self), path@, res),
            final(self).same_project(&*old(self)),
            final(self).same_list(&*old(self)),
            final(self).same_tree_marks(&*old(self)),
            final(self).status == old(self).status,
    {
        self.highlight_generation = bump_generation(self.highlight_generation);
        self.highlight_pending = false;
        self.preview_path = Some(path.clone());
        let key = cache_key_for(path.as_str(), self.preview_mode);
        let source = if self.preview_mode == PreviewMode::Diff {
            match &self.project_root {
                Some(r) => PreviewSource::Diff { root: r.clone() },
                None => PreviewSource::File,
            }
        } else {
            PreviewSource::File
        };
        PreviewLoad { path, key, source }
    }

    /// The label of `path` in messages: relative to the project root where
    /// it lies under it.
    pub fn preview_relative_path(&self, path: &str) -> (res: String)
        ensures
            res@ == relative_path(opt_view(self.project_root), path@),
    {
        relative_to(self.project_root.as_ref(), path)
    }

    /// Whether a highlight of `size` bytes is cached under `key`.
    pub fn is_highlight_cached(&self, key: &str, size: usize) -> (res: bool)
        requires
            self.wf(),
        ensures
            res == (self.highlight_cache.sizes().dom().contains(key@)
                && self.highlight_cache.sizes()[key@] == size),
    {
        self.highlight_cache.is_cached(key, size)
    }

    /// Shows what was read for a preview started with `load_preview`. A text
    /// that is not yet highlighted at its size is handed back to be
    /// highlighted for the current generation.
    pub fn preview_loaded(&mut self, load: PreviewLoad, result: Result<FilePreview, String>) -> (res:
        Option<HighlightJob>)
        requires
            old(self).wf(),
        ensures
            final(self).wf(),
            result matches Ok(p) ==> {
                &&& final(self).preview_content == Some(p)
                &&& final(self).status@ == loaded_status(
                    p.size,
                    relative_path(opt_view(old(self).project_root), load.path@),
                )
                &&& match p.content {
                    PreviewContent::Text(t) => {
                        let size = (encode_utf8(t@).len() as usize);
                        if old(self).highlight_cache.sizes().dom().contains(load.key@)
                            && old(self).highlight_cache.sizes()[load.key@] == size {
                            res is None && final(self).highlight_pending
                                == old(self).highlight_pending
                        } else {
                            &&& final(self).highlight_pending
                            &&& res matches Some(job)
                            &&& job.text@ == t@
                            &&& job.key@ == load.key@
                            &&& job.generation == old(self).highlight_generation
                        }
                    },
                    _ => res is None && final(self).highlight_pending
                        == old(self).highlight_pending,
                }
            },
            result matches Err(e) ==> {
                &&& final(self).preview_content matches Some(p)
                &&& p.path@ == load.path@
                &&& p.size == 0
                &&& p.content matches PreviewContent::Error(m)
                &&& m@ == e@
                &&& final(self).status@ == load_error_status(e@)
                &&& res is None
                &&& final(self).highlight_pending == old(self).highlight_pending
            },
            final(self).preview_path == old(self).preview_path,
            final(self).highlight_cache == old(self).highlight_cache,
            final(self).highlight_generation == old(self).highlight_generation,
            final(self).same_project(&*old(self)),
            final(self).same_list(&*old(self)),
            final(self).same_tree_marks(&*old(self)),
    {
        match result {
            Ok(preview) => {
                let rel = self.preview_relative_path(load.path.as_str());
                let mut status = String::new();
                push_str(&mut status, "Loaded ");
                push_decimal(&mut status, preview.size);
                push_str(&mut status, " bytes: ");
                push_str(&mut status, rel.as_str());
                self.status = status;
                let mut job: Option<HighlightJob> = None;
                match &preview.content {
                    PreviewContent::Text(text) => {
                        if !self.highlight_cache.is_cached(load.key.as_str(), text.as_str().len()) {
                            self.highlight_pending = true;
                            job = Some(
                                HighlightJob {
                                    text: text.clone(),
                                    key: load.key,
                                    generation: self.highlight_generation,
                                },
                            );
                        }
                    },
                    _ => {},
                }
                self.preview_content = Some(preview);
                job
            },
            Err(e) => {
                let mut status = String::new();
                push_str(&mut status, "Error loading preview: ");
                push_str(&mut status, e.as_str());
                self.preview_content = Some(
                    FilePreview { path: load.path, size: 0, content: PreviewContent::Error(e) },
                );
                self.status = status;
                None
            },
        }
    }

    /// Takes in a finished highlight. It is cached only if it belongs to the
    /// current generation and to the key of the file being shown; otherwise
    /// it is dropped. Either way no job is awaited any more.
    pub fn poll_highlight_result(&mut self, result: HighlightResult<T>)
        requires
            old(self).wf(),
        ensures
            final(self).wf(),
            !final(self).highlight_pending,
            ({
                let expected = cache_key(shown_path(old(self).preview_path), old(self).preview_mode);
                if result.generation == old(self).highlight_generation && result.path@ == expected {
                    crate::highlight_cache::HighlightCache::inserted(
                        old(self).highlight_cache,
                        final(self).highlight_cache,
                        result.path@,
                        result.size,
                        result.payload,
                    )
                } else {
                    final(self).highlight_cache == old(self).highlight_cache
                }
            }),
            final(self).highlight_generation == old(self).highlight_generation,
            final(self).preview_path == old(self).preview_path,
            final(self).preview_content == old(self).preview_content,
            final(self).same_project(&*old(self)),
            final(self).same_list(&*old(self)),
            final(self).same_tree_marks(&*old(self)),
            final(self).status == old(self).status,
    {
        self.highlight_pending = false;
        if result.generation != self.highlight_generation {
            return;
        }
        let shown = match &self.preview_path {
            Some(p) => p.clone(),
            None => String::new(),
        };
        let expected = cache_key_for(shown.as_str(), self.preview_mode);
        if !str_eq(result.path.as_str(), expected.as_str()) {
            return;
        }
        self.cache_highlight(result);
    }

    /// Caches a highlight result under its key (see `HighlightCache::insert`).
    pub fn cache_highlight(&mut self, result: HighlightResult<T>)
        requires
            old(self).wf(),
        ensures
            final(self).wf(),
            crate::highlight_cache::HighlightCache::inserted(
                old(self).highlight_cache,
                final(self).highlight_cache,
                result.path@,
                result.size,
                result.payload,
            ),
            final(self).highlight_pending == old(self).highlight_pending,
            final(self).highlight_generation == old(self).highlight_generation,
            final(self).preview_path == old(self).preview_path,
            final(self).preview_content == old(self).preview_content,
            final(self).same_project(&*old(self)),
            final(self).same_list(&*old(self)),
            final(self).same_tree_marks(&*old(self)),
            final(self).status == old(self).status,
    {
        self.highlight_cache.insert(result.path, result.size, result.payload);
    }
}

} // verus!
