use code_to_md::collections::{PathMap, PathSet};
use code_to_md::fs_tree::{
    build_tree, collect_dirs, collect_files, keep_walk_entry, mark_checked_dirs,
    mark_matches, TreeNode, WalkEntry,
};
use code_to_md::highlight_cache::{HighlightCache, MAX_HIGHLIGHT_CACHE_SIZE};
use code_to_md::preview::{FilePreview, PreviewContent};
use code_to_md::state::export::{DialogStart, ExportKind, ExportStep, WriteOutcome};
use code_to_md::state::io::GitEntry;
use code_to_md::state::preview::{HighlightResult, PreviewSource};
use code_to_md::state::{AppState, ExportMode, GitStatus, PreviewMode};

fn entry(path: &str, is_dir: bool) -> WalkEntry {
    WalkEntry { path: path.to_string(), is_dir }
}

fn sample_tree() -> TreeNode {
    let entries = vec![
        entry("/r/b.txt", false),
        entry("/r/A.txt", false),
        entry("/r/src", true),
        entry("/r/src/main.rs", false),
        entry("/r/src/lib.rs", false),
        entry("/r/Zdir", true),
        entry("/r/Zdir/empty", true),
    ];
    build_tree("/r".to_string(), &entries)
}

fn names(node: &TreeNode) -> Vec<String> {
    node.children.iter().map(|c| c.name.clone()).collect()
}

fn opened_state() -> AppState<u32> {
    let mut s: AppState<u32> = AppState::new();
    s.open_folder("/r".to_string(), &Vec::new(), Ok(sample_tree()));
    s
}

#[test]
fn tree_lists_directories_first_then_names() {
    let tree = sample_tree();
    assert_eq!(tree.path, "/r");
    assert_eq!(tree.name, "r");
    assert!(tree.expanded && tree.is_dir);
    assert_eq!(names(&tree), vec!["src", "Zdir", "A.txt", "b.txt"]);
    assert_eq!(names(&tree.children[0]), vec!["lib.rs", "main.rs"]);
    assert!(!tree.children[0].expanded);
    assert_eq!(names(&tree.children[1]), vec!["empty"]);
    assert!(tree.children[2].children.is_empty());
}

#[test]
fn tree_new_names_after_final_part() {
    let n = TreeNode::new("/a/b/c.rs".to_string(), false);
    assert_eq!(n.name, "c.rs");
    assert!(!n.expanded && n.children.is_empty());
    let n = TreeNode::new("/".to_string(), true);
    assert_eq!(n.name, "");
}

#[test]
fn collecting_files_and_dirs() {
    let tree = sample_tree();
    let mut files = Vec::new();
    collect_files(&tree, &mut files);
    assert_eq!(files, vec!["/r/src/lib.rs", "/r/src/main.rs", "/r/A.txt", "/r/b.txt"]);
    let mut dirs = Vec::new();
    collect_dirs(&tree, &mut dirs);
    assert_eq!(dirs, vec!["/r", "/r/src", "/r/Zdir", "/r/Zdir/empty"]);
}

#[test]
fn walk_skips_git_below_root() {
    assert!(keep_walk_entry(0, ".git"));
    assert!(!keep_walk_entry(1, ".git"));
    assert!(keep_walk_entry(2, ".github"));
}

#[test]
fn checked_directories_need_all_their_files() {
    let tree = sample_tree();
    let mut checked = PathSet::new();
    checked.insert("/r/src/lib.rs".to_string());
    checked.insert("/r/src/main.rs".to_string());
    let mut dirs = PathSet::new();
    let (has_files, all) = mark_checked_dirs(&tree, &checked, &mut dirs);
    assert!(has_files && !all);
    assert!(dirs.contains("/r/src"));
    assert!(!dirs.contains("/r"));
    assert!(!dirs.contains("/r/Zdir"));
    assert_eq!(dirs.len(), 1);
}

#[test]
fn search_marks_files_and_their_directories() {
    let tree = sample_tree();
    let q: Vec<char> = "main".chars().collect();
    let mut set = PathSet::new();
    let mut count = 0usize;
    assert!(mark_matches(&tree, &q, &mut set, &mut count));
    assert_eq!(count, 1);
    assert!(set.contains("/r/src/main.rs") && set.contains("/r/src") && set.contains("/r"));
    assert_eq!(set.len(), 3);
}

#[test]
fn state_search_trims_and_lowercases() {
    let mut s = opened_state();
    s.tree_search = "  .TXT ".to_string();
    s.recompute_search();
    assert_eq!(s.search_match_count, 2);
    let m = s.search_matches.as_ref().unwrap();
    assert!(m.contains("/r/A.txt") && m.contains("/r/b.txt") && m.contains("/r"));
    s.tree_search = "   ".to_string();
    s.recompute_search();
    assert!(s.search_matches.is_none());
    assert_eq!(s.search_match_count, 0);
}

#[test]
fn new_state_is_ready() {
    let s: AppState<u32> = AppState::new();
    assert_eq!(s.status, "Ready");
    assert!(s.filter_ignored);
    assert!(!s.can_export());
    assert_eq!(s.preview_mode, PreviewMode::Source);
}

#[test]
fn open_folder_success_and_failure() {
    let mut s: AppState<u32> = AppState::new();
    let git = vec![
        GitEntry { path: "/r/A.txt".to_string(), is_new: false, is_modified: true, is_deleted: false },
        GitEntry { path: "/r/b.txt".to_string(), is_new: false, is_modified: false, is_deleted: false },
    ];
    s.open_folder("/r".to_string(), &git, Ok(sample_tree()));
    assert_eq!(s.status, "Opened folder: /r");
    assert_eq!(s.git_statuses.get("/r/A.txt"), Some(&GitStatus::Modified));
    assert_eq!(s.git_statuses.get("/r/b.txt"), None);
    s.open_folder("/bad".to_string(), &Vec::new(), Err("no such directory".to_string()));
    assert_eq!(s.status, "Error opening folder: no such directory");
    assert_eq!(s.project_root.as_deref(), Some("/bad"));
    assert!(s.file_tree.is_some());
}

#[test]
fn adding_files_to_the_export_list() {
    let mut s = opened_state();
    s.add_file_to_export("/r/A.txt".to_string(), false);
    assert_eq!(s.status, "Added file: @/A.txt");
    s.add_file_to_export("/r/A.txt".to_string(), false);
    assert_eq!(s.status, "File already in export list: @/A.txt");
    s.add_file_to_export("/r/src".to_string(), true);
    assert_eq!(s.selected_files, vec!["/r/A.txt"]);
    assert_eq!(s.export_mode_of("/r/A.txt"), ExportMode::Full);
    assert!(s.can_export());
}

#[test]
fn add_then_remove_gives_back_the_list() {
    let mut s = opened_state();
    s.add_file_to_export("/r/A.txt".to_string(), false);
    let before = s.selected_files.clone();
    s.add_file_to_export("/r/b.txt".to_string(), false);
    let load = s.remove_file_by_index(1);
    assert_eq!(s.selected_files, before);
    assert!(s.export_modes.get("/r/b.txt").is_none());
    assert_eq!(s.status, "Removed file: @/b.txt");
    let load = load.unwrap();
    assert_eq!(load.path, "/r/A.txt");
    assert_eq!(s.active_list_index, Some(0));
    assert_eq!(s.preview_path.as_deref(), Some("/r/A.txt"));
}

#[test]
fn removing_the_last_file_closes_the_preview() {
    let mut s = opened_state();
    s.add_file_to_export("/r/A.txt".to_string(), false);
    let _ = s.select_export_file(0);
    assert!(s.remove_selected_from_export().is_none());
    assert!(s.selected_files.is_empty());
    assert!(s.preview_path.is_none() && s.active_list_index.is_none());
    assert!(s.remove_file_by_index(3).is_none());
}

#[test]
fn toggling_export_mode_twice() {
    let mut s = opened_state();
    s.add_file_to_export("/r/A.txt".to_string(), false);
    s.toggle_export_mode("/r/A.txt");
    assert_eq!(s.export_mode_of("/r/A.txt"), ExportMode::Diff);
    s.toggle_export_mode("/r/A.txt");
    assert_eq!(s.export_mode_of("/r/A.txt"), ExportMode::Full);
    s.toggle_export_mode("/r/none");
    assert!(s.export_modes.get("/r/none").is_none());
}

#[test]
fn checked_files_go_to_the_list_in_path_order() {
    let mut s = opened_state();
    s.add_file_to_export("/r/b.txt".to_string(), false);
    s.set_checked(
        vec!["/r/src/main.rs".to_string(), "/r/b.txt".to_string(), "/r/A.txt".to_string(), "/r/src".to_string()],
        true,
    );
    let tree = s.file_tree.take().unwrap();
    s.recompute_checked_dirs(&tree);
    assert!(!s.checked_dirs.contains("/r/src"));
    s.set_checked(vec!["/r/src/lib.rs".to_string()], true);
    s.recompute_checked_dirs(&tree);
    assert!(s.checked_dirs.contains("/r/src"));
    s.file_tree = Some(tree);
    let mut dirs = PathSet::new();
    dirs.insert("/r/src".to_string());
    s.add_checked_to_export(&dirs);
    assert_eq!(s.status, "Added 5 checked file(s) to export list");
    assert_eq!(s.selected_files, vec!["/r/b.txt", "/r/A.txt", "/r/src/lib.rs", "/r/src/main.rs"]);
    assert_eq!(s.checked_files.len(), 0);
    assert_eq!(s.checked_dirs.len(), 0);
}

#[test]
fn unchecking_and_removing_checked_entries() {
    let mut s = opened_state();
    s.set_checked(vec!["/r/A.txt".to_string(), "/r/b.txt".to_string()], true);
    s.set_checked(vec!["/r/A.txt".to_string()], false);
    assert!(!s.checked_files.contains("/r/A.txt") && s.checked_files.contains("/r/b.txt"));
    s.add_file_to_export("/r/A.txt".to_string(), false);
    s.add_file_to_export("/r/b.txt".to_string(), false);
    s.add_file_to_export("/r/src/main.rs".to_string(), false);
    s.set_export_checked("/r/A.txt".to_string(), true);
    s.set_export_checked("/r/src/main.rs".to_string(), true);
    s.set_export_checked("/r/src/main.rs".to_string(), false);
    s.set_export_checked("/r/b.txt".to_string(), true);
    s.remove_checked_from_export();
    assert_eq!(s.status, "Removed 2 checked file(s) from export list");
    assert_eq!(s.selected_files, vec!["/r/src/main.rs"]);
    assert!(s.export_modes.get("/r/A.txt").is_none());
    assert_eq!(s.checked_export_files.len(), 0);
    s.clear_all_export_files();
    assert!(s.selected_files.is_empty());
    assert_eq!(s.status, "Cleared all selected files");
}

#[test]
fn export_commands_and_statuses() {
    let mut s = opened_state();
    assert_eq!(s.save_markdown(), ExportStep::Done);
    assert_eq!(s.status, "No files selected for export");
    s.add_file_to_export("/r/A.txt".to_string(), false);
    assert_eq!(s.save_markdown(), ExportStep::ChooseOutput);
    assert!(matches!(s.output_dialog_start(), DialogStart::Desktop));
    assert_eq!(s.output_chosen(ExportKind::Save, None), ExportStep::Done);
    assert_eq!(s.status, "Save canceled: no output path chosen");
    assert_eq!(
        s.output_chosen(ExportKind::Append, Some("/out/x.md".to_string())),
        ExportStep::Write { append: true }
    );
    assert_eq!(s.status, "Set output file: /out/x.md");
    assert!(matches!(s.output_dialog_start(), DialogStart::Dir(ref d) if d == "/out"));
    assert_eq!(s.save_markdown(), ExportStep::Write { append: false });
    assert_eq!(s.append_markdown(), ExportStep::Write { append: true });
    assert_eq!(s.save_as_markdown(), ExportStep::ChooseOutput);
    let (root, out) = s.export_targets().unwrap();
    assert_eq!((root.as_str(), out.as_str()), ("/r", "/out/x.md"));
    s.finish_export(false, "/out/x.md", 3, 1, WriteOutcome::Written);
    assert_eq!(s.status, "Saved 3 file(s) to /out/x.md. Skipped 1 file(s).");
    s.finish_export(true, "/out/x.md", 0, 2, WriteOutcome::Written);
    assert_eq!(s.status, "Appended 0 file(s) to /out/x.md. Skipped 2 file(s).");
    s.finish_export(true, "/out/x.md", 0, 0, WriteOutcome::OpenFailed("denied".to_string()));
    assert_eq!(s.status, "Error opening output file: denied");
    s.finish_export(true, "/out/x.md", 0, 0, WriteOutcome::WriteFailed("full".to_string()));
    assert_eq!(s.status, "Error appending to output file: full");
    s.finish_export(false, "/out/x.md", 0, 0, WriteOutcome::WriteFailed("full".to_string()));
    assert_eq!(s.status, "Error saving output file: full");
}

#[test]
fn preview_generations_drop_stale_highlights() {
    let mut s = opened_state();
    let load = s.select_tree_file("/r/A.txt".to_string());
    assert!(matches!(load.source, PreviewSource::File));
    assert_eq!(load.key, "/r/A.txt");
    let gen = s.highlight_generation;
    let preview = FilePreview {
        path: "/r/A.txt".to_string(),
        size: 5,
        content: PreviewContent::Text("hello".to_string()),
    };
    let job = s.preview_loaded(load, Ok(preview)).unwrap();
    assert_eq!(s.status, "Loaded 5 bytes: A.txt");
    assert_eq!(job.generation, gen);
    assert!(s.highlight_pending);
    s.poll_highlight_result(HighlightResult { generation: gen.wrapping_sub(1), path: job.key.clone(), size: 5, payload: 7 });
    assert!(!s.is_highlight_cached("/r/A.txt", 5));
    s.poll_highlight_result(HighlightResult { generation: gen, path: job.key.clone(), size: 5, payload: 7 });
    assert!(s.is_highlight_cached("/r/A.txt", 5));
    assert_eq!(s.highlight_cache.get("/r/A.txt"), Some(&7));
    let load = s.select_tree_file("/r/A.txt".to_string());
    let preview = FilePreview {
        path: "/r/A.txt".to_string(),
        size: 5,
        content: PreviewContent::Text("hello".to_string()),
    };
    assert!(s.preview_loaded(load, Ok(preview)).is_none());
    s.close_preview();
    assert!(s.preview_path.is_none() && s.selected_tree_file.is_none());
}

#[test]
fn preview_errors_and_diff_source() {
    let mut s = opened_state();
    s.preview_mode = PreviewMode::Diff;
    let load = s.load_preview("/r/b.txt".to_string());
    assert!(matches!(load.source, PreviewSource::Diff { ref root } if root == "/r"));
    assert_eq!(load.key, "/r/b.diff");
    assert!(s.preview_loaded(load, Err("gone".to_string())).is_none());
    assert_eq!(s.status, "Error loading preview: gone");
    assert!(matches!(s.preview_content.as_ref().unwrap().content, PreviewContent::Error(ref e) if e == "gone"));
    assert_eq!(s.preview_relative_path("/r/src/x"), "src/x");
}

#[test]
fn highlight_cache_reads_back_and_stays_bounded() {
    let mut c: HighlightCache<&str> = HighlightCache::new();
    c.insert("a".to_string(), 10, "A");
    c.insert("b".to_string(), 20, "B");
    assert!(c.is_cached("a", 10) && !c.is_cached("a", 11));
    assert_eq!(c.get("b"), Some(&"B"));
    assert_eq!(c.size_in_bytes(), 30);
    c.insert("a".to_string(), 5, "A2");
    assert_eq!(c.size_in_bytes(), 25);
    assert_eq!(c.get("a"), Some(&"A2"));
    c.insert("big".to_string(), MAX_HIGHLIGHT_CACHE_SIZE - 10, "X");
    assert_eq!(c.size_in_bytes(), MAX_HIGHLIGHT_CACHE_SIZE - 10);
    assert!(c.get("a").is_none() && c.get("b").is_none());
    c.insert("huge".to_string(), MAX_HIGHLIGHT_CACHE_SIZE + 1, "H");
    assert_eq!(c.size_in_bytes(), MAX_HIGHLIGHT_CACHE_SIZE + 1);
    assert!(c.get("big").is_none());
    assert!(c.set_payload("huge", "H2"));
    assert!(!c.set_payload("nope", "N"));
    assert_eq!(c.get("huge"), Some(&"H2"));
    c.clear();
    assert_eq!(c.size_in_bytes(), 0);
}

#[test]
fn refresh_drops_vanished_files() {
    let mut s = opened_state();
    s.add_file_to_export("/r/A.txt".to_string(), false);
    s.add_file_to_export("/r/b.txt".to_string(), false);
    let _ = s.select_export_file(1);
    s.set_export_checked("/r/A.txt".to_string(), true);
    s.set_export_checked("/r/b.txt".to_string(), true);
    s.refresh_tree(&Vec::new(), None, &vec![true, false], false);
    assert_eq!(s.selected_files, vec!["/r/A.txt"]);
    assert_eq!(s.active_list_index, None);
    assert!(s.preview_path.is_none());
    assert!(s.checked_export_files.contains("/r/A.txt") && !s.checked_export_files.contains("/r/b.txt"));
}

#[test]
fn filter_and_rejections() {
    let mut s = opened_state();
    assert!(!s.set_filter_ignored(true));
    assert!(s.set_filter_ignored(false));
    assert_eq!(s.status, "Tree filter: showing all files");
    s.reject_cli_folder("/x");
    assert_eq!(s.status, "Error: CLI argument is not a valid directory: /x");
    s.reject_dropped_item("/f.txt");
    assert_eq!(s.status, "Error: Dropped item is not a directory: /f.txt");
}

#[test]
fn path_map_and_set_basics() {
    let mut m: PathMap<u8> = PathMap::new();
    m.insert("a".to_string(), 1);
    m.insert("b".to_string(), 2);
    m.insert("a".to_string(), 3);
    assert_eq!(m.len(), 2);
    assert_eq!(m.get("a"), Some(&3));
    m.retain_keys(&vec!["b".to_string()]);
    assert!(!m.contains_key("a") && m.contains_key("b"));
    m.remove("b");
    assert_eq!(m.len(), 0);
    let mut s = PathSet::new();
    s.insert("x".to_string());
    s.insert("x".to_string());
    assert_eq!(s.len(), 1);
    s.retain_in(&Vec::new());
    assert_eq!(s.len(), 0);
}
