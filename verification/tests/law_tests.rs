use code_to_md::collections::PathSet;
use code_to_md::fs_tree::{build_tree, collect_dirs, collect_files, mark_matches, WalkEntry};
use code_to_md::language::syntax_extension;
use code_to_md::markdown::path_to_markdown_path;
use code_to_md::pathname::to_rel_path_string;
use code_to_md::state::io::DroppedItem;
use code_to_md::state::{AppState, PreviewMode};

fn tree() -> code_to_md::fs_tree::TreeNode {
    let entries = vec![
        WalkEntry { path: "/r/docs".to_string(), is_dir: true },
        WalkEntry { path: "/r/docs/main_notes.md".to_string(), is_dir: false },
        WalkEntry { path: "/r/main.rs".to_string(), is_dir: false },
        WalkEntry { path: "/r/domain.rs".to_string(), is_dir: false },
    ];
    build_tree("/r".to_string(), &entries)
}

fn search(q: &str) -> (PathSet, usize) {
    let q: Vec<char> = q.chars().collect();
    let mut set = PathSet::new();
    let mut count = 0usize;
    mark_matches(&tree(), &q, &mut set, &mut count);
    (set, count)
}

#[test]
fn longer_query_matches_a_subset() {
    let (short, n_short) = search("ma");
    let (long, n_long) = search("main_");
    assert_eq!(n_short, 3);
    assert_eq!(n_long, 1);
    for p in long.to_vec() {
        assert!(short.contains(&p));
    }
    assert!(!long.contains("/r/domain.rs") && short.contains("/r/domain.rs"));
}

#[test]
fn files_and_dirs_cover_every_node_once() {
    let t = tree();
    let mut files = Vec::new();
    let mut dirs = Vec::new();
    collect_files(&t, &mut files);
    collect_dirs(&t, &mut dirs);
    let mut all: Vec<String> = files.into_iter().chain(dirs).collect();
    all.sort();
    assert_eq!(all, vec!["/r", "/r/docs", "/r/docs/main_notes.md", "/r/domain.rs", "/r/main.rs"]);
}

#[test]
fn list_label_and_heading_label_agree() {
    let root = "/p".to_string();
    let file = "/p/src/lib.rs";
    let label = to_rel_path_string(Some(&root), file);
    assert_eq!(format!("{}:", label), path_to_markdown_path(&root, file));
}

#[test]
fn extensions_follow_the_last_dot() {
    assert_eq!(syntax_extension("/p/.bashrc"), "");
    assert_eq!(syntax_extension("/p/archive.tar.GZ"), "gz");
    assert_eq!(syntax_extension("/p/x."), "");
    assert_eq!(syntax_extension("/p/dir/.."), "");
}

#[test]
fn fresh_state_starts_empty() {
    let s: AppState<u8> = AppState::new();
    assert_eq!(s.checked_files.len(), 0);
    assert_eq!(s.checked_dirs.len(), 0);
    assert_eq!(s.checked_export_files.len(), 0);
    assert_eq!(s.git_statuses.len(), 0);
    assert_eq!(s.export_modes.len(), 0);
    assert_eq!(s.highlight_cache.size_in_bytes(), 0);
    assert!(s.selected_tree_file.is_none());
    assert_eq!(s.search_match_count, 0);
}

#[test]
fn opening_a_folder_clears_the_search() {
    let mut s: AppState<u8> = AppState::new();
    s.tree_search = "main".to_string();
    s.open_folder("/r".to_string(), &Vec::new(), Ok(tree()));
    assert!(s.tree_search.is_empty());
    assert!(s.search_matches.is_none());
    assert_eq!(s.search_match_count, 0);
}

#[test]
fn out_of_range_removal_needs_no_project() {
    let mut s: AppState<u8> = AppState::new();
    s.preview_mode = PreviewMode::Diff;
    assert!(s.remove_file_by_index(4).is_none());
    assert!(s.select_export_file(0).is_none());
    assert!(s.remove_selected_from_export().is_none());
    assert_eq!(s.status, "Ready");
}

#[test]
fn dropped_items_open_the_first_folder() {
    let mut s: AppState<u8> = AppState::new();
    let items = vec![
        DroppedItem { path: String::new(), is_dir: true },
        DroppedItem { path: "/a.txt".to_string(), is_dir: false },
        DroppedItem { path: "/b.txt".to_string(), is_dir: false },
        DroppedItem { path: "/proj".to_string(), is_dir: true },
        DroppedItem { path: "/c.txt".to_string(), is_dir: false },
    ];
    assert_eq!(s.take_dropped_items(&items), Some("/proj".to_string()));
    assert_eq!(s.status, "Error: Dropped item is not a directory: /b.txt");
    let files = vec![DroppedItem { path: "/c.txt".to_string(), is_dir: false }];
    assert_eq!(s.take_dropped_items(&files), None);
    assert_eq!(s.status, "Error: Dropped item is not a directory: /c.txt");
    let mut fresh: AppState<u8> = AppState::new();
    assert_eq!(fresh.take_dropped_items(&Vec::new()), None);
    assert_eq!(fresh.status, "Ready");
}

#[test]
fn search_text_trims_unicode_white_space() {
    let mut s: AppState<u8> = AppState::new();
    s.open_folder("/r".to_string(), &Vec::new(), Ok(tree()));
    s.tree_search = "\u{3000}\t MAIN_\n\u{85}".to_string();
    s.recompute_search();
    assert_eq!(s.search_match_count, 1);
    assert!(s.search_matches.as_ref().unwrap().contains("/r/docs/main_notes.md"));
}
