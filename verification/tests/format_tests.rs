use code_to_md::language::{extension_to_language, syntax_extension, to_ascii_lowercase};
use code_to_md::layout::{line_numbers_text, PanelLayout};
use code_to_md::markdown::{generate_markdown_entry, path_to_markdown_path};
use code_to_md::pathname::{relative_to, sort_paths_in_order, to_rel_path_string};
use code_to_md::preview::{is_binary_bytes, preview_for_bytes, preview_for_size, PreviewContent};
use code_to_md::state::export::{
    append_prefix, compose_export, finish_patch, push_patch_line, FileFetch,
};
use code_to_md::state::io::classify_git_status;
use code_to_md::state::preview::{cache_key_for, diff_preview};
use code_to_md::state::{bump_generation, GitStatus, PreviewMode};
use code_to_md::text::str_contains;

#[test]
fn language_names_cover_families() {
    assert_eq!(extension_to_language("ts"), "typescript");
    assert_eq!(extension_to_language("MTS"), "typescript");
    assert_eq!(extension_to_language("cjs"), "javascript");
    assert_eq!(extension_to_language("hpp"), "cpp");
    assert_eq!(extension_to_language("ps1"), "powershell");
    assert_eq!(extension_to_language("txt"), "text");
    assert_eq!(extension_to_language(""), "");
}

#[test]
fn ascii_lowercase_leaves_other_letters() {
    assert_eq!(to_ascii_lowercase("ReadMe.MD"), "readme.md");
    assert_eq!(to_ascii_lowercase("ÄB"), "Äb");
}

#[test]
fn syntax_extension_maps_related_extensions() {
    assert_eq!(syntax_extension("/p/app.TSX"), "js");
    assert_eq!(syntax_extension("/p/style.scss"), "css");
    assert_eq!(syntax_extension("/p/App.vue"), "html");
    assert_eq!(syntax_extension("/p/main.rs"), "rs");
    assert_eq!(syntax_extension("/p/Makefile"), "");
    assert_eq!(syntax_extension("/p/x.CXX"), "cpp");
}

#[test]
fn markdown_path_of_root_and_outside_files() {
    assert_eq!(path_to_markdown_path("/project", "/project"), "@:");
    assert_eq!(path_to_markdown_path("/project", "/other/x.rs"), "@/other/x.rs:");
    assert_eq!(path_to_markdown_path("/project", "/project/a/b/c.txt"), "@/a/b/c.txt:");
}

#[test]
fn markdown_entry_exact_text() {
    let entry = generate_markdown_entry("/p", "/p/src/main.rs", "fn main() {}");
    assert_eq!(entry, "## @/src/main.rs:\n```rust\nfn main() {}\n```\n\n");
    let entry = generate_markdown_entry("/p", "/p/notes", "line\n");
    assert_eq!(entry, "## @/notes:\n```\nline\n```\n\n");
    let entry = generate_markdown_entry("/p", "/p/empty.py", "");
    assert_eq!(entry, "## @/empty.py:\n```python\n```\n\n");
}

#[test]
fn markdown_fence_is_never_in_content() {
    let content = "a ``` b ```` c ``````";
    let entry = generate_markdown_entry("/p", "/p/f.md", content);
    assert_eq!(entry, format!("## @/f.md:\n```````markdown\n{}\n```````\n\n", content));
    assert!(!content.contains("```````"));
    let entry = generate_markdown_entry("/p", "/p/f.txt", "x ```` y");
    assert!(entry.starts_with("## @/f.txt:\n`````text\n"));
}

#[test]
fn relative_labels() {
    let root = "/p".to_string();
    assert_eq!(to_rel_path_string(Some(&root), "/p/a/b.rs"), "@/a/b.rs");
    assert_eq!(to_rel_path_string(None, "/x/y"), "@//x/y");
    assert_eq!(to_rel_path_string(Some(&root), "/q/z"), "@//q/z");
    assert_eq!(to_rel_path_string(Some(&root), "/p/dir\\file"), "@/dir/file");
    assert_eq!(relative_to(Some(&root), "/p/a"), "a");
    assert_eq!(relative_to(None, "/p/a"), "/p/a");
}

#[test]
fn paths_sort_by_components() {
    let v = vec![
        "/p/b".to_string(),
        "/p/a/z".to_string(),
        "/p/a".to_string(),
        "/p/a-b".to_string(),
    ];
    let sorted = sort_paths_in_order(v);
    assert_eq!(sorted, vec!["/p/a", "/p/a/z", "/p/a-b", "/p/b"]);
}

#[test]
fn binary_detection_looks_at_first_kilobyte() {
    assert!(is_binary_bytes(&[1, 2, 0, 3]));
    assert!(!is_binary_bytes(b"hello"));
    let mut late = vec![b'a'; 1024];
    late.push(0);
    assert!(!is_binary_bytes(&late));
    let mut edge = vec![b'a'; 1023];
    edge.push(0);
    assert!(is_binary_bytes(&edge));
}

#[test]
fn preview_of_sizes_and_bytes() {
    assert!(preview_for_size("/f", 1048576).is_none());
    let p = preview_for_size("/f", 1048577).unwrap();
    assert!(matches!(p.content, PreviewContent::TooLarge));
    assert_eq!(p.size, 1048577);
    let p = preview_for_bytes("/f", 3, b"abc".to_vec());
    match p.content {
        PreviewContent::Text(t) => assert_eq!(t, "abc"),
        _ => panic!("expected text"),
    }
    let p = preview_for_bytes("/f", 2, vec![0xff, 0xfe]);
    assert!(matches!(p.content, PreviewContent::Binary));
    let mut bytes = vec![b'a'; 8000];
    bytes.push(0);
    let p = preview_for_bytes("/f", 8001, bytes);
    assert!(matches!(p.content, PreviewContent::Binary));
    let mut bytes = vec![b'a'; 8192];
    bytes.push(0);
    let p = preview_for_bytes("/f", 8193, bytes);
    assert!(matches!(p.content, PreviewContent::Text(_)));
}

#[test]
fn diff_previews() {
    let p = diff_preview("/p/a.rs", Some("+x\n".to_string()));
    assert_eq!(p.size, 3);
    assert!(matches!(p.content, PreviewContent::Text(ref t) if t == "+x\n"));
    let p = diff_preview("/p/a.rs", None);
    assert_eq!(p.size, 0);
    assert!(matches!(p.content, PreviewContent::Text(ref t) if t == "No changes or file untracked."));
}

#[test]
fn cache_keys_by_mode() {
    assert_eq!(cache_key_for("/p/a.rs", PreviewMode::Source), "/p/a.rs");
    assert_eq!(cache_key_for("/p/a.rs", PreviewMode::Diff), "/p/a.diff");
    assert_eq!(cache_key_for("/p/Makefile", PreviewMode::Diff), "/p/Makefile.diff");
}

#[test]
fn git_status_priority() {
    assert_eq!(classify_git_status(true, true, true), Some(GitStatus::Untracked));
    assert_eq!(classify_git_status(false, true, true), Some(GitStatus::Modified));
    assert_eq!(classify_git_status(false, false, true), Some(GitStatus::Deleted));
    assert_eq!(classify_git_status(false, false, false), None);
}

#[test]
fn generation_wraps() {
    assert_eq!(bump_generation(0), 1);
    assert_eq!(bump_generation(u64::MAX), 0);
}

#[test]
fn patch_lines_and_empty_patch() {
    let mut patch = String::new();
    push_patch_line(&mut patch, 'F', b"diff --git a b\n");
    push_patch_line(&mut patch, '+', b"added\n");
    push_patch_line(&mut patch, '-', &[0xff, b'\n']);
    push_patch_line(&mut patch, ' ', b"same\n");
    assert_eq!(patch, "diff --git a b\n+added\n- same\n");
    assert_eq!(finish_patch(String::new()), None);
    assert_eq!(finish_patch("x".to_string()), Some("x".to_string()));
}

#[test]
fn append_prefix_adds_missing_line_break() {
    assert_eq!(append_prefix(None), "");
    assert_eq!(append_prefix(Some(String::new())), "");
    assert_eq!(append_prefix(Some("a\n".to_string())), "");
    assert_eq!(append_prefix(Some("a".to_string())), "\n");
}

#[test]
fn export_composition_counts_and_skips() {
    let paths = vec![
        "/p/a.rs".to_string(),
        "/p/gone.rs".to_string(),
        "/p/bin.dat".to_string(),
        "/p/d.rs".to_string(),
        "/p/nodiff.rs".to_string(),
        "/p/latin.txt".to_string(),
        "/p/unreadable".to_string(),
    ];
    let fetched = vec![
        FileFetch::Read(Some(b"fn a() {}\n".to_vec())),
        FileFetch::Missing,
        FileFetch::Read(Some(vec![1, 0, 2])),
        FileFetch::Diff(Some("+new\n".to_string())),
        FileFetch::Diff(None),
        FileFetch::Read(Some(vec![0xe9])),
        FileFetch::Read(None),
    ];
    let out = compose_export("/p", &paths, &fetched);
    assert_eq!(out.written, 2);
    assert_eq!(out.skipped, 5);
    assert_eq!(
        out.text,
        "## @/a.rs:\n```rust\nfn a() {}\n```\n\n## @/d.rs:\n```rust\n+new\n```\n\n"
    );
}

#[test]
fn line_numbers_follow_lines() {
    assert_eq!(line_numbers_text(""), "1");
    assert_eq!(line_numbers_text("a"), "1");
    assert_eq!(line_numbers_text("a\n"), "1");
    assert_eq!(line_numbers_text("a\nb"), "1\n2");
    assert_eq!(line_numbers_text("a\n\nb\n"), "1\n2\n3");
    assert_eq!(line_numbers_text("\n"), "1");
    assert_eq!(line_numbers_text("\n\n"), "1\n2");
}

#[test]
fn panel_layout_follows_width() {
    let mut l = PanelLayout::new();
    assert!(l.show_left_panel && l.show_right_panel);
    l.apply_width(true);
    assert_eq!(l.is_compact_mode, Some(true));
    assert!(!l.show_left_panel && !l.show_right_panel);
    l.show_left_panel = true;
    l.apply_width(true);
    assert!(l.show_left_panel);
    l.tree_toggled(true);
    assert!(!l.show_right_panel);
    l.show_right_panel = true;
    l.list_toggled(true);
    assert!(!l.show_left_panel);
    l.apply_width(false);
    assert!(l.show_left_panel && l.show_right_panel);
    l.tree_toggled(false);
    assert!(l.show_right_panel);
}

#[test]
fn substring_search() {
    assert!(str_contains("hello world", "o w"));
    assert!(str_contains("abc", ""));
    assert!(!str_contains("abc", "abcd"));
}
