use code_to_md::language::extension_to_language;
use code_to_md::markdown::{generate_markdown_entry, path_to_markdown_path};

#[test]
fn test_extension_to_language() {
    assert_eq!(extension_to_language("rs"), "rust");
    assert_eq!(extension_to_language("TSX"), "tsx");
    assert_eq!(extension_to_language("unknown"), "");
    assert_eq!(extension_to_language("yml"), "yaml");
}

#[test]
fn test_path_to_markdown_path() {
    let root = "/project";
    let file = "/project/src/main.rs";
    let md_path = path_to_markdown_path(root, file);
    assert_eq!(md_path, "@/src/main.rs:");
}

#[test]
fn test_dynamic_fences() {
    let root = "/project";
    let file = "/project/README.md";
    let content = "Here is some code:\n```rust\nfn main() {}\n```";
    let entry = generate_markdown_entry(root, file, content);

    assert!(entry.contains("````markdown\nHere is some code"));
    assert!(entry.ends_with("````\n\n"));
}
