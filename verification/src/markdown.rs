//! The Markdown format of an export: a heading naming the file, then its
//! contents inside a code fence long enough not to be closed by them.
use crate::language::{extension_to_language, language_of};
use crate::pathname::{
    extension, forward_slashes, join_with, normal_names, normal_part_names, push_joined,
    rel_path_label, relative_path, relative_to, spec_extension, spec_path_parts,
    spec_strip_prefix,
};
use crate::text::{
    chars_contain, chars_of, push_char, push_str, seq_contains, spec_to_lowercase,
};
use vstd::prelude::*;

verus! {

/// The heading label of a file: `@/`, the names of its path relative to the
/// root joined by `/`, and a colon; `@:` when no name remains.
pub open spec fn markdown_path(root: Seq<char>, path: Seq<char>) -> Seq<char> {
    let names = normal_names(spec_path_parts(relative_path(Some(root), path)));
    if names.len() == 0 {
        seq!['@', ':']
    } else {
        seq!['@', '/'] + join_with(names, '/') + seq![':']
    }
}

/// The heading label of a file in the Markdown export, such as
/// `@/src/main.rs:` for `/project/src/main.rs` under `/project`.
pub fn path_to_markdown_path(root: &str, path: &str) -> (res: String)
    ensures
        res@ == markdown_path(root@, path@),
{
    let root_s = root.to_string();
    let rel = relative_to(Some(&root_s), path);
    let names = normal_part_names(rel.as_str());
    let mut res = String::new();
    if names.len() == 0 {
        push_char(&mut res, '@');
        push_char(&mut res, ':');
        assert(res@ =~= seq!['@', ':']);
    } else {
        push_char(&mut res, '@');
        push_char(&mut res, '/');
        push_joined(&mut res, &names, '/');
        push_char(&mut res, ':');
        assert(res@ =~= seq!['@', '/'] + join_with(names@.map_values(|x: String| x@), '/')
            + seq![':']);
    }
    res
}

/// For a file under the root whose path below it is plain names joined by
/// `/` (no backslash), the label the export list shows, followed by a
/// colon, is the heading label of its section in the export.
pub proof fn lemma_list_label_is_heading_label(root: Seq<char>, path: Seq<char>, rel: Seq<char>)
    requires
        spec_strip_prefix(path, root) == Some(rel),
        rel.len() > 0,
        !rel.contains('\\'),
        join_with(normal_names(spec_path_parts(rel)), '/') == rel,
    ensures
        rel_path_label(Some(root), path) + seq![':'] == markdown_path(root, path),
{
    assert(forward_slashes(rel) =~= rel) by {
        assert forall|i: int| 0 <= i < rel.len() implies forward_slashes(rel)[i] == rel[i] by {
            if rel[i] == '\\' {
                assert(rel.contains(rel[i]));
            }
        }
    }
    let names = normal_names(spec_path_parts(rel));
    assert(names.len() != 0);
    assert(rel_path_label(Some(root), path) + seq![':'] =~= seq!['@', '/'] + join_with(names, '/')
        + seq![':']);
}

/// A run of `n` backticks.
pub open spec fn backticks(n: nat) -> Seq<char> {
    Seq::new(n, |i: int| '`')
}

/// The first fence length from `n` on whose run of backticks does not occur
/// in `content`.
pub open spec fn fence_len_from(content: Seq<char>, n: nat) -> nat
    decreases content.len() + 1 - n,
{
    if n > content.len() || !seq_contains(content, backticks(n)) {
        n
    } else {
        fence_len_from(content, n + 1)
    }
}

/// The length of the code fence around `content`: the shortest run of at
/// least three backticks that `content` does not contain.
pub open spec fn fence_len(content: Seq<char>) -> nat {
    fence_len_from(content, 3)
}

/// `n` is a fence length for `content`: at least three, not contained in
/// it, and every shorter length of at least three is contained in it.
pub open spec fn is_shortest_fence(content: Seq<char>, n: nat) -> bool {
    &&& n >= 3
    &&& !seq_contains(content, backticks(n))
    &&& forall|m: nat| 3 <= m < n ==> seq_contains(content, #[trigger] backticks(m))
}

proof fn lemma_longer_than_content(content: Seq<char>, n: nat)
    requires
        n > content.len(),
    ensures
        !seq_contains(content, backticks(n)),
{
}

proof fn lemma_fence_len_from(content: Seq<char>, n: nat)
    requires
        n >= 3,
        forall|m: nat| 3 <= m < n ==> seq_contains(content, #[trigger] backticks(m)),
    ensures
        is_shortest_fence(content, fence_len_from(content, n)),
    decreases content.len() + 1 - n,
{
    if n > content.len() {
        lemma_longer_than_content(content, n);
    } else if seq_contains(content, backticks(n)) {
        lemma_fence_len_from(content, n + 1);
    }
}

/// The fence never occurs inside the fenced contents, and no shorter fence
/// of at least three backticks would do: the code block is closed by the
/// closing fence and by nothing before it.
pub proof fn lemma_fence_is_shortest_absent(content: Seq<char>)
    ensures
        is_shortest_fence(content, fence_len(content)),
{
    lemma_fence_len_from(content, 3);
}

/// The code fence for `content`.
fn fence_for(content: &Vec<char>) -> (res: Vec<char>)
    ensures
        res@ == backticks(fence_len(content@)),
{
    let mut fence: Vec<char> = Vec::new();
    fence.push('`');
    fence.push('`');
    fence.push('`');
    assert(fence@ =~= backticks(3));
    let clen = content.len();
    let mut n: u128 = 3;
    while chars_contain(content, &fence)
        invariant
            fence@ == backticks(n as nat),
            3 <= n <= content@.len() + 3,
            content@.len() == clen,
            fence_len_from(content@, n as nat) == fence_len(content@),
        decreases content@.len() + 3 - n,
    {
        proof {
            if n > content@.len() {
                lemma_longer_than_content(content@, n as nat);
            }
        }
        fence.push('`');
        n = n + 1;
        assert(fence@ =~= backticks(n as nat));
    }
    fence
}

/// The text before the closing fence: heading line, opening fence with its
/// language, and the contents.
pub open spec fn entry_head(md_path: Seq<char>, fence: Seq<char>, language: Seq<char>, content: Seq<
    char,
>) -> Seq<char> {
    seq!['#', '#', ' '] + md_path + seq!['\n'] + fence + language + seq!['\n'] + content
}

/// One file's section of the export: `## <label>`, an opening fence naming
/// the language, the contents (ending in a line break, one being added when
/// missing), the closing fence and an empty line.
pub open spec fn markdown_entry(root: Seq<char>, path: Seq<char>, content: Seq<char>) -> Seq<char> {
    let fence = backticks(fence_len(content));
    let language = language_of(
        spec_to_lowercase(
            match spec_extension(path) {
                Some(e) => e,
                None => Seq::empty(),
            },
        ),
    );
    let head = entry_head(markdown_path(root, path), fence, language, content);
    let body = if head.last() == '\n' {
        head
    } else {
        head.push('\n')
    };
    body + fence + seq!['\n', '\n']
}

/// Formats one file of the export. The fence around `content` is the
/// shortest run of three or more backticks that does not occur in it.
pub fn generate_markdown_entry(root: &str, path: &str, content: &str) -> (res: String)
    ensures
        res@ == markdown_entry(root@, path@, content@),
{
    let markdown_path = path_to_markdown_path(root, path);
    let ext = match extension(path) {
        Some(e) => e,
        None => String::new(),
    };
    let language = extension_to_language(ext.as_str());
    let content_chars = chars_of(content);
    let fence = fence_for(&content_chars);
    let mut entry = String::new();
    push_str(&mut entry, "## ");
    proof {
        reveal_strlit("## ");
    }
    push_str(&mut entry, markdown_path.as_str());
    push_char(&mut entry, '\n');
    let nf = fence.len();
    for i in 0..nf
        invariant
            nf == fence@.len(),
            entry@ == seq!['#', '#', ' '] + markdown_path@ + seq!['\n'] + fence@.take(i as int),
    {
        push_char(&mut entry, fence[i]);
        assert(fence@.take(i + 1) =~= fence@.take(i as int).push(fence@[i as int]));
    }
    assert(fence@.take(nf as int) =~= fence@);
    push_str(&mut entry, language);
    push_char(&mut entry, '\n');
    push_str(&mut entry, content);
    let ghost head = entry@;
    proof {
        assert(head =~= entry_head(markdown_path@, fence@, language@, content@));
    }
    let ends_with_newline = if content_chars.len() == 0 {
        true
    } else {
        content_chars[content_chars.len() - 1] == '\n'
    };
    assert(ends_with_newline == (head.last() == '\n'));
    if !ends_with_newline {
        push_char(&mut entry, '\n');
    }
    let ghost body = entry@;
    for i in 0..nf
        invariant
            nf == fence@.len(),
            entry@ == body + fence@.take(i as int),
    {
        push_char(&mut entry, fence[i]);
        assert(fence@.take(i + 1) =~= fence@.take(i as int).push(fence@[i as int]));
    }
    assert(fence@.take(nf as int) =~= fence@);
    push_char(&mut entry, '\n');
    push_char(&mut entry, '\n');
    assert(entry@ =~= body + fence@ + seq!['\n', '\n']);
    entry
}

} // verus!
