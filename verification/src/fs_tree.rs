//! The project's file tree: built from the entries a directory walk yields,
//! each directory's children listed directories first, then by name.
use crate::pathname::{
    file_name, parent, part_eq, parts_eq, parts_view, path_parts, spec_file_name, spec_parent,
    spec_path_parts, PathPart,
};
use crate::collections::{string_views, PathSet};
use crate::text::{
    chars_contain, chars_lt, chars_of, lemma_lex_lt_asymmetric, lemma_lex_lt_total,
    lemma_lex_lt_transitive, lex_lt, occurs_at, seq_contains, spec_to_lowercase, str_eq, to_lowercase,
};
use vstd::prelude::*;

verus! {

/// A file or directory of the project.
#[derive(Debug, PartialEq, Eq)]
pub struct TreeNode {
    pub name: String,
    pub path: String,
    pub is_dir: bool,
    pub children: Vec<TreeNode>,
    pub expanded: bool,
}

/// The displayed name of a path: its final part, or nothing.
pub open spec fn name_of(p: Seq<char>) -> Seq<char> {
    match spec_file_name(p) {
        Some(n) => n,
        None => Seq::empty(),
    }
}

impl TreeNode {
    /// A node for `path` without children, collapsed, named after the final
    /// part of the path.
    pub fn new(path: String, is_dir: bool) -> (res: Self)
        ensures
            res.path@ == path@,
            res.is_dir == is_dir,
            res.name@ == name_of(path@),
            res.children@.len() == 0,
            !res.expanded,
    {
        let name = match file_name(path.as_str()) {
            Some(n) => n,
            None => String::new(),
        };
        TreeNode { name, path, children: Vec::new(), is_dir, expanded: false }
    }
}

// ---------------------------------------------------------------------------
// Collecting paths.
// ---------------------------------------------------------------------------

/// The paths of the files in a tree, depth first.
pub open spec fn files_of(node: TreeNode) -> Seq<Seq<char>>
    decreases node,
{
    if node.is_dir {
        files_of_seq(node.children@)
    } else {
        seq![node.path@]
    }
}

/// The paths of the files in a list of trees, depth first.
pub open spec fn files_of_seq(nodes: Seq<TreeNode>) -> Seq<Seq<char>>
    decreases nodes,
{
    if nodes.len() == 0 {
        Seq::empty()
    } else {
        files_of_seq(nodes.drop_last()) + files_of(nodes.last())
    }
}

/// Appends the paths of the files under `node` (or of `node` itself when it
/// is a file) to `out`, depth first.
pub fn collect_files(node: &TreeNode, out: &mut Vec<String>)
    ensures
        string_views(final(out)@) == string_views(old(out)@) + files_of(*node),
    decreases node,
{
    if node.is_dir {
        let n = node.children.len();
        let ghost start = string_views(out@);
        for i in 0..n
            invariant
                n == node.children@.len(),
                node.is_dir,
                string_views(out@) == start + files_of_seq(node.children@.take(i as int)),
        {
            assert(node.children@.take(i + 1).drop_last() =~= node.children@.take(i as int));
            collect_files(&node.children[i], out);
            assert(start + files_of_seq(node.children@.take(i + 1)) =~= start + files_of_seq(
                node.children@.take(i as int),
            ) + files_of(node.children@[i as int]));
        }
        assert(node.children@.take(n as int) =~= node.children@);
    } else {
        let ghost prev = out@;
        out.push(node.path.clone());
        assert(string_views(out@) =~= string_views(prev) + seq![node.path@]);
    }
}

/// The paths of the directories in a tree, each before its contents.
pub open spec fn dirs_of(node: TreeNode) -> Seq<Seq<char>>
    decreases node,
{
    if node.is_dir {
        seq![node.path@] + dirs_of_seq(node.children@)
    } else {
        Seq::empty()
    }
}

/// The paths of the directories in a list of trees.
pub open spec fn dirs_of_seq(nodes: Seq<TreeNode>) -> Seq<Seq<char>>
    decreases nodes,
{
    if nodes.len() == 0 {
        Seq::empty()
    } else {
        dirs_of_seq(nodes.drop_last()) + dirs_of(nodes.last())
    }
}

/// Appends the paths of the directories in `node`, each before its
/// contents, to `out`.
pub fn collect_dirs(node: &TreeNode, out: &mut Vec<String>)
    ensures
        string_views(final(out)@) == string_views(old(out)@) + dirs_of(*node),
    decreases node,
{
    if node.is_dir {
        let ghost before = string_views(out@);
        out.push(node.path.clone());
        let ghost start = string_views(out@);
        assert(start =~= before + seq![node.path@]);
        let n = node.children.len();
        for i in 0..n
            invariant
                n == node.children@.len(),
                node.is_dir,
                string_views(out@) == start + dirs_of_seq(node.children@.take(i as int)),
        {
            assert(node.children@.take(i + 1).drop_last() =~= node.children@.take(i as int));
            collect_dirs(&node.children[i], out);
            assert(start + dirs_of_seq(node.children@.take(i + 1)) =~= start + dirs_of_seq(
                node.children@.take(i as int),
            ) + dirs_of(node.children@[i as int]));
        }
        assert(node.children@.take(n as int) =~= node.children@);
        assert(string_views(out@) =~= before + dirs_of(*node));
    }
}

/// The paths of all nodes of a tree, each node before its children.
pub open spec fn node_paths(node: TreeNode) -> Seq<Seq<char>>
    decreases node,
{
    seq![node.path@] + node_paths_seq(node.children@)
}

/// The paths of all nodes of a list of trees.
pub open spec fn node_paths_seq(nodes: Seq<TreeNode>) -> Seq<Seq<char>>
    decreases nodes,
{
    if nodes.len() == 0 {
        Seq::empty()
    } else {
        node_paths_seq(nodes.drop_last()) + node_paths(nodes.last())
    }
}

/// No file node of the tree has children.
pub open spec fn files_are_leaves(node: TreeNode) -> bool
    decreases node,
{
    &&& (node.is_dir || node.children@.len() == 0)
    &&& files_are_leaves_seq(node.children@)
}

/// No file node of the list of trees has children.
pub open spec fn files_are_leaves_seq(nodes: Seq<TreeNode>) -> bool
    decreases nodes,
{
    nodes.len() == 0 || (files_are_leaves_seq(nodes.drop_last()) && files_are_leaves(nodes.last()))
}

/// In a tree whose files have no children, the collected files and the
/// collected directories together are the paths of all its nodes, each
/// node once.
pub proof fn lemma_files_and_dirs_cover_nodes(node: TreeNode)
    requires
        files_are_leaves(node),
    ensures
        (files_of(node) + dirs_of(node)).to_multiset() == node_paths(node).to_multiset(),
        files_of(node).len() + dirs_of(node).len() == node_paths(node).len(),
    decreases node,
{
    broadcast use vstd::multiset::group_multiset_axioms;
    let p = seq![node.path@];
    if node.is_dir {
        let ch = node.children@;
        lemma_files_and_dirs_cover_nodes_seq(ch);
        let (f, d, n) = (files_of_seq(ch), dirs_of_seq(ch), node_paths_seq(ch));
        vstd::seq_lib::lemma_multiset_commutative(f, p + d);
        vstd::seq_lib::lemma_multiset_commutative(p, d);
        vstd::seq_lib::lemma_multiset_commutative(p, n);
        vstd::seq_lib::lemma_multiset_commutative(f, d);
        assert((f + (p + d)).to_multiset() =~= (p + n).to_multiset());
    } else {
        assert(node.children@ =~= Seq::<TreeNode>::empty());
        assert(files_of(node) + dirs_of(node) =~= node_paths(node));
    }
}

/// The same, for a list of trees.
pub proof fn lemma_files_and_dirs_cover_nodes_seq(nodes: Seq<TreeNode>)
    requires
        files_are_leaves_seq(nodes),
    ensures
        (files_of_seq(nodes) + dirs_of_seq(nodes)).to_multiset() == node_paths_seq(nodes).to_multiset(),
        files_of_seq(nodes).len() + dirs_of_seq(nodes).len() == node_paths_seq(nodes).len(),
    decreases nodes,
{
    broadcast use vstd::multiset::group_multiset_axioms;
    if nodes.len() > 0 {
        let dl = nodes.drop_last();
        let l = nodes.last();
        lemma_files_and_dirs_cover_nodes_seq(dl);
        lemma_files_and_dirs_cover_nodes(l);
        let (f1, d1, n1) = (files_of_seq(dl), dirs_of_seq(dl), node_paths_seq(dl));
        let (f2, d2, n2) = (files_of(l), dirs_of(l), node_paths(l));
        vstd::seq_lib::lemma_multiset_commutative(f1 + f2, d1 + d2);
        vstd::seq_lib::lemma_multiset_commutative(f1, f2);
        vstd::seq_lib::lemma_multiset_commutative(d1, d2);
        vstd::seq_lib::lemma_multiset_commutative(f1, d1);
        vstd::seq_lib::lemma_multiset_commutative(f2, d2);
        vstd::seq_lib::lemma_multiset_commutative(n1, n2);
        assert(((f1 + f2) + (d1 + d2)).to_multiset() =~= (n1 + n2).to_multiset());
    } else {
        assert(files_of_seq(nodes) + dirs_of_seq(nodes) =~= node_paths_seq(nodes));
    }
}

// ---------------------------------------------------------------------------
// Building the tree from a directory walk.
// ---------------------------------------------------------------------------

/// An entry found by the directory walk below the root.
pub struct WalkEntry {
    pub path: String,
    pub is_dir: bool,
}

/// An entry as a path and whether it is a directory.
pub open spec fn entries_view(es: Seq<WalkEntry>) -> Seq<(Seq<char>, bool)> {
    es.map_values(|e: WalkEntry| (e.path@, e.is_dir))
}

/// Whether the walk descends into (or lists) an entry: the root always, and
/// below it anything not named `.git`.
pub fn keep_walk_entry(depth: usize, name: &str) -> (res: bool)
    ensures
        res == (depth == 0 || name@ != ".git"@),
{
    if depth == 0 {
        return true;
    }
    !str_eq(name, ".git")
}

/// Paths `a` and `b` name the same place: they have the same parts.
pub open spec fn same_path(a: Seq<char>, b: Seq<char>) -> bool {
    spec_path_parts(a) == spec_path_parts(b)
}

/// The entry's parent directory is `p`.
pub open spec fn is_child_of(e: (Seq<char>, bool), p: Seq<char>) -> bool {
    match spec_parent(e.0) {
        Some(q) => same_path(q, p),
        None => false,
    }
}

/// The entries whose parent is `p`, in walk order.
pub open spec fn child_entries(es: Seq<(Seq<char>, bool)>, p: Seq<char>) -> Seq<(Seq<char>, bool)>
    decreases es.len(),
{
    if es.len() == 0 {
        Seq::empty()
    } else if is_child_of(es.last(), p) {
        child_entries(es.drop_last(), p).push(es.last())
    } else {
        child_entries(es.drop_last(), p)
    }
}

/// The name by which entries are ordered: the lowercased displayed name.
pub open spec fn sort_name(e: (Seq<char>, bool)) -> Seq<char> {
    spec_to_lowercase(name_of(e.0))
}

/// Entry `a` comes before entry `b`: directories before files, and among
/// the same kind, by lowercased name.
pub open spec fn sorts_before(a: (Seq<char>, bool), b: (Seq<char>, bool)) -> bool {
    (a.1 && !b.1) || (a.1 == b.1 && lex_lt(sort_name(a), sort_name(b)))
}

/// `x` placed into `s` after every entry that does not sort after it.
pub open spec fn insert_sorted(s: Seq<(Seq<char>, bool)>, x: (Seq<char>, bool)) -> Seq<
    (Seq<char>, bool),
>
    decreases s.len(),
{
    if s.len() == 0 {
        seq![x]
    } else if sorts_before(x, s.last()) {
        insert_sorted(s.drop_last(), x).push(s.last())
    } else {
        s.push(x)
    }
}

/// The entries in display order; entries that tie keep their walk order.
pub open spec fn sort_entries(s: Seq<(Seq<char>, bool)>) -> Seq<(Seq<char>, bool)>
    decreases s.len(),
{
    if s.len() == 0 {
        s
    } else {
        insert_sorted(sort_entries(s.drop_last()), s.last())
    }
}

/// `node` is the tree the walk entries give for its own path: named after
/// its path; a directory's children are the entries whose parent it is, in
/// display order, each collapsed and built the same way; a file has no
/// children.
pub open spec fn tree_from(node: TreeNode, es: Seq<(Seq<char>, bool)>) -> bool
    decreases node,
{
    &&& node.name@ == name_of(node.path@)
    &&& if node.is_dir {
        children_from(node.children@, sort_entries(child_entries(es, node.path@)), es)
    } else {
        node.children@.len() == 0
    }
}

/// `nodes` are the trees for the entries `kids`, one for one.
pub open spec fn children_from(
    nodes: Seq<TreeNode>,
    kids: Seq<(Seq<char>, bool)>,
    es: Seq<(Seq<char>, bool)>,
) -> bool
    decreases nodes,
{
    &&& nodes.len() == kids.len()
    &&& nodes.len() > 0 ==> {
        &&& children_from(nodes.drop_last(), kids.drop_last(), es)
        &&& nodes.last().path@ == kids.last().0
        &&& nodes.last().is_dir == kids.last().1
        &&& !nodes.last().expanded
        &&& tree_from(nodes.last(), es)
    }
}

/// What is worked out once per entry while building the tree.
struct EntryInfo {
    path: String,
    is_dir: bool,
    parts: Vec<PathPart>,
    has_parent: bool,
    sort_name: Vec<char>,
}

spec fn info_ok(info: EntryInfo, e: (Seq<char>, bool)) -> bool {
    &&& info.path@ == e.0
    &&& info.is_dir == e.1
    &&& parts_view(info.parts@) == spec_path_parts(e.0)
    &&& info.has_parent == spec_parent(e.0) is Some
    &&& parent_parts_known(e.0)
    &&& info.sort_name@ == sort_name(e)
}

/// Where `p` has a parent, the parent has the parts of `p` but the last (as
/// `parent` reported when it was asked about `p`).
spec fn parent_parts_known(p: Seq<char>) -> bool {
    spec_parent(p) matches Some(q) ==> spec_path_parts(p).len() > 0 && spec_path_parts(q)
        == spec_path_parts(p).drop_last()
}

spec fn infos_ok(infos: Seq<EntryInfo>, es: Seq<(Seq<char>, bool)>) -> bool {
    &&& infos.len() == es.len()
    &&& forall|i: int| 0 <= i < es.len() ==> info_ok(#[trigger] infos[i], es[i])
}

fn entry_info(e: &WalkEntry) -> (res: EntryInfo)
    ensures
        info_ok(res, (e.path@, e.is_dir)),
{
    let parts = path_parts(e.path.as_str());
    let has_parent = parent(e.path.as_str()).is_some();
    let name = match file_name(e.path.as_str()) {
        Some(n) => n,
        None => String::new(),
    };
    let lower = to_lowercase(name.as_str());
    let sort_name = chars_of(lower.as_str());
    EntryInfo { path: e.path.clone(), is_dir: e.is_dir, parts, has_parent, sort_name }
}

/// The entries as (index, view) positions: the views of `idx` in `es`.
spec fn picked(es: Seq<(Seq<char>, bool)>, idx: Seq<usize>) -> Seq<(Seq<char>, bool)> {
    idx.map_values(|i: usize| es[i as int])
}

/// Whether the entry described by `info` has the directory with parts
/// `node_parts` as its parent.
fn child_of(info: &EntryInfo, node_parts: &Vec<PathPart>) -> (res: bool)
    requires
        parts_view(info.parts@) == spec_path_parts(info.path@),
        info.has_parent == spec_parent(info.path@) is Some,
        parent_parts_known(info.path@),
    ensures
        res == match spec_parent(info.path@) {
            Some(q) => spec_path_parts(q) == parts_view(node_parts@),
            None => false,
        },
{
    if !info.has_parent {
        return false;
    }
    // The parent's parts are the entry's parts without the last one.
    let n = info.parts.len();
    if n == 0 || n - 1 != node_parts.len() {
        proof {
            let q = spec_parent(info.path@)->0;
            assert(spec_path_parts(q).len() != parts_view(node_parts@).len());
        }
        return false;
    }
    let m = node_parts.len();
    let mut same = true;
    let mut k: usize = 0;
    while k < m
        invariant
            m == node_parts@.len(),
            n == info.parts@.len(),
            n == m + 1,
            k <= m,
            same == (forall|j: int| 0 <= j < k ==> info.parts@[j]@ == node_parts@[j]@),
        decreases m - k,
    {
        let eq = parts_eq_at(&info.parts, node_parts, k);
        same = same && eq;
        k = k + 1;
    }
    proof {
        let q = spec_parent(info.path@)->0;
        let pv = spec_path_parts(info.path@);
        assert(pv == parts_view(info.parts@));
        if same {
            assert(spec_path_parts(q) =~= parts_view(node_parts@));
        } else {
            let j = choose|j: int| 0 <= j < m && info.parts@[j]@ != node_parts@[j]@;
            assert(spec_path_parts(q)[j] == pv[j]);
        }
    }
    same
}

fn parts_eq_at(a: &Vec<PathPart>, b: &Vec<PathPart>, k: usize) -> (res: bool)
    requires
        k < a@.len(),
        k < b@.len(),
    ensures
        res == (a@[k as int]@ == b@[k as int]@),
{
    part_eq(&a[k], &b[k])
}

fn infos_for(entries: &Vec<WalkEntry>) -> (res: Vec<EntryInfo>)
    ensures
        infos_ok(res@, entries_view(entries@)),
{
    let mut res: Vec<EntryInfo> = Vec::new();
    let n = entries.len();
    for i in 0..n
        invariant
            n == entries@.len(),
            res@.len() == i,
            forall|k: int| 0 <= k < i ==> info_ok(#[trigger] res@[k], entries_view(entries@)[k]),
    {
        let info = entry_info(&entries[i]);
        res.push(info);
    }
    res
}

/// The indices of the entries whose parent has the parts `node_parts`, in
/// walk order.
fn child_indices(
    infos: &Vec<EntryInfo>,
    node_parts: &Vec<PathPart>,
    Ghost(es): Ghost<Seq<(Seq<char>, bool)>>,
    Ghost(p): Ghost<Seq<char>>,
) -> (res: Vec<usize>)
    requires
        infos_ok(infos@, es),
        spec_path_parts(p) == parts_view(node_parts@),
    ensures
        picked(es, res@) == child_entries(es, p),
        forall|j: int| 0 <= j < res@.len() ==> res@[j] < es.len(),
{
    let mut res: Vec<usize> = Vec::new();
    let n = infos.len();
    for i in 0..n
        invariant
            n == infos@.len(),
            infos_ok(infos@, es),
            spec_path_parts(p) == parts_view(node_parts@),
            picked(es, res@) == child_entries(es.take(i as int), p),
            forall|j: int| 0 <= j < res@.len() ==> res@[j] < i,
    {
        assert(info_ok(infos@[i as int], es[i as int]));
        let c = child_of(&infos[i], node_parts);
        assert(es.take(i + 1).drop_last() =~= es.take(i as int));
        assert(es.take(i + 1).last() == es[i as int]);
        if c {
            let ghost prev = res@;
            res.push(i);
            assert(picked(es, res@) =~= picked(es, prev).push(es[i as int]));
        }
    }
    assert(es.take(n as int) =~= es);
    res
}

/// Whether entry `a` is listed before entry `b`.
fn listed_before(infos: &Vec<EntryInfo>, a: usize, b: usize, Ghost(es): Ghost<
    Seq<(Seq<char>, bool)>,
>) -> (res: bool)
    requires
        infos_ok(infos@, es),
        a < es.len(),
        b < es.len(),
    ensures
        res == sorts_before(es[a as int], es[b as int]),
{
    assert(info_ok(infos@[a as int], es[a as int]));
    assert(info_ok(infos@[b as int], es[b as int]));
    let da = infos[a].is_dir;
    let db = infos[b].is_dir;
    if da && !db {
        true
    } else if da == db {
        chars_lt(&infos[a].sort_name, &infos[b].sort_name)
    } else {
        false
    }
}

/// Inserting `x` where the scan from the back stops: after the entries it
/// does not sort before.
proof fn lemma_insert_sorted_at(s: Seq<(Seq<char>, bool)>, x: (Seq<char>, bool), j: int)
    requires
        0 <= j <= s.len(),
        forall|k: int| j <= k < s.len() ==> sorts_before(x, #[trigger] s[k]),
        j > 0 ==> !sorts_before(x, s[j - 1]),
    ensures
        insert_sorted(s, x) == s.insert(j, x),
    decreases s.len(),
{
    if s.len() == 0 {
        assert(s.insert(j, x) =~= seq![x]);
    } else if j == s.len() {
        assert(s.insert(j, x) =~= s.push(x));
    } else {
        assert(sorts_before(x, s[s.len() - 1]));
        lemma_insert_sorted_at(s.drop_last(), x, j);
        assert(s.insert(j, x) =~= s.drop_last().insert(j, x).push(s.last()));
    }
}

/// The indices `idx` reordered so that their entries are in display order.
fn sort_indices(infos: &Vec<EntryInfo>, idx: Vec<usize>, Ghost(es): Ghost<Seq<(Seq<char>, bool)>>) -> (res: Vec<usize>)
    requires
        infos_ok(infos@, es),
        forall|j: int| 0 <= j < idx@.len() ==> idx@[j] < es.len(),
    ensures
        picked(es, res@) == sort_entries(picked(es, idx@)),
        forall|j: int| 0 <= j < res@.len() ==> res@[j] < es.len(),
{
    let mut sorted: Vec<usize> = Vec::new();
    let n = idx.len();
    for t in 0..n
        invariant
            n == idx@.len(),
            infos_ok(infos@, es),
            forall|j: int| 0 <= j < idx@.len() ==> idx@[j] < es.len(),
            forall|j: int| 0 <= j < sorted@.len() ==> sorted@[j] < es.len(),
            picked(es, sorted@) == sort_entries(picked(es, idx@.take(t as int))),
            sorted@.len() == t,
    {
        let x = idx[t];
        let mut j = sorted.len();
        while j > 0 && listed_before(infos, x, sorted[j - 1], Ghost(es))
            invariant
                j <= sorted@.len(),
                x < es.len(),
                infos_ok(infos@, es),
                forall|k: int| 0 <= k < sorted@.len() ==> sorted@[k] < es.len(),
                forall|k: int| j <= k < sorted@.len() ==> sorts_before(es[x as int], #[trigger] picked(es, sorted@)[k]),
            decreases j,
        {
            j = j - 1;
        }
        let ghost before = picked(es, sorted@);
        proof {
            lemma_insert_sorted_at(before, es[x as int], j as int);
            assert(picked(es, idx@.take(t + 1)).drop_last() =~= picked(es, idx@.take(t as int)));
            assert(picked(es, idx@.take(t + 1)).last() == es[x as int]);
        }
        sorted.insert(j, x);
        assert(picked(es, sorted@) =~= before.insert(j as int, es[x as int]));
    }
    assert(idx@.take(n as int) =~= idx@);
    sorted
}

/// The maximum number of parts among the entries and `root_parts`.
fn parts_bound(infos: &Vec<EntryInfo>, root_parts: &Vec<PathPart>) -> (res: usize)
    ensures
        res >= root_parts@.len(),
        forall|k: int| 0 <= k < infos@.len() ==> #[trigger] infos@[k].parts@.len() <= res,
{
    let mut b = root_parts.len();
    let n = infos.len();
    for i in 0..n
        invariant
            n == infos@.len(),
            b >= root_parts@.len(),
            forall|k: int| 0 <= k < i ==> #[trigger] infos@[k].parts@.len() <= b,
    {
        if infos[i].parts.len() > b {
            b = infos[i].parts.len();
        }
    }
    b
}

/// The children of the directory with parts `node_parts`, built from the
/// walk entries.
fn build_children(
    infos: &Vec<EntryInfo>,
    node_parts: &Vec<PathPart>,
    bound: usize,
    Ghost(es): Ghost<Seq<(Seq<char>, bool)>>,
    Ghost(p): Ghost<Seq<char>>,
) -> (res: Vec<TreeNode>)
    requires
        infos_ok(infos@, es),
        spec_path_parts(p) == parts_view(node_parts@),
        node_parts@.len() <= bound,
        forall|k: int| 0 <= k < infos@.len() ==> #[trigger] infos@[k].parts@.len() <= bound,
    ensures
        children_from(res@, sort_entries(child_entries(es, p)), es),
    decreases bound - node_parts@.len(),
{
    let kids = child_indices(infos, node_parts, Ghost(es), Ghost(p));
    let order = sort_indices(infos, kids, Ghost(es));
    let ghost target = sort_entries(child_entries(es, p));
    let mut res: Vec<TreeNode> = Vec::new();
    let n = order.len();
    for j in 0..n
        invariant
            n == order@.len(),
            infos_ok(infos@, es),
            spec_path_parts(p) == parts_view(node_parts@),
            node_parts@.len() <= bound,
            forall|k: int| 0 <= k < infos@.len() ==> #[trigger] infos@[k].parts@.len() <= bound,
            forall|k: int| 0 <= k < order@.len() ==> order@[k] < es.len(),
            picked(es, order@) == target,
            target == sort_entries(child_entries(es, p)),
            children_from(res@, target.take(j as int), es),
    {
        let k = order[j];
        let info = &infos[k];
        assert(info_ok(infos@[k as int], es[k as int]));
        let mut child = TreeNode::new(info.path.clone(), info.is_dir);
        if info.is_dir {
            proof {
                // the entry is a child of the node: its parts are one more
                lemma_picked_child(es, order@, j as int, p);
                let q = spec_parent(es[k as int].0)->0;
                assert(spec_path_parts(q) == spec_path_parts(p));
            }
            let grand = build_children(infos, &info.parts, bound, Ghost(es), Ghost(info.path@));
            child.children = grand;
        }
        let ghost prev = res@;
        res.push(child);
        proof {
            assert(res@.drop_last() =~= prev);
            assert(target.take(j + 1).drop_last() =~= target.take(j as int));
            assert(target.take(j + 1).last() == target[j as int]);
            assert(target[j as int] == es[k as int]);
            assert(child.path@ == es[k as int].0);
            assert(child.is_dir == es[k as int].1);
            assert(tree_from(child, es));
            assert(res@.last() == child);
            assert(children_from(res@.drop_last(), target.take(j + 1).drop_last(), es));
        }
    }
    assert(target.take(n as int) =~= target);
    res
}

/// Every entry that the child list holds is a child of `p`.
proof fn lemma_picked_child(
    es: Seq<(Seq<char>, bool)>,
    order: Seq<usize>,
    j: int,
    p: Seq<char>,
)
    requires
        picked(es, order) == sort_entries(child_entries(es, p)),
        0 <= j < order.len(),
        order[j] < es.len(),
    ensures
        is_child_of(es[order[j] as int], p),
{
    let s = child_entries(es, p);
    lemma_child_entries_are_children(es, p);
    lemma_sort_entries_keeps(s);
    assert(sort_entries(s)[j] == es[order[j] as int]);
    assert(sort_entries(s).contains(es[order[j] as int]));
}

proof fn lemma_child_entries_are_children(es: Seq<(Seq<char>, bool)>, p: Seq<char>)
    ensures
        forall|e: (Seq<char>, bool)| #[trigger] child_entries(es, p).contains(e) ==> is_child_of(e, p),
    decreases es.len(),
{
    if es.len() > 0 {
        lemma_child_entries_are_children(es.drop_last(), p);
        let prev = child_entries(es.drop_last(), p);
        if is_child_of(es.last(), p) {
            assert forall|e: (Seq<char>, bool)| #[trigger] prev.push(es.last()).contains(e) implies is_child_of(e, p) by {
                if e != es.last() {
                    let i = choose|i: int| 0 <= i < prev.push(es.last()).len() && prev.push(es.last())[i] == e;
                    assert(prev[i] == e);
                    assert(prev.contains(e));
                }
            }
        }
    }
}

/// Inserting keeps the old elements and adds the new one, and nothing else.
proof fn lemma_insert_sorted_keeps(s: Seq<(Seq<char>, bool)>, x: (Seq<char>, bool))
    ensures
        forall|e: (Seq<char>, bool)| #[trigger] insert_sorted(s, x).contains(e) <==> (s.contains(e) || e == x),
        insert_sorted(s, x).len() == s.len() + 1,
    decreases s.len(),
{
    if s.len() == 0 {
        assert forall|e: (Seq<char>, bool)| #[trigger] insert_sorted(s, x).contains(e) <==> (s.contains(e) || e == x) by {
            if insert_sorted(s, x).contains(e) {
                assert(insert_sorted(s, x)[0] == x);
            }
            if e == x {
                assert(insert_sorted(s, x)[0] == x);
            }
        }
    } else if sorts_before(x, s.last()) {
        let d = s.drop_last();
        lemma_insert_sorted_keeps(d, x);
        let r = insert_sorted(d, x);
        assert forall|e: (Seq<char>, bool)| #[trigger] insert_sorted(s, x).contains(e) <==> (s.contains(e) || e == x) by {
            if r.push(s.last()).contains(e) {
                let i = choose|i: int| 0 <= i < r.push(s.last()).len() && r.push(s.last())[i] == e;
                if i < r.len() {
                    assert(r.contains(e));
                    if d.contains(e) {
                        let k = choose|k: int| 0 <= k < d.len() && d[k] == e;
                        assert(s[k] == e);
                    }
                } else {
                    assert(s[s.len() - 1] == e);
                }
            }
            if s.contains(e) {
                let k = choose|k: int| 0 <= k < s.len() && s[k] == e;
                if k < d.len() {
                    assert(d[k] == e);
                    assert(r.contains(e));
                    let i = choose|i: int| 0 <= i < r.len() && r[i] == e;
                    assert(r.push(s.last())[i] == e);
                } else {
                    assert(r.push(s.last())[r.len() as int] == e);
                }
            }
            if e == x {
                assert(r.contains(e));
                let i = choose|i: int| 0 <= i < r.len() && r[i] == e;
                assert(r.push(s.last())[i] == e);
            }
        }
    } else {
        assert forall|e: (Seq<char>, bool)| #[trigger] insert_sorted(s, x).contains(e) <==> (s.contains(e) || e == x) by {
            if s.push(x).contains(e) {
                let i = choose|i: int| 0 <= i < s.push(x).len() && s.push(x)[i] == e;
                if i < s.len() {
                    assert(s[i] == e);
                }
            }
            if s.contains(e) {
                let k = choose|k: int| 0 <= k < s.len() && s[k] == e;
                assert(s.push(x)[k] == e);
            }
            if e == x {
                assert(s.push(x)[s.len() as int] == e);
            }
        }
    }
}

/// Sorting keeps exactly the elements it is given.
proof fn lemma_sort_entries_keeps(s: Seq<(Seq<char>, bool)>)
    ensures
        forall|e: (Seq<char>, bool)| #[trigger] sort_entries(s).contains(e) <==> s.contains(e),
        sort_entries(s).len() == s.len(),
    decreases s.len(),
{
    if s.len() > 0 {
        let d = s.drop_last();
        lemma_sort_entries_keeps(d);
        lemma_insert_sorted_keeps(sort_entries(d), s.last());
        assert forall|e: (Seq<char>, bool)| #[trigger] sort_entries(s).contains(e) <==> s.contains(e) by {
            if d.contains(e) {
                let k = choose|k: int| 0 <= k < d.len() && d[k] == e;
                assert(s[k] == e);
            }
            if s.contains(e) {
                let k = choose|k: int| 0 <= k < s.len() && s[k] == e;
                if k < d.len() {
                    assert(d[k] == e);
                } else {
                    assert(e == s.last());
                }
            }
        }
    }
}

/// No entry of `s` sorts before an entry listed earlier.
pub open spec fn in_display_order(s: Seq<(Seq<char>, bool)>) -> bool {
    forall|i: int, j: int| 0 <= i < j < s.len() ==> !sorts_before(#[trigger] s[j], #[trigger] s[i])
}

/// An entry never sorts before one that sorts before it.
proof fn lemma_sorts_before_asymmetric(a: (Seq<char>, bool), b: (Seq<char>, bool))
    ensures
        !(sorts_before(a, b) && sorts_before(b, a)),
{
    lemma_lex_lt_asymmetric(sort_name(a), sort_name(b));
}

/// "Does not sort before" is transitive.
proof fn lemma_not_before_transitive(
    a: (Seq<char>, bool),
    b: (Seq<char>, bool),
    c: (Seq<char>, bool),
)
    requires
        !sorts_before(a, b),
        !sorts_before(b, c),
    ensures
        !sorts_before(a, c),
{
    let (na, nb, nc) = (sort_name(a), sort_name(b), sort_name(c));
    if a.1 == b.1 && b.1 == c.1 && na != nb {
        lemma_lex_lt_total(na, nb);
        if nb == nc {
            lemma_lex_lt_asymmetric(na, nb);
        } else {
            lemma_lex_lt_total(nb, nc);
            lemma_lex_lt_transitive(nc, nb, na);
            lemma_lex_lt_asymmetric(na, nc);
        }
    }
}

/// Inserting into entries in display order keeps them in display order.
proof fn lemma_insert_sorted_order(s: Seq<(Seq<char>, bool)>, x: (Seq<char>, bool))
    requires
        in_display_order(s),
    ensures
        in_display_order(insert_sorted(s, x)),
    decreases s.len(),
{
    if s.len() > 0 {
        let last = s.last();
        if sorts_before(x, last) {
            let d = s.drop_last();
            assert(in_display_order(d)) by {
                assert forall|i: int, j: int| 0 <= i < j < d.len() implies !sorts_before(
                    #[trigger] d[j],
                    #[trigger] d[i],
                ) by {
                    assert(d[i] == s[i] && d[j] == s[j]);
                }
            }
            lemma_insert_sorted_order(d, x);
            lemma_insert_sorted_keeps(d, x);
            let r = insert_sorted(d, x);
            let t = r.push(last);
            assert forall|i: int, j: int| 0 <= i < j < t.len() implies !sorts_before(
                #[trigger] t[j],
                #[trigger] t[i],
            ) by {
                if j < r.len() {
                    assert(t[i] == r[i] && t[j] == r[j]);
                } else {
                    assert(t[i] == r[i]);
                    assert(r.contains(r[i]));
                    if r[i] == x {
                        lemma_sorts_before_asymmetric(x, last);
                    } else {
                        let k = choose|k: int| 0 <= k < d.len() && d[k] == r[i];
                        assert(s[k] == r[i]);
                        assert(s[s.len() - 1] == last);
                    }
                }
            }
        } else {
            let t = s.push(x);
            assert forall|i: int, j: int| 0 <= i < j < t.len() implies !sorts_before(
                #[trigger] t[j],
                #[trigger] t[i],
            ) by {
                if j < s.len() {
                    assert(t[i] == s[i] && t[j] == s[j]);
                } else {
                    assert(t[i] == s[i]);
                    if i < s.len() - 1 {
                        assert(s[s.len() - 1] == last);
                        lemma_not_before_transitive(x, last, s[i]);
                    }
                }
            }
        }
    }
}

/// Sorting entries puts them in display order, keeps their number and keeps
/// exactly the entries it is given.
pub proof fn lemma_sort_entries(s: Seq<(Seq<char>, bool)>)
    ensures
        in_display_order(sort_entries(s)),
        sort_entries(s).len() == s.len(),
        forall|e: (Seq<char>, bool)| #[trigger] sort_entries(s).contains(e) <==> s.contains(e),
    decreases s.len(),
{
    lemma_sort_entries_keeps(s);
    if s.len() > 0 {
        lemma_sort_entries(s.drop_last());
        lemma_insert_sorted_order(sort_entries(s.drop_last()), s.last());
    }
}

/// The trees built for the entries `kids` are, position by position, those
/// entries.
proof fn lemma_children_match(nodes: Seq<TreeNode>, kids: Seq<(Seq<char>, bool)>, es: Seq<(Seq<char>, bool)>)
    requires
        children_from(nodes, kids, es),
    ensures
        nodes.len() == kids.len(),
        forall|i: int| 0 <= i < nodes.len() ==> (#[trigger] nodes[i]).path@ == kids[i].0 && nodes[i].is_dir == kids[i].1,
    decreases nodes.len(),
{
    if nodes.len() > 0 {
        lemma_children_match(nodes.drop_last(), kids.drop_last(), es);
        assert forall|i: int| 0 <= i < nodes.len() implies (#[trigger] nodes[i]).path@ == kids[i].0 && nodes[i].is_dir == kids[i].1 by {
            if i < nodes.len() - 1 {
                assert(nodes.drop_last()[i] == nodes[i]);
                assert(kids.drop_last()[i] == kids[i]);
            }
        }
    }
}

/// In a tree built from walk entries, a directory lists exactly the entries
/// whose parent it is, and none of its children sorts before one listed
/// earlier: directories come before files, and each kind goes by
/// lowercased name.
pub proof fn lemma_tree_display_order(node: TreeNode, es: Seq<(Seq<char>, bool)>)
    requires
        tree_from(node, es),
        node.is_dir,
    ensures
        node.children@.len() == child_entries(es, node.path@).len(),
        forall|i: int, j: int|
            0 <= i < j < node.children@.len() ==> !sorts_before(
                (#[trigger] node.children@[j].path@, node.children@[j].is_dir),
                (#[trigger] node.children@[i].path@, node.children@[i].is_dir),
            ),
        forall|i: int|
            0 <= i < node.children@.len() ==> child_entries(es, node.path@).contains(
                (#[trigger] node.children@[i].path@, node.children@[i].is_dir),
            ),
{
    let kids = sort_entries(child_entries(es, node.path@));
    lemma_sort_entries(child_entries(es, node.path@));
    lemma_children_match(node.children@, kids, es);
    assert forall|i: int, j: int|
        0 <= i < j < node.children@.len() implies !sorts_before(
            (#[trigger] node.children@[j].path@, node.children@[j].is_dir),
            (#[trigger] node.children@[i].path@, node.children@[i].is_dir),
        ) by {
        assert(kids[i] == (node.children@[i].path@, node.children@[i].is_dir));
        assert(kids[j] == (node.children@[j].path@, node.children@[j].is_dir));
    }
    assert forall|i: int|
        0 <= i < node.children@.len() implies child_entries(es, node.path@).contains(
            (#[trigger] node.children@[i].path@, node.children@[i].is_dir),
        ) by {
        assert(kids[i] == (node.children@[i].path@, node.children@[i].is_dir));
        assert(kids.contains(kids[i]));
    }
}

/// Builds the file tree of the directory `root` from the entries that a walk
/// below it found: the root is expanded, and each directory lists the
/// entries whose parent it is, directories first, then by lowercased name.
pub fn build_tree(root: String, entries: &Vec<WalkEntry>) -> (res: TreeNode)
    ensures
        res.path@ == root@,
        res.is_dir,
        res.expanded,
        tree_from(res, entries_view(entries@)),
{
    let ghost es = entries_view(entries@);
    let infos = infos_for(entries);
    let root_parts = path_parts(root.as_str());
    let bound = parts_bound(&infos, &root_parts);
    let children = build_children(&infos, &root_parts, bound, Ghost(es), Ghost(root@));
    let mut node = TreeNode::new(root, true);
    node.expanded = true;
    node.children = children;
    node
}

// ---------------------------------------------------------------------------
// Directories whose files are all checked.
// ---------------------------------------------------------------------------

/// Every file path in `files` is in `checked`.
pub open spec fn all_in(files: Seq<Seq<char>>, checked: Set<Seq<char>>) -> bool {
    forall|i: int| 0 <= i < files.len() ==> checked.contains(#[trigger] files[i])
}

/// A directory counts as checked when it holds at least one file and all
/// the files under it are checked.
pub open spec fn fully_checked(node: TreeNode, checked: Set<Seq<char>>) -> bool {
    node.is_dir && files_of(node).len() > 0 && all_in(files_of(node), checked)
}

/// The paths of the directories in a tree that count as checked.
pub open spec fn checked_dirs_of(node: TreeNode, checked: Set<Seq<char>>) -> Set<Seq<char>>
    decreases node,
{
    if node.is_dir {
        let below = checked_dirs_of_seq(node.children@, checked);
        if fully_checked(node, checked) {
            below.insert(node.path@)
        } else {
            below
        }
    } else {
        Set::empty()
    }
}

/// The paths of the directories in a list of trees that count as checked.
pub open spec fn checked_dirs_of_seq(nodes: Seq<TreeNode>, checked: Set<Seq<char>>) -> Set<Seq<char>>
    decreases nodes,
{
    if nodes.len() == 0 {
        Set::empty()
    } else {
        checked_dirs_of_seq(nodes.drop_last(), checked).union(checked_dirs_of(nodes.last(), checked))
    }
}

proof fn lemma_all_in_concat(a: Seq<Seq<char>>, b: Seq<Seq<char>>, checked: Set<Seq<char>>)
    ensures
        all_in(a + b, checked) == (all_in(a, checked) && all_in(b, checked)),
{
    if all_in(a + b, checked) {
        assert forall|i: int| 0 <= i < a.len() implies checked.contains(#[trigger] a[i]) by {
            assert((a + b)[i] == a[i]);
        }
        assert forall|i: int| 0 <= i < b.len() implies checked.contains(#[trigger] b[i]) by {
            assert((a + b)[a.len() + i] == b[i]);
        }
    }
    if all_in(a, checked) && all_in(b, checked) {
        assert forall|i: int| 0 <= i < (a + b).len() implies checked.contains(#[trigger] (a + b)[i]) by {
            if i < a.len() {
                assert((a + b)[i] == a[i]);
            } else {
                assert((a + b)[i] == b[i - a.len()]);
            }
        }
    }
}

/// Adds to `dirs` the directories under `node` that count as checked, and
/// reports whether `node` holds files and whether they are all checked.
pub fn mark_checked_dirs(node: &TreeNode, checked: &PathSet, dirs: &mut PathSet) -> (res: (bool, bool))
    requires
        checked.wf(),
        old(dirs).wf(),
    ensures
        final(dirs).wf(),
        final(dirs)@ == old(dirs)@.union(checked_dirs_of(*node, checked@)),
        res.0 == (files_of(*node).len() > 0),
        res.1 == all_in(files_of(*node), checked@),
    decreases node,
{
    if !node.is_dir {
        let c = checked.contains(node.path.as_str());
        assert(dirs@ =~= old(dirs)@.union(checked_dirs_of(*node, checked@)));
        proof {
            let f = files_of(*node);
            assert(f =~= seq![node.path@]);
            if c {
                assert(all_in(f, checked@));
            } else {
                assert(f[0] == node.path@);
            }
        }
        return (true, c);
    }
    let mut has = false;
    let mut all = true;
    let n = node.children.len();
    let ghost start = dirs@;
    for i in 0..n
        invariant
            n == node.children@.len(),
            node.is_dir,
            checked.wf(),
            dirs.wf(),
            dirs@ == start.union(checked_dirs_of_seq(node.children@.take(i as int), checked@)),
            has == (files_of_seq(node.children@.take(i as int)).len() > 0),
            all == all_in(files_of_seq(node.children@.take(i as int)), checked@),
    {
        let ghost before = node.children@.take(i as int);
        assert(node.children@.take(i + 1).drop_last() =~= before);
        let (h, a) = mark_checked_dirs(&node.children[i], checked, dirs);
        has = has || h;
        all = all && a;
        proof {
            let c = node.children@[i as int];
            lemma_all_in_concat(files_of_seq(before), files_of(c), checked@);
            assert(files_of_seq(node.children@.take(i + 1)) == files_of_seq(before) + files_of(c));
            assert(dirs@ =~= start.union(checked_dirs_of_seq(node.children@.take(i + 1), checked@)));
        }
    }
    assert(node.children@.take(n as int) =~= node.children@);
    assert(files_of(*node) == files_of_seq(node.children@));
    if has && all {
        dirs.insert(node.path.clone());
    }
    assert(dirs@ =~= old(dirs)@.union(checked_dirs_of(*node, checked@)));
    (has, all)
}

/// A directory counts as checked exactly by its files: one whose tree holds
/// at least one file, each of them checked, is among the checked
/// directories (whatever its children are, files or directories); one with
/// no file, or with an unchecked file, adds nothing beyond what its children
/// give; and whatever a child counts, its parent counts too.
pub proof fn lemma_checked_dirs_by_files(node: TreeNode, checked: Set<Seq<char>>)
    requires
        node.is_dir,
    ensures
        files_of(node).len() > 0 && (forall|i: int|
            0 <= i < files_of(node).len() ==> checked.contains(#[trigger] files_of(node)[i]))
            ==> checked_dirs_of(node, checked).contains(node.path@),
        (files_of(node).len() == 0 || exists|i: int|
            0 <= i < files_of(node).len() && !checked.contains(#[trigger] files_of(node)[i]))
            ==> checked_dirs_of(node, checked) == checked_dirs_of_seq(node.children@, checked),
        forall|j: int|
            0 <= j < node.children@.len() ==> checked_dirs_of(#[trigger] node.children@[j], checked).subset_of(
                checked_dirs_of(node, checked),
            ),
{
    lemma_checked_dirs_seq_parts(node.children@, checked);
}

/// The directories a list of trees counts as checked are exactly those that
/// its trees count.
pub proof fn lemma_checked_dirs_seq_parts(nodes: Seq<TreeNode>, checked: Set<Seq<char>>)
    ensures
        forall|j: int|
            0 <= j < nodes.len() ==> checked_dirs_of(#[trigger] nodes[j], checked).subset_of(
                checked_dirs_of_seq(nodes, checked),
            ),
        forall|p: Seq<char>|
            #[trigger] checked_dirs_of_seq(nodes, checked).contains(p) ==> exists|j: int|
                0 <= j < nodes.len() && checked_dirs_of(#[trigger] nodes[j], checked).contains(p),
    decreases nodes.len(),
{
    if nodes.len() > 0 {
        let d = nodes.drop_last();
        lemma_checked_dirs_seq_parts(d, checked);
        assert forall|j: int|
            0 <= j < nodes.len() implies checked_dirs_of(#[trigger] nodes[j], checked).subset_of(
                checked_dirs_of_seq(nodes, checked),
            ) by {
            if j < d.len() {
                assert(d[j] == nodes[j]);
            }
        }
        assert forall|p: Seq<char>|
            #[trigger] checked_dirs_of_seq(nodes, checked).contains(p) implies exists|j: int|
                0 <= j < nodes.len() && checked_dirs_of(#[trigger] nodes[j], checked).contains(p) by {
            if checked_dirs_of_seq(d, checked).contains(p) {
                let j = choose|j: int| 0 <= j < d.len() && checked_dirs_of(#[trigger] d[j], checked).contains(p);
                assert(d[j] == nodes[j]);
            } else {
                assert(checked_dirs_of(nodes[nodes.len() - 1], checked).contains(p));
            }
        }
    }
}

// ---------------------------------------------------------------------------
// Searching file names.
// ---------------------------------------------------------------------------

/// The node's lowercased name contains the query.
pub open spec fn name_matches(node: TreeNode, q: Seq<char>) -> bool {
    seq_contains(spec_to_lowercase(node.name@), q)
}

/// Some file under `node` (or `node` itself, when a file) matches.
pub open spec fn has_match(node: TreeNode, q: Seq<char>) -> bool
    decreases node,
{
    if node.is_dir {
        has_match_seq(node.children@, q)
    } else {
        name_matches(node, q)
    }
}

/// Some file in a list of trees matches.
pub open spec fn has_match_seq(nodes: Seq<TreeNode>, q: Seq<char>) -> bool
    decreases nodes,
{
    nodes.len() > 0 && (has_match_seq(nodes.drop_last(), q) || has_match(nodes.last(), q))
}

/// The paths shown while searching: matching files and the directories
/// that hold one.
pub open spec fn match_paths(node: TreeNode, q: Seq<char>) -> Set<Seq<char>>
    decreases node,
{
    if node.is_dir {
        let below = match_paths_seq(node.children@, q);
        if has_match_seq(node.children@, q) {
            below.insert(node.path@)
        } else {
            below
        }
    } else if name_matches(node, q) {
        Set::empty().insert(node.path@)
    } else {
        Set::empty()
    }
}

/// The shown paths in a list of trees.
pub open spec fn match_paths_seq(nodes: Seq<TreeNode>, q: Seq<char>) -> Set<Seq<char>>
    decreases nodes,
{
    if nodes.len() == 0 {
        Set::empty()
    } else {
        match_paths_seq(nodes.drop_last(), q).union(match_paths(nodes.last(), q))
    }
}

/// The number of matching file nodes in a tree.
pub open spec fn match_count(node: TreeNode, q: Seq<char>) -> nat
    decreases node,
{
    if node.is_dir {
        match_count_seq(node.children@, q)
    } else if name_matches(node, q) {
        1
    } else {
        0
    }
}

/// The number of matching file nodes in a list of trees.
pub open spec fn match_count_seq(nodes: Seq<TreeNode>, q: Seq<char>) -> nat
    decreases nodes,
{
    if nodes.len() == 0 {
        0
    } else {
        match_count_seq(nodes.drop_last(), q) + match_count(nodes.last(), q)
    }
}

/// A run inside a run inside `a` is a run inside `a`.
proof fn lemma_seq_contains_transitive(a: Seq<char>, b: Seq<char>, c: Seq<char>)
    requires
        seq_contains(a, b),
        seq_contains(b, c),
    ensures
        seq_contains(a, c),
{
    let i = choose|i: int| occurs_at(a, b, i);
    let j = choose|j: int| occurs_at(b, c, j);
    assert(a.subrange(i + j, i + j + c.len()) =~= c) by {
        assert forall|k: int| 0 <= k < c.len() implies a.subrange(i + j, i + j + c.len())[k] == c[k] by {
            assert(b.subrange(j, j + c.len())[k] == b[j + k]);
            assert(a.subrange(i, i + b.len())[j + k] == a[i + j + k]);
        }
    }
    assert(occurs_at(a, c, i + j));
}

/// A query that contains another one matches no more than it: every path
/// it shows is shown for the shorter query, and it counts no more files.
pub proof fn lemma_longer_query_matches_less(node: TreeNode, q1: Seq<char>, q2: Seq<char>)
    requires
        seq_contains(q2, q1),
    ensures
        match_paths(node, q2).subset_of(match_paths(node, q1)),
        match_count(node, q2) <= match_count(node, q1),
        has_match(node, q2) ==> has_match(node, q1),
    decreases node,
{
    if node.is_dir {
        lemma_longer_query_matches_less_seq(node.children@, q1, q2);
    } else if name_matches(node, q2) {
        lemma_seq_contains_transitive(spec_to_lowercase(node.name@), q2, q1);
    }
}

/// The same, for a list of trees.
pub proof fn lemma_longer_query_matches_less_seq(nodes: Seq<TreeNode>, q1: Seq<char>, q2: Seq<char>)
    requires
        seq_contains(q2, q1),
    ensures
        match_paths_seq(nodes, q2).subset_of(match_paths_seq(nodes, q1)),
        match_count_seq(nodes, q2) <= match_count_seq(nodes, q1),
        has_match_seq(nodes, q2) ==> has_match_seq(nodes, q1),
    decreases nodes,
{
    if nodes.len() > 0 {
        lemma_longer_query_matches_less_seq(nodes.drop_last(), q1, q2);
        lemma_longer_query_matches_less(nodes.last(), q1, q2);
    }
}

/// A file is shown by the search exactly when its lowercased name contains
/// the query, and then it counts once; otherwise it counts nothing.
pub proof fn lemma_file_match(node: TreeNode, q: Seq<char>)
    requires
        !node.is_dir,
    ensures
        match_paths(node, q).contains(node.path@) <==> seq_contains(spec_to_lowercase(node.name@), q),
        match_count(node, q) == (if seq_contains(spec_to_lowercase(node.name@), q) {
            1nat
        } else {
            0nat
        }),
        match_paths(node, q).subset_of(set![node.path@]),
{
}

/// Whatever the search shows below a child of a directory, it shows for the
/// directory too, together with the directory itself; matching files below
/// the children add up to the directory's count; a directory with nothing
/// shown below it is not shown.
pub proof fn lemma_dir_match(node: TreeNode, q: Seq<char>)
    requires
        node.is_dir,
    ensures
        forall|j: int|
            0 <= j < node.children@.len() ==> match_paths(#[trigger] node.children@[j], q).subset_of(
                match_paths(node, q),
            ),
        forall|j: int|
            0 <= j < node.children@.len() && !match_paths(#[trigger] node.children@[j], q).is_empty()
                ==> match_paths(node, q).contains(node.path@),
        (forall|j: int|
            0 <= j < node.children@.len() ==> match_paths(#[trigger] node.children@[j], q).is_empty())
            ==> match_paths(node, q).is_empty() && match_count(node, q) == 0,
{
    lemma_match_seq_parts(node.children@, q);
    lemma_match_shown_iff_seq(node.children@, q);
}

/// Matches in a list of trees: each tree's shown paths are shown, a tree
/// shows something exactly when it holds a match, and a list whose trees
/// show nothing shows and counts nothing.
pub proof fn lemma_match_seq_parts(nodes: Seq<TreeNode>, q: Seq<char>)
    ensures
        forall|j: int|
            0 <= j < nodes.len() ==> match_paths(#[trigger] nodes[j], q).subset_of(match_paths_seq(nodes, q)),
        forall|j: int|
            0 <= j < nodes.len() && !match_paths(#[trigger] nodes[j], q).is_empty()
                ==> has_match_seq(nodes, q),
        (forall|j: int| 0 <= j < nodes.len() ==> match_paths(#[trigger] nodes[j], q).is_empty())
            ==> match_paths_seq(nodes, q).is_empty() && match_count_seq(nodes, q) == 0,
    decreases nodes.len(),
{
    if nodes.len() > 0 {
        let d = nodes.drop_last();
        lemma_match_seq_parts(d, q);
        lemma_match_shown_iff(nodes.last(), q);
        assert forall|j: int|
            0 <= j < nodes.len() implies match_paths(#[trigger] nodes[j], q).subset_of(
                match_paths_seq(nodes, q),
            ) by {
            if j < d.len() {
                assert(d[j] == nodes[j]);
            }
        }
        assert forall|j: int|
            0 <= j < nodes.len() && !match_paths(#[trigger] nodes[j], q).is_empty()
                implies has_match_seq(nodes, q) by {
            if j < d.len() {
                assert(d[j] == nodes[j]);
            } else {
                lemma_match_shown_iff(nodes[j], q);
            }
        }
        if forall|j: int| 0 <= j < nodes.len() ==> match_paths(#[trigger] nodes[j], q).is_empty() {
            assert forall|j: int| 0 <= j < d.len() implies match_paths(#[trigger] d[j], q).is_empty() by {
                assert(d[j] == nodes[j]);
            }
            assert(match_paths(nodes[nodes.len() - 1], q).is_empty());
            assert(match_paths_seq(nodes, q) =~= Set::<Seq<char>>::empty());
        }
    }
}

/// A tree shows something exactly when it holds a match, and then it shows
/// its own path; with nothing shown it counts nothing.
proof fn lemma_match_shown_iff(node: TreeNode, q: Seq<char>)
    ensures
        !match_paths(node, q).is_empty() <==> has_match(node, q),
        has_match(node, q) ==> match_paths(node, q).contains(node.path@),
        match_paths(node, q).is_empty() ==> match_count(node, q) == 0,
    decreases node,
{
    if node.is_dir {
        lemma_match_shown_iff_seq(node.children@, q);
        if has_match_seq(node.children@, q) {
            assert(match_paths(node, q).contains(node.path@));
        }
    } else if name_matches(node, q) {
        assert(match_paths(node, q).contains(node.path@));
    } else {
        assert(match_paths(node, q) =~= Set::<Seq<char>>::empty());
    }
}

proof fn lemma_match_shown_iff_seq(nodes: Seq<TreeNode>, q: Seq<char>)
    ensures
        !match_paths_seq(nodes, q).is_empty() <==> has_match_seq(nodes, q),
        match_paths_seq(nodes, q).is_empty() ==> match_count_seq(nodes, q) == 0,
    decreases nodes,
{
    if nodes.len() > 0 {
        lemma_match_shown_iff_seq(nodes.drop_last(), q);
        lemma_match_shown_iff(nodes.last(), q);
        if match_paths_seq(nodes.drop_last(), q).is_empty() && match_paths(nodes.last(), q).is_empty() {
            assert(match_paths_seq(nodes, q) =~= Set::<Seq<char>>::empty());
        }
        if !match_paths_seq(nodes.drop_last(), q).is_empty() {
            let x = match_paths_seq(nodes.drop_last(), q).choose();
            assert(match_paths_seq(nodes, q).contains(x));
        }
        if !match_paths(nodes.last(), q).is_empty() {
            let x = match_paths(nodes.last(), q).choose();
            assert(match_paths_seq(nodes, q).contains(x));
        }
    } else {
        assert(match_paths_seq(nodes, q) =~= Set::<Seq<char>>::empty());
    }
}

/// `n` capped at the largest `usize`.
pub open spec fn capped(n: int) -> usize {
    if n > usize::MAX {
        usize::MAX
    } else {
        n as usize
    }
}

/// Adds to `set` the paths under `node` shown for the lowercased query `q`
/// and adds the matching files to `count` (capped at the largest `usize`);
/// reports whether something under `node` matched.
pub fn mark_matches(node: &TreeNode, q: &Vec<char>, set: &mut PathSet, count: &mut usize) -> (res: bool)
    requires
        old(set).wf(),
    ensures
        final(set).wf(),
        final(set)@ == old(set)@.union(match_paths(*node, q@)),
        *final(count) == capped(*old(count) + match_count(*node, q@)),
        res == has_match(*node, q@),
    decreases node,
{
    if !node.is_dir {
        let lower = to_lowercase(node.name.as_str());
        let lc = chars_of(lower.as_str());
        let m = chars_contain(&lc, q);
        if m {
            set.insert(node.path.clone());
            if *count < usize::MAX {
                *count = *count + 1;
            }
        }
        assert(set@ =~= old(set)@.union(match_paths(*node, q@)));
        return m;
    }
    let mut any = false;
    let n = node.children.len();
    let ghost start = set@;
    let ghost count0 = *count;
    for i in 0..n
        invariant
            n == node.children@.len(),
            node.is_dir,
            set.wf(),
            set@ == start.union(match_paths_seq(node.children@.take(i as int), q@)),
            *count == capped(count0 + match_count_seq(node.children@.take(i as int), q@)),
            any == has_match_seq(node.children@.take(i as int), q@),
    {
        let ghost before = node.children@.take(i as int);
        assert(node.children@.take(i + 1).drop_last() =~= before);
        let m = mark_matches(&node.children[i], q, set, count);
        any = any || m;
        proof {
            let c = node.children@[i as int];
            assert(set@ =~= start.union(match_paths_seq(node.children@.take(i + 1), q@)));
            assert(match_count_seq(node.children@.take(i + 1), q@) == match_count_seq(before, q@)
                + match_count(c, q@));
        }
    }
    assert(node.children@.take(n as int) =~= node.children@);
    if any {
        set.insert(node.path.clone());
    }
    assert(set@ =~= old(set)@.union(match_paths(*node, q@)));
    any
}

} // verus!
