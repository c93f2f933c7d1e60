//! File system paths, held as strings. The way a path splits into parts is
//! `std::path`'s business and is reached through the trusted functions at
//! the top; what the library builds from those parts is verified below.
use crate::text::{
    chars_lt, chars_of, lemma_lex_lt_asymmetric, lemma_lex_lt_total, lemma_lex_lt_transitive, lex_lt,
    push_char, push_str, str_eq,
};
use crate::collections::string_views;
use std::path::Component::{self, CurDir, Normal, ParentDir, RootDir};
use std::path::Path;
use std::path::Prefix::{DeviceNS, Disk, Verbatim, VerbatimDisk, VerbatimUNC, UNC};
use PathPart::{
    Current, DeviceNsPrefix, DiskPrefix, Name, Parent, Root, UncPrefix, VerbatimDiskPrefix,
    VerbatimPrefix, VerbatimUncPrefix,
};
use vstd::prelude::*;

verus! {

/// The mathematical value of a Windows path prefix, as `std::path::Prefix`
/// parses it.
pub enum PrefixView {
    Verbatim(Seq<char>),
    VerbatimUNC(Seq<char>, Seq<char>),
    VerbatimDisk(u8),
    DeviceNS(Seq<char>),
    UNC(Seq<char>, Seq<char>),
    Disk(u8),
}

/// One part of a path, as `std::path::Component` names them; a prefix is
/// held as the kind and fields that `std::path::Prefix` parses from it.
#[derive(Debug)]
pub enum PathPart {
    VerbatimPrefix(String),
    VerbatimUncPrefix(String, String),
    VerbatimDiskPrefix(u8),
    DeviceNsPrefix(String),
    UncPrefix(String, String),
    DiskPrefix(u8),
    Root,
    Current,
    Parent,
    Name(String),
}

/// The mathematical value of a [`PathPart`].
pub enum PartView {
    Prefix(PrefixView),
    RootDir,
    CurDir,
    ParentDir,
    Normal(Seq<char>),
}

impl View for PathPart {
    type V = PartView;

    open spec fn view(&self) -> PartView {
        match self {
            VerbatimPrefix(a) => PartView::Prefix(PrefixView::Verbatim(a@)),
            VerbatimUncPrefix(a, b) => PartView::Prefix(PrefixView::VerbatimUNC(a@, b@)),
            VerbatimDiskPrefix(d) => PartView::Prefix(PrefixView::VerbatimDisk(*d)),
            DeviceNsPrefix(a) => PartView::Prefix(PrefixView::DeviceNS(a@)),
            UncPrefix(a, b) => PartView::Prefix(PrefixView::UNC(a@, b@)),
            DiskPrefix(d) => PartView::Prefix(PrefixView::Disk(*d)),
            Root => PartView::RootDir,
            Current => PartView::CurDir,
            Parent => PartView::ParentDir,
            Name(s) => PartView::Normal(s@),
        }
    }
}

/// The views of a list of path parts.
pub open spec fn parts_view(parts: Seq<PathPart>) -> Seq<PartView> {
    parts.map_values(|x: PathPart| x@)
}

// ---------------------------------------------------------------------------
// Trusted bridges to `std::path`.
// ---------------------------------------------------------------------------

/// The parts that `Path::components` yields for a path.
pub uninterp spec fn spec_path_parts(p: Seq<char>) -> Seq<PartView>;

/// No part of the list is a prefix: the path has no Windows prefix.
pub open spec fn no_prefix(parts: Seq<PartView>) -> bool {
    forall|i: int| 0 <= i < parts.len() ==> !(parts[i] is Prefix)
}

/// Every name among `parts` is non-empty and holds no `/`.
pub open spec fn plain_names(parts: Seq<PartView>) -> bool {
    forall|i: int|
        0 <= i < parts.len() ==> (#[trigger] parts[i] matches PartView::Normal(n) ==> n.len() > 0
            && !n.contains('/'))
}

/// Splits a path with `Path::components`.
/// Trusted: the result is the named list of parts of `p`, each part carried
/// over one for one. In a path without a prefix, `/` separates parts (on
/// every platform), so the names between separators are not empty and hold
/// no `/`.
#[verifier::external_body]
pub(crate) fn path_parts(p: &str) -> (res: Vec<PathPart>)
    ensures
        parts_view(res@) == spec_path_parts(p@),
        no_prefix(parts_view(res@)) ==> plain_names(parts_view(res@)),
{
    Path::new(p).components().map(|c| match c {
        Component::Prefix(x) => match x.kind() {
            Verbatim(a) => VerbatimPrefix(a.to_string_lossy().into()),
            VerbatimUNC(a, b) => VerbatimUncPrefix(a.to_string_lossy().into(), b.to_string_lossy().into()),
            VerbatimDisk(d) => VerbatimDiskPrefix(d),
            DeviceNS(a) => DeviceNsPrefix(a.to_string_lossy().into()),
            UNC(a, b) => UncPrefix(a.to_string_lossy().into(), b.to_string_lossy().into()),
            Disk(d) => DiskPrefix(d),
        },
        RootDir => Root,
        CurDir => Current,
        ParentDir => Parent,
        Normal(x) => Name(x.to_string_lossy().into()),
    }).collect()
}

/// What `Path::strip_prefix` returns for a path and a base.
pub uninterp spec fn spec_strip_prefix(p: Seq<char>, base: Seq<char>) -> Option<Seq<char>>;

/// The parts `base` are the leading parts of `parts`.
pub open spec fn parts_lead(base: Seq<PartView>, parts: Seq<PartView>) -> bool {
    base.len() <= parts.len() && parts.take(base.len() as int) == base
}

/// No name among `parts` has `:` as its second character (such a name
/// would read as a drive on Windows when it starts a path).
pub open spec fn no_drive_like_names(parts: Seq<PartView>) -> bool {
    forall|i: int|
        0 <= i < parts.len() ==> (#[trigger] parts[i] matches PartView::Normal(n) ==> !(n.len() >= 2
            && n[1] == ':'))
}

/// Removes a leading base path with `Path::strip_prefix`.
/// Trusted: the result is the named remainder. As the documentation says,
/// stripping succeeds exactly when the base's parts lead the path's (whole
/// parts compared, as `Path::starts_with` does). The remainder is the text
/// of the parts that follow; for a path without a prefix whose following
/// names cannot read as a drive, its parts are exactly those parts.
#[verifier::external_body]
pub(crate) fn strip_prefix(p: &str, base: &str) -> (res: Option<String>)
    ensures
        res matches Some(r) ==> spec_strip_prefix(p@, base@) == Some(r@),
        res is None ==> spec_strip_prefix(p@, base@) is None,
        res is Some <==> parts_lead(spec_path_parts(base@), spec_path_parts(p@)),
        res matches Some(r) ==> ({
            let rest = spec_path_parts(p@).skip(spec_path_parts(base@).len() as int);
            no_prefix(spec_path_parts(p@)) && no_drive_like_names(rest) ==> spec_path_parts(r@)
                == rest
        }),
{
    std::path::Path::new(p).strip_prefix(base).ok().map(|r| r.to_string_lossy().into_owned())
}

/// What `Path::file_name` returns for a path: its last part when that is an
/// ordinary name, nothing otherwise (no parts, or a path ending in `..`, a
/// root or a prefix).
pub open spec fn spec_file_name(p: Seq<char>) -> Option<Seq<char>> {
    let parts = spec_path_parts(p);
    if parts.len() == 0 {
        None
    } else {
        match parts.last() {
            PartView::Normal(n) => Some(n),
            _ => None,
        }
    }
}

/// The final part of a path when it is an ordinary name, as
/// `Path::file_name` gives it.
pub(crate) fn file_name(p: &str) -> (res: Option<String>)
    ensures
        res matches Some(r) ==> spec_file_name(p@) == Some(r@),
        res is None ==> spec_file_name(p@) is None,
{
    let parts = path_parts(p);
    let n = parts.len();
    if n == 0 {
        return None;
    }
    assert(spec_path_parts(p@).last() == parts@[n - 1]@);
    match &parts[n - 1] {
        Name(s) => Some(s.clone()),
        _ => None,
    }
}

/// The position of the last `.` in `n`, or `-1` without one.
pub open spec fn last_dot(n: Seq<char>) -> int
    decreases n.len(),
{
    if n.len() == 0 {
        -1
    } else if n.last() == '.' {
        n.len() - 1
    } else {
        last_dot(n.drop_last())
    }
}

/// What `Path::extension` returns for a path: the part of its file name
/// after the last `.`, where that dot is not the name's first character;
/// nothing without a file name, for `..`, or without such a dot.
pub open spec fn spec_extension(p: Seq<char>) -> Option<Seq<char>> {
    match spec_file_name(p) {
        Some(n) => {
            let k = last_dot(n);
            if n == ".."@ || k <= 0 {
                None
            } else {
                Some(n.subrange(k + 1, n.len() as int))
            }
        },
        None => None,
    }
}

/// Below position `k` the last dot of `s` is where it is in all of `s`,
/// when no dot comes from `k` on.
proof fn lemma_last_dot_before(s: Seq<char>, k: int)
    requires
        0 <= k <= s.len(),
        forall|j: int| k <= j < s.len() ==> s[j] != '.',
    ensures
        last_dot(s) == last_dot(s.take(k)),
    decreases s.len(),
{
    if s.len() == k {
        assert(s.take(k) =~= s);
    } else {
        lemma_last_dot_before(s.drop_last(), k);
        assert(s.drop_last().take(k) =~= s.take(k));
    }
}

/// The extension of a path, as `Path::extension` splits it: the text
/// after the last dot of the file name.
pub(crate) fn extension(p: &str) -> (res: Option<String>)
    ensures
        res matches Some(r) ==> spec_extension(p@) == Some(r@),
        res is None ==> spec_extension(p@) is None,
{
    let name = match file_name(p) {
        Some(n) => n,
        None => return None,
    };
    proof {
        reveal_strlit("..");
    }
    if str_eq(name.as_str(), "..") {
        return None;
    }
    let cs = chars_of(name.as_str());
    let n = cs.len();
    let mut i = n;
    while i > 0
        invariant
            i <= n,
            n == cs@.len(),
            forall|j: int| i <= j < n ==> cs@[j] != '.',
        ensures
            i <= n,
            forall|j: int| i <= j < n ==> cs@[j] != '.',
            i == 0 || cs@[i - 1] == '.',
        decreases i,
    {
        if cs[i - 1] == '.' {
            break;
        }
        i = i - 1;
    }
    proof {
        lemma_last_dot_before(cs@, i as int);
        if i > 0 {
            assert(cs@.take(i as int).last() == cs@[i - 1]);
            assert(cs@.take(i as int).drop_last() =~= cs@.take(i - 1));
        } else {
            assert(cs@.take(0) =~= Seq::<char>::empty());
        }
    }
    if i <= 1 {
        return None;
    }
    let mut ext = String::new();
    for j in i..n
        invariant
            n == cs@.len(),
            ext@ == cs@.subrange(i as int, j as int),
    {
        push_char(&mut ext, cs[j]);
        assert(cs@.subrange(i as int, j + 1) =~= cs@.subrange(i as int, j as int).push(cs@[j as int]));
    }
    Some(ext)
}

/// What `Path::parent` returns for a path.
pub uninterp spec fn spec_parent(p: Seq<char>) -> Option<Seq<char>>;

/// The path without its final part, with `Path::parent`.
/// Trusted: the result is the named parent of `p`; as the documentation of
/// `Path::parent` says, it is `p` without its final component, so its parts
/// are those of `p` but the last.
#[verifier::external_body]
pub(crate) fn parent(p: &str) -> (res: Option<String>)
    ensures
        res matches Some(r) ==> spec_parent(p@) == Some(r@),
        res is None ==> spec_parent(p@) is None,
        res matches Some(r) ==> spec_path_parts(p@).len() > 0 && spec_path_parts(r@)
            == spec_path_parts(p@).drop_last(),
{
    std::path::Path::new(p).parent().map(|q| q.to_string_lossy().into_owned())
}

/// What `PathBuf::set_extension` leaves in a path.
pub uninterp spec fn spec_with_extension(p: Seq<char>, ext: Seq<char>) -> Seq<char>;

/// The path with its extension replaced, with `PathBuf::set_extension`.
/// Trusted: the result is the named path. `set_extension` panics on an
/// extension holding a path separator, so such extensions are not admitted.
#[verifier::external_body]
pub(crate) fn with_extension(p: &str, ext: &str) -> (res: String)
    requires
        !ext@.contains('/'),
        !ext@.contains('\\'),
    ensures
        res@ == spec_with_extension(p@, ext@),
{
    let mut b = std::path::PathBuf::from(p);
    b.set_extension(ext);
    b.to_string_lossy().into_owned()
}

// ---------------------------------------------------------------------------
// Verified path logic.
// ---------------------------------------------------------------------------

/// `p` written relative to `root` where `root` is a leading part of it, and
/// `p` itself otherwise.
pub open spec fn relative_path(root: Option<Seq<char>>, p: Seq<char>) -> Seq<char> {
    match root {
        Some(r) => match spec_strip_prefix(p, r) {
            Some(rest) => rest,
            None => p,
        },
        None => p,
    }
}

/// `p` written relative to `root` where `root` is a leading part of it, and
/// `p` itself otherwise.
pub fn relative_to(root: Option<&String>, p: &str) -> (res: String)
    ensures
        res@ == relative_path(
            match root {
                Some(r) => Some(r@),
                None => None,
            },
            p@,
        ),
{
    match root {
        Some(r) => match strip_prefix(p, r.as_str()) {
            Some(rest) => rest,
            None => p.to_string(),
        },
        None => p.to_string(),
    }
}

/// `s` with every backslash turned into a forward slash.
pub open spec fn forward_slashes(s: Seq<char>) -> Seq<char> {
    s.map_values(|c: char| if c == '\\' { '/' } else { c })
}

/// The label under which a path appears in messages and in the export list:
/// `@/` and the path relative to the project root, with forward slashes.
pub open spec fn rel_path_label(root: Option<Seq<char>>, p: Seq<char>) -> Seq<char> {
    seq!['@', '/'] + forward_slashes(relative_path(root, p))
}

/// The label of a path for messages and the export list: `@/` followed by
/// the path relative to the project root, with forward slashes.
pub fn to_rel_path_string(root: Option<&String>, path: &str) -> (res: String)
    ensures
        res@ == rel_path_label(
            match root {
                Some(r) => Some(r@),
                None => None,
            },
            path@,
        ),
{
    let rel = relative_to(root, path);
    let cs = chars_of(rel.as_str());
    let mut res = String::new();
    push_char(&mut res, '@');
    push_char(&mut res, '/');
    let ghost start = res@;
    let n = cs.len();
    for i in 0..n
        invariant
            n == cs@.len(),
            start == seq!['@', '/'],
            res@ == start + forward_slashes(cs@.take(i as int)),
    {
        let c = cs[i];
        let d = if c == '\\' {
            '/'
        } else {
            c
        };
        push_char(&mut res, d);
        assert(forward_slashes(cs@.take(i + 1)) =~= forward_slashes(cs@.take(i as int)).push(d));
    }
    assert(cs@.take(n as int) =~= cs@);
    res
}

/// Whether two path parts are the same.
pub(crate) fn part_eq(a: &PathPart, b: &PathPart) -> (res: bool)
    ensures
        res == (a@ == b@),
{
    match (a, b) {
        (VerbatimPrefix(x), VerbatimPrefix(y)) => str_eq(x.as_str(), y.as_str()),
        (VerbatimUncPrefix(x1, x2), VerbatimUncPrefix(y1, y2)) => str_eq(x1.as_str(), y1.as_str())
            && str_eq(x2.as_str(), y2.as_str()),
        (VerbatimDiskPrefix(x), VerbatimDiskPrefix(y)) => *x == *y,
        (DeviceNsPrefix(x), DeviceNsPrefix(y)) => str_eq(x.as_str(), y.as_str()),
        (UncPrefix(x1, x2), UncPrefix(y1, y2)) => str_eq(x1.as_str(), y1.as_str()) && str_eq(
            x2.as_str(),
            y2.as_str(),
        ),
        (DiskPrefix(x), DiskPrefix(y)) => *x == *y,
        (Root, Root) => true,
        (Current, Current) => true,
        (Parent, Parent) => true,
        (Name(x), Name(y)) => str_eq(x.as_str(), y.as_str()),
        _ => false,
    }
}

/// Whether two lists of path parts are the same.
pub fn parts_eq(a: &Vec<PathPart>, b: &Vec<PathPart>) -> (res: bool)
    ensures
        res == (parts_view(a@) == parts_view(b@)),
{
    if a.len() != b.len() {
        assert(parts_view(a@).len() != parts_view(b@).len());
        return false;
    }
    let n = a.len();
    for i in 0..n
        invariant
            n == a@.len(),
            n == b@.len(),
            forall|k: int| 0 <= k < i ==> a@[k]@ == b@[k]@,
    {
        if !part_eq(&a[i], &b[i]) {
            assert(parts_view(a@)[i as int] != parts_view(b@)[i as int]);
            return false;
        }
    }
    assert(parts_view(a@) =~= parts_view(b@));
    true
}

/// The position of a kind of part in the order of `std::path::Component`,
/// prefixes ranked by their kind in the order of `std::path::Prefix`.
pub open spec fn part_rank(p: PartView) -> int {
    match p {
        PartView::Prefix(x) => match x {
            PrefixView::Verbatim(_) => 0,
            PrefixView::VerbatimUNC(_, _) => 1,
            PrefixView::VerbatimDisk(_) => 2,
            PrefixView::DeviceNS(_) => 3,
            PrefixView::UNC(_, _) => 4,
            PrefixView::Disk(_) => 5,
        },
        PartView::RootDir => 6,
        PartView::CurDir => 7,
        PartView::ParentDir => 8,
        PartView::Normal(_) => 9,
    }
}

/// The first field a part is ordered by: the text of a name, the first
/// text of a prefix, or a drive letter as a one-character text.
pub open spec fn part_text(p: PartView) -> Seq<char> {
    match p {
        PartView::Prefix(x) => match x {
            PrefixView::Verbatim(a) => a,
            PrefixView::VerbatimUNC(a, _) => a,
            PrefixView::VerbatimDisk(d) => seq![d as char],
            PrefixView::DeviceNS(a) => a,
            PrefixView::UNC(a, _) => a,
            PrefixView::Disk(d) => seq![d as char],
        },
        PartView::Normal(s) => s,
        _ => Seq::empty(),
    }
}

/// The second field a part is ordered by: the share of a UNC prefix.
pub open spec fn part_text2(p: PartView) -> Seq<char> {
    match p {
        PartView::Prefix(x) => match x {
            PrefixView::VerbatimUNC(_, b) => b,
            PrefixView::UNC(_, b) => b,
            _ => Seq::empty(),
        },
        _ => Seq::empty(),
    }
}

/// Part `a` orders before part `b`: by kind, then by its fields in turn.
pub open spec fn part_lt(a: PartView, b: PartView) -> bool {
    ||| part_rank(a) < part_rank(b)
    ||| part_rank(a) == part_rank(b) && lex_lt(part_text(a), part_text(b))
    ||| part_rank(a) == part_rank(b) && part_text(a) == part_text(b) && lex_lt(part_text2(a), part_text2(b))
}

/// The parts `a` and `b` agree before `k`, and at `k` either `a` has ended
/// while `b` goes on or `a`'s part orders first.
pub open spec fn parts_split(a: Seq<PartView>, b: Seq<PartView>, k: int) -> bool {
    &&& 0 <= k <= a.len()
    &&& k <= b.len()
    &&& forall|j: int| 0 <= j < k ==> a[j] == b[j]
    &&& ((k == a.len() && k < b.len()) || (k < a.len() && k < b.len() && part_lt(a[k], b[k])))
}

/// Lists of parts order by their parts, compared one by one.
pub open spec fn parts_lt(a: Seq<PartView>, b: Seq<PartView>) -> bool {
    exists|k: int| parts_split(a, b, k)
}

/// Paths order by their parts, compared one by one.
pub open spec fn path_lt(a: Seq<char>, b: Seq<char>) -> bool {
    parts_lt(spec_path_parts(a), spec_path_parts(b))
}

fn rank_of(p: &PathPart) -> (res: u8)
    ensures
        res as int == part_rank(p@),
{
    match p {
        VerbatimPrefix(_) => 0,
        VerbatimUncPrefix(_, _) => 1,
        VerbatimDiskPrefix(_) => 2,
        DeviceNsPrefix(_) => 3,
        UncPrefix(_, _) => 4,
        DiskPrefix(_) => 5,
        Root => 6,
        Current => 7,
        Parent => 8,
        Name(_) => 9,
    }
}

fn drive_chars(d: u8) -> (res: Vec<char>)
    ensures
        res@ == seq![d as char],
{
    let v = vec![d as char];
    assert(v@ =~= seq![d as char]);
    v
}

fn text_chars(p: &PathPart) -> (res: Vec<char>)
    ensures
        res@ == part_text(p@),
{
    match p {
        VerbatimPrefix(a) => chars_of(a.as_str()),
        VerbatimUncPrefix(a, _) => chars_of(a.as_str()),
        VerbatimDiskPrefix(d) => drive_chars(*d),
        DeviceNsPrefix(a) => chars_of(a.as_str()),
        UncPrefix(a, _) => chars_of(a.as_str()),
        DiskPrefix(d) => drive_chars(*d),
        Name(s) => chars_of(s.as_str()),
        _ => Vec::new(),
    }
}

fn text2_chars(p: &PathPart) -> (res: Vec<char>)
    ensures
        res@ == part_text2(p@),
{
    match p {
        VerbatimUncPrefix(_, b) => chars_of(b.as_str()),
        UncPrefix(_, b) => chars_of(b.as_str()),
        _ => Vec::new(),
    }
}

fn part_less(a: &PathPart, b: &PathPart) -> (res: bool)
    ensures
        res == part_lt(a@, b@),
{
    let ra = rank_of(a);
    let rb = rank_of(b);
    if ra < rb {
        true
    } else if ra == rb {
        let ta = text_chars(a);
        let tb = text_chars(b);
        if chars_lt(&ta, &tb) {
            true
        } else if chars_lt(&tb, &ta) {
            proof {
                lemma_lex_lt_asymmetric(ta@, tb@);
            }
            false
        } else {
            proof {
                if ta@ != tb@ {
                    lemma_lex_lt_total(ta@, tb@);
                }
            }
            let ua = text2_chars(a);
            let ub = text2_chars(b);
            chars_lt(&ua, &ub)
        }
    } else {
        false
    }
}

/// Whether the parts `a` order before the parts `b`.
pub fn parts_less(a: &Vec<PathPart>, b: &Vec<PathPart>) -> (res: bool)
    ensures
        res == parts_lt(parts_view(a@), parts_view(b@)),
{
    let ghost av = parts_view(a@);
    let ghost bv = parts_view(b@);
    let n = if a.len() < b.len() {
        a.len()
    } else {
        b.len()
    };
    for i in 0..n
        invariant
            n <= a@.len(),
            n <= b@.len(),
            n == a@.len() || n == b@.len(),
            av == parts_view(a@),
            bv == parts_view(b@),
            forall|j: int| 0 <= j < i ==> av[j] == bv[j],
    {
        if !part_eq(&a[i], &b[i]) {
            let r = part_less(&a[i], &b[i]);
            proof {
                if r {
                    assert(parts_split(av, bv, i as int));
                } else {
                    assert forall|k: int| !parts_split(av, bv, k) by {
                        if parts_split(av, bv, k) {
                            if k < i {
                            } else if k > i {
                                assert(av[i as int] == bv[i as int]);
                            } else {
                                assert(part_lt(av[i as int], bv[i as int]));
                            }
                        }
                    }
                }
            }
            return r;
        }
    }
    let r = a.len() < b.len();
    proof {
        if r {
            assert(parts_split(av, bv, n as int));
        } else {
            assert forall|k: int| !parts_split(av, bv, k) by {
                if parts_split(av, bv, k) {
                    if k < n {
                        assert(av[k] == bv[k]);
                    }
                }
            }
        }
    }
    r
}

/// `x` placed into `s` after every path that does not order after it.
pub open spec fn insert_path(s: Seq<Seq<char>>, x: Seq<char>) -> Seq<Seq<char>>
    decreases s.len(),
{
    if s.len() == 0 {
        seq![x]
    } else if path_lt(x, s.last()) {
        insert_path(s.drop_last(), x).push(s.last())
    } else {
        s.push(x)
    }
}

/// The paths in path order; paths that tie keep their order.
pub open spec fn sort_paths(s: Seq<Seq<char>>) -> Seq<Seq<char>>
    decreases s.len(),
{
    if s.len() == 0 {
        s
    } else {
        insert_path(sort_paths(s.drop_last()), s.last())
    }
}

proof fn lemma_insert_path_at(s: Seq<Seq<char>>, x: Seq<char>, j: int)
    requires
        0 <= j <= s.len(),
        forall|k: int| j <= k < s.len() ==> path_lt(x, #[trigger] s[k]),
        j > 0 ==> !path_lt(x, s[j - 1]),
    ensures
        insert_path(s, x) == s.insert(j, x),
    decreases s.len(),
{
    if s.len() == 0 {
        assert(s.insert(j, x) =~= seq![x]);
    } else if j == s.len() {
        assert(s.insert(j, x) =~= s.push(x));
    } else {
        assert(path_lt(x, s[s.len() - 1]));
        lemma_insert_path_at(s.drop_last(), x, j);
        assert(s.insert(j, x) =~= s.drop_last().insert(j, x).push(s.last()));
    }
}

/// Parts with the same rank and fields are the same part.
proof fn lemma_part_fields_determine(a: PartView, b: PartView)
    requires
        part_rank(a) == part_rank(b),
        part_text(a) == part_text(b),
        part_text2(a) == part_text2(b),
    ensures
        a == b,
{
    if let PartView::Prefix(x) = a {
        if let PartView::Prefix(y) = b {
            match (x, y) {
                (PrefixView::VerbatimDisk(d), PrefixView::VerbatimDisk(e)) => {
                    assert(part_text(a)[0] == d as char);
                    assert(part_text(b)[0] == e as char);
                    assert(d == e);
                },
                (PrefixView::Disk(d), PrefixView::Disk(e)) => {
                    assert(part_text(a)[0] == d as char);
                    assert(part_text(b)[0] == e as char);
                    assert(d == e);
                },
                _ => {},
            }
        }
    }
}

/// The order of parts is a strict total order.
proof fn lemma_part_lt_order(a: PartView, b: PartView, c: PartView)
    ensures
        !part_lt(a, a),
        !(part_lt(a, b) && part_lt(b, a)),
        part_lt(a, b) && part_lt(b, c) ==> part_lt(a, c),
        a != b ==> part_lt(a, b) || part_lt(b, a),
{
    lemma_lex_lt_asymmetric(part_text(a), part_text(b));
    lemma_lex_lt_asymmetric(part_text2(a), part_text2(b));
    if part_lt(a, b) && part_lt(b, c) && part_rank(a) == part_rank(b) && part_rank(b) == part_rank(c) {
        if lex_lt(part_text(a), part_text(b)) && lex_lt(part_text(b), part_text(c)) {
            lemma_lex_lt_transitive(part_text(a), part_text(b), part_text(c));
        }
        if lex_lt(part_text2(a), part_text2(b)) && lex_lt(part_text2(b), part_text2(c)) {
            lemma_lex_lt_transitive(part_text2(a), part_text2(b), part_text2(c));
        }
    }
    if a != b && part_rank(a) == part_rank(b) {
        if part_text(a) != part_text(b) {
            lemma_lex_lt_total(part_text(a), part_text(b));
        } else if part_text2(a) != part_text2(b) {
            lemma_lex_lt_total(part_text2(a), part_text2(b));
        } else {
            lemma_part_fields_determine(a, b);
        }
    }
}

/// The first position below `n` where two lists of parts differ.
proof fn lemma_first_part_difference(a: Seq<PartView>, b: Seq<PartView>, n: int) -> (k: int)
    requires
        0 <= n <= a.len(),
        n <= b.len(),
        exists|j: int| 0 <= j < n && a[j] != b[j],
    ensures
        0 <= k < n,
        a[k] != b[k],
        forall|j: int| 0 <= j < k ==> a[j] == b[j],
    decreases n,
{
    if forall|j: int| 0 <= j < n - 1 ==> a[j] == b[j] {
        n - 1
    } else {
        lemma_first_part_difference(a, b, n - 1)
    }
}

/// The order of lists of parts is a strict total order.
proof fn lemma_parts_lt_order(a: Seq<PartView>, b: Seq<PartView>, c: Seq<PartView>)
    ensures
        !(parts_lt(a, b) && parts_lt(b, a)),
        parts_lt(a, b) && parts_lt(b, c) ==> parts_lt(a, c),
        a != b ==> parts_lt(a, b) || parts_lt(b, a),
{
    if parts_lt(a, b) && parts_lt(b, a) {
        let k1 = choose|k: int| parts_split(a, b, k);
        let k2 = choose|k: int| parts_split(b, a, k);
        if k1 < k2 {
            lemma_part_lt_order(a[k1], b[k1], a[k1]);
        } else if k2 < k1 {
            lemma_part_lt_order(b[k2], a[k2], b[k2]);
        } else {
            lemma_part_lt_order(a[k1], b[k1], a[k1]);
        }
    }
    if parts_lt(a, b) && parts_lt(b, c) {
        let k1 = choose|k: int| parts_split(a, b, k);
        let k2 = choose|k: int| parts_split(b, c, k);
        if k1 < k2 {
            assert(parts_split(a, c, k1));
        } else if k2 < k1 {
            assert(a[k2] == b[k2]);
            assert(parts_split(a, c, k2));
        } else {
            if k1 < a.len() {
                lemma_part_lt_order(a[k1], b[k1], c[k1]);
            }
            assert(parts_split(a, c, k1));
        }
    }
    if a != b {
        let n = if a.len() < b.len() {
            a.len() as int
        } else {
            b.len() as int
        };
        if forall|j: int| 0 <= j < n ==> a[j] == b[j] {
            if a.len() == b.len() {
                assert(a =~= b);
            } else if a.len() < b.len() {
                assert(parts_split(a, b, n));
            } else {
                assert(parts_split(b, a, n));
            }
        } else {
            let k = lemma_first_part_difference(a, b, n);
            lemma_part_lt_order(a[k], b[k], a[k]);
            if part_lt(a[k], b[k]) {
                assert(parts_split(a, b, k));
            } else {
                assert(parts_split(b, a, k));
            }
        }
    }
}

/// No path of `s` orders before a path listed earlier.
pub open spec fn in_path_order(s: Seq<Seq<char>>) -> bool {
    forall|i: int, j: int| 0 <= i < j < s.len() ==> !path_lt(#[trigger] s[j], #[trigger] s[i])
}

/// "Does not order before" is transitive for paths.
proof fn lemma_not_path_lt_transitive(a: Seq<char>, b: Seq<char>, c: Seq<char>)
    requires
        !path_lt(a, b),
        !path_lt(b, c),
    ensures
        !path_lt(a, c),
{
    let (pa, pb, pc) = (spec_path_parts(a), spec_path_parts(b), spec_path_parts(c));
    lemma_parts_lt_order(pa, pb, pc);
    lemma_parts_lt_order(pb, pc, pa);
    lemma_parts_lt_order(pc, pb, pa);
    lemma_parts_lt_order(pa, pc, pb);
}

/// Inserting keeps the old paths and adds the new one, and keeps the paths
/// in path order.
proof fn lemma_insert_path_sorted(s: Seq<Seq<char>>, x: Seq<char>)
    requires
        in_path_order(s),
    ensures
        in_path_order(insert_path(s, x)),
        insert_path(s, x).len() == s.len() + 1,
        forall|e: Seq<char>| #[trigger] insert_path(s, x).contains(e) <==> (s.contains(e) || e == x),
    decreases s.len(),
{
    if s.len() == 0 {
        assert(insert_path(s, x) =~= seq![x]);
        assert forall|e: Seq<char>| #[trigger] insert_path(s, x).contains(e) <==> (s.contains(e) || e == x) by {
            if e == x {
                assert(insert_path(s, x)[0] == x);
            }
        }
    } else {
        let last = s.last();
        let d = s.drop_last();
        if path_lt(x, last) {
            assert(in_path_order(d)) by {
                assert forall|i: int, j: int| 0 <= i < j < d.len() implies !path_lt(
                    #[trigger] d[j],
                    #[trigger] d[i],
                ) by {
                    assert(d[i] == s[i] && d[j] == s[j]);
                }
            }
            lemma_insert_path_sorted(d, x);
            let r = insert_path(d, x);
            let t = r.push(last);
            assert forall|i: int, j: int| 0 <= i < j < t.len() implies !path_lt(
                #[trigger] t[j],
                #[trigger] t[i],
            ) by {
                if j < r.len() {
                    assert(t[i] == r[i] && t[j] == r[j]);
                } else {
                    assert(t[i] == r[i]);
                    assert(r.contains(r[i]));
                    if r[i] == x {
                        lemma_parts_lt_order(spec_path_parts(x), spec_path_parts(last), spec_path_parts(x));
                    } else {
                        let k = choose|k: int| 0 <= k < d.len() && d[k] == r[i];
                        assert(s[k] == r[i]);
                        assert(s[s.len() - 1] == last);
                    }
                }
            }
            assert forall|e: Seq<char>| #[trigger] t.contains(e) <==> (s.contains(e) || e == x) by {
                if t.contains(e) {
                    let i = choose|i: int| 0 <= i < t.len() && t[i] == e;
                    if i < r.len() {
                        assert(r.contains(e));
                        if d.contains(e) {
                            let k = choose|k: int| 0 <= k < d.len() && d[k] == e;
                            assert(s[k] == e);
                        }
                    } else {
                        assert(s[s.len() - 1] == e);
                    }
                }
                if s.contains(e) {
                    let k = choose|k: int| 0 <= k < s.len() && s[k] == e;
                    if k < d.len() {
                        assert(d[k] == e);
                        assert(r.contains(e));
                        let i = choose|i: int| 0 <= i < r.len() && r[i] == e;
                        assert(t[i] == e);
                    } else {
                        assert(t[r.len() as int] == e);
                    }
                }
                if e == x {
                    assert(r.contains(e));
                    let i = choose|i: int| 0 <= i < r.len() && r[i] == e;
                    assert(t[i] == e);
                }
            }
        } else {
            let t = s.push(x);
            assert forall|i: int, j: int| 0 <= i < j < t.len() implies !path_lt(
                #[trigger] t[j],
                #[trigger] t[i],
            ) by {
                if j < s.len() {
                    assert(t[i] == s[i] && t[j] == s[j]);
                } else {
                    assert(t[i] == s[i]);
                    if i < s.len() - 1 {
                        assert(s[s.len() - 1] == last);
                        lemma_not_path_lt_transitive(x, last, s[i]);
                    }
                }
            }
            assert forall|e: Seq<char>| #[trigger] t.contains(e) <==> (s.contains(e) || e == x) by {
                if t.contains(e) {
                    let i = choose|i: int| 0 <= i < t.len() && t[i] == e;
                    if i < s.len() {
                        assert(s[i] == e);
                    }
                }
                if s.contains(e) {
                    let k = choose|k: int| 0 <= k < s.len() && s[k] == e;
                    assert(t[k] == e);
                }
                if e == x {
                    assert(t[s.len() as int] == e);
                }
            }
        }
    }
}

/// Sorting paths puts them in path order, keeps their number and keeps
/// exactly the paths it is given.
pub proof fn lemma_sort_paths(s: Seq<Seq<char>>)
    ensures
        in_path_order(sort_paths(s)),
        sort_paths(s).len() == s.len(),
        forall|e: Seq<char>| #[trigger] sort_paths(s).contains(e) <==> s.contains(e),
    decreases s.len(),
{
    if s.len() > 0 {
        let d = s.drop_last();
        lemma_sort_paths(d);
        lemma_insert_path_sorted(sort_paths(d), s.last());
        assert forall|e: Seq<char>| #[trigger] sort_paths(s).contains(e) <==> s.contains(e) by {
            if d.contains(e) {
                let k = choose|k: int| 0 <= k < d.len() && d[k] == e;
                assert(s[k] == e);
            }
            if s.contains(e) {
                let k = choose|k: int| 0 <= k < s.len() && s[k] == e;
                if k < d.len() {
                    assert(d[k] == e);
                } else {
                    assert(e == s.last());
                }
            }
        }
    }
}

/// The paths in path order (a stable insertion sort).
pub fn sort_paths_in_order(paths: Vec<String>) -> (res: Vec<String>)
    ensures
        string_views(res@) == sort_paths(string_views(paths@)),
{
    let mut parts: Vec<Vec<PathPart>> = Vec::new();
    let n = paths.len();
    for i in 0..n
        invariant
            n == paths@.len(),
            parts@.len() == i,
            forall|k: int| 0 <= k < i ==> parts_view(#[trigger] parts@[k]@) == spec_path_parts(paths@[k]@),
    {
        parts.push(path_parts(paths[i].as_str()));
    }
    let mut sorted: Vec<usize> = Vec::new();
    for t in 0..n
        invariant
            n == paths@.len(),
            parts@.len() == n,
            forall|k: int| 0 <= k < n ==> parts_view(#[trigger] parts@[k]@) == spec_path_parts(paths@[k]@),
            forall|k: int| 0 <= k < sorted@.len() ==> sorted@[k] < n,
            sorted@.len() == t,
            picked_paths(string_views(paths@), sorted@) == sort_paths(string_views(paths@).take(t as int)),
    {
        let mut j = sorted.len();
        let mut go_on = j > 0 && parts_less(&parts[t], &parts[sorted[j - 1]]);
        while go_on
            invariant
                go_on ==> j > 0,
                go_on ==> j > 0 && sorted@[j - 1] < n && parts_lt(parts_view(parts@[t as int]@), parts_view(parts@[sorted@[j - 1] as int]@)),
                !go_on ==> j == 0 || !parts_lt(parts_view(parts@[t as int]@), parts_view(parts@[sorted@[j - 1] as int]@)),
                j <= sorted@.len(),
                t < n,
                n == paths@.len(),
                parts@.len() == n,
                forall|k: int| 0 <= k < n ==> parts_view(#[trigger] parts@[k]@) == spec_path_parts(paths@[k]@),
                forall|k: int| 0 <= k < sorted@.len() ==> sorted@[k] < n,
                forall|k: int| j <= k < sorted@.len() ==> path_lt(paths@[t as int]@, #[trigger] picked_paths(string_views(paths@), sorted@)[k]),
            decreases j,
        {
            proof {
                let k = sorted@[j - 1] as int;
                assert(parts_view(parts@[k]@) == spec_path_parts(paths@[k]@));
                assert(parts_view(parts@[t as int]@) == spec_path_parts(paths@[t as int]@));
                assert(picked_paths(string_views(paths@), sorted@)[j - 1] == paths@[k]@);
            }
            j = j - 1;
            go_on = j > 0 && parts_less(&parts[t], &parts[sorted[j - 1]]);
        }
        let ghost before = picked_paths(string_views(paths@), sorted@);
        proof {
            if j > 0 {
                let k = sorted@[j - 1] as int;
                assert(parts_view(parts@[k]@) == spec_path_parts(paths@[k]@));
                assert(parts_view(parts@[t as int]@) == spec_path_parts(paths@[t as int]@));
                assert(before[j - 1] == paths@[k]@);
            }
        }
        proof {
            let sp = string_views(paths@);
            lemma_insert_path_at(before, sp[t as int], j as int);
            assert(sp.take(t + 1).drop_last() =~= sp.take(t as int));
            assert(sp.take(t + 1).last() == sp[t as int]);
        }
        sorted.insert(j, t);
        assert(picked_paths(string_views(paths@), sorted@) =~= before.insert(j as int, paths@[t as int]@));
    }
    assert(string_views(paths@).take(n as int) =~= string_views(paths@));
    let mut res: Vec<String> = Vec::new();
    for k in 0..n
        invariant
            n == paths@.len(),
            sorted@.len() == n,
            forall|q: int| 0 <= q < n ==> sorted@[q] < n,
            string_views(res@) == picked_paths(string_views(paths@), sorted@).take(k as int),
    {
        let c = paths[sorted[k]].clone();
        let ghost prev = res@;
        res.push(c);
        assert(string_views(res@) =~= string_views(prev).push(c@));
        assert(picked_paths(string_views(paths@), sorted@).take(k + 1) =~= picked_paths(
            string_views(paths@),
            sorted@,
        ).take(k as int).push(paths@[sorted@[k as int] as int]@));
    }
    assert(picked_paths(string_views(paths@), sorted@).take(n as int) =~= picked_paths(
        string_views(paths@),
        sorted@,
    ));
    res
}

/// The paths at the positions `idx`.
pub open spec fn picked_paths(s: Seq<Seq<char>>, idx: Seq<usize>) -> Seq<Seq<char>> {
    idx.map_values(|i: usize| s[i as int])
}

/// The names of the ordinary parts of a path, in order.
pub open spec fn normal_names(parts: Seq<PartView>) -> Seq<Seq<char>>
    decreases parts.len(),
{
    if parts.len() == 0 {
        Seq::empty()
    } else {
        let rest = normal_names(parts.drop_last());
        match parts.last() {
            PartView::Normal(n) => rest.push(n),
            _ => rest,
        }
    }
}

/// The names `names` joined by `sep`.
pub open spec fn join_with(names: Seq<Seq<char>>, sep: char) -> Seq<char>
    decreases names.len(),
{
    if names.len() == 0 {
        Seq::empty()
    } else if names.len() == 1 {
        names[0]
    } else {
        join_with(names.drop_last(), sep).push(sep) + names.last()
    }
}

/// The names of the ordinary parts of a path.
pub fn normal_part_names(p: &str) -> (res: Vec<String>)
    ensures
        res@.map_values(|s: String| s@) == normal_names(spec_path_parts(p@)),
{
    let parts = path_parts(p);
    let ghost pv = spec_path_parts(p@);
    let mut res: Vec<String> = Vec::new();
    let n = parts.len();
    for i in 0..n
        invariant
            n == parts@.len(),
            parts_view(parts@) == pv,
            res@.map_values(|s: String| s@) == normal_names(pv.take(i as int)),
    {
        assert(pv.take(i + 1).drop_last() =~= pv.take(i as int));
        assert(pv.take(i + 1).last() == parts@[i as int]@);
        match &parts[i] {
            Name(s) => {
                res.push(s.clone());
                assert(res@.map_values(|s: String| s@) =~= normal_names(pv.take(i as int)).push(
                    s@,
                ));
            },
            _ => {},
        }
    }
    assert(pv.take(n as int) =~= pv);
    res
}

/// Appends `names` joined by `sep` to `s`.
pub fn push_joined(s: &mut String, names: &Vec<String>, sep: char)
    ensures
        final(s)@ == old(s)@ + join_with(names@.map_values(|x: String| x@), sep),
{
    let ghost nv = names@.map_values(|x: String| x@);
    let ghost start = s@;
    let n = names.len();
    for i in 0..n
        invariant
            n == names@.len(),
            nv == names@.map_values(|x: String| x@),
            s@ == start + join_with(nv.take(i as int), sep),
    {
        assert(nv.take(i + 1).drop_last() =~= nv.take(i as int));
        if i > 0 {
            push_char(s, sep);
        }
        push_str(s, names[i].as_str());
        proof {
            if i == 0 {
                assert(join_with(nv.take(1), sep) == nv[0]);
                assert(start + join_with(nv.take(1), sep) =~= start + Seq::<char>::empty()
                    + names@[0]@);
            } else {
                assert(start + join_with(nv.take(i + 1), sep) =~= start + join_with(
                    nv.take(i as int),
                    sep,
                ).push(sep) + names@[i as int]@);
            }
        }
    }
    assert(nv.take(n as int) =~= nv);
}

} // verus!
