//! Writing the export: when it may start, how the Markdown document is
//! put together from what was read, and what the status line says after.
use super::{opt_view, AppState};
use crate::markdown::{generate_markdown_entry, markdown_entry};
use crate::pathname::{parent, spec_parent};
use crate::preview::{has_nul_within, is_binary_bytes};
use crate::text::{decimal, decode_utf8_bytes, push_char, push_decimal, push_str};
use vstd::prelude::*;
use vstd::utf8::{decode_utf8, valid_utf8};

verus! {

/// Which export command was given.
#[derive(Clone, Copy, PartialEq, Eq, Structural, Debug)]
pub enum ExportKind {
    Save,
    SaveAs,
    Append,
}

/// What the caller does next for an export command.
#[derive(Clone, Copy, PartialEq, Eq, Structural, Debug)]
pub enum ExportStep {
    /// Nothing more: the status says why.
    Done,
    /// Ask for the output file first.
    ChooseOutput,
    /// Write the export, replacing the output file or appending to it.
    Write { append: bool },
}

/// Where the output file dialog opens.
pub enum DialogStart {
    /// In this directory.
    Dir(String),
    /// On the desktop, where there is one.
    Desktop,
    /// Wherever the dialog opens by itself.
    Unset,
}

/// What was read for one file of the export list.
pub enum FileFetch {
    /// The path is not an existing file.
    Missing,
    /// The file is exported as its git diff: the diff, or nothing to show.
    Diff(Option<String>),
    /// The file is exported in full: its bytes, or nothing where reading
    /// failed.
    Read(Option<Vec<u8>>),
}

/// The export document and how many files went into it and were skipped.
pub struct ExportOutput {
    pub text: String,
    pub written: usize,
    pub skipped: usize,
}

/// How writing the output file went.
pub enum WriteOutcome {
    Written,
    OpenFailed(String),
    WriteFailed(String),
}

/// The status when there is nothing to export.
pub open spec fn nothing_selected_status() -> Seq<char> {
    "No files selected for export"@
}

/// The status when the output dialog was closed without a choice.
pub open spec fn canceled_status(kind: ExportKind) -> Seq<char> {
    match kind {
        ExportKind::Save => "Save canceled: no output path chosen"@,
        ExportKind::SaveAs => "Save As canceled: no output path chosen"@,
        ExportKind::Append => "Append canceled: no output path chosen"@,
    }
}

/// The section of the export for one file, or `None` where it is skipped:
/// missing files, files without a diff, files that could not be read,
/// binary files (a zero byte among the first 1024) and files that are not
/// UTF-8 are skipped.
pub open spec fn export_piece(root: Seq<char>, path: Seq<char>, fetch: FileFetch) -> Option<Seq<char>> {
    match fetch {
        FileFetch::Missing => None,
        FileFetch::Diff(Some(d)) => Some(markdown_entry(root, path, d@)),
        FileFetch::Diff(None) => None,
        FileFetch::Read(Some(b)) => {
            if has_nul_within(b@, 1024) || !valid_utf8(b@) {
                None
            } else {
                Some(markdown_entry(root, path, decode_utf8(b@)))
            }
        },
        FileFetch::Read(None) => None,
    }
}

/// The export text for the first `n` files.
pub open spec fn export_text(root: Seq<char>, paths: Seq<Seq<char>>, fetched: Seq<FileFetch>, n: int) -> Seq<char>
    decreases n,
{
    if n <= 0 {
        Seq::empty()
    } else {
        let before = export_text(root, paths, fetched, n - 1);
        match export_piece(root, paths[n - 1], fetched[n - 1]) {
            Some(piece) => before + piece,
            None => before,
        }
    }
}

/// How many of the first `n` files go into the export.
pub open spec fn export_written(root: Seq<char>, paths: Seq<Seq<char>>, fetched: Seq<FileFetch>, n: int) -> nat
    decreases n,
{
    if n <= 0 {
        0
    } else {
        export_written(root, paths, fetched, n - 1) + if export_piece(root, paths[n - 1], fetched[n - 1]) is Some {
            1nat
        } else {
            0nat
        }
    }
}

proof fn lemma_written_bound(root: Seq<char>, paths: Seq<Seq<char>>, fetched: Seq<FileFetch>, n: int)
    requires
        n >= 0,
    ensures
        export_written(root, paths, fetched, n) <= n,
    decreases n,
{
    if n > 0 {
        lemma_written_bound(root, paths, fetched, n - 1);
    }
}

/// What one file contributes to the export. A missing file, a file without
/// a diff and a file that could not be read contribute nothing; so do bytes
/// with a zero byte among their first 1024 and bytes that are not UTF-8.
/// Any other bytes, an empty file among them, contribute the file's section
/// made from their text, and a diff contributes the section made from it.
pub proof fn lemma_export_piece(root: Seq<char>, path: Seq<char>, fetch: FileFetch)
    ensures
        fetch is Missing ==> export_piece(root, path, fetch) is None,
        fetch matches FileFetch::Diff(d) && d is None ==> export_piece(root, path, fetch) is None,
        fetch matches FileFetch::Diff(Some(d)) ==> export_piece(root, path, fetch) == Some(
            markdown_entry(root, path, d@),
        ),
        fetch matches FileFetch::Read(b) && b is None ==> export_piece(root, path, fetch) is None,
        fetch matches FileFetch::Read(Some(b)) ==> {
            let bytes = b@;
            let binary = exists|i: int| 0 <= i < 1024 && i < bytes.len() && bytes[i] == 0u8;
            &&& (binary || !valid_utf8(bytes)) ==> export_piece(root, path, fetch) is None
            &&& (!binary && valid_utf8(bytes)) ==> export_piece(root, path, fetch) == Some(
                markdown_entry(root, path, decode_utf8(bytes)),
            )
        },
{
}

/// The export grows file by file: with no file it is empty and counts
/// nothing; each further file appends its contribution, if any, and counts
/// as written exactly when it contributes.
pub proof fn lemma_export_grows(root: Seq<char>, paths: Seq<Seq<char>>, fetched: Seq<FileFetch>, n: int)
    requires
        0 <= n < paths.len(),
        paths.len() == fetched.len(),
    ensures
        export_text(root, paths, fetched, 0) == Seq::<char>::empty(),
        export_written(root, paths, fetched, 0) == 0,
        export_text(root, paths, fetched, n + 1) == export_text(root, paths, fetched, n) + match export_piece(
            root,
            paths[n],
            fetched[n],
        ) {
            Some(piece) => piece,
            None => Seq::<char>::empty(),
        },
        export_written(root, paths, fetched, n + 1) == export_written(root, paths, fetched, n) + if export_piece(
            root,
            paths[n],
            fetched[n],
        ) is Some {
            1int
        } else {
            0int
        },
{
    match export_piece(root, paths[n], fetched[n]) {
        Some(piece) => {},
        None => {
            assert(export_text(root, paths, fetched, n) + Seq::<char>::empty() =~= export_text(
                root,
                paths,
                fetched,
                n,
            ));
        },
    }
}

/// Puts the export together from what was read for each file of the list:
/// the sections of the files not skipped, in list order, with the number of
/// files written and skipped.
pub fn compose_export(root: &str, paths: &Vec<String>, fetched: &Vec<FileFetch>) -> (res: ExportOutput)
    requires
        paths@.len() == fetched@.len(),
    ensures
        res.text@ == export_text(root@, paths@.map_values(|p: String| p@), fetched@, paths@.len() as int),
        res.written == export_written(root@, paths@.map_values(|p: String| p@), fetched@, paths@.len() as int),
        res.written + res.skipped == paths@.len(),
{
    let ghost pv = paths@.map_values(|p: String| p@);
    let ghost fv = fetched@;
    let mut text = String::new();
    let mut written: usize = 0;
    let mut skipped: usize = 0;
    let n = paths.len();
    let mut i: usize = 0;
    while i < n
        invariant
            n == paths@.len(),
            n == fv.len(),
            i <= n,
            pv == paths@.map_values(|p: String| p@),
            fv == fetched@,
            text@ == export_text(root@, pv, fv, i as int),
            written == export_written(root@, pv, fv, i as int),
            written + skipped == i,
        decreases n - i,
    {
        let fetch = &fetched[i];
        let path = &paths[i];
        let piece: Option<String> = match fetch {
            FileFetch::Missing => None,
            FileFetch::Diff(Some(d)) => Some(generate_markdown_entry(root, path.as_str(), d.as_str())),
            FileFetch::Diff(None) => None,
            FileFetch::Read(Some(bytes)) => {
                if is_binary_bytes(bytes.as_slice()) {
                    None
                } else {
                    match decode_utf8_bytes(bytes.as_slice()) {
                        Some(content) => Some(
                            generate_markdown_entry(root, path.as_str(), content.as_str()),
                        ),
                        None => None,
                    }
                }
            },
            FileFetch::Read(None) => None,
        };
        assert(piece matches Some(x) ==> export_piece(root@, pv[i as int], fv[i as int]) == Some(x@));
        assert(piece is None ==> export_piece(root@, pv[i as int], fv[i as int]) is None);
        match piece {
            Some(p) => {
                push_str(&mut text, p.as_str());
                written = written + 1;
            },
            None => {
                skipped = skipped + 1;
            },
        }
        i = i + 1;
    }
    ExportOutput { text, written, skipped }
}

/// What goes before appended text: a line break where the existing file
/// has text that does not end in one.
pub open spec fn append_prefix_of(existing: Option<Seq<char>>) -> Seq<char> {
    match existing {
        Some(e) => if e.len() > 0 && e.last() != '\n' {
            seq!['\n']
        } else {
            Seq::empty()
        },
        None => Seq::empty(),
    }
}

/// The text put before appended sections, given what the output file holds
/// (`None` where it does not exist or could not be read).
pub fn append_prefix(existing: Option<String>) -> (res: String)
    ensures
        res@ == append_prefix_of(opt_view(existing)),
{
    let mut res = String::new();
    match existing {
        Some(e) => {
            let cs = crate::text::chars_of(e.as_str());
            if cs.len() > 0 && cs[cs.len() - 1] != '\n' {
                push_char(&mut res, '\n');
                assert(res@ =~= seq!['\n']);
            }
        },
        None => {},
    }
    res
}

/// The status after an export was written, or failed to be.
pub open spec fn written_status(append: bool, out: Seq<char>, written: nat, skipped: nat, outcome: WriteOutcome) -> Seq<char> {
    match outcome {
        WriteOutcome::Written => if append {
            "Appended "@ + decimal(written) + " file(s) to "@ + out + ". Skipped "@ + decimal(skipped)
                + " file(s)."@
        } else {
            "Saved "@ + decimal(written) + " file(s) to "@ + out + ". Skipped "@ + decimal(skipped)
                + " file(s)."@
        },
        WriteOutcome::OpenFailed(e) => if append {
            "Error opening output file: "@ + e@
        } else {
            "Error saving output file: "@ + e@
        },
        WriteOutcome::WriteFailed(e) => if append {
            "Error appending to output file: "@ + e@
        } else {
            "Error saving output file: "@ + e@
        },
    }
}

/// One line of a git patch as the export shows it: the line's origin mark
/// where it is an added, removed or context line, then its text where that
/// is UTF-8.
pub open spec fn patch_line(origin: char, content: Seq<u8>) -> Seq<char> {
    let mark = if origin == '+' || origin == '-' || origin == ' ' {
        seq![origin]
    } else {
        Seq::empty()
    };
    mark + if valid_utf8(content) {
        decode_utf8(content)
    } else {
        Seq::empty()
    }
}

/// Appends one line of a git patch to the diff text being built.
pub fn push_patch_line(patch: &mut String, origin: char, content: &[u8])
    ensures
        final(patch)@ == old(patch)@ + patch_line(origin, content@),
{
    if origin == '+' || origin == '-' || origin == ' ' {
        push_char(patch, origin);
    }
    match decode_utf8_bytes(content) {
        Some(s) => push_str(patch, s.as_str()),
        None => {},
    }
    assert(patch@ =~= old(patch)@ + patch_line(origin, content@));
}

/// The diff of a file: the patch text, or `None` where it is empty.
pub fn finish_patch(patch: String) -> (res: Option<String>)
    ensures
        patch@.len() == 0 ==> res is None,
        patch@.len() > 0 ==> (res matches Some(p) && p@ == patch@),
{
    if patch.as_str().is_empty() {
        None
    } else {
        Some(patch)
    }
}

/// The status after the output file was chosen.
pub open spec fn output_set_status(path: Seq<char>) -> Seq<char> {
    "Set output file: "@ + path
}

impl<T> AppState<T> {
    /// Where the output dialog opens: in the directory of the current output
    /// file; without one, in that of the last output file of an earlier run;
    /// without that either, on the desktop.
    pub fn output_dialog_start(&self) -> (res: DialogStart)
        ensures
            self.output_path matches Some(p) ==> match spec_parent(p@) {
                Some(d) => res matches DialogStart::Dir(r) && r@ == d,
                None => res is Unset,
            },
            self.output_path is None && self.config.last_output_path is Some ==> match spec_parent(
                self.config.last_output_path->0@,
            ) {
                Some(d) => res matches DialogStart::Dir(r) && r@ == d,
                None => res is Unset,
            },
            self.output_path is None && self.config.last_output_path is None ==> res is Desktop,
    {
        match &self.output_path {
            Some(p) => match parent(p.as_str()) {
                Some(d) => DialogStart::Dir(d),
                None => DialogStart::Unset,
            },
            None => match &self.config.last_output_path {
                Some(p) => match parent(p.as_str()) {
                    Some(d) => DialogStart::Dir(d),
                    None => DialogStart::Unset,
                },
                None => DialogStart::Desktop,
            },
        }
    }

    /// Takes the answer of the output dialog opened for `kind`: a chosen file
    /// becomes the output file and the export is written (appended for
    /// `Append`); without a choice the status says the command was canceled.
    pub fn output_chosen(&mut self, kind: ExportKind, chosen: Option<String>) -> (res: ExportStep)
        requires
            old(self).wf(),
        ensures
            final(self).wf(),
            chosen matches Some(p) ==> {
                &&& opt_view(final(self).output_path) == Some(p@)
                &&& final(self).status@ == output_set_status(p@)
                &&& res == (ExportStep::Write { append: kind == ExportKind::Append })
            },
            chosen is None ==> {
                &&& final(self).output_path == old(self).output_path
                &&& final(self).status@ == canceled_status(kind)
                &&& res == ExportStep::Done
            },
            final(self).config == old(self).config,
            final(self).project_root == old(self).project_root,
            final(self).file_tree == old(self).file_tree,
            final(self).filter_ignored == old(self).filter_ignored,
            final(self).git_statuses == old(self).git_statuses,
            final(self).preview_mode == old(self).preview_mode,
            final(self).same_list(&*old(self)),
            final(self).same_tree_marks(&*old(self)),
            final(self).same_preview(&*old(self)),
    {
        match chosen {
            Some(p) => {
                let mut status = String::new();
                push_str(&mut status, "Set output file: ");
                push_str(&mut status, p.as_str());
                self.output_path = Some(p);
                self.status = status;
                ExportStep::Write { append: kind == ExportKind::Append }
            },
            None => {
                self.status = match kind {
                    ExportKind::Save => "Save canceled: no output path chosen".to_string(),
                    ExportKind::SaveAs => "Save As canceled: no output path chosen".to_string(),
                    ExportKind::Append => "Append canceled: no output path chosen".to_string(),
                };
                ExportStep::Done
            },
        }
    }

    /// The project root and the output file an export is written with, when
    /// both are set.
    pub fn export_targets(&self) -> (res: Option<(String, String)>)
        ensures
            res matches Some((r, o)) ==> opt_view(self.project_root) == Some(r@) && opt_view(
                self.output_path,
            ) == Some(o@),
            res is None ==> self.project_root is None || self.output_path is None,
    {
        match (&self.project_root, &self.output_path) {
            (Some(r), Some(o)) => Some((r.clone(), o.clone())),
            _ => None,
        }
    }

    /// Records in the status how writing the export to `out` went.
    pub fn finish_export(&mut self, append: bool, out: &str, written: usize, skipped: usize, outcome: WriteOutcome)
        requires
            old(self).wf(),
        ensures
            final(self).wf(),
            final(self).status@ == written_status(append, out@, written as nat, skipped as nat, outcome),
            final(self).same_project(&*old(self)),
            final(self).same_list(&*old(self)),
            final(self).same_tree_marks(&*old(self)),
            final(self).same_preview(&*old(self)),
    {
        let mut status = String::new();
        match &outcome {
            WriteOutcome::Written => {
                if append {
                    push_str(&mut status, "Appended ");
                } else {
                    push_str(&mut status, "Saved ");
                }
                push_decimal(&mut status, written as u64);
                push_str(&mut status, " file(s) to ");
                push_str(&mut status, out);
                push_str(&mut status, ". Skipped ");
                push_decimal(&mut status, skipped as u64);
                push_str(&mut status, " file(s).");
            },
            WriteOutcome::OpenFailed(e) => {
                if append {
                    push_str(&mut status, "Error opening output file: ");
                } else {
                    push_str(&mut status, "Error saving output file: ");
                }
                push_str(&mut status, e.as_str());
            },
            WriteOutcome::WriteFailed(e) => {
                if append {
                    push_str(&mut status, "Error appending to output file: ");
                } else {
                    push_str(&mut status, "Error saving output file: ");
                }
                push_str(&mut status, e.as_str());
            },
        }
        self.status = status;
    }

    /// `Save`: with files listed, write to the output file, or ask for one
    /// first; with none, say so.
    pub fn save_markdown(&mut self) -> (res: ExportStep)
        requires
            old(self).wf(),
        ensures
            final(self).wf(),
            old(self).selected_files@.len() == 0 ==> res == ExportStep::Done && final(self).status@
                == nothing_selected_status(),
            old(self).selected_files@.len() > 0 && old(self).output_path is None ==> res
                == ExportStep::ChooseOutput && final(self).status == old(self).status,
            old(self).selected_files@.len() > 0 && old(self).output_path is Some ==> res
                == (ExportStep::Write { append: false }) && final(self).status == old(self).status,
            final(self).same_project(&*old(self)),
            final(self).same_list(&*old(self)),
            final(self).same_tree_marks(&*old(self)),
            final(self).same_preview(&*old(self)),
    {
        if self.selected_files.len() == 0 {
            self.status = "No files selected for export".to_string();
            return ExportStep::Done;
        }
        if self.output_path.is_none() {
            return ExportStep::ChooseOutput;
        }
        ExportStep::Write { append: false }
    }

    /// `Save As`: with files listed, ask for the output file; with none, say
    /// so.
    pub fn save_as_markdown(&mut self) -> (res: ExportStep)
        requires
            old(self).wf(),
        ensures
            final(self).wf(),
            old(self).selected_files@.len() == 0 ==> res == ExportStep::Done && final(self).status@
                == nothing_selected_status(),
            old(self).selected_files@.len() > 0 ==> res == ExportStep::ChooseOutput
                && final(self).status == old(self).status,
            final(self).same_project(&*old(self)),
            final(self).same_list(&*old(self)),
            final(self).same_tree_marks(&*old(self)),
            final(self).same_preview(&*old(self)),
    {
        if self.selected_files.len() == 0 {
            self.status = "No files selected for export".to_string();
            return ExportStep::Done;
        }
        ExportStep::ChooseOutput
    }

    /// `Append`: with files listed, append to the output file, or ask for
    /// one first; with none, say so.
    pub fn append_markdown(&mut self) -> (res: ExportStep)
        requires
            old(self).wf(),
        ensures
            final(self).wf(),
            old(self).selected_files@.len() == 0 ==> res == ExportStep::Done && final(self).status@
                == nothing_selected_status(),
            old(self).selected_files@.len() > 0 && old(self).output_path is None ==> res
                == ExportStep::ChooseOutput && final(self).status == old(self).status,
            old(self).selected_files@.len() > 0 && old(self).output_path is Some ==> res
                == (ExportStep::Write { append: true }) && final(self).status == old(self).status,
            final(self).same_project(&*old(self)),
            final(self).same_list(&*old(self)),
            final(self).same_tree_marks(&*old(self)),
            final(self).same_preview(&*old(self)),
    {
        if self.selected_files.len() == 0 {
            self.status = "No files selected for export".to_string();
            return ExportStep::Done;
        }
        if self.output_path.is_none() {
            return ExportStep::ChooseOutput;
        }
        ExportStep::Write { append: true }
    }
}

} // verus!
