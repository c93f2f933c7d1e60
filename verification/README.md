# code_to_md

A desktop tool that bundles a project's source files into one Markdown
document for use as context for language models: open a folder, pick files
from its tree (or check whole directories), optionally export modified files
as their git diff, and save or append the document.

## Layout

- `src/` is the verified library (Verus). It holds the Markdown format with
  its dynamic code fences, the language and syntax tables, path labels, the
  file tree built from a directory walk, the preview decisions, the bounded
  highlight cache, and the application state with every operation on it
  (export list, checks, search, preview generations, export composition and
  status messages). Operations that need the disk, git or a dialog take
  what was read as arguments and say what to do next.
- `app/` is the egui program around it: it walks directories, asks git,
  reads and writes files, shows dialogs, watches the project, highlights
  text with syntect and draws the window.
- `tests/` exercises the library on concrete inputs.
