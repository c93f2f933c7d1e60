//! What the preview pane shows for a file, decided from its size and bytes.
use crate::text::decode_utf8_bytes;
use vstd::prelude::*;
use vstd::utf8::{decode_utf8, valid_utf8};

verus! {

/// Files larger than this many bytes are not read for a preview (1 MiB).
pub const MAX_PREVIEW_SIZE: u64 = 1048576;

/// How many leading bytes are searched for a NUL byte to tell a binary file
/// in the preview.
pub const PREVIEW_BINARY_PROBE: usize = 8192;

/// A file as the preview pane shows it.
#[derive(Debug, Clone)]
pub struct FilePreview {
    pub path: String,
    pub size: u64,
    pub content: PreviewContent,
}

/// The shown contents of a file.
#[derive(Debug, Clone)]
pub enum PreviewContent {
    Text(String),
    TooLarge,
    Binary,
    Error(String),
}

/// Some byte among the first `limit` bytes of `bytes` is zero.
pub open spec fn has_nul_within(bytes: Seq<u8>, limit: int) -> bool {
    exists|i: int| 0 <= i < limit && i < bytes.len() && bytes[i] == 0
}

/// Whether one of the first `limit` bytes is zero.
pub fn nul_within(bytes: &[u8], limit: usize) -> (res: bool)
    ensures
        res == has_nul_within(bytes@, limit as int),
{
    let n = if bytes.len() < limit {
        bytes.len()
    } else {
        limit
    };
    for i in 0..n
        invariant
            n <= bytes@.len(),
            n <= limit,
            n == bytes@.len() || n == limit,
            forall|k: int| 0 <= k < i ==> bytes@[k] != 0,
    {
        if bytes[i] == 0 {
            return true;
        }
    }
    false
}

/// Whether the file contents look binary to the export: a zero byte among
/// the first 1024 bytes.
pub fn is_binary_bytes(bytes: &[u8]) -> (res: bool)
    ensures
        res == has_nul_within(bytes@, 1024),
{
    nul_within(bytes, 1024)
}

/// The preview for a file of `size` bytes that is too large to read, or
/// `None` when the file is small enough to be read.
pub fn preview_for_size(path: &str, size: u64) -> (res: Option<FilePreview>)
    ensures
        size > MAX_PREVIEW_SIZE ==> (res matches Some(p) && p.path@ == path@ && p.size == size
            && p.content is TooLarge),
        size <= MAX_PREVIEW_SIZE ==> res is None,
{
    if size > MAX_PREVIEW_SIZE {
        Some(FilePreview { path: path.to_string(), size, content: PreviewContent::TooLarge })
    } else {
        None
    }
}

/// The preview of a file read in full: binary when a zero byte occurs among
/// its first 8 KiB or when it is not valid UTF-8, its text otherwise.
pub fn preview_for_bytes(path: &str, size: u64, bytes: Vec<u8>) -> (res: FilePreview)
    ensures
        res.path@ == path@,
        res.size == size,
        has_nul_within(bytes@, PREVIEW_BINARY_PROBE as int) ==> res.content is Binary,
        !has_nul_within(bytes@, PREVIEW_BINARY_PROBE as int) && !valid_utf8(bytes@)
            ==> res.content is Binary,
        !has_nul_within(bytes@, PREVIEW_BINARY_PROBE as int) && valid_utf8(bytes@)
            ==> (res.content matches PreviewContent::Text(t) && t@ == decode_utf8(bytes@)),
{
    if nul_within(bytes.as_slice(), PREVIEW_BINARY_PROBE) {
        return FilePreview { path: path.to_string(), size, content: PreviewContent::Binary };
    }
    match decode_utf8_bytes(bytes.as_slice()) {
        Some(text) => FilePreview {
            path: path.to_string(),
            size,
            content: PreviewContent::Text(text),
        },
        None => FilePreview { path: path.to_string(), size, content: PreviewContent::Binary },
    }
}

} // verus!
