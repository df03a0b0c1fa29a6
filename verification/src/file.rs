//! File records: what the scanner hands to the chunking engine.

use vstd::prelude::*;
use vstd::utf8::encode_utf8;
use std::path::Path;
use std::path::PathBuf;
use crate::text::lines_of;
use crate::text::split_lines;
use crate::text::text_eq;

verus! {

/// `std::path::PathBuf`, carried as an opaque value.
#[verifier::external_type_specification]
#[verifier::external_body]
pub struct ExPathBuf(PathBuf);

/// `std::path::Path`, carried as an opaque value.
#[verifier::external_type_specification]
#[verifier::external_body]
pub struct ExPath(Path);

/// `PathBuf::clone` returns a path equal to the one it was given.
pub assume_specification[ <PathBuf as Clone>::clone ](path: &PathBuf) -> (copy: PathBuf)
    ensures
        copy == *path,
;

/// The path that `buf` holds.
pub uninterp spec fn path_of(buf: PathBuf) -> &'static Path;

/// `PathBuf::as_path` lends the path that the buffer holds.
pub assume_specification[ PathBuf::as_path ](buf: &PathBuf) -> (path: &Path)
    ensures
        path == path_of(*buf),
;

/// The text that `Path::display` shows for `path`.
pub uninterp spec fn path_text(path: &Path) -> Seq<char>;

/// Calls `Path::display` and collects what it shows, which depends on the
/// path alone.
#[verifier::external_body]
pub(crate) fn display_path(path: &Path) -> (text: String)
    ensures
        text@ == path_text(path),
{
    path.display().to_string()
}

/// What `pathdiff::diff_paths` gives for `path` as seen from `base`.
pub uninterp spec fn path_difference(path: &Path, base: &Path) -> Option<PathBuf>;

/// Calls `pathdiff::diff_paths`, which works on the components of the two
/// paths alone.
#[verifier::external_body]
pub(crate) fn diff_paths(path: &Path, base: &Path) -> (difference: Option<PathBuf>)
    ensures
        difference == path_difference(path, base),
{
    pathdiff::diff_paths(path, base)
}

/// The text of `path` as seen from `root`; of `path` itself where it
/// cannot be seen from there.
pub open spec fn relative_path_text(path: &Path, root: &Path) -> Seq<char> {
    match path_difference(path, root) {
        Some(relative) => path_text(path_of(relative)),
        None => path_text(path),
    }
}

/// Computes the path of a file relative to the root of the scan.
pub fn relative_path(path: &Path, root: &Path) -> (relative: String)
    ensures
        relative@ == relative_path_text(path, root),
{
    match diff_paths(path, root) {
        Some(relative) => display_path(relative.as_path()),
        None => display_path(path),
    }
}

/// The extension of `path` as `Path::extension` gives it, where it is
/// valid Unicode; `None` otherwise.
pub uninterp spec fn path_extension(path: &Path) -> Option<Seq<char>>;

/// Calls `Path::extension` and hands the extension out as a `String` when
/// it is valid Unicode. The result is a function of the path alone.
#[verifier::external_body]
pub(crate) fn extension_of(path: &Path) -> (extension: Option<String>)
    ensures
        extension is Some == path_extension(path) is Some,
        extension matches Some(e) ==> e@ == path_extension(path)->Some_0,
{
    match path.extension() {
        Some(extension) => match extension.to_str() {
            Some(text) => Some(text.to_string()),
            None => None,
        },
        None => None,
    }
}

/// File content type (text or binary).
#[derive(Debug)]
pub enum FileContent {
    /// Text content with UTF-8 string
    Text(String),
    /// Binary content with file size
    Binary {
        /// Size of the binary file in bytes
        size: u64,
    },
}

/// Represents a file with its content and metadata.
#[derive(Debug)]
pub struct FileData {
    /// Absolute path to the file
    pub absolute_path: PathBuf,
    /// Relative path from the root directory
    pub relative_path: String,
    /// File content (text or binary)
    pub content: FileContent,
    /// Estimated token count
    pub token_count: usize,
}

/// What a [`FileContent`] holds.
pub enum ContentView {
    /// The characters of a text.
    Text(Seq<char>),
    /// The size of a binary file in bytes.
    Binary { size: u64 },
}

/// What a [`FileData`] holds.
pub struct FileView {
    pub absolute_path: PathBuf,
    pub relative_path: Seq<char>,
    pub content: ContentView,
    pub token_count: nat,
}

impl View for FileContent {
    type V = ContentView;

    open spec fn view(&self) -> ContentView {
        match self {
            FileContent::Text(text) => ContentView::Text(text@),
            FileContent::Binary { size } => ContentView::Binary { size: *size },
        }
    }
}

impl View for FileData {
    type V = FileView;

    open spec fn view(&self) -> FileView {
        FileView {
            absolute_path: self.absolute_path,
            relative_path: self.relative_path@,
            content: self.content@,
            token_count: self.token_count as nat,
        }
    }
}

impl Clone for FileContent {
    fn clone(&self) -> (copy: Self)
        ensures
            copy == *self,
    {
        match self {
            FileContent::Text(text) => FileContent::Text(text.clone()),
            FileContent::Binary { size } => FileContent::Binary { size: *size },
        }
    }
}

impl Clone for FileData {
    fn clone(&self) -> (copy: Self)
        ensures
            copy == *self,
    {
        FileData {
            absolute_path: self.absolute_path.clone(),
            relative_path: self.relative_path.clone(),
            content: self.content.clone(),
            token_count: self.token_count,
        }
    }
}

impl FileData {
    /// Creates a new text file data.
    #[must_use]
    pub fn new_text(
        absolute_path: PathBuf,
        relative_path: String,
        content: String,
        token_count: usize,
    ) -> (file: Self)
        ensures
            file == (FileData {
                absolute_path,
                relative_path,
                content: FileContent::Text(content),
                token_count,
            }),
    {
        Self { absolute_path, relative_path, content: FileContent::Text(content), token_count }
    }

    /// Creates a new binary file data.
    #[must_use]
    pub fn new_binary(absolute_path: PathBuf, relative_path: String, size: u64) -> (file: Self)
        ensures
            file == (FileData {
                absolute_path,
                relative_path,
                content: FileContent::Binary { size },
                token_count: 0,
            }),
    {
        Self { absolute_path, relative_path, content: FileContent::Binary { size }, token_count: 0 }
    }

    /// Returns true if this is a text file.
    #[must_use]
    pub fn is_text(&self) -> (text: bool)
        ensures
            text == (self.content is Text),
    {
        match &self.content {
            FileContent::Text(_) => true,
            FileContent::Binary { .. } => false,
        }
    }

    /// Returns true if this is a binary file.
    #[must_use]
    pub fn is_binary(&self) -> (binary: bool)
        ensures
            binary == (self.content is Binary),
    {
        match &self.content {
            FileContent::Text(_) => false,
            FileContent::Binary { .. } => true,
        }
    }

    /// Returns the text content if this is a text file.
    #[must_use]
    pub fn content_str(&self) -> (text: Option<&str>)
        ensures
            match self.content {
                FileContent::Text(content) => text matches Some(t) && t@ == content@,
                FileContent::Binary { .. } => text is None,
            },
    {
        match &self.content {
            FileContent::Text(s) => Some(s.as_str()),
            FileContent::Binary { .. } => None,
        }
    }

    /// Returns the size in bytes: of the UTF-8 encoding for a text, as
    /// recorded for a binary file.
    #[must_use]
    pub fn size_bytes(&self) -> (bytes: u64)
        ensures
            bytes == match self.content {
                FileContent::Text(content) => encode_utf8(content@).len(),
                FileContent::Binary { size } => size as nat,
            },
    {
        match &self.content {
            FileContent::Text(s) => s.as_str().as_bytes().len() as u64,
            FileContent::Binary { size } => *size,
        }
    }

    /// Returns the number of lines (for text files only).
    #[must_use]
    pub fn line_count(&self) -> (count: Option<usize>)
        ensures
            count == match self.content {
                FileContent::Text(content) => Some(lines_of(content@).len() as usize),
                FileContent::Binary { .. } => None,
            },
            self.content matches FileContent::Text(content) ==> lines_of(content@).len()
                <= usize::MAX,
    {
        match &self.content {
            FileContent::Text(s) => {
                let lines = split_lines(s.as_str());
                assert(crate::text::texts(lines@).len() == lines@.len());
                Some(lines.len())
            },
            FileContent::Binary { .. } => None,
        }
    }
}

/// Whether `extension` is one that binary files carry.
pub open spec fn is_binary_extension(extension: Seq<char>) -> bool {
    ||| extension == "exe"@
    ||| extension == "dll"@
    ||| extension == "so"@
    ||| extension == "dylib"@
    ||| extension == "a"@
    ||| extension == "o"@
    ||| extension == "obj"@
    ||| extension == "png"@
    ||| extension == "jpg"@
    ||| extension == "jpeg"@
    ||| extension == "gif"@
    ||| extension == "bmp"@
    ||| extension == "ico"@
    ||| extension == "webp"@
    ||| extension == "mp3"@
    ||| extension == "mp4"@
    ||| extension == "avi"@
    ||| extension == "mkv"@
    ||| extension == "mov"@
    ||| extension == "wav"@
    ||| extension == "flac"@
    ||| extension == "pdf"@
    ||| extension == "doc"@
    ||| extension == "docx"@
    ||| extension == "xls"@
    ||| extension == "xlsx"@
    ||| extension == "ppt"@
    ||| extension == "pptx"@
    ||| extension == "zip"@
    ||| extension == "tar"@
    ||| extension == "gz"@
    ||| extension == "bz2"@
    ||| extension == "xz"@
    ||| extension == "7z"@
    ||| extension == "rar"@
    ||| extension == "wasm"@
    ||| extension == "pyc"@
    ||| extension == "class"@
}

/// Whether `extension` is one that text files carry.
pub open spec fn is_text_extension(extension: Seq<char>) -> bool {
    ||| extension == "rs"@
    ||| extension == "toml"@
    ||| extension == "md"@
    ||| extension == "txt"@
    ||| extension == "json"@
    ||| extension == "yaml"@
    ||| extension == "yml"@
    ||| extension == "js"@
    ||| extension == "ts"@
    ||| extension == "jsx"@
    ||| extension == "tsx"@
    ||| extension == "py"@
    ||| extension == "go"@
    ||| extension == "java"@
    ||| extension == "c"@
    ||| extension == "cpp"@
    ||| extension == "h"@
    ||| extension == "hpp"@
    ||| extension == "cs"@
    ||| extension == "rb"@
    ||| extension == "php"@
    ||| extension == "html"@
    ||| extension == "css"@
    ||| extension == "scss"@
    ||| extension == "sass"@
    ||| extension == "xml"@
    ||| extension == "svg"@
    ||| extension == "sh"@
    ||| extension == "bash"@
    ||| extension == "zsh"@
    ||| extension == "fish"@
    ||| extension == "vim"@
    ||| extension == "lua"@
}

/// Whether `extension` names a binary format.
pub fn binary_extension(extension: &str) -> (binary: bool)
    ensures
        binary == is_binary_extension(extension@),
{
    text_eq(extension, "exe") || text_eq(extension, "dll") || text_eq(extension, "so") || text_eq(
        extension,
        "dylib",
    ) || text_eq(extension, "a") || text_eq(extension, "o") || text_eq(extension, "obj") || text_eq(
        extension,
        "png",
    ) || text_eq(extension, "jpg") || text_eq(extension, "jpeg") || text_eq(extension, "gif")
        || text_eq(extension, "bmp") || text_eq(extension, "ico") || text_eq(extension, "webp")
        || text_eq(extension, "mp3") || text_eq(extension, "mp4") || text_eq(extension, "avi")
        || text_eq(extension, "mkv") || text_eq(extension, "mov") || text_eq(extension, "wav")
        || text_eq(extension, "flac") || text_eq(extension, "pdf") || text_eq(extension, "doc")
        || text_eq(extension, "docx") || text_eq(extension, "xls") || text_eq(extension, "xlsx")
        || text_eq(extension, "ppt") || text_eq(extension, "pptx") || text_eq(extension, "zip")
        || text_eq(extension, "tar") || text_eq(extension, "gz") || text_eq(extension, "bz2")
        || text_eq(extension, "xz") || text_eq(extension, "7z") || text_eq(extension, "rar")
        || text_eq(extension, "wasm") || text_eq(extension, "pyc") || text_eq(extension, "class")
}

/// Whether `extension` names a text format.
pub fn text_extension(extension: &str) -> (text: bool)
    ensures
        text == is_text_extension(extension@),
{
    text_eq(extension, "rs") || text_eq(extension, "toml") || text_eq(extension, "md") || text_eq(
        extension,
        "txt",
    ) || text_eq(extension, "json") || text_eq(extension, "yaml") || text_eq(extension, "yml")
        || text_eq(extension, "js") || text_eq(extension, "ts") || text_eq(extension, "jsx")
        || text_eq(extension, "tsx") || text_eq(extension, "py") || text_eq(extension, "go")
        || text_eq(extension, "java") || text_eq(extension, "c") || text_eq(extension, "cpp")
        || text_eq(extension, "h") || text_eq(extension, "hpp") || text_eq(extension, "cs")
        || text_eq(extension, "rb") || text_eq(extension, "php") || text_eq(extension, "html")
        || text_eq(extension, "css") || text_eq(extension, "scss") || text_eq(extension, "sass")
        || text_eq(extension, "xml") || text_eq(extension, "svg") || text_eq(extension, "sh")
        || text_eq(extension, "bash") || text_eq(extension, "zsh") || text_eq(extension, "fish")
        || text_eq(extension, "vim") || text_eq(extension, "lua")
}

/// Checks if a file extension suggests a text file.
#[must_use]
pub fn has_text_extension(path: &Path) -> (text: bool)
    ensures
        text == match path_extension(path) {
            Some(extension) => is_text_extension(extension),
            None => false,
        },
{
    match extension_of(path) {
        Some(extension) => text_extension(extension.as_str()),
        None => false,
    }
}

/// Checks if a file extension suggests a binary file.
#[must_use]
pub fn has_binary_extension(path: &Path) -> (binary: bool)
    ensures
        binary == match path_extension(path) {
            Some(extension) => is_binary_extension(extension),
            None => false,
        },
{
    match extension_of(path) {
        Some(extension) => binary_extension(extension.as_str()),
        None => false,
    }
}

/// Number of bytes of `sample` below 128.
pub open spec fn ascii_count(sample: Seq<u8>) -> nat
    decreases sample.len(),
{
    if sample.len() == 0 {
        0
    } else {
        ascii_count(sample.drop_last()) + if sample.last() < 128 {
            1nat
        } else {
            0nat
        }
    }
}

/// Whether a sample from the start of a file looks binary: it holds a zero
/// byte, or fewer than 85 in 100 of its bytes are ASCII. An empty sample
/// does not.
pub open spec fn looks_binary(sample: Seq<u8>) -> bool {
    sample.len() > 0 && (sample.contains(0u8) || 100 * ascii_count(sample) < 85 * sample.len())
}

/// Calls `memchr::memchr`: the index of the first `needle` in `haystack`,
/// or `None` when no byte of it is `needle`.
#[verifier::external_body]
pub(crate) fn find_byte(needle: u8, haystack: &[u8]) -> (found: Option<usize>)
    ensures
        match found {
            Some(i) => {
                &&& i < haystack@.len()
                &&& haystack@[i as int] == needle
                &&& forall|j: int| 0 <= j < i ==> haystack@[j] != needle
            },
            None => forall|j: int| 0 <= j < haystack@.len() ==> haystack@[j] != needle,
        },
{
    memchr::memchr(needle, haystack)
}

/// Determines if a file is likely binary from a sample of its first bytes.
pub fn sample_is_binary(sample: &[u8]) -> (binary: bool)
    ensures
        binary == looks_binary(sample@),
{
    let len = sample.len();
    if len == 0 {
        return false;
    }
    if find_byte(0, sample).is_some() {
        return true;
    }
    let mut ascii: usize = 0;
    let mut i: usize = 0;
    while i < len
        invariant
            i <= len,
            len == sample@.len(),
            ascii == ascii_count(sample@.take(i as int)),
            ascii <= i,
        decreases len - i,
    {
        proof {
            assert(sample@.take(i + 1).drop_last() == sample@.take(i as int));
        }
        if sample[i] < 128 {
            ascii = ascii + 1;
        }
        i = i + 1;
    }
    proof {
        assert(sample@.take(len as int) == sample@);
    }
    (ascii as u128) * 100 < (len as u128) * 85
}

} // verus!
