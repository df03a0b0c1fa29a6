//! Code filtering and preprocessing module.
//!
//! Provides functionality to strip tests, comments, and documentation
//! from source code before generating prompts.

use vstd::prelude::*;
use std::path::Path;
use vstd::string::StrSliceExecFns;
use crate::file::extension_of;
use crate::file::path_extension;
use crate::text::chars_of;
use crate::text::contains;
use crate::text::contains_char;
use crate::text::count_char;
use crate::text::count_of;
use crate::text::ends_with;
use crate::text::has_substring;
use crate::text::indent_of;
use crate::text::indent_width;
use crate::text::join_lines;
use crate::text::join_range;
use crate::text::lines_of;
use crate::text::split_lines;
use crate::text::starts_with;
use crate::text::string_of;
use crate::text::text_eq;
use crate::text::texts;
use crate::text::trim;
use crate::text::trim_end;
use crate::text::trim_end_slice;
use crate::text::trim_slice;

verus! {

/// Configuration for file filtering with glob patterns.
///
/// Allows selective file and directory inclusion/exclusion during repository scanning.
#[derive(Debug, Clone)]
pub struct FileFilterConfig {
    /// Patterns of files to leave out.
    pub exclude_files: Vec<String>,
    /// Patterns of the only files to take; all files where it is empty.
    pub exclude_all_files_except: Vec<String>,
    /// Patterns of directories to leave out, with all below them.
    pub exclude_directories: Vec<String>,
}

impl Default for FileFilterConfig {
    fn default() -> (config: Self)
        ensures
            config.exclude_files@.len() == 0,
            config.exclude_all_files_except@.len() == 0,
            config.exclude_directories@.len() == 0,
    {
        Self {
            exclude_files: Vec::new(),
            exclude_all_files_except: Vec::new(),
            exclude_directories: Vec::new(),
        }
    }
}

impl FileFilterConfig {
    /// Creates a configuration that leaves nothing out.
    pub fn new() -> (config: Self)
        ensures
            config.exclude_files@.len() == 0,
            config.exclude_all_files_except@.len() == 0,
            config.exclude_directories@.len() == 0,
    {
        Self {
            exclude_files: Vec::new(),
            exclude_all_files_except: Vec::new(),
            exclude_directories: Vec::new(),
        }
    }

    /// Sets the patterns of files to leave out.
    pub fn exclude_files(self, paths: Vec<String>) -> (config: Self)
        ensures
            config == (FileFilterConfig { exclude_files: paths, ..self }),
    {
        let mut config = self;
        config.exclude_files = paths;
        config
    }

    /// Sets the patterns of directories to leave out.
    pub fn exclude_directories(self, paths: Vec<String>) -> (config: Self)
        ensures
            config == (FileFilterConfig { exclude_directories: paths, ..self }),
    {
        let mut config = self;
        config.exclude_directories = paths;
        config
    }

    /// Sets the patterns of the only files to take.
    pub fn allow_only(self, paths: Vec<String>) -> (config: Self)
        ensures
            config == (FileFilterConfig { exclude_all_files_except: paths, ..self }),
    {
        let mut config = self;
        config.exclude_all_files_except = paths;
        config
    }
}

/// Configuration for code filtering operations.
#[derive(Debug, Clone, Copy)]
pub struct FilterConfig {
    /// Remove test code (e.g., #[test], #[cfg(test)])
    pub remove_tests: bool,
    /// Remove documentation comments (///, /** */)
    pub remove_doc_comments: bool,
    /// Remove regular comments (//, /* */)
    pub remove_comments: bool,
    /// Remove blank lines after filtering
    pub remove_blank_lines: bool,
    /// Preserve copyright/license headers
    pub preserve_headers: bool,
    /// Remove debug print statements (println!, dbg!, etc.)
    pub remove_debug_prints: bool,
}

impl Default for FilterConfig {
    fn default() -> (config: Self)
        ensures
            config == (FilterConfig {
                remove_tests: true,
                remove_doc_comments: false,
                remove_comments: false,
                remove_blank_lines: true,
                preserve_headers: true,
                remove_debug_prints: false,
            }),
    {
        Self {
            remove_tests: true,
            remove_doc_comments: false,
            remove_comments: false,
            remove_blank_lines: true,
            preserve_headers: true,
            remove_debug_prints: false,
        }
    }
}

impl FilterConfig {
    /// Creates a configuration that removes everything except code.
    #[must_use]
    pub fn minimal() -> (config: Self)
        ensures
            config == (FilterConfig {
                remove_tests: true,
                remove_doc_comments: true,
                remove_comments: true,
                remove_blank_lines: true,
                preserve_headers: false,
                remove_debug_prints: true,
            }),
    {
        Self {
            remove_tests: true,
            remove_doc_comments: true,
            remove_comments: true,
            remove_blank_lines: true,
            preserve_headers: false,
            remove_debug_prints: true,
        }
    }

    /// Creates a configuration that keeps documentation.
    #[must_use]
    pub fn preserve_docs() -> (config: Self)
        ensures
            config == (FilterConfig {
                remove_tests: true,
                remove_doc_comments: false,
                remove_comments: true,
                remove_blank_lines: true,
                preserve_headers: true,
                remove_debug_prints: false,
            }),
    {
        Self {
            remove_tests: true,
            remove_doc_comments: false,
            remove_comments: true,
            remove_blank_lines: true,
            preserve_headers: true,
            remove_debug_prints: false,
        }
    }

    /// Creates a configuration for production-ready code.
    #[must_use]
    pub fn production() -> (config: Self)
        ensures
            config == (FilterConfig {
                remove_tests: true,
                remove_doc_comments: false,
                remove_comments: false,
                remove_blank_lines: true,
                preserve_headers: true,
                remove_debug_prints: true,
            }),
    {
        Self {
            remove_tests: true,
            remove_doc_comments: false,
            remove_comments: false,
            remove_blank_lines: true,
            preserve_headers: true,
            remove_debug_prints: true,
        }
    }
}

/// The state of the scan for a line comment: whether the scan is inside a
/// string literal, and whether the character before escaped the next one.
pub struct ScanState {
    pub in_string: bool,
    pub escape_next: bool,
}

/// The position from `i` on at which a line comment starts: two slashes
/// outside a string literal. `line.len()` when there is none.
pub open spec fn comment_start_from(line: Seq<char>, i: int, state: ScanState) -> int
    decreases line.len() - i,
{
    if i < 0 || i >= line.len() {
        line.len() as int
    } else if state.escape_next {
        comment_start_from(line, i + 1, ScanState { in_string: state.in_string, escape_next: false })
    } else if line[i] == '\\' && state.in_string {
        comment_start_from(line, i + 1, ScanState { in_string: true, escape_next: true })
    } else if line[i] == '"' {
        comment_start_from(
            line,
            i + 1,
            ScanState { in_string: !state.in_string, escape_next: false },
        )
    } else if line[i] == '/' && !state.in_string && i + 1 < line.len() && line[i + 1] == '/' {
        i
    } else {
        comment_start_from(line, i + 1, state)
    }
}

/// The position at which a line comment starts in `line`, or `line.len()`.
pub open spec fn comment_start(line: Seq<char>) -> int {
    comment_start_from(line, 0, ScanState { in_string: false, escape_next: false })
}

/// `line` without its line comment and the whitespace before it; `line`
/// itself where it has no line comment.
pub open spec fn without_line_comment(line: Seq<char>) -> Seq<char> {
    let at = comment_start(line);
    if 0 <= at < line.len() {
        trim_end(line.take(at))
    } else {
        line
    }
}

/// Computes [`comment_start`].
pub fn find_comment_start(line: &[char]) -> (at: usize)
    ensures
        at == comment_start(line@),
        at <= line@.len(),
{
    let mut in_string = false;
    let mut escape_next = false;
    let mut i: usize = 0;
    while i < line.len()
        invariant
            i <= line@.len(),
            comment_start(line@) == comment_start_from(
                line@,
                i as int,
                ScanState { in_string, escape_next },
            ),
        decreases line@.len() - i,
    {
        let c = line[i];
        if escape_next {
            escape_next = false;
        } else if c == '\\' && in_string {
            escape_next = true;
        } else if c == '"' {
            in_string = !in_string;
        } else if c == '/' && !in_string && i + 1 < line.len() && line[i + 1] == '/' {
            return i;
        }
        i = i + 1;
    }
    i
}

/// Removes a line comment from a line while preserving strings.
pub fn strip_comment(line: &[char]) -> (stripped: String)
    ensures
        stripped@ == without_line_comment(line@),
{
    let at = find_comment_start(line);
    if at < line.len() {
        let before = vstd::slice::slice_subrange(line, 0, at);
        string_of(trim_end_slice(before))
    } else {
        string_of(line)
    }
}

/// What becomes of a line, and of the lines found so far, when a filter
/// that is in state `S` reads it: the state afterwards, and the line that
/// is kept, if one is.
pub open spec fn fold_lines<S>(
    step: spec_fn(S, Seq<char>) -> (S, Option<Seq<char>>),
    initial: S,
    lines: Seq<Seq<char>>,
) -> (S, Seq<Seq<char>>)
    decreases lines.len(),
{
    if lines.len() == 0 {
        (initial, Seq::empty())
    } else {
        let (state, kept) = fold_lines(step, initial, lines.drop_last());
        let (next, line) = step(state, lines.last());
        (
            next,
            match line {
                Some(line) => kept.push(line),
                None => kept,
            },
        )
    }
}

/// The number of characters in `lines`.
pub open spec fn total_len(lines: Seq<Seq<char>>) -> nat
    decreases lines.len(),
{
    if lines.len() == 0 {
        0
    } else {
        total_len(lines.drop_last()) + lines.last().len()
    }
}

/// A line in front adds its length to the total.
proof fn lemma_total_len_prepend(first: Seq<char>, rest: Seq<Seq<char>>)
    ensures
        total_len(seq![first] + rest) == first.len() + total_len(rest),
    decreases rest.len(),
{
    if rest.len() == 0 {
        assert(seq![first] + rest == seq![first]);
        assert(seq![first].drop_last() == Seq::<Seq<char>>::empty());
        reveal_with_fuel(total_len, 2);
    } else {
        lemma_total_len_prepend(first, rest.drop_last());
        assert((seq![first] + rest).drop_last() == seq![first] + rest.drop_last());
    }
}

/// The lines of a text hold no more characters than the text.
pub proof fn lemma_lines_within_text(text: Seq<char>)
    ensures
        total_len(lines_of(text)) <= text.len(),
    decreases text.len(),
{
    if text.len() > 0 {
        crate::text::lemma_first_newline_bounds(text);
        let i = crate::text::first_newline(text);
        if 0 <= i < text.len() {
            let line = crate::text::strip_cr(text.take(i));
            lemma_lines_within_text(text.skip(i + 1));
            lemma_total_len_prepend(line, lines_of(text.skip(i + 1)));
        } else {
            assert(seq![text].drop_last() == Seq::<Seq<char>>::empty());
            reveal_with_fuel(total_len, 2);
        }
    }
}

/// The first lines hold no more characters than all, and each line adds its length.
proof fn lemma_total_len_take(lines: Seq<Seq<char>>, i: int)
    requires
        0 <= i <= lines.len(),
    ensures
        total_len(lines.take(i)) <= total_len(lines),
        i < lines.len() ==> total_len(lines.take(i + 1)) == total_len(lines.take(i))
            + lines[i].len(),
    decreases lines.len() - i,
{
    if i < lines.len() {
        assert(lines.take(i + 1).drop_last() == lines.take(i));
        lemma_total_len_take(lines, i + 1);
    } else {
        assert(lines.take(i) == lines);
    }
}

/// Trait for language-specific code filters.
pub trait LanguageFilter {
    /// What [`LanguageFilter::filter`] makes of `content`.
    spec fn filtered(&self, content: Seq<char>) -> Seq<char>;

    /// Whether `line` is a comment line in this language.
    spec fn comment_line(&self, line: Seq<char>) -> bool;

    /// Whether `line` starts a documentation comment in this language.
    spec fn doc_comment(&self, line: Seq<char>) -> bool;

    /// The configuration that this filter works by.
    spec fn configuration(&self) -> FilterConfig;

    /// Returns the filter configuration.
    fn config(&self) -> (config: &FilterConfig)
        ensures
            *config == self.configuration(),
    ;

    /// Filters the content according to language rules.
    fn filter(&self, content: &str) -> (result: String)
        ensures
            result@ == self.filtered(content@),
    ;

    /// Checks if a line is a comment.
    fn is_comment_line(&self, line: &[char]) -> (comment: bool)
        ensures
            comment == self.comment_line(line@),
    ;

    /// Checks if a line is a doc comment.
    fn is_doc_comment(&self, line: &[char]) -> (doc: bool)
        ensures
            doc == self.doc_comment(line@),
    ;

    /// Removes comments from a line while preserving strings.
    fn strip_line_comment(&self, line: &[char], _comment_start: &str) -> (stripped: String)
        ensures
            stripped@ == without_line_comment(line@),
    {
        strip_comment(line)
    }
}

/// Whether a block comment opens at the start of `trimmed`, and as what.
pub open spec fn opens_block_comment(trimmed: Seq<char>) -> bool {
    "/*"@.is_prefix_of(trimmed)
}

/// Whether a block comment closes at the end of `trimmed`.
pub open spec fn closes_block_comment(trimmed: Seq<char>) -> bool {
    "*/"@.is_suffix_of(trimmed)
}

/// Whether `line` begins a test in Rust.
pub open spec fn rust_test_start(line: Seq<char>) -> bool {
    let trimmed = trim(line);
    ||| "#[test]"@.is_prefix_of(trimmed)
    ||| "#[cfg(test)]"@.is_prefix_of(trimmed)
    ||| "#[tokio::test]"@.is_prefix_of(trimmed)
    ||| "#[async_test]"@.is_prefix_of(trimmed)
}

/// Whether `line` holds an attribute that belongs to a test in Rust.
pub open spec fn rust_test_attribute(line: Seq<char>) -> bool {
    let trimmed = trim(line);
    ||| has_substring(trimmed, "#[test"@)
    ||| has_substring(trimmed, "#[cfg(test"@)
    ||| has_substring(trimmed, "#[should_panic"@)
    ||| has_substring(trimmed, "#[ignore"@)
}

/// Whether `line` holds a debug print macro of Rust.
pub open spec fn rust_debug_print(line: Seq<char>) -> bool {
    let trimmed = trim(line);
    ||| "println!"@.is_prefix_of(trimmed)
    ||| "eprintln!"@.is_prefix_of(trimmed)
    ||| "dbg!"@.is_prefix_of(trimmed)
    ||| "print!"@.is_prefix_of(trimmed)
    ||| "eprint!"@.is_prefix_of(trimmed)
    ||| has_substring(trimmed, "println!("@)
    ||| has_substring(trimmed, "eprintln!("@)
    ||| has_substring(trimmed, "dbg!("@)
}

/// What is left of `line` once debug prints are removed, and whether a
/// print that the line opens goes on in the lines that follow.
pub open spec fn rust_without_debug_prints(config: FilterConfig, line: Seq<char>) -> (
    Seq<char>,
    bool,
) {
    if !config.remove_debug_prints {
        (line, false)
    } else if rust_debug_print(trim(line)) {
        (Seq::empty(), count_of(line, '(') > count_of(line, ')'))
    } else {
        (line, false)
    }
}

/// The brace depth and whether a test block is still open after the
/// characters `chars`: an opening brace adds one to the depth, a closing
/// brace takes one off and ends the block where the depth is then zero or
/// less.
pub open spec fn after_braces(chars: Seq<char>, depth: int, in_test_block: bool) -> (int, bool)
    decreases chars.len(),
{
    if chars.len() == 0 {
        (depth, in_test_block)
    } else {
        let (depth, in_test_block) = after_braces(chars.drop_last(), depth, in_test_block);
        if chars.last() == '{' {
            (depth + 1, in_test_block)
        } else if chars.last() == '}' {
            (depth - 1, in_test_block && depth - 1 > 0)
        } else {
            (depth, in_test_block)
        }
    }
}

/// What the Rust filter remembers from line to line.
pub struct RustState {
    pub in_test_block: bool,
    pub in_block_comment: bool,
    pub in_doc_comment: bool,
    pub in_multiline_print: bool,
    pub brace_depth: int,
}

/// What the Rust filter remembers from line to line, as it runs.
pub struct RustScan {
    pub in_test_block: bool,
    pub in_block_comment: bool,
    pub in_doc_comment: bool,
    pub in_multiline_print: bool,
    pub brace_depth: i128,
}

impl View for RustScan {
    type V = RustState;

    open spec fn view(&self) -> RustState {
        RustState {
            in_test_block: self.in_test_block,
            in_block_comment: self.in_block_comment,
            in_doc_comment: self.in_doc_comment,
            in_multiline_print: self.in_multiline_print,
            brace_depth: self.brace_depth as int,
        }
    }
}

/// The state in which the Rust filter starts.
pub open spec fn rust_initial() -> RustState {
    RustState {
        in_test_block: false,
        in_block_comment: false,
        in_doc_comment: false,
        in_multiline_print: false,
        brace_depth: 0,
    }
}

/// One line through the Rust filter. In this order: a line inside a print
/// that spans lines is dropped, and ends the print where it closes more
/// brackets than it opens; a line of a block comment is dropped or kept
/// as the configuration says for its kind; documentation and comment
/// lines are dropped where configured; a test attribute opens a test
/// block, whose lines are dropped until its braces close; a debug print
/// is dropped; a line comment is cut off; a blank line is dropped where
/// configured.
pub open spec fn rust_step(config: FilterConfig, state: RustState, line: Seq<char>) -> (
    RustState,
    Option<Seq<char>>,
) {
    let trimmed = trim(line);
    if state.in_multiline_print {
        (
            RustState {
                in_multiline_print: !(count_of(line, ')') > count_of(line, '(')),
                ..state
            },
            None,
        )
    } else {
        let opens = opens_block_comment(trimmed);
        let in_block_comment = state.in_block_comment || opens;
        let in_doc_comment = if opens {
            "/**"@.is_prefix_of(trimmed) || "/*!"@.is_prefix_of(trimmed)
        } else {
            state.in_doc_comment
        };
        if in_block_comment {
            let closes = closes_block_comment(trimmed);
            let still_doc = in_doc_comment && !closes;
            let skip = if still_doc {
                config.remove_doc_comments
            } else {
                config.remove_comments
            };
            (
                RustState { in_block_comment: !closes, in_doc_comment: still_doc, ..state },
                if skip {
                    None
                } else {
                    Some(line)
                },
            )
        } else {
            let state = RustState { in_block_comment, in_doc_comment, ..state };
            if config.remove_doc_comments && rust_doc_comment(line) {
                (state, None)
            } else if config.remove_comments && rust_comment_line(line) {
                (state, None)
            } else if config.remove_tests && (rust_test_start(line) || rust_test_attribute(line)) {
                (RustState { in_test_block: true, ..state }, None)
            } else if config.remove_tests && state.in_test_block {
                let (depth, open) = after_braces(trimmed, state.brace_depth, true);
                (RustState { in_test_block: open, brace_depth: depth, ..state }, None)
            } else {
                let (processed, multiline) = rust_without_debug_prints(config, line);
                if multiline {
                    (RustState { in_multiline_print: true, ..state }, None)
                } else {
                    let last = if config.remove_comments && processed.len() > 0 {
                        without_line_comment(processed)
                    } else {
                        processed
                    };
                    if config.remove_blank_lines && trim(last).len() == 0 {
                        (state, None)
                    } else {
                        (state, Some(last))
                    }
                }
            }
        }
    }
}

/// Whether `line` is a comment line of Rust that is not documentation.
pub open spec fn rust_comment_line(line: Seq<char>) -> bool {
    let trimmed = trim(line);
    "//"@.is_prefix_of(trimmed) && !"///"@.is_prefix_of(trimmed)
}

/// Whether `line` is a documentation comment line of Rust.
pub open spec fn rust_doc_comment(line: Seq<char>) -> bool {
    let trimmed = trim(line);
    "///"@.is_prefix_of(trimmed) || "//!"@.is_prefix_of(trimmed)
}

/// What the Rust filter makes of `content`.
pub open spec fn rust_filtered(config: FilterConfig, content: Seq<char>) -> Seq<char> {
    join_lines(
        fold_lines(
            |state: RustState, line: Seq<char>| rust_step(config, state, line),
            rust_initial(),
            lines_of(content),
        ).1,
    )
}

/// Rust-specific code filter.
pub struct RustFilter<'a> {
    pub config: &'a FilterConfig,
}

impl<'a> RustFilter<'a> {
    /// Creates the filter for a configuration.
    pub fn new(config: &'a FilterConfig) -> (filter: Self)
        ensures
            filter.config == config,
    {
        Self { config }
    }

    /// Checks if we're entering a test module or function.
    pub fn is_test_start(&self, line: &[char]) -> (test: bool)
        ensures
            test == rust_test_start(line@),
    {
        let trimmed = trim_slice(line);
        starts_with(trimmed, "#[test]") || starts_with(trimmed, "#[cfg(test)]") || starts_with(
            trimmed,
            "#[tokio::test]",
        ) || starts_with(trimmed, "#[async_test]")
    }

    /// Checks if a line contains test-related attributes.
    pub fn has_test_attribute(&self, line: &[char]) -> (test: bool)
        ensures
            test == rust_test_attribute(line@),
    {
        let trimmed = trim_slice(line);
        contains(trimmed, "#[test") || contains(trimmed, "#[cfg(test") || contains(
            trimmed,
            "#[should_panic",
        ) || contains(trimmed, "#[ignore")
    }

    /// Checks if a line contains a debug print macro.
    pub fn is_debug_print(&self, line: &[char]) -> (print: bool)
        ensures
            print == rust_debug_print(line@),
    {
        let trimmed = trim_slice(line);
        starts_with(trimmed, "println!") || starts_with(trimmed, "eprintln!") || starts_with(
            trimmed,
            "dbg!",
        ) || starts_with(trimmed, "print!") || starts_with(trimmed, "eprint!") || contains(
            trimmed,
            "println!(",
        ) || contains(trimmed, "eprintln!(") || contains(trimmed, "dbg!(")
    }

    /// Removes debug print statements from a line.
    /// Returns (processed_line, is_multiline_print)
    pub fn strip_debug_prints(&self, line: &[char]) -> (result: (String, bool))
        ensures
            (result.0@, result.1) == rust_without_debug_prints(*self.config, line@),
    {
        if !self.config.remove_debug_prints {
            return (string_of(line), false);
        }
        let trimmed = trim_slice(line);
        if self.is_debug_print(trimmed) {
            let open_count = count_char(line, '(');
            let close_count = count_char(line, ')');
            if open_count > close_count {
                return (String::new(), true);
            } else {
                return (String::new(), false);
            }
        }
        (string_of(line), false)
    }

    /// Follows the braces of one line of a test block.
    pub fn track_braces(&self, chars: &[char], state: &mut RustScan)
        requires
            -0x1_0000_0000_0000_0000 <= old(state).brace_depth - chars@.len(),
            old(state).brace_depth + chars@.len() <= 0x1_0000_0000_0000_0000,
            old(state).in_test_block,
        ensures
            (final(state).brace_depth as int, final(state).in_test_block) == after_braces(
                chars@,
                old(state).brace_depth as int,
                true,
            ),
            final(state).in_block_comment == old(state).in_block_comment,
            final(state).in_doc_comment == old(state).in_doc_comment,
            final(state).in_multiline_print == old(state).in_multiline_print,
            old(state).brace_depth - chars@.len() <= final(state).brace_depth <= old(
                state,
            ).brace_depth + chars@.len(),
    {
        let ghost start = state.brace_depth as int;
        let mut i: usize = 0;
        while i < chars.len()
            invariant
                i <= chars@.len(),
                -0x1_0000_0000_0000_0000 <= start - chars@.len(),
                start + chars@.len() <= 0x1_0000_0000_0000_0000,
                start - i <= state.brace_depth <= start + i,
                (state.brace_depth as int, state.in_test_block) == after_braces(
                    chars@.take(i as int),
                    start,
                    true,
                ),
                state.in_block_comment == old(state).in_block_comment,
                state.in_doc_comment == old(state).in_doc_comment,
                state.in_multiline_print == old(state).in_multiline_print,
            decreases chars@.len() - i,
        {
            proof {
                assert(chars@.take(i + 1).drop_last() == chars@.take(i as int));
            }
            let c = chars[i];
            if c == '{' {
                state.brace_depth = state.brace_depth + 1;
            } else if c == '}' {
                state.brace_depth = state.brace_depth - 1;
                if state.brace_depth <= 0 {
                    state.in_test_block = false;
                }
            }
            i = i + 1;
        }
        proof {
            assert(chars@.take(chars@.len() as int) == chars@);
        }
    }

    /// Takes one line through the filter: the line to keep, if any.
    pub fn step(&self, state: &mut RustScan, line: &[char]) -> (kept: Option<String>)
        requires
            -0x1_0000_0000_0000_0000 <= old(state).brace_depth - line@.len(),
            old(state).brace_depth + line@.len() <= 0x1_0000_0000_0000_0000,
        ensures
            (final(state)@, kept) matches (next, Some(kept)) ==> rust_step(
                *self.config,
                old(state)@,
                line@,
            ) == (next, Some(kept@)),
            (final(state)@, kept) matches (next, None) ==> rust_step(
                *self.config,
                old(state)@,
                line@,
            ) == (next, None::<Seq<char>>),
            old(state).brace_depth - line@.len() <= final(state).brace_depth <= old(
                state,
            ).brace_depth + line@.len(),
    {
        let trimmed = trim_slice(line);
        if state.in_multiline_print {
            let close_count = count_char(line, ')');
            let open_count = count_char(line, '(');
            if close_count > open_count {
                state.in_multiline_print = false;
            }
            return None;
        }
        if starts_with(trimmed, "/*") {
            state.in_block_comment = true;
            state.in_doc_comment = starts_with(trimmed, "/**") || starts_with(trimmed, "/*!");
        }
        if state.in_block_comment {
            if ends_with(trimmed, "*/") {
                state.in_block_comment = false;
                state.in_doc_comment = false;
            }
            let should_skip = if state.in_doc_comment {
                self.config.remove_doc_comments
            } else {
                self.config.remove_comments
            };
            if !should_skip {
                return Some(string_of(line));
            }
            return None;
        }
        if self.config.remove_doc_comments && self.is_doc_comment(line) {
            return None;
        }
        if self.config.remove_comments && self.is_comment_line(line) {
            return None;
        }
        if self.config.remove_tests {
            if self.is_test_start(line) || self.has_test_attribute(line) {
                state.in_test_block = true;
                return None;
            }
            if state.in_test_block {
                proof {
                    assert(trimmed@.len() <= line@.len());
                }
                self.track_braces(trimmed, state);
                return None;
            }
        }
        let (processed_line, is_multiline) = self.strip_debug_prints(line);
        if is_multiline {
            state.in_multiline_print = true;
            return None;
        }
        let mut final_line = processed_line;
        if self.config.remove_comments && final_line.as_str().unicode_len() > 0 {
            let chars = chars_of(final_line.as_str());
            final_line = self.strip_line_comment(chars.as_slice(), "//");
        }
        let chars = chars_of(final_line.as_str());
        if self.config.remove_blank_lines && trim_slice(chars.as_slice()).len() == 0 {
            return None;
        }
        Some(final_line)
    }
}

impl<'a> LanguageFilter for RustFilter<'a> {
    open spec fn filtered(&self, content: Seq<char>) -> Seq<char> {
        rust_filtered(*self.config, content)
    }

    open spec fn comment_line(&self, line: Seq<char>) -> bool {
        rust_comment_line(line)
    }

    open spec fn doc_comment(&self, line: Seq<char>) -> bool {
        rust_doc_comment(line)
    }

    open spec fn configuration(&self) -> FilterConfig {
        *self.config
    }

    fn config(&self) -> (config: &FilterConfig) {
        self.config
    }

    fn is_comment_line(&self, line: &[char]) -> (comment: bool) {
        let trimmed = trim_slice(line);
        starts_with(trimmed, "//") && !starts_with(trimmed, "///")
    }

    fn is_doc_comment(&self, line: &[char]) -> (doc: bool) {
        let trimmed = trim_slice(line);
        starts_with(trimmed, "///") || starts_with(trimmed, "//!")
    }

    fn filter(&self, content: &str) -> (result: String) {
        let budget = content.unicode_len();
        let lines = split_lines(content);
        let ghost all = lines_of(content@);
        let ghost step = |state: RustState, line: Seq<char>| rust_step(*self.config, state, line);
        let mut kept: Vec<String> = Vec::new();
        let mut state = RustScan {
            in_test_block: false,
            in_block_comment: false,
            in_doc_comment: false,
            in_multiline_print: false,
            brace_depth: 0,
        };
        proof {
            lemma_lines_within_text(content@);
            assert(all.take(0) == Seq::<Seq<char>>::empty());
            assert(texts(kept@) == Seq::<Seq<char>>::empty());
        }
        let mut i: usize = 0;
        while i < lines.len()
            invariant
                i <= lines@.len(),
                texts(lines@) == all,
                all.len() == lines@.len(),
                total_len(all) <= budget,
                step == |state: RustState, line: Seq<char>| rust_step(*self.config, state, line),
                (state@, texts(kept@)) == fold_lines(step, rust_initial(), all.take(i as int)),
                -total_len(all.take(i as int)) <= state.brace_depth <= total_len(
                    all.take(i as int),
                ),
            decreases lines@.len() - i,
        {
            proof {
                lemma_total_len_take(all, i as int);
                lemma_total_len_take(all, i + 1);
                assert(all.take(i + 1).drop_last() == all.take(i as int));
                assert(all[i as int] == lines@[i as int]@);
            }
            let chars = chars_of(lines[i].as_str());
            let ghost before = texts(kept@);
            match self.step(&mut state, chars.as_slice()) {
                Some(line) => {
                    proof {
                        assert(texts(kept@.push(line)) == before.push(line@));
                    }
                    kept.push(line);
                },
                None => {},
            }
            i = i + 1;
        }
        proof {
            assert(all.take(all.len() as int) == all);
            assert(texts(kept@).subrange(0, kept@.len() as int) == texts(kept@));
        }
        join_range(&kept, 0, kept.len())
    }
}

/// Whether `line` defines a test function in Python.
pub open spec fn python_test_function(line: Seq<char>) -> bool {
    let trimmed = trim(line);
    ("def test_"@.is_prefix_of(trimmed) || "async def test_"@.is_prefix_of(trimmed))
        && trimmed.contains('(')
}

/// Whether `line` is a decorator that marks a test in Python.
pub open spec fn python_test_decorator(line: Seq<char>) -> bool {
    let trimmed = trim(line);
    "@pytest"@.is_prefix_of(trimmed) || "@unittest"@.is_prefix_of(trimmed) || trimmed == "@test"@
}

/// Whether `line` is a comment line of Python.
pub open spec fn python_comment_line(line: Seq<char>) -> bool {
    let trimmed = trim(line);
    trimmed.len() > 0 && trimmed[0] == '#'
}

/// Whether `line` starts or ends a docstring of Python.
pub open spec fn python_doc_comment(line: Seq<char>) -> bool {
    let trimmed = trim(line);
    "\"\"\""@.is_prefix_of(trimmed) || "'''"@.is_prefix_of(trimmed)
}

/// What the Python filter remembers from line to line.
pub struct PythonState {
    pub in_docstring: bool,
    pub in_test_function: bool,
    pub test_indent: nat,
}

/// What the Python filter remembers from line to line, as it runs.
pub struct PythonScan {
    pub in_docstring: bool,
    pub in_test_function: bool,
    pub test_indent: u128,
}

impl View for PythonScan {
    type V = PythonState;

    open spec fn view(&self) -> PythonState {
        PythonState {
            in_docstring: self.in_docstring,
            in_test_function: self.in_test_function,
            test_indent: self.test_indent as nat,
        }
    }
}

/// The state in which the Python filter starts.
pub open spec fn python_initial() -> PythonState {
    PythonState { in_docstring: false, in_test_function: false, test_indent: 0 }
}

/// One line through the Python filter. A line that starts with a
/// docstring mark turns the docstring state over; lines of a docstring
/// are dropped or kept as configured. Comment lines are dropped where
/// configured. A test decorator or test function opens a test, whose
/// lines are dropped until a line that is not blank stands no deeper than
/// the line that opened it. Blank lines are dropped where configured.
pub open spec fn python_step(config: FilterConfig, state: PythonState, line: Seq<char>) -> (
    PythonState,
    Option<Seq<char>>,
) {
    let trimmed = trim(line);
    let mark = python_doc_comment(line);
    let in_docstring = if mark {
        !state.in_docstring
    } else {
        state.in_docstring
    };
    let state = PythonState { in_docstring, ..state };
    if mark && config.remove_doc_comments {
        (state, None)
    } else if in_docstring {
        (
            state,
            if config.remove_doc_comments {
                None
            } else {
                Some(line)
            },
        )
    } else if config.remove_comments && python_comment_line(line) {
        (state, None)
    } else if config.remove_tests && (python_test_decorator(line) || python_test_function(line)) {
        (PythonState { in_test_function: true, test_indent: indent_width(line), ..state }, None)
    } else if config.remove_tests && state.in_test_function && !(trimmed.len() > 0
        && indent_width(line) <= state.test_indent) {
        (state, None)
    } else {
        let state = if config.remove_tests {
            PythonState { in_test_function: false, ..state }
        } else {
            state
        };
        if config.remove_blank_lines && trimmed.len() == 0 {
            (state, None)
        } else {
            (state, Some(line))
        }
    }
}

/// What the Python filter makes of `content`.
pub open spec fn python_filtered(config: FilterConfig, content: Seq<char>) -> Seq<char> {
    join_lines(
        fold_lines(
            |state: PythonState, line: Seq<char>| python_step(config, state, line),
            python_initial(),
            lines_of(content),
        ).1,
    )
}

/// Python-specific code filter.
pub struct PythonFilter<'a> {
    pub config: &'a FilterConfig,
}

impl<'a> PythonFilter<'a> {
    /// Creates the filter for a configuration.
    pub fn new(config: &'a FilterConfig) -> (filter: Self)
        ensures
            filter.config == config,
    {
        Self { config }
    }

    /// Checks if a line defines a test function.
    pub fn is_test_function(&self, line: &[char]) -> (test: bool)
        ensures
            test == python_test_function(line@),
    {
        let trimmed = trim_slice(line);
        (starts_with(trimmed, "def test_") || starts_with(trimmed, "async def test_"))
            && contains_char(trimmed, '(')
    }

    /// Checks if a line is a decorator that marks a test.
    pub fn is_test_decorator(&self, line: &[char]) -> (test: bool)
        ensures
            test == python_test_decorator(line@),
    {
        let trimmed = trim_slice(line);
        starts_with(trimmed, "@pytest") || starts_with(trimmed, "@unittest") || text_eq(
            string_of(trimmed).as_str(),
            "@test",
        )
    }

    /// Takes one line through the filter: the line to keep, if any.
    pub fn step(&self, state: &mut PythonScan, line: &[char]) -> (kept: Option<String>)
        ensures
            (final(state)@, kept) matches (next, Some(kept)) ==> python_step(
                *self.config,
                old(state)@,
                line@,
            ) == (next, Some(kept@)),
            (final(state)@, kept) matches (next, None) ==> python_step(
                *self.config,
                old(state)@,
                line@,
            ) == (next, None::<Seq<char>>),
    {
        let trimmed = trim_slice(line);
        if self.is_doc_comment(line) {
            state.in_docstring = !state.in_docstring;
            if self.config.remove_doc_comments {
                return None;
            }
        }
        if state.in_docstring {
            if self.config.remove_doc_comments {
                return None;
            }
            return Some(string_of(line));
        }
        if self.config.remove_comments && self.is_comment_line(line) {
            return None;
        }
        if self.config.remove_tests {
            let current_indent = indent_of(line);
            if self.is_test_decorator(line) {
                state.in_test_function = true;
                state.test_indent = current_indent;
                return None;
            }
            if self.is_test_function(line) {
                state.in_test_function = true;
                state.test_indent = current_indent;
                return None;
            }
            if state.in_test_function {
                if trimmed.len() > 0 && current_indent <= state.test_indent {
                    state.in_test_function = false;
                } else {
                    return None;
                }
            }
        }
        if self.config.remove_blank_lines && trimmed.len() == 0 {
            return None;
        }
        Some(string_of(line))
    }
}

impl<'a> LanguageFilter for PythonFilter<'a> {
    open spec fn filtered(&self, content: Seq<char>) -> Seq<char> {
        python_filtered(*self.config, content)
    }

    open spec fn comment_line(&self, line: Seq<char>) -> bool {
        python_comment_line(line)
    }

    open spec fn doc_comment(&self, line: Seq<char>) -> bool {
        python_doc_comment(line)
    }

    open spec fn configuration(&self) -> FilterConfig {
        *self.config
    }

    fn config(&self) -> (config: &FilterConfig) {
        self.config
    }

    fn is_comment_line(&self, line: &[char]) -> (comment: bool) {
        let trimmed = trim_slice(line);
        trimmed.len() > 0 && trimmed[0] == '#'
    }

    fn is_doc_comment(&self, line: &[char]) -> (doc: bool) {
        let trimmed = trim_slice(line);
        starts_with(trimmed, "\"\"\"") || starts_with(trimmed, "'''")
    }

    fn filter(&self, content: &str) -> (result: String) {
        let lines = split_lines(content);
        let ghost all = lines_of(content@);
        let ghost step = |state: PythonState, line: Seq<char>|
            python_step(*self.config, state, line);
        let mut kept: Vec<String> = Vec::new();
        let mut state = PythonScan { in_docstring: false, in_test_function: false, test_indent: 0 };
        proof {
            assert(all.take(0) == Seq::<Seq<char>>::empty());
            assert(texts(kept@) == Seq::<Seq<char>>::empty());
        }
        let mut i: usize = 0;
        while i < lines.len()
            invariant
                i <= lines@.len(),
                texts(lines@) == all,
                all.len() == lines@.len(),
                step == |state: PythonState, line: Seq<char>|
                    python_step(*self.config, state, line),
                (state@, texts(kept@)) == fold_lines(step, python_initial(), all.take(i as int)),
            decreases lines@.len() - i,
        {
            proof {
                assert(all.take(i + 1).drop_last() == all.take(i as int));
                assert(all[i as int] == lines@[i as int]@);
            }
            let chars = chars_of(lines[i].as_str());
            let ghost before = texts(kept@);
            match self.step(&mut state, chars.as_slice()) {
                Some(line) => {
                    proof {
                        assert(texts(kept@.push(line)) == before.push(line@));
                    }
                    kept.push(line);
                },
                None => {},
            }
            i = i + 1;
        }
        proof {
            assert(all.take(all.len() as int) == all);
            assert(texts(kept@).subrange(0, kept@.len() as int) == texts(kept@));
        }
        join_range(&kept, 0, kept.len())
    }
}

/// What the filters of the languages with C's comments remember of block
/// comments from line to line.
pub struct BlockState {
    pub in_block_comment: bool,
    pub in_doc_comment: bool,
}

/// A line that concerns a block comment: the state after it, and whether
/// the line is dropped. `None` for a line outside any block comment. A
/// block comment opens where the trimmed line starts with its opening
/// mark, as documentation where the mark has a second star, and closes
/// where the trimmed line ends with the closing mark. The line that
/// closes a block is dropped as a plain comment is.
pub open spec fn block_comment_step(
    config: FilterConfig,
    state: BlockState,
    trimmed: Seq<char>,
) -> Option<(BlockState, bool)> {
    let opens = opens_block_comment(trimmed);
    let in_doc_comment = if opens {
        "/**"@.is_prefix_of(trimmed)
    } else {
        state.in_doc_comment
    };
    if state.in_block_comment || opens {
        let closes = closes_block_comment(trimmed);
        let still_doc = in_doc_comment && !closes;
        Some(
            (
                BlockState { in_block_comment: !closes, in_doc_comment: still_doc },
                if still_doc {
                    config.remove_doc_comments
                } else {
                    config.remove_comments
                },
            ),
        )
    } else {
        None
    }
}

/// Computes [`block_comment_step`], and moves `state` on where the line
/// concerns a block comment.
pub fn block_comment_line(config: &FilterConfig, state: &mut BlockState, trimmed: &[char]) -> (skip:
    Option<bool>)
    ensures
        match block_comment_step(*config, *old(state), trimmed@) {
            Some((next, dropped)) => *final(state) == next && skip == Some(dropped),
            None => *final(state) == *old(state) && skip is None,
        },
{
    if starts_with(trimmed, "/*") {
        state.in_block_comment = true;
        state.in_doc_comment = starts_with(trimmed, "/**");
    }
    if state.in_block_comment {
        if ends_with(trimmed, "*/") {
            state.in_block_comment = false;
            state.in_doc_comment = false;
        }
        let should_skip = if state.in_doc_comment {
            config.remove_doc_comments
        } else {
            config.remove_comments
        };
        Some(should_skip)
    } else {
        None
    }
}

/// Whether the trimmed `line` starts with two slashes.
pub open spec fn slash_comment_line(line: Seq<char>) -> bool {
    "//"@.is_prefix_of(trim(line))
}

/// Whether `line` starts a documentation comment of JavaScript.
pub open spec fn javascript_doc_comment(line: Seq<char>) -> bool {
    let trimmed = trim(line);
    "/**"@.is_prefix_of(trimmed) || "///"@.is_prefix_of(trimmed)
}

/// Whether `line` opens a test block of JavaScript.
pub open spec fn javascript_test_block(line: Seq<char>) -> bool {
    let trimmed = trim(line);
    ||| "describe("@.is_prefix_of(trimmed)
    ||| "it("@.is_prefix_of(trimmed)
    ||| "test("@.is_prefix_of(trimmed)
    ||| "expect("@.is_prefix_of(trimmed)
}

/// The state in which the filters of block comments start.
pub open spec fn block_initial() -> BlockState {
    BlockState { in_block_comment: false, in_doc_comment: false }
}

/// One line through the JavaScript filter: block comments first; then
/// comment lines, documentation lines and blank lines are dropped where
/// configured, and a line comment is cut off where comments are removed.
pub open spec fn javascript_step(config: FilterConfig, state: BlockState, line: Seq<char>) -> (
    BlockState,
    Option<Seq<char>>,
) {
    let trimmed = trim(line);
    match block_comment_step(config, state, trimmed) {
        Some((next, dropped)) => (
            next,
            if dropped {
                None
            } else {
                Some(line)
            },
        ),
        None => {
            if config.remove_comments && slash_comment_line(line) {
                (state, None)
            } else if config.remove_doc_comments && javascript_doc_comment(line) {
                (state, None)
            } else if config.remove_blank_lines && trimmed.len() == 0 {
                (state, None)
            } else if config.remove_comments {
                (state, Some(without_line_comment(line)))
            } else {
                (state, Some(line))
            }
        },
    }
}

/// What the JavaScript filter makes of `content`.
pub open spec fn javascript_filtered(config: FilterConfig, content: Seq<char>) -> Seq<char> {
    join_lines(
        fold_lines(
            |state: BlockState, line: Seq<char>| javascript_step(config, state, line),
            block_initial(),
            lines_of(content),
        ).1,
    )
}

/// JavaScript/TypeScript code filter.
pub struct JavaScriptFilter<'a> {
    pub config: &'a FilterConfig,
}

impl<'a> JavaScriptFilter<'a> {
    /// Creates the filter for a configuration.
    pub fn new(config: &'a FilterConfig) -> (filter: Self)
        ensures
            filter.config == config,
    {
        Self { config }
    }

    /// Checks if a line opens a test block.
    pub fn is_test_block(&self, line: &[char]) -> (test: bool)
        ensures
            test == javascript_test_block(line@),
    {
        let trimmed = trim_slice(line);
        starts_with(trimmed, "describe(") || starts_with(trimmed, "it(") || starts_with(
            trimmed,
            "test(",
        ) || starts_with(trimmed, "expect(")
    }

    /// Takes one line through the filter: the line to keep, if any.
    pub fn step(&self, state: &mut BlockState, line: &[char]) -> (kept: Option<String>)
        ensures
            (*final(state), kept) matches (next, Some(kept)) ==> javascript_step(
                *self.config,
                *old(state),
                line@,
            ) == (next, Some(kept@)),
            (*final(state), kept) matches (next, None) ==> javascript_step(
                *self.config,
                *old(state),
                line@,
            ) == (next, None::<Seq<char>>),
    {
        let trimmed = trim_slice(line);
        match block_comment_line(self.config, state, trimmed) {
            Some(should_skip) => {
                if !should_skip {
                    return Some(string_of(line));
                }
                return None;
            },
            None => {},
        }
        if self.config.remove_comments && self.is_comment_line(line) {
            return None;
        }
        if self.config.remove_doc_comments && self.is_doc_comment(line) {
            return None;
        }
        if self.config.remove_blank_lines && trimmed.len() == 0 {
            return None;
        }
        if self.config.remove_comments {
            Some(self.strip_line_comment(line, "//"))
        } else {
            Some(string_of(line))
        }
    }
}

impl<'a> LanguageFilter for JavaScriptFilter<'a> {
    open spec fn filtered(&self, content: Seq<char>) -> Seq<char> {
        javascript_filtered(*self.config, content)
    }

    open spec fn comment_line(&self, line: Seq<char>) -> bool {
        slash_comment_line(line)
    }

    open spec fn doc_comment(&self, line: Seq<char>) -> bool {
        javascript_doc_comment(line)
    }

    open spec fn configuration(&self) -> FilterConfig {
        *self.config
    }

    fn config(&self) -> (config: &FilterConfig) {
        self.config
    }

    fn is_comment_line(&self, line: &[char]) -> (comment: bool) {
        starts_with(trim_slice(line), "//")
    }

    fn is_doc_comment(&self, line: &[char]) -> (doc: bool) {
        let trimmed = trim_slice(line);
        starts_with(trimmed, "/**") || starts_with(trimmed, "///")
    }

    fn filter(&self, content: &str) -> (result: String) {
        let lines = split_lines(content);
        let ghost all = lines_of(content@);
        let ghost step = |state: BlockState, line: Seq<char>|
            javascript_step(*self.config, state, line);
        let mut kept: Vec<String> = Vec::new();
        let mut state = BlockState { in_block_comment: false, in_doc_comment: false };
        proof {
            assert(all.take(0) == Seq::<Seq<char>>::empty());
            assert(texts(kept@) == Seq::<Seq<char>>::empty());
        }
        let mut i: usize = 0;
        while i < lines.len()
            invariant
                i <= lines@.len(),
                texts(lines@) == all,
                all.len() == lines@.len(),
                step == |state: BlockState, line: Seq<char>|
                    javascript_step(*self.config, state, line),
                (state, texts(kept@)) == fold_lines(step, block_initial(), all.take(i as int)),
            decreases lines@.len() - i,
        {
            proof {
                assert(all.take(i + 1).drop_last() == all.take(i as int));
                assert(all[i as int] == lines@[i as int]@);
            }
            let chars = chars_of(lines[i].as_str());
            let ghost before = texts(kept@);
            match self.step(&mut state, chars.as_slice()) {
                Some(line) => {
                    proof {
                        assert(texts(kept@.push(line)) == before.push(line@));
                    }
                    kept.push(line);
                },
                None => {},
            }
            i = i + 1;
        }
        proof {
            assert(all.take(all.len() as int) == all);
            assert(texts(kept@).subrange(0, kept@.len() as int) == texts(kept@));
        }
        join_range(&kept, 0, kept.len())
    }
}

/// Go-specific code filter.
pub struct GoFilter<'a> {
    pub config: &'a FilterConfig,
}

impl<'a> GoFilter<'a> {
    /// Creates the filter for a configuration.
    pub fn new(config: &'a FilterConfig) -> (filter: Self)
        ensures
            filter.config == config,
    {
        Self { config }
    }
}

impl<'a> LanguageFilter for GoFilter<'a> {
    open spec fn filtered(&self, content: Seq<char>) -> Seq<char> {
        javascript_filtered(*self.config, content)
    }

    open spec fn comment_line(&self, line: Seq<char>) -> bool {
        slash_comment_line(line)
    }

    open spec fn doc_comment(&self, line: Seq<char>) -> bool {
        false
    }

    open spec fn configuration(&self) -> FilterConfig {
        *self.config
    }

    fn config(&self) -> (config: &FilterConfig) {
        self.config
    }

    fn is_comment_line(&self, line: &[char]) -> (comment: bool) {
        starts_with(trim_slice(line), "//")
    }

    fn is_doc_comment(&self, _line: &[char]) -> (doc: bool) {
        false
    }

    fn filter(&self, content: &str) -> (result: String) {
        JavaScriptFilter::new(self.config).filter(content)
    }
}

/// Whether `line` is an annotation that marks a test in Java.
pub open spec fn java_test_annotation(line: Seq<char>) -> bool {
    let trimmed = trim(line);
    ||| "@Test"@.is_prefix_of(trimmed)
    ||| "@org.junit"@.is_prefix_of(trimmed)
    ||| "@BeforeEach"@.is_prefix_of(trimmed)
    ||| "@AfterEach"@.is_prefix_of(trimmed)
}

/// What the Java filter remembers from line to line.
pub struct JavaState {
    pub block: BlockState,
    pub skip_next_method: bool,
}

/// The state in which the Java filter starts.
pub open spec fn java_initial() -> JavaState {
    JavaState { block: block_initial(), skip_next_method: false }
}

/// One line through the Java filter. A test annotation is dropped and
/// marks the method behind it; then block comments; the lines of a marked
/// method are dropped up to and with the first that holds an opening
/// brace and as many closing braces as opening ones; comment lines and
/// blank lines are dropped where configured.
pub open spec fn java_step(config: FilterConfig, state: JavaState, line: Seq<char>) -> (
    JavaState,
    Option<Seq<char>>,
) {
    let trimmed = trim(line);
    if config.remove_tests && java_test_annotation(line) {
        (JavaState { skip_next_method: true, ..state }, None)
    } else {
        match block_comment_step(config, state.block, trimmed) {
            Some((next, dropped)) => (
                JavaState { block: next, ..state },
                if dropped {
                    None
                } else {
                    Some(line)
                },
            ),
            None => {
                if state.skip_next_method {
                    let balanced = trimmed.contains('{') && count_of(trimmed, '{') == count_of(
                        trimmed,
                        '}',
                    );
                    (JavaState { skip_next_method: !balanced, ..state }, None)
                } else if config.remove_comments && slash_comment_line(line) {
                    (state, None)
                } else if config.remove_blank_lines && trimmed.len() == 0 {
                    (state, None)
                } else {
                    (state, Some(line))
                }
            },
        }
    }
}

/// What the Java filter makes of `content`.
pub open spec fn java_filtered(config: FilterConfig, content: Seq<char>) -> Seq<char> {
    join_lines(
        fold_lines(
            |state: JavaState, line: Seq<char>| java_step(config, state, line),
            java_initial(),
            lines_of(content),
        ).1,
    )
}

/// Java/Kotlin code filter.
pub struct JavaFilter<'a> {
    pub config: &'a FilterConfig,
}

impl<'a> JavaFilter<'a> {
    /// Creates the filter for a configuration.
    pub fn new(config: &'a FilterConfig) -> (filter: Self)
        ensures
            filter.config == config,
    {
        Self { config }
    }

    /// Checks if a line is an annotation that marks a test.
    pub fn is_test_annotation(&self, line: &[char]) -> (test: bool)
        ensures
            test == java_test_annotation(line@),
    {
        let trimmed = trim_slice(line);
        starts_with(trimmed, "@Test") || starts_with(trimmed, "@org.junit") || starts_with(
            trimmed,
            "@BeforeEach",
        ) || starts_with(trimmed, "@AfterEach")
    }

    /// Takes one line through the filter: the line to keep, if any.
    pub fn step(&self, state: &mut JavaState, line: &[char]) -> (kept: Option<String>)
        ensures
            (*final(state), kept) matches (next, Some(kept)) ==> java_step(
                *self.config,
                *old(state),
                line@,
            ) == (next, Some(kept@)),
            (*final(state), kept) matches (next, None) ==> java_step(
                *self.config,
                *old(state),
                line@,
            ) == (next, None::<Seq<char>>),
    {
        let trimmed = trim_slice(line);
        if self.config.remove_tests && self.is_test_annotation(line) {
            state.skip_next_method = true;
            return None;
        }
        let mut block = BlockState {
            in_block_comment: state.block.in_block_comment,
            in_doc_comment: state.block.in_doc_comment,
        };
        match block_comment_line(self.config, &mut block, trimmed) {
            Some(should_skip) => {
                state.block = block;
                if !should_skip {
                    return Some(string_of(line));
                }
                return None;
            },
            None => {},
        }
        if state.skip_next_method {
            if contains_char(trimmed, '{') {
                if count_char(trimmed, '{') == count_char(trimmed, '}') {
                    state.skip_next_method = false;
                }
            }
            return None;
        }
        if self.config.remove_comments && self.is_comment_line(line) {
            return None;
        }
        if self.config.remove_blank_lines && trimmed.len() == 0 {
            return None;
        }
        Some(string_of(line))
    }
}

impl<'a> LanguageFilter for JavaFilter<'a> {
    open spec fn filtered(&self, content: Seq<char>) -> Seq<char> {
        java_filtered(*self.config, content)
    }

    open spec fn comment_line(&self, line: Seq<char>) -> bool {
        slash_comment_line(line)
    }

    open spec fn doc_comment(&self, line: Seq<char>) -> bool {
        "/**"@.is_prefix_of(trim(line))
    }

    open spec fn configuration(&self) -> FilterConfig {
        *self.config
    }

    fn config(&self) -> (config: &FilterConfig) {
        self.config
    }

    fn is_comment_line(&self, line: &[char]) -> (comment: bool) {
        starts_with(trim_slice(line), "//")
    }

    fn is_doc_comment(&self, line: &[char]) -> (doc: bool) {
        starts_with(trim_slice(line), "/**")
    }

    fn filter(&self, content: &str) -> (result: String) {
        let lines = split_lines(content);
        let ghost all = lines_of(content@);
        let ghost step = |state: JavaState, line: Seq<char>| java_step(*self.config, state, line);
        let mut kept: Vec<String> = Vec::new();
        let mut state = JavaState {
            block: BlockState { in_block_comment: false, in_doc_comment: false },
            skip_next_method: false,
        };
        proof {
            assert(all.take(0) == Seq::<Seq<char>>::empty());
            assert(texts(kept@) == Seq::<Seq<char>>::empty());
        }
        let mut i: usize = 0;
        while i < lines.len()
            invariant
                i <= lines@.len(),
                texts(lines@) == all,
                all.len() == lines@.len(),
                step == |state: JavaState, line: Seq<char>| java_step(*self.config, state, line),
                (state, texts(kept@)) == fold_lines(step, java_initial(), all.take(i as int)),
            decreases lines@.len() - i,
        {
            proof {
                assert(all.take(i + 1).drop_last() == all.take(i as int));
                assert(all[i as int] == lines@[i as int]@);
            }
            let chars = chars_of(lines[i].as_str());
            let ghost before = texts(kept@);
            match self.step(&mut state, chars.as_slice()) {
                Some(line) => {
                    proof {
                        assert(texts(kept@.push(line)) == before.push(line@));
                    }
                    kept.push(line);
                },
                None => {},
            }
            i = i + 1;
        }
        proof {
            assert(all.take(all.len() as int) == all);
            assert(texts(kept@).subrange(0, kept@.len() as int) == texts(kept@));
        }
        join_range(&kept, 0, kept.len())
    }
}

/// C/C++ code filter.
pub struct CFilter<'a> {
    pub config: &'a FilterConfig,
}

impl<'a> CFilter<'a> {
    /// Creates the filter for a configuration.
    pub fn new(config: &'a FilterConfig) -> (filter: Self)
        ensures
            filter.config == config,
    {
        Self { config }
    }
}

impl<'a> LanguageFilter for CFilter<'a> {
    open spec fn filtered(&self, content: Seq<char>) -> Seq<char> {
        javascript_filtered(*self.config, content)
    }

    open spec fn comment_line(&self, line: Seq<char>) -> bool {
        slash_comment_line(line)
    }

    open spec fn doc_comment(&self, line: Seq<char>) -> bool {
        let trimmed = trim(line);
        "///"@.is_prefix_of(trimmed) || "/**"@.is_prefix_of(trimmed)
    }

    open spec fn configuration(&self) -> FilterConfig {
        *self.config
    }

    fn config(&self) -> (config: &FilterConfig) {
        self.config
    }

    fn is_comment_line(&self, line: &[char]) -> (comment: bool) {
        starts_with(trim_slice(line), "//")
    }

    fn is_doc_comment(&self, line: &[char]) -> (doc: bool) {
        let trimmed = trim_slice(line);
        starts_with(trimmed, "///") || starts_with(trimmed, "/**")
    }

    fn filter(&self, content: &str) -> (result: String) {
        JavaScriptFilter::new(self.config).filter(content)
    }
}

/// What the filter for files with the extension `extension` makes of
/// `content`: the content itself where no filter knows the extension.
pub open spec fn filtered_for(
    config: FilterConfig,
    extension: Seq<char>,
    content: Seq<char>,
) -> Seq<char> {
    if extension == "rs"@ {
        rust_filtered(config, content)
    } else if extension == "py"@ {
        python_filtered(config, content)
    } else if extension == "js"@ || extension == "ts"@ || extension == "jsx"@ || extension
        == "tsx"@ {
        javascript_filtered(config, content)
    } else if extension == "go"@ {
        javascript_filtered(config, content)
    } else if extension == "java"@ || extension == "kt"@ {
        java_filtered(config, content)
    } else if extension == "c"@ || extension == "cpp"@ || extension == "cc"@ || extension == "h"@
        || extension == "hpp"@ {
        javascript_filtered(config, content)
    } else {
        content
    }
}

/// Main code filter that dispatches to language-specific filters.
#[derive(Debug, Clone)]
pub struct CodeFilter {
    pub config: FilterConfig,
}

impl CodeFilter {
    /// Creates a new code filter with the given configuration.
    #[must_use]
    pub fn new(config: FilterConfig) -> (filter: Self)
        ensures
            filter.config == config,
    {
        Self { config }
    }

    /// Filters code content by the rules of the language that `extension` names.
    pub fn filter_as(&self, content: &str, extension: &str) -> (result: String)
        ensures
            result@ == filtered_for(self.config, extension@, content@),
    {
        if text_eq(extension, "rs") {
            RustFilter::new(&self.config).filter(content)
        } else if text_eq(extension, "py") {
            PythonFilter::new(&self.config).filter(content)
        } else if text_eq(extension, "js") || text_eq(extension, "ts") || text_eq(extension, "jsx")
            || text_eq(extension, "tsx") {
            JavaScriptFilter::new(&self.config).filter(content)
        } else if text_eq(extension, "go") {
            GoFilter::new(&self.config).filter(content)
        } else if text_eq(extension, "java") || text_eq(extension, "kt") {
            JavaFilter::new(&self.config).filter(content)
        } else if text_eq(extension, "c") || text_eq(extension, "cpp") || text_eq(extension, "cc")
            || text_eq(extension, "h") || text_eq(extension, "hpp") {
            CFilter::new(&self.config).filter(content)
        } else {
            content.to_owned()
        }
    }

    /// Filters code content based on file extension and configuration.
    ///
    /// Returns filtered content, or the content as it is if no filter applies.
    #[must_use]
    pub fn filter(&self, content: &str, path: &Path) -> (result: String)
        ensures
            result@ == match path_extension(path) {
                Some(extension) => filtered_for(self.config, extension, content@),
                None => content@,
            },
    {
        match extension_of(path) {
            Some(extension) => self.filter_as(content, extension.as_str()),
            None => content.to_owned(),
        }
    }
}

} // verus!
