//! The filters that the templates call on text.

use vstd::prelude::*;
use vstd::string::StringExecFns;
use crate::config::OutputFormat;
use crate::text::chars_of;
use crate::text::decimal;
use crate::text::decimal_string;
use crate::text::join_lines;
use crate::text::join_range;
use crate::text::lines_of;
use crate::text::replace_all;
use crate::text::replaced;
use crate::text::split_lines;
use crate::text::string_of;
use crate::text::text_eq;
use crate::text::texts;

verus! {

/// Lines that the truncating filter lets through where no limit is given.
pub const DEFAULT_MAX_LINES: usize = 1000;

/// `text` with the five characters that XML reserves written as entities:
/// the ampersand first, so that the entities themselves stay as they are.
pub open spec fn xml_escaped(text: Seq<char>) -> Seq<char> {
    replaced(
        replaced(
            replaced(
                replaced(replaced(text, "&"@, "&amp;"@), "<"@, "&lt;"@),
                ">"@,
                "&gt;"@,
            ),
            "\""@,
            "&quot;"@,
        ),
        "'"@,
        "&apos;"@,
    )
}

/// XML escape filter implementation.
pub fn xml_escape(text: &str) -> (escaped: String)
    ensures
        escaped@ == xml_escaped(text@),
{
    proof {
        reveal_strlit("&");
        reveal_strlit("<");
        reveal_strlit(">");
        reveal_strlit("\"");
        reveal_strlit("'");
    }
    let chars = chars_of(text);
    let chars = replace_all(chars.as_slice(), "&", "&amp;");
    let chars = replace_all(chars.as_slice(), "<", "&lt;");
    let chars = replace_all(chars.as_slice(), ">", "&gt;");
    let chars = replace_all(chars.as_slice(), "\"", "&quot;");
    let chars = replace_all(chars.as_slice(), "'", "&apos;");
    string_of(chars.as_slice())
}

/// The note that stands for `omitted` lines that were cut off.
pub open spec fn omission_note(omitted: nat) -> Seq<char> {
    "\n... ("@ + decimal(omitted) + " more lines omitted)"@
}

/// `text` cut down to its first `max_lines` lines, with a note of how
/// many lines were cut off; `text` itself where it has no more lines.
pub open spec fn truncated_lines(text: Seq<char>, max_lines: nat) -> Seq<char> {
    let lines = lines_of(text);
    if lines.len() > max_lines {
        join_lines(lines.take(max_lines as int)) + omission_note((lines.len() - max_lines) as nat)
    } else {
        text
    }
}

/// Truncate lines filter implementation.
pub fn truncate_lines(text: &str, max_lines: usize) -> (truncated: String)
    ensures
        truncated@ == truncated_lines(text@, max_lines as nat),
{
    let lines = split_lines(text);
    assert(texts(lines@).len() == lines@.len());
    if lines.len() > max_lines {
        let mut truncated = join_range(&lines, 0, max_lines);
        truncated.append("\n... (");
        truncated.append(decimal_string(lines.len() - max_lines).as_str());
        truncated.append(" more lines omitted)");
        truncated
    } else {
        text.to_owned()
    }
}

/// The position behind the last dot of `path`; 0 where it has none.
pub open spec fn after_last_dot(path: Seq<char>) -> int
    decreases path.len(),
{
    if path.len() == 0 {
        0
    } else if path.last() == '.' {
        path.len() as int
    } else {
        after_last_dot(path.drop_last())
    }
}

/// What stands behind the last dot of `path`: all of it where it has none.
pub open spec fn last_segment(path: Seq<char>) -> Seq<char> {
    path.skip(after_last_dot(path))
}

/// Cuts [`last_segment`] out of `path`.
pub fn last_segment_of(path: &[char]) -> (segment: &[char])
    ensures
        segment@ == last_segment(path@),
{
    let mut start: usize = path.len();
    proof {
        assert(path@.take(path@.len() as int) == path@);
    }
    while start > 0 && path[start - 1] != '.'
        invariant
            start <= path@.len(),
            after_last_dot(path@) == after_last_dot(path@.take(start as int)),
        decreases start,
    {
        proof {
            assert(path@.take(start as int).drop_last() == path@.take(start - 1));
        }
        start = start - 1;
    }
    vstd::slice::slice_subrange(path, start, path.len())
}

/// The language that files with the extension `extension` are written
/// in, as the templates name it; empty for an extension that is not known.
pub open spec fn language_of(extension: Seq<char>) -> Seq<char> {
    if extension == "rs"@ {
        "rust"@
    } else if extension == "py"@ {
        "python"@
    } else if extension == "js"@ {
        "javascript"@
    } else if extension == "ts"@ {
        "typescript"@
    } else if extension == "jsx"@ {
        "jsx"@
    } else if extension == "tsx"@ {
        "tsx"@
    } else if extension == "go"@ {
        "go"@
    } else if extension == "java"@ {
        "java"@
    } else if extension == "c"@ || extension == "h"@ {
        "c"@
    } else if extension == "cpp"@ || extension == "cc"@ || extension == "cxx"@ {
        "cpp"@
    } else if extension == "hpp"@ || extension == "hh"@ || extension == "hxx"@ {
        "cpp"@
    } else if extension == "cs"@ {
        "csharp"@
    } else if extension == "rb"@ {
        "ruby"@
    } else if extension == "php"@ {
        "php"@
    } else if extension == "swift"@ {
        "swift"@
    } else if extension == "kt"@ {
        "kotlin"@
    } else if extension == "scala"@ {
        "scala"@
    } else if extension == "sh"@ || extension == "bash"@ {
        "bash"@
    } else if extension == "zsh"@ {
        "zsh"@
    } else if extension == "fish"@ {
        "fish"@
    } else if extension == "ps1"@ {
        "powershell"@
    } else if extension == "html"@ || extension == "htm"@ {
        "html"@
    } else if extension == "css"@ {
        "css"@
    } else if extension == "scss"@ {
        "scss"@
    } else if extension == "sass"@ {
        "sass"@
    } else if extension == "xml"@ {
        "xml"@
    } else if extension == "json"@ {
        "json"@
    } else if extension == "yaml"@ || extension == "yml"@ {
        "yaml"@
    } else if extension == "toml"@ {
        "toml"@
    } else if extension == "ini"@ {
        "ini"@
    } else if extension == "md"@ || extension == "markdown"@ {
        "markdown"@
    } else if extension == "sql"@ {
        "sql"@
    } else if extension == "graphql"@ || extension == "gql"@ {
        "graphql"@
    } else if extension == "proto"@ {
        "protobuf"@
    } else if extension == "dockerfile"@ {
        "dockerfile"@
    } else if extension == "makefile"@ {
        "makefile"@
    } else {
        ""@
    }
}

/// Names the language of an extension.
pub fn language_for_extension(extension: &str) -> (language: &'static str)
    ensures
        language@ == language_of(extension@),
{
    if text_eq(extension, "rs") {
        "rust"
    } else if text_eq(extension, "py") {
        "python"
    } else if text_eq(extension, "js") {
        "javascript"
    } else if text_eq(extension, "ts") {
        "typescript"
    } else if text_eq(extension, "jsx") {
        "jsx"
    } else if text_eq(extension, "tsx") {
        "tsx"
    } else if text_eq(extension, "go") {
        "go"
    } else if text_eq(extension, "java") {
        "java"
    } else if text_eq(extension, "c") || text_eq(extension, "h") {
        "c"
    } else if text_eq(extension, "cpp") || text_eq(extension, "cc") || text_eq(extension, "cxx") {
        "cpp"
    } else if text_eq(extension, "hpp") || text_eq(extension, "hh") || text_eq(extension, "hxx") {
        "cpp"
    } else if text_eq(extension, "cs") {
        "csharp"
    } else if text_eq(extension, "rb") {
        "ruby"
    } else if text_eq(extension, "php") {
        "php"
    } else if text_eq(extension, "swift") {
        "swift"
    } else if text_eq(extension, "kt") {
        "kotlin"
    } else if text_eq(extension, "scala") {
        "scala"
    } else if text_eq(extension, "sh") || text_eq(extension, "bash") {
        "bash"
    } else if text_eq(extension, "zsh") {
        "zsh"
    } else if text_eq(extension, "fish") {
        "fish"
    } else if text_eq(extension, "ps1") {
        "powershell"
    } else if text_eq(extension, "html") || text_eq(extension, "htm") {
        "html"
    } else if text_eq(extension, "css") {
        "css"
    } else if text_eq(extension, "scss") {
        "scss"
    } else if text_eq(extension, "sass") {
        "sass"
    } else if text_eq(extension, "xml") {
        "xml"
    } else if text_eq(extension, "json") {
        "json"
    } else if text_eq(extension, "yaml") || text_eq(extension, "yml") {
        "yaml"
    } else if text_eq(extension, "toml") {
        "toml"
    } else if text_eq(extension, "ini") {
        "ini"
    } else if text_eq(extension, "md") || text_eq(extension, "markdown") {
        "markdown"
    } else if text_eq(extension, "sql") {
        "sql"
    } else if text_eq(extension, "graphql") || text_eq(extension, "gql") {
        "graphql"
    } else if text_eq(extension, "proto") {
        "protobuf"
    } else if text_eq(extension, "dockerfile") {
        "dockerfile"
    } else if text_eq(extension, "makefile") {
        "makefile"
    } else {
        ""
    }
}

/// Detects programming language from file extension: from what stands
/// behind the last dot of the path.
pub fn detect_language(path: &str) -> (language: &'static str)
    ensures
        language@ == language_of(last_segment(path@)),
{
    let chars = chars_of(path);
    let extension = string_of(last_segment_of(chars.as_slice()));
    language_for_extension(extension.as_str())
}

/// The name of the template that renders chunks in `format`: the preset
/// template of the format where a preset is used and the format has one.
pub fn template_name(format: OutputFormat, with_preset: bool) -> (name: &'static str)
    ensures
        name@ == if with_preset {
            match format {
                OutputFormat::Markdown => "preset_markdown"@,
                OutputFormat::Xml => "preset_xml"@,
                OutputFormat::Json => "preset_json"@,
                OutputFormat::Custom => "custom"@,
            }
        } else {
            match format {
                OutputFormat::Markdown => "markdown"@,
                OutputFormat::Xml => "xml"@,
                OutputFormat::Json => "json"@,
                OutputFormat::Custom => "custom"@,
            }
        },
{
    if with_preset {
        match format {
            OutputFormat::Markdown => "preset_markdown",
            OutputFormat::Xml => "preset_xml",
            OutputFormat::Json => "preset_json",
            OutputFormat::Custom => format.template_name(),
        }
    } else {
        format.template_name()
    }
}

} // verus!
