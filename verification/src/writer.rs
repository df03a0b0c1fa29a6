//! Names of the output files.

use vstd::prelude::*;
use crate::config::OutputFormat;
use crate::text::chars_of;
use crate::text::decimal;
use crate::text::decimal_string;
use crate::text::replace_all;
use crate::text::replaced;
use crate::text::string_of;
use crate::text::zero_padded;
use crate::text::zero_padded_string;

verus! {

/// The extension of the output files: the one that is configured for the
/// custom format, `txt` where none is, and else the format's own.
pub open spec fn output_extension_text(
    format: OutputFormat,
    custom_extension: Option<Seq<char>>,
) -> Seq<char> {
    match format {
        OutputFormat::Custom => match custom_extension {
            Some(extension) => extension,
            None => "txt"@,
        },
        OutputFormat::Markdown => "md"@,
        OutputFormat::Xml => "xml"@,
        OutputFormat::Json => "json"@,
    }
}

/// Determines the extension of the output files.
pub fn output_extension(format: OutputFormat, custom_extension: Option<&str>) -> (extension: String)
    ensures
        extension@ == output_extension_text(
            format,
            match custom_extension {
                Some(extension) => Some(extension@),
                None => None,
            },
        ),
{
    match format {
        OutputFormat::Custom => match custom_extension {
            Some(extension) => extension.to_owned(),
            None => "txt".to_owned(),
        },
        _ => format.extension().to_owned(),
    }
}

/// The name of the output file of the chunk with index `index`: the
/// pattern with the chunk's number, counted from 1, in place of
/// `{index:03}` (three digits at least), of `{index:02}` (two at least)
/// and of `{index}`, and with the extension in place of `{ext}`.
pub open spec fn output_file_name_text(pattern: Seq<char>, index: nat, extension: Seq<char>) -> Seq<
    char,
> {
    let number = index + 1;
    replaced(
        replaced(
            replaced(
                replaced(pattern, "{index:03}"@, zero_padded(number, 3)),
                "{index:02}"@,
                zero_padded(number, 2),
            ),
            "{index}"@,
            decimal(number),
        ),
        "{ext}"@,
        extension,
    )
}

/// Generates the output file name for a chunk.
pub fn output_file_name(pattern: &str, index: usize, extension: &str) -> (name: String)
    requires
        index < usize::MAX,
    ensures
        name@ == output_file_name_text(pattern@, index as nat, extension@),
{
    proof {
        reveal_strlit("{index:03}");
        reveal_strlit("{index:02}");
        reveal_strlit("{index}");
        reveal_strlit("{ext}");
    }
    let number = index + 1;
    let chars = chars_of(pattern);
    let chars = replace_all(chars.as_slice(), "{index:03}", zero_padded_string(number, 3).as_str());
    let chars = replace_all(chars.as_slice(), "{index:02}", zero_padded_string(number, 2).as_str());
    let chars = replace_all(chars.as_slice(), "{index}", decimal_string(number).as_str());
    let chars = replace_all(chars.as_slice(), "{ext}", extension);
    string_of(chars.as_slice())
}

} // verus!
