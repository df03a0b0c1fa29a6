//! Output formats and the rules that a configuration has to meet.

use vstd::prelude::*;
use vstd::string::StringExecFns;
use crate::error::Error;
use crate::text::chars_of;
use crate::text::contains;
use crate::text::decimal;
use crate::text::decimal_string;
use crate::text::has_substring;

verus! {

/// Tokens per chunk where the configuration names no limit.
pub const DEFAULT_MAX_TOKENS: usize = 100_000;

/// Overlap in tokens where the configuration names none.
pub const DEFAULT_OVERLAP_TOKENS: usize = 1_000;

/// Safety margin in tokens where the configuration names none.
pub const DEFAULT_CHUNK_SAFETY_MARGIN: usize = 2_000;

/// Output format for generated prompts.
#[derive(Debug, Clone, Copy, PartialEq, Eq, Structural)]
pub enum OutputFormat {
    /// Markdown format with code blocks
    Markdown,
    /// XML format with structured tags
    Xml,
    /// JSON format with metadata
    Json,
    /// Custom format with external template
    Custom,
}

impl OutputFormat {
    /// Returns the file extension for this format.
    ///
    /// For Custom format, returns a default extension "txt".
    #[must_use]
    pub fn extension(self) -> (extension: &'static str)
        ensures
            extension@ == match self {
                OutputFormat::Markdown => "md"@,
                OutputFormat::Xml => "xml"@,
                OutputFormat::Json => "json"@,
                OutputFormat::Custom => "txt"@,
            },
    {
        match self {
            Self::Markdown => "md",
            Self::Xml => "xml",
            Self::Json => "json",
            Self::Custom => "txt",
        }
    }

    /// Returns the template name for this format.
    ///
    /// For Custom format, returns a default name "custom".
    #[must_use]
    pub fn template_name(self) -> (name: &'static str)
        ensures
            name@ == match self {
                OutputFormat::Markdown => "markdown"@,
                OutputFormat::Xml => "xml"@,
                OutputFormat::Json => "json"@,
                OutputFormat::Custom => "custom"@,
            },
    {
        match self {
            Self::Markdown => "markdown",
            Self::Xml => "xml",
            Self::Json => "json",
            Self::Custom => "custom",
        }
    }
}

/// Returns the effective chunk size after applying safety margin.
#[must_use]
pub fn effective_chunk_size(max_tokens: usize, chunk_safety_margin: usize) -> (size: usize)
    ensures
        size == if max_tokens >= chunk_safety_margin {
            max_tokens - chunk_safety_margin
        } else {
            0
        },
{
    if max_tokens >= chunk_safety_margin {
        max_tokens - chunk_safety_margin
    } else {
        0
    }
}

/// The message for a bound `name` of `value` that is not below `max_tokens`.
pub open spec fn limit_message(name: Seq<char>, value: nat, max_tokens: nat) -> Seq<char> {
    name + " ("@ + decimal(value) + ") must be less than max_tokens ("@ + decimal(max_tokens)
        + ")"@
}

/// Writes [`limit_message`].
pub fn limit_message_string(name: &str, value: usize, max_tokens: usize) -> (message: String)
    ensures
        message@ == limit_message(name@, value as nat, max_tokens as nat),
{
    let mut message = name.to_owned();
    message.append(" (");
    message.append(decimal_string(value).as_str());
    message.append(") must be less than max_tokens (");
    message.append(decimal_string(max_tokens).as_str());
    message.append(")");
    message
}

/// The message with which [`validate_token_limits`] refuses the limits, or
/// `None` where it accepts them: the capacity is above zero, and overlap
/// and safety margin are below it. The first rule that is broken speaks.
pub open spec fn token_limits_complaint(
    max_tokens: nat,
    overlap_tokens: nat,
    chunk_safety_margin: nat,
) -> Option<Seq<char>> {
    if max_tokens == 0 {
        Some("max_tokens must be greater than 0"@)
    } else if overlap_tokens >= max_tokens {
        Some(limit_message("overlap_tokens"@, overlap_tokens, max_tokens))
    } else if chunk_safety_margin >= max_tokens {
        Some(limit_message("chunk_safety_margin"@, chunk_safety_margin, max_tokens))
    } else {
        None
    }
}

/// Validates the token limits of a configuration.
pub fn validate_token_limits(max_tokens: usize, overlap_tokens: usize, chunk_safety_margin: usize)
    -> (result: Result<(), Error>)
    ensures
        match token_limits_complaint(
            max_tokens as nat,
            overlap_tokens as nat,
            chunk_safety_margin as nat,
        ) {
            Some(complaint) => result matches Err(Error::Config { message }) && message@
                == complaint,
            None => result is Ok,
        },
{
    if max_tokens == 0 {
        return Err(Error::config("max_tokens must be greater than 0"));
    }
    if overlap_tokens >= max_tokens {
        return Err(
            Error::config(
                limit_message_string("overlap_tokens", overlap_tokens, max_tokens).as_str(),
            ),
        );
    }
    if chunk_safety_margin >= max_tokens {
        return Err(
            Error::config(
                limit_message_string(
                    "chunk_safety_margin",
                    chunk_safety_margin,
                    max_tokens,
                ).as_str(),
            ),
        );
    }
    Ok(())
}

/// The reason for which [`validate_output_pattern`] refuses `pattern`, or
/// `None` where it accepts it: the pattern names the index and the
/// extension.
pub open spec fn output_pattern_complaint(pattern: Seq<char>) -> Option<Seq<char>> {
    if !has_substring(pattern, "{index"@) {
        Some("Pattern must contain {index} or {index:03} placeholder"@)
    } else if !has_substring(pattern, "{ext}"@) {
        Some("Pattern must contain {ext} placeholder"@)
    } else {
        None
    }
}

/// Validates the pattern of the output file names.
pub fn validate_output_pattern(pattern: &str) -> (result: Result<(), Error>)
    ensures
        match output_pattern_complaint(pattern@) {
            Some(complaint) => result matches Err(Error::InvalidPattern { pattern: p, reason })
                && p@ == pattern@ && reason@ == complaint,
            None => result is Ok,
        },
{
    let chars = chars_of(pattern);
    if !contains(chars.as_slice(), "{index") {
        return Err(
            Error::invalid_pattern(
                pattern,
                "Pattern must contain {index} or {index:03} placeholder",
            ),
        );
    }
    if !contains(chars.as_slice(), "{ext}") {
        return Err(Error::invalid_pattern(pattern, "Pattern must contain {ext} placeholder"));
    }
    Ok(())
}

/// The message with which [`validate_custom_format`] refuses the
/// settings, or `None` where it accepts them: the custom format needs a
/// format name, an extension and a template, asked for in this order.
pub open spec fn custom_format_complaint(
    format: OutputFormat,
    has_format_name: bool,
    has_extension: bool,
    has_template: bool,
) -> Option<Seq<char>> {
    if format != OutputFormat::Custom {
        None
    } else if !has_format_name {
        Some(
            "Custom format requires custom_format_name. Use Config::builder().custom_format_name(\"my_format\")"@,
        )
    } else if !has_extension {
        Some(
            "Custom format requires custom_extension. Use Config::builder().custom_extension(\"txt\")"@,
        )
    } else if !has_template {
        Some(
            "Custom format requires template_path. Use Config::builder().template_path(\"./template.tera\")"@,
        )
    } else {
        None
    }
}

/// Validates what the custom format requires.
pub fn validate_custom_format(
    format: OutputFormat,
    has_format_name: bool,
    has_extension: bool,
    has_template: bool,
) -> (result: Result<(), Error>)
    ensures
        match custom_format_complaint(format, has_format_name, has_extension, has_template) {
            Some(complaint) => result matches Err(Error::Config { message }) && message@
                == complaint,
            None => result is Ok,
        },
{
    match format {
        OutputFormat::Custom => {
            if !has_format_name {
                return Err(
                    Error::config(
                        "Custom format requires custom_format_name. Use Config::builder().custom_format_name(\"my_format\")",
                    ),
                );
            }
            if !has_extension {
                return Err(
                    Error::config(
                        "Custom format requires custom_extension. Use Config::builder().custom_extension(\"txt\")",
                    ),
                );
            }
            if !has_template {
                return Err(
                    Error::config(
                        "Custom format requires template_path. Use Config::builder().template_path(\"./template.tera\")",
                    ),
                );
            }
            Ok(())
        },
        _ => Ok(()),
    }
}

} // verus!
