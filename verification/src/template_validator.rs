//! Rules that an external template has to meet.

use vstd::prelude::*;
use vstd::string::StringExecFns;
use crate::error::Error;
use crate::text::chars_of;
use crate::text::contains;
use crate::text::decimal;
use crate::text::has_substring;
use crate::text::push_char;
use crate::text::texts;
use crate::text::trim;
use crate::text::trim_slice;

verus! {

/// Maximum template file size (1MB)
pub const MAX_TEMPLATE_SIZE: u64 = 1024 * 1024;

/// Required template variables that should be accessible in templates.
pub open spec fn required_variables() -> Seq<Seq<char>> {
    seq!["chunk_index"@, "total_chunks"@, "files"@]
}

/// Optional but commonly used variables.
pub open spec fn optional_variables() -> Seq<Seq<char>> {
    seq!["chunk_files"@, "total_tokens"@, "metadata"@, "preset"@, "custom"@]
}

/// Whether `content` reads `variable` the way templates read optional
/// variables: through the context, or named directly at the start of an
/// expression.
pub open spec fn mentions_optional(content: Seq<char>, variable: Seq<char>) -> bool {
    ||| has_substring(content, "ctx."@ + variable)
    ||| has_substring(content, "{{"@ + variable + " "@)
    ||| has_substring(content, "{{ ctx."@ + variable)
}

/// Whether `content` reads `variable` the way templates read required
/// variables: like an optional one, or as what a loop runs over.
pub open spec fn mentions_required(content: Seq<char>, variable: Seq<char>) -> bool {
    ||| mentions_optional(content, variable)
    ||| has_substring(content, "in "@ + variable)
    ||| has_substring(content, "in ctx."@ + variable)
}

/// Those of `variables` that `content` does not read, in their order.
pub open spec fn missing_among(
    content: Seq<char>,
    variables: Seq<Seq<char>>,
    required: bool,
) -> Seq<Seq<char>>
    decreases variables.len(),
{
    if variables.len() == 0 {
        Seq::empty()
    } else {
        let before = missing_among(content, variables.drop_last(), required);
        let read = if required {
            mentions_required(content, variables.last())
        } else {
            mentions_optional(content, variables.last())
        };
        if read {
            before
        } else {
            before.push(variables.last())
        }
    }
}

/// `items` with `", "` between them.
pub open spec fn comma_separated(items: Seq<Seq<char>>) -> Seq<char>
    decreases items.len(),
{
    if items.len() == 0 {
        Seq::empty()
    } else if items.len() == 1 {
        items[0]
    } else {
        comma_separated(items.drop_last()) + ", "@ + items.last()
    }
}

/// Writes [`comma_separated`].
pub fn comma_separated_string(items: &Vec<String>) -> (text: String)
    ensures
        text@ == comma_separated(texts(items@)),
{
    let mut text = String::new();
    let mut i: usize = 0;
    proof {
        assert(texts(items@).take(0) == Seq::<Seq<char>>::empty());
    }
    while i < items.len()
        invariant
            i <= items@.len(),
            text@ == comma_separated(texts(items@).take(i as int)),
        decreases items@.len() - i,
    {
        proof {
            let next = texts(items@).take(i + 1);
            assert(next.drop_last() == texts(items@).take(i as int));
            assert(next.last() == items@[i as int]@);
        }
        if i > 0 {
            text.append(", ");
        }
        text.append(items[i].as_str());
        i = i + 1;
    }
    proof {
        assert(texts(items@).take(items@.len() as int) == texts(items@));
    }
    text
}

/// Computes [`mentions_optional`].
pub fn reads_optional(content: &[char], variable: &str) -> (read: bool)
    ensures
        read == mentions_optional(content@, variable@),
{
    let mut through_context = "ctx.".to_owned();
    through_context.append(variable);
    let mut direct = "{{".to_owned();
    direct.append(variable);
    direct.append(" ");
    let mut expression = "{{ ctx.".to_owned();
    expression.append(variable);
    contains(content, through_context.as_str()) || contains(content, direct.as_str()) || contains(
        content,
        expression.as_str(),
    )
}

/// Computes [`mentions_required`].
pub fn reads_required(content: &[char], variable: &str) -> (read: bool)
    ensures
        read == mentions_required(content@, variable@),
{
    let mut looped = "in ".to_owned();
    looped.append(variable);
    let mut looped_through_context = "in ctx.".to_owned();
    looped_through_context.append(variable);
    reads_optional(content, variable) || contains(content, looped.as_str()) || contains(
        content,
        looped_through_context.as_str(),
    )
}

/// Notes `variable` as missing where `content` does not read it.
fn note_missing(content: &[char], variable: &str, required: bool, missing: &mut Vec<String>)
    ensures
        texts(final(missing)@) == if (if required {
            mentions_required(content@, variable@)
        } else {
            mentions_optional(content@, variable@)
        }) {
            texts(old(missing)@)
        } else {
            texts(old(missing)@).push(variable@)
        },
{
    let read = if required {
        reads_required(content, variable)
    } else {
        reads_optional(content, variable)
    };
    if !read {
        let ghost before = texts(missing@);
        let name = variable.to_owned();
        assert(texts(missing@.push(name)) == before.push(name@));
        missing.push(name);
    }
}

/// The required variables that a template does not read.
pub fn missing_required_variables(content: &str) -> (missing: Vec<String>)
    ensures
        texts(missing@) == missing_among(content@, required_variables(), true),
{
    let chars = chars_of(content);
    let mut missing: Vec<String> = Vec::new();
    proof {
        let all = required_variables();
        let two = seq!["chunk_index"@, "total_chunks"@];
        let one = seq!["chunk_index"@];
        assert(all.drop_last() == two);
        assert(two.drop_last() == one);
        assert(one.drop_last() == Seq::<Seq<char>>::empty());
        assert(texts(missing@) == Seq::<Seq<char>>::empty());
        reveal_with_fuel(missing_among, 4);
    }
    note_missing(chars.as_slice(), "chunk_index", true, &mut missing);
    note_missing(chars.as_slice(), "total_chunks", true, &mut missing);
    note_missing(chars.as_slice(), "files", true, &mut missing);
    missing
}

/// The optional variables that a template does not read.
pub fn unused_optional_variables(content: &str) -> (unused: Vec<String>)
    ensures
        texts(unused@) == missing_among(content@, optional_variables(), false),
{
    let chars = chars_of(content);
    let mut unused: Vec<String> = Vec::new();
    proof {
        let all = optional_variables();
        let four = seq!["chunk_files"@, "total_tokens"@, "metadata"@, "preset"@];
        let three = seq!["chunk_files"@, "total_tokens"@, "metadata"@];
        let two = seq!["chunk_files"@, "total_tokens"@];
        let one = seq!["chunk_files"@];
        assert(all.drop_last() == four);
        assert(four.drop_last() == three);
        assert(three.drop_last() == two);
        assert(two.drop_last() == one);
        assert(one.drop_last() == Seq::<Seq<char>>::empty());
        assert(texts(unused@) == Seq::<Seq<char>>::empty());
        reveal_with_fuel(missing_among, 6);
    }
    note_missing(chars.as_slice(), "chunk_files", false, &mut unused);
    note_missing(chars.as_slice(), "total_tokens", false, &mut unused);
    note_missing(chars.as_slice(), "metadata", false, &mut unused);
    note_missing(chars.as_slice(), "preset", false, &mut unused);
    note_missing(chars.as_slice(), "custom", false, &mut unused);
    unused
}

/// The message that names the required variables that are missing.
pub open spec fn missing_variables_message(missing: Seq<Seq<char>>) -> Seq<char> {
    "Template may be missing required variables: "@ + comma_separated(missing)
        + ". \nTemplates should access: chunk_index, total_chunks, files. \nSee built-in templates for reference."@
}

/// What is wrong with the text of a template, or `None`: a blank
/// template, then the complaint of the template engine, then required
/// variables that are not read.
pub open spec fn template_complaint(content: Seq<char>, syntax_error: Option<Seq<char>>) -> Option<
    Seq<char>,
> {
    if trim(content).len() == 0 {
        Some("Template file is empty"@)
    } else if syntax_error is Some {
        Some("Template syntax error: "@ + syntax_error->Some_0)
    } else if missing_among(content, required_variables(), true).len() > 0 {
        Some(missing_variables_message(missing_among(content, required_variables(), true)))
    } else {
        None
    }
}

/// Checks if template contains required variables.
///
/// Uses simple heuristic: searches for variable names in template content.
pub fn check_required_variables(content: &str, template: &str) -> (result: Result<(), Error>)
    ensures
        match result {
            Ok(()) => missing_among(content@, required_variables(), true).len() == 0,
            Err(error) => {
                &&& missing_among(content@, required_variables(), true).len() > 0
                &&& error matches Error::Template { template: t, message }
                &&& t@ == template@
                &&& message@ == missing_variables_message(
                    missing_among(content@, required_variables(), true),
                )
            },
        },
{
    let missing = missing_required_variables(content);
    assert(texts(missing@).len() == missing@.len());
    if missing.len() > 0 {
        let mut message = "Template may be missing required variables: ".to_owned();
        message.append(comma_separated_string(&missing).as_str());
        message.append(
            ". \nTemplates should access: chunk_index, total_chunks, files. \nSee built-in templates for reference.",
        );
        return Err(Error::template(template, message));
    }
    Ok(())
}

/// Checks the text of a template, given what the template engine said of
/// its syntax.
pub fn check_template_text(content: &str, template: &str, syntax_error: Option<&str>) -> (result:
    Result<(), Error>)
    ensures
        match template_complaint(
            content@,
            match syntax_error {
                Some(complaint) => Some(complaint@),
                None => None,
            },
        ) {
            Some(complaint) => {
                &&& result matches Err(Error::Template { template: t, message })
                &&& t@ == template@
                &&& message@ == complaint
            },
            None => result is Ok,
        },
{
    let chars = chars_of(content);
    if trim_slice(chars.as_slice()).len() == 0 {
        return Err(Error::template(template, "Template file is empty".to_owned()));
    }
    match syntax_error {
        Some(complaint) => {
            let mut message = "Template syntax error: ".to_owned();
            message.append(complaint);
            return Err(Error::template(template, message));
        },
        None => {},
    }
    check_required_variables(content, template)
}

/// What the template engine says against the syntax of `content`, as
/// `Tera::add_raw_template` reports it for a template added to an engine
/// that holds no other; `None` where it accepts the template.
pub uninterp spec fn tera_complaint(content: Seq<char>) -> Option<Seq<char>>;

/// Adds `content` as the only template of a fresh `tera::Tera` and hands
/// out the message of the error, if there is one. The engine is made and
/// dropped here, so the answer depends on the content alone.
#[verifier::external_body]
pub(crate) fn template_syntax_error(content: &str) -> (complaint: Option<String>)
    ensures
        complaint is Some == tera_complaint(content@) is Some,
        complaint matches Some(c) ==> c@ == tera_complaint(content@)->Some_0,
{
    let mut engine = tera::Tera::default();
    match engine.add_raw_template("validation", content) {
        Ok(()) => None,
        Err(error) => Some(error.to_string()),
    }
}

/// Validates the text of an external template: it is not blank, the
/// template engine accepts it, and it reads the required variables.
pub fn validate_template_text(content: &str, template: &str) -> (result: Result<(), Error>)
    ensures
        match template_complaint(content@, tera_complaint(content@)) {
            Some(complaint) => {
                &&& result matches Err(Error::Template { template: t, message })
                &&& t@ == template@
                &&& message@ == complaint
            },
            None => result is Ok,
        },
{
    let chars = chars_of(content);
    if trim_slice(chars.as_slice()).len() == 0 {
        return check_template_text(content, template, None);
    }
    match template_syntax_error(content) {
        Some(complaint) => check_template_text(content, template, Some(complaint.as_str())),
        None => check_template_text(content, template, None),
    }
}

/// The message for a template file of `size` bytes that is too large.
pub open spec fn too_large_message(size: nat) -> Seq<char> {
    "Template file too large: "@ + decimal(size) + " bytes (max: "@ + decimal(
        MAX_TEMPLATE_SIZE as nat,
    ) + " bytes)"@
}

/// `n` in decimal.
pub fn decimal_of_u64(n: u64) -> (text: String)
    ensures
        text@ == decimal(n as nat),
    decreases n,
{
    let d: u8 = (n % 10) as u8;
    let c: char = (48u8 + d) as char;
    if n < 10 {
        let mut text = String::new();
        push_char(&mut text, c);
        text
    } else {
        let mut text = decimal_of_u64(n / 10);
        push_char(&mut text, c);
        text
    }
}

/// Checks that a template file of `size` bytes is not too large.
pub fn check_template_size(size: u64, template: &str) -> (result: Result<(), Error>)
    ensures
        match result {
            Ok(()) => size <= MAX_TEMPLATE_SIZE,
            Err(error) => {
                &&& size > MAX_TEMPLATE_SIZE
                &&& error matches Error::Template { template: t, message }
                &&& t@ == template@
                &&& message@ == too_large_message(size as nat)
            },
        },
{
    if size > MAX_TEMPLATE_SIZE {
        let mut message = "Template file too large: ".to_owned();
        message.append(decimal_of_u64(size).as_str());
        message.append(" bytes (max: ");
        message.append(decimal_of_u64(MAX_TEMPLATE_SIZE).as_str());
        message.append(" bytes)");
        return Err(Error::template(template, message));
    }
    Ok(())
}

} // verus!
