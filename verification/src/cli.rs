//! What the command line decides: which code block mode its flags ask for,
//! whether the length warning is due, and how the result is written out.

use crate::converter::CodeBlockMode;
use crate::json_output::{format_json, json_text};
use crate::text::{chars_of, decimal, decimal_of, push_chars, push_str, string_of};
use vstd::prelude::*;

verus! {

/// The values of the flag that chooses what becomes of code blocks.
#[derive(Clone, Copy, Debug, PartialEq, Eq, Structural)]
pub enum CodeBlocksArg {
    Omit,
    Text,
    Carbon,
    Image,
}

/// The values of the flag that chooses the form of the result.
#[derive(Clone, Copy, Debug, PartialEq, Eq, Structural)]
pub enum OutputFormat {
    Text,
    Json,
}

/// The character limit that holds where none is given.
pub const DEFAULT_MAX_CHARS: usize = 3000;

/// The mode that the flags ask for: the one named, else the viewer link if the
/// older flag for it is set, else omission.
pub open spec fn chosen_mode(code_blocks: Option<CodeBlocksArg>, carbon: bool) -> CodeBlockMode {
    match code_blocks {
        Some(CodeBlocksArg::Omit) => CodeBlockMode::Omit,
        Some(CodeBlocksArg::Text) => CodeBlockMode::Text,
        Some(CodeBlocksArg::Carbon) => CodeBlockMode::Carbon,
        Some(CodeBlocksArg::Image) => CodeBlockMode::Image,
        None => if carbon {
            CodeBlockMode::Carbon
        } else {
            CodeBlockMode::Omit
        },
    }
}

/// The code block mode that the flags ask for.
pub fn code_block_mode(code_blocks: Option<CodeBlocksArg>, carbon: bool) -> (mode: CodeBlockMode)
    ensures
        mode == chosen_mode(code_blocks, carbon),
{
    match code_blocks {
        Some(CodeBlocksArg::Omit) => CodeBlockMode::Omit,
        Some(CodeBlocksArg::Text) => CodeBlockMode::Text,
        Some(CodeBlocksArg::Carbon) => CodeBlockMode::Carbon,
        Some(CodeBlocksArg::Image) => CodeBlockMode::Image,
        None => if carbon {
            CodeBlockMode::Carbon
        } else {
            CodeBlockMode::Omit
        },
    }
}

/// The limit to hold the result against.
pub fn warn_limit(max_chars: Option<usize>) -> (limit: usize)
    ensures
        limit == match max_chars {
            Some(n) => n,
            None => DEFAULT_MAX_CHARS,
        },
{
    match max_chars {
        Some(n) => n,
        None => DEFAULT_MAX_CHARS,
    }
}

/// The number of characters of `text`.
pub fn char_count(text: &str) -> (n: usize)
    ensures
        n == text@.len(),
{
    chars_of(text).len()
}

/// Whether the length warning is due: the result is longer than the limit and
/// warnings are not switched off.
pub fn warning_due(char_count: usize, limit: usize, no_warn: bool) -> (due: bool)
    ensures
        due == (!no_warn && char_count > limit),
{
    !no_warn && char_count > limit
}

/// The words of the length warning.
pub open spec fn warning_text(char_count: nat, limit: nat) -> Seq<char> {
    "\u{26A0}\u{FE0F}  Warning: Output is "@ + decimal(char_count) + " characters (limit: "@
        + decimal(limit) + seq![')']
}

/// The length warning for a result of `char_count` characters.
pub fn warning_message(char_count: usize, limit: usize) -> (r: String)
    ensures
        r@ == warning_text(char_count as nat, limit as nat),
{
    let mut out: Vec<char> = Vec::new();
    push_str(&mut out, "\u{26A0}\u{FE0F}  Warning: Output is ");
    push_chars(&mut out, &decimal_of(char_count as u64));
    push_str(&mut out, " characters (limit: ");
    push_chars(&mut out, &decimal_of(limit as u64));
    out.push(')');
    string_of(&out)
}

/// What is written out for the converted `text`: the JSON object in JSON form,
/// else the text itself, closed by a newline if trimming is off and it has none.
pub open spec fn final_output(
    text: Seq<char>,
    format: OutputFormat,
    no_trim: bool,
    limit: nat,
) -> Seq<char> {
    match format {
        OutputFormat::Json => json_text(text, text.len(), limit),
        OutputFormat::Text => if no_trim && !(text.len() > 0 && text.last() == '\n') {
            text.push('\n')
        } else {
            text
        },
    }
}

/// What is written out for the converted `text`.
pub fn format_output(text: &str, format: OutputFormat, no_trim: bool, limit: usize) -> (r: String)
    ensures
        r@ == final_output(text@, format, no_trim, limit as nat),
{
    let mut chars = chars_of(text);
    match format {
        OutputFormat::Json => format_json(text, chars.len(), limit),
        OutputFormat::Text => {
            let n = chars.len();
            if no_trim && !(n > 0 && chars[n - 1] == '\n') {
                chars.push('\n');
            }
            string_of(&chars)
        },
    }
}

} // verus!
