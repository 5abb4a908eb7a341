//! Wraps a converted text in a JSON object that also reports its length
//! against a limit.

use crate::text::{chars_of, decimal, decimal_of, ends_with, push_chars, push_str, string_of};
use vstd::prelude::*;

verus! {

/// How one character stands inside a JSON string: backslash, double quote,
/// newline, carriage return and tab are escaped, all others stand as they are.
pub open spec fn escaped_char(c: char) -> Seq<char> {
    if c == '\\' {
        seq!['\\', '\\']
    } else if c == '"' {
        seq!['\\', '"']
    } else if c == '\n' {
        seq!['\\', 'n']
    } else if c == '\r' {
        seq!['\\', 'r']
    } else if c == '\t' {
        seq!['\\', 't']
    } else {
        seq![c]
    }
}

/// `text` with each of its characters escaped for a JSON string.
pub open spec fn json_escaped(text: Seq<char>) -> Seq<char>
    decreases text.len(),
{
    if text.len() == 0 {
        Seq::empty()
    } else {
        json_escaped(text.drop_last()) + escaped_char(text.last())
    }
}

/// The text of the field `limit_exceeded`.
pub open spec fn exceeded_text(char_count: nat, limit: nat) -> Seq<char> {
    if char_count > limit {
        seq!['t', 'r', 'u', 'e']
    } else {
        seq!['f', 'a', 'l', 's', 'e']
    }
}

/// The JSON object for a converted `text` of `char_count` characters.
pub open spec fn json_text(text: Seq<char>, char_count: nat, limit: nat) -> Seq<char> {
    "{\"text\":\""@ + json_escaped(text) + "\",\"char_count\":"@ + decimal(char_count)
        + ",\"limit\":"@ + decimal(limit) + ",\"limit_exceeded\":"@ + exceeded_text(
        char_count,
        limit,
    ) + seq!['}']
}

/// Appends the escaped form of the characters of `input` to `out`.
fn push_json_escaped(out: &mut Vec<char>, input: &Vec<char>)
    ensures
        final(out)@ == old(out)@ + json_escaped(input@),
{
    let mut i: usize = 0;
    while i < input.len()
        invariant
            i <= input.len(),
            out@ == old(out)@ + json_escaped(input@.take(i as int)),
        decreases input.len() - i,
    {
        let c: char = input[i];
        assert(input@.take(i + 1).drop_last() == input@.take(i as int));
        if c == '\\' {
            out.push('\\');
            out.push('\\');
        } else if c == '"' {
            out.push('\\');
            out.push('"');
        } else if c == '\n' {
            out.push('\\');
            out.push('n');
        } else if c == '\r' {
            out.push('\\');
            out.push('r');
        } else if c == '\t' {
            out.push('\\');
            out.push('t');
        } else {
            out.push(c);
        }
        i += 1;
        assert(out@ =~= old(out)@ + json_escaped(input@.take(i as int)));
    }
    assert(input@.take(i as int) == input@);
}

/// `input` escaped for a JSON string.
pub fn json_escape(input: &str) -> (r: String)
    ensures
        r@ == json_escaped(input@),
{
    let mut out: Vec<char> = Vec::new();
    push_json_escaped(&mut out, &chars_of(input));
    string_of(&out)
}

/// The JSON object with the fields `text`, `char_count`, `limit` and
/// `limit_exceeded`, the last being true exactly if `char_count` is over `limit`.
pub fn format_json(text: &str, char_count: usize, limit: usize) -> (r: String)
    ensures
        r@ == json_text(text@, char_count as nat, limit as nat),
{
    let mut out: Vec<char> = Vec::new();
    push_str(&mut out, "{\"text\":\"");
    push_json_escaped(&mut out, &chars_of(text));
    push_str(&mut out, "\",\"char_count\":");
    push_chars(&mut out, &decimal_of(char_count as u64));
    push_str(&mut out, ",\"limit\":");
    push_chars(&mut out, &decimal_of(limit as u64));
    push_str(&mut out, ",\"limit_exceeded\":");
    if char_count > limit {
        out.push('t');
        out.push('r');
        out.push('u');
        out.push('e');
    } else {
        out.push('f');
        out.push('a');
        out.push('l');
        out.push('s');
        out.push('e');
    }
    out.push('}');
    assert(out@ =~= json_text(text@, char_count as nat, limit as nat));
    string_of(&out)
}

/// The object reports that the limit is exceeded exactly if the character count
/// is strictly greater than the limit: it ends in `:true}` in that case and in no
/// other.
pub proof fn lemma_limit_exceeded_iff_over(text: Seq<char>, char_count: nat, limit: nat)
    ensures
        ends_with(json_text(text, char_count, limit), seq![':', 't', 'r', 'u', 'e', '}'])
            <==> char_count > limit,
        ends_with(json_text(text, char_count, limit), seq![':', 'f', 'a', 'l', 's', 'e', '}'])
            <==> char_count <= limit,
{
    reveal_strlit(",\"limit_exceeded\":");
    let json = json_text(text, char_count, limit);
    let head = "{\"text\":\""@ + json_escaped(text) + "\",\"char_count\":"@ + decimal(char_count)
        + ",\"limit\":"@ + decimal(limit);
    let field = ",\"limit_exceeded\":"@;
    let n = json.len() as int;
    assert(field.len() == 18);
    assert(field[17] == ':');
    if char_count > limit {
        assert(json =~= head + field + seq!['t', 'r', 'u', 'e', '}']);
        assert(json.subrange(n - 6, n) =~= seq![':', 't', 'r', 'u', 'e', '}']);
        assert(json[n - 6] == ':');
        if ends_with(json, seq![':', 'f', 'a', 'l', 's', 'e', '}']) {
            assert(json.subrange(n - 7, n)[1] == 'f');
        }
    } else {
        assert(json =~= head + field + seq!['f', 'a', 'l', 's', 'e', '}']);
        assert(json.subrange(n - 7, n) =~= seq![':', 'f', 'a', 'l', 's', 'e', '}']);
        assert(json[n - 6] == 'f');
        if ends_with(json, seq![':', 't', 'r', 'u', 'e', '}']) {
            assert(json.subrange(n - 6, n)[0] == ':');
        }
    }
}

} // verus!
