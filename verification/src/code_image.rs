//! The parts of drawing a code block as an image that are plain text work: file
//! names, tab expansion, markup escaping, colours, and the report of a failure.

use crate::carbon::{hex_digit, hex_digit_char};
use crate::text::{
    chars_of, decimal, decimal_of, decimal_padded, decimal_padded_of, optional_str,
    optional_string, push_chars, push_str, slice_chars, string_of,
};
use vstd::prelude::*;

verus! {

/// The files that hold a drawn code block.
#[derive(Clone, Debug, PartialEq, Eq)]
pub struct CodeImagePaths {
    pub png: String,
    pub svg: String,
}

/// The step at which drawing a code block failed.
#[derive(Clone, Copy, Debug, PartialEq, Eq, Structural)]
pub enum CodeImageErrorKind {
    CreateDir,
    NoTheme,
    Highlight,
    WriteSvg,
    LoadFont,
    ParseSvg,
    CreatePixmap,
    SavePng,
}

/// Why a code block could not be drawn.
#[derive(Clone, Debug, PartialEq, Eq)]
pub struct CodeImageError {
    pub kind: CodeImageErrorKind,
    /// What the failing step reported, if it reported anything.
    pub detail: Option<String>,
}

/// The words that name a failure of the given kind.
pub open spec fn kind_label(kind: CodeImageErrorKind) -> Seq<char> {
    match kind {
        CodeImageErrorKind::CreateDir => "create output dir failed"@,
        CodeImageErrorKind::NoTheme => "no themes available"@,
        CodeImageErrorKind::Highlight => "highlight failed"@,
        CodeImageErrorKind::WriteSvg => "write svg failed"@,
        CodeImageErrorKind::LoadFont => "load font failed"@,
        CodeImageErrorKind::ParseSvg => "parse svg failed"@,
        CodeImageErrorKind::CreatePixmap => "create pixmap failed"@,
        CodeImageErrorKind::SavePng => "save png failed"@,
    }
}

/// The message of a failure: its label, then a colon and the detail if there is one.
pub open spec fn error_message(kind: CodeImageErrorKind, detail: Option<Seq<char>>) -> Seq<char> {
    match detail {
        Some(d) => kind_label(kind) + seq![':', ' '] + d,
        None => kind_label(kind),
    }
}

impl CodeImageError {
    /// The failure of the given kind with the given detail.
    pub fn new(kind: CodeImageErrorKind, detail: Option<String>) -> (r: CodeImageError)
        ensures
            r.kind == kind,
            r.detail == detail,
    {
        CodeImageError { kind, detail }
    }

    /// The message to report.
    pub fn message(&self) -> (r: String)
        ensures
            r@ == error_message(self.kind, optional_string(self.detail)),
    {
        let mut out: Vec<char> = Vec::new();
        match self.kind {
            CodeImageErrorKind::CreateDir => push_str(&mut out, "create output dir failed"),
            CodeImageErrorKind::NoTheme => push_str(&mut out, "no themes available"),
            CodeImageErrorKind::Highlight => push_str(&mut out, "highlight failed"),
            CodeImageErrorKind::WriteSvg => push_str(&mut out, "write svg failed"),
            CodeImageErrorKind::LoadFont => push_str(&mut out, "load font failed"),
            CodeImageErrorKind::ParseSvg => push_str(&mut out, "parse svg failed"),
            CodeImageErrorKind::CreatePixmap => push_str(&mut out, "create pixmap failed"),
            CodeImageErrorKind::SavePng => push_str(&mut out, "save png failed"),
        }
        match &self.detail {
            Some(d) => {
                out.push(':');
                out.push(' ');
                push_str(&mut out, d.as_str());
            },
            None => {},
        }
        assert(out@ =~= error_message(self.kind, optional_string(self.detail)));
        string_of(&out)
    }
}

/// The views of a sequence of names.
pub open spec fn name_views(names: Seq<String>) -> Seq<Seq<char>> {
    names.map_values(|n: String| n@)
}

/// Picks the theme to draw with: the one named `name` if it is available, else
/// the first available one. Fails exactly if no theme is available.
pub fn pick_theme(available: &Vec<String>, name: &str) -> (r: Result<usize, CodeImageError>)
    ensures
        r is Ok <==> available.len() > 0,
        r is Ok ==> r->Ok_0 < available.len() && (if name_views(available@).contains(name@) {
            available@[r->Ok_0 as int]@ == name@ && forall|j: int|
                0 <= j < r->Ok_0 ==> available@[j]@ != name@
        } else {
            r->Ok_0 == 0
        }),
        r is Err ==> r->Err_0.kind == CodeImageErrorKind::NoTheme && r->Err_0.detail is None,
{
    let wanted = name.to_owned();
    let mut i: usize = 0;
    while i < available.len()
        invariant
            i <= available.len(),
            wanted@ == name@,
            forall|j: int| 0 <= j < i ==> available@[j]@ != name@,
        decreases available.len() - i,
    {
        if available[i] == wanted {
            assert(name_views(available@)[i as int] == name@);
            return Ok(i);
        }
        i += 1;
    }
    assert(!name_views(available@).contains(name@)) by {
        if name_views(available@).contains(name@) {
            let j = choose|j: int|
                0 <= j < name_views(available@).len() && name_views(available@)[j] == name@;
            assert(available@[j]@ == name@);
        }
    }
    if available.len() > 0 {
        Ok(0)
    } else {
        Err(CodeImageError::new(CodeImageErrorKind::NoTheme, None))
    }
}

/// Whether `c` is an ASCII letter or digit.
pub open spec fn ascii_alphanumeric(c: char) -> bool {
    ('A' <= c && c <= 'Z') || ('a' <= c && c <= 'z') || ('0' <= c && c <= '9')
}

/// What `c` becomes in a file name: letters, digits, `-` and `_` stay, a space
/// or a dot becomes `_`, and any other character is dropped.
pub open spec fn sanitized_char(c: char) -> Seq<char> {
    if ascii_alphanumeric(c) || c == '-' || c == '_' {
        seq![c]
    } else if c == ' ' || c == '.' {
        seq!['_']
    } else {
        Seq::empty()
    }
}

/// The characters of `name` that a file name keeps, in order.
pub open spec fn sanitized_chars(name: Seq<char>) -> Seq<char>
    decreases name.len(),
{
    if name.len() == 0 {
        Seq::empty()
    } else {
        sanitized_chars(name.drop_last()) + sanitized_char(name.last())
    }
}

/// `name` as the stem of a file name; `code` where nothing of it is kept.
pub open spec fn sanitized(name: Seq<char>) -> Seq<char> {
    if sanitized_chars(name).len() == 0 {
        seq!['c', 'o', 'd', 'e']
    } else {
        sanitized_chars(name)
    }
}

/// Makes `name` fit to be the stem of a file name.
pub fn sanitize_filename(name: &str) -> (r: String)
    ensures
        r@ == sanitized(name@),
{
    let chars = chars_of(name);
    let mut out: Vec<char> = Vec::new();
    let mut i: usize = 0;
    while i < chars.len()
        invariant
            i <= chars.len(),
            out@ == sanitized_chars(chars@.take(i as int)),
        decreases chars.len() - i,
    {
        let c: char = chars[i];
        assert(chars@.take(i + 1).drop_last() == chars@.take(i as int));
        if ('A' <= c && c <= 'Z') || ('a' <= c && c <= 'z') || ('0' <= c && c <= '9') || c == '-'
            || c == '_' {
            out.push(c);
        } else if c == ' ' || c == '.' {
            out.push('_');
        }
        i += 1;
        assert(out@ =~= sanitized_chars(chars@.take(i as int)));
    }
    assert(chars@.take(i as int) == chars@);
    if out.len() == 0 {
        out.push('c');
        out.push('o');
        out.push('d');
        out.push('e');
        assert(out@ =~= seq!['c', 'o', 'd', 'e']);
    }
    string_of(&out)
}

/// The language that names the files of a code block; `code` if it has none.
pub open spec fn stem_base(language: Option<Seq<char>>) -> Seq<char> {
    match language {
        Some(lang) => sanitized(lang),
        None => seq!['c', 'o', 'd', 'e'],
    }
}

/// The stem of the files of the code block with the given ordinal: the
/// sanitized language, a hyphen, and the ordinal counted from one in at least
/// three digits.
pub open spec fn image_stem_text(language: Option<Seq<char>>, index: nat) -> Seq<char> {
    stem_base(language) + seq!['-'] + decimal_padded(index + 1, 3)
}

/// The stem of the files of the code block with the given ordinal.
pub fn image_stem(language: Option<&str>, index: usize) -> (r: String)
    requires
        index < usize::MAX,
    ensures
        r@ == image_stem_text(optional_str(language), index as nat),
{
    let mut out: Vec<char> = match language {
        Some(lang) => chars_of(sanitize_filename(lang).as_str()),
        None => {
            let mut word: Vec<char> = Vec::new();
            word.push('c');
            word.push('o');
            word.push('d');
            word.push('e');
            assert(word@ =~= seq!['c', 'o', 'd', 'e']);
            word
        },
    };
    out.push('-');
    push_chars(&mut out, &decimal_padded_of((index + 1) as u64, 3));
    string_of(&out)
}

/// `input` with each tab replaced by spaces up to the next multiple of
/// `tab_width` columns.
pub open spec fn tabs_expanded(input: Seq<char>, tab_width: nat) -> Seq<char>
    decreases input.len(),
{
    if input.len() == 0 {
        Seq::empty()
    } else {
        let before = tabs_expanded(input.drop_last(), tab_width);
        if input.last() == '\t' && tab_width > 0 {
            before + Seq::new((tab_width - before.len() % tab_width) as nat, |i: int| ' ')
        } else {
            before.push(input.last())
        }
    }
}

/// Replaces each tab of `input` by spaces up to the next tab stop.
pub fn expand_tabs(input: &str, tab_width: usize) -> (r: String)
    requires
        tab_width > 0,
    ensures
        r@ == tabs_expanded(input@, tab_width as nat),
{
    let chars = chars_of(input);
    let mut out: Vec<char> = Vec::new();
    let mut i: usize = 0;
    while i < chars.len()
        invariant
            i <= chars.len(),
            tab_width > 0,
            out@ == tabs_expanded(chars@.take(i as int), tab_width as nat),
        decreases chars.len() - i,
    {
        let c: char = chars[i];
        assert(chars@.take(i + 1).drop_last() == chars@.take(i as int));
        if c == '\t' {
            let ghost before = out@;
            let spaces: usize = tab_width - out.len() % tab_width;
            let mut k: usize = 0;
            while k < spaces
                invariant
                    k <= spaces,
                    out@ == before + Seq::new(k as nat, |i: int| ' '),
                decreases spaces - k,
            {
                out.push(' ');
                k += 1;
                assert(out@ =~= before + Seq::new(k as nat, |i: int| ' '));
            }
        } else {
            out.push(c);
        }
        i += 1;
    }
    assert(chars@.take(i as int) == chars@);
    string_of(&out)
}

/// How one character stands in markup: `&`, `<`, `>`, `"` and `'` are written
/// as entities, all others stand as they are.
pub open spec fn xml_escaped_char(c: char) -> Seq<char> {
    if c == '&' {
        "&amp;"@
    } else if c == '<' {
        "&lt;"@
    } else if c == '>' {
        "&gt;"@
    } else if c == '"' {
        "&quot;"@
    } else if c == '\'' {
        "&apos;"@
    } else {
        seq![c]
    }
}

/// `input` with each of its characters escaped for markup.
pub open spec fn xml_escaped(input: Seq<char>) -> Seq<char>
    decreases input.len(),
{
    if input.len() == 0 {
        Seq::empty()
    } else {
        xml_escaped(input.drop_last()) + xml_escaped_char(input.last())
    }
}

/// Escapes `input` for markup.
pub fn escape_xml(input: &str) -> (r: String)
    ensures
        r@ == xml_escaped(input@),
{
    let chars = chars_of(input);
    let mut out: Vec<char> = Vec::new();
    let mut i: usize = 0;
    while i < chars.len()
        invariant
            i <= chars.len(),
            out@ == xml_escaped(chars@.take(i as int)),
        decreases chars.len() - i,
    {
        let c: char = chars[i];
        assert(chars@.take(i + 1).drop_last() == chars@.take(i as int));
        if c == '&' {
            push_str(&mut out, "&amp;");
        } else if c == '<' {
            push_str(&mut out, "&lt;");
        } else if c == '>' {
            push_str(&mut out, "&gt;");
        } else if c == '"' {
            push_str(&mut out, "&quot;");
        } else if c == '\'' {
            push_str(&mut out, "&apos;");
        } else {
            out.push(c);
        }
        i += 1;
    }
    assert(chars@.take(i as int) == chars@);
    string_of(&out)
}

/// A colour as markup writes it: `#` and two upper-case hexadecimal digits for
/// each of red, green and blue.
pub open spec fn hex_color_text(r: u8, g: u8, b: u8) -> Seq<char> {
    seq![
        '#',
        hex_digit_char(r / 16),
        hex_digit_char(r % 16),
        hex_digit_char(g / 16),
        hex_digit_char(g % 16),
        hex_digit_char(b / 16),
        hex_digit_char(b % 16),
    ]
}

/// Writes a colour for markup.
pub fn hex_color(r: u8, g: u8, b: u8) -> (text: String)
    ensures
        text@ == hex_color_text(r, g, b),
{
    let mut out: Vec<char> = Vec::new();
    out.push('#');
    out.push(hex_digit(r / 16));
    out.push(hex_digit(r % 16));
    out.push(hex_digit(g / 16));
    out.push(hex_digit(g % 16));
    out.push(hex_digit(b / 16));
    out.push(hex_digit(b % 16));
    assert(out@ =~= hex_color_text(r, g, b));
    string_of(&out)
}

/// A stretch of one line of code and the colour it is shown in.
#[derive(Clone, Debug, PartialEq, Eq)]
pub struct Span {
    pub red: u8,
    pub green: u8,
    pub blue: u8,
    pub text: String,
}

/// A stretch of one line as it is drawn: its colour as markup writes it, and
/// its text with tabs expanded.
#[derive(Clone, Debug, PartialEq, Eq)]
pub struct Token {
    pub color: String,
    pub text: String,
}

/// What a `Span` holds, with its text as a character sequence.
pub struct SpanModel {
    pub red: u8,
    pub green: u8,
    pub blue: u8,
    pub text: Seq<char>,
}

/// What a `Token` holds, with its texts as character sequences.
pub struct TokenModel {
    pub color: Seq<char>,
    pub text: Seq<char>,
}

impl View for Span {
    type V = SpanModel;

    open spec fn view(&self) -> SpanModel {
        SpanModel { red: self.red, green: self.green, blue: self.blue, text: self.text@ }
    }
}

impl View for Token {
    type V = TokenModel;

    open spec fn view(&self) -> TokenModel {
        TokenModel { color: self.color@, text: self.text@ }
    }
}

/// The models of a sequence of spans.
pub open spec fn span_models(spans: Seq<Span>) -> Seq<SpanModel> {
    spans.map_values(|s: Span| s@)
}

/// The models of a sequence of tokens.
pub open spec fn token_models(tokens: Seq<Token>) -> Seq<TokenModel> {
    tokens.map_values(|t: Token| t@)
}

/// The number of columns between tab stops in a drawn code block.
pub const TAB_WIDTH: usize = 4;

/// `text` without the newlines at its end.
pub open spec fn without_line_end(text: Seq<char>) -> Seq<char>
    decreases text.len(),
{
    if text.len() > 0 && text.last() == '\n' {
        without_line_end(text.drop_last())
    } else {
        text
    }
}

/// The tokens of a line: one for each span that holds more than newlines.
pub open spec fn tokens_of(spans: Seq<SpanModel>) -> Seq<TokenModel>
    decreases spans.len(),
{
    if spans.len() == 0 {
        Seq::empty()
    } else {
        let before = tokens_of(spans.drop_last());
        let span = spans.last();
        let text = without_line_end(span.text);
        if text.len() == 0 {
            before
        } else {
            before.push(
                TokenModel {
                    color: hex_color_text(span.red, span.green, span.blue),
                    text: tabs_expanded(text, TAB_WIDTH as nat),
                },
            )
        }
    }
}

/// The number of characters in the texts of `tokens`.
pub open spec fn columns(tokens: Seq<TokenModel>) -> nat
    decreases tokens.len(),
{
    if tokens.len() == 0 {
        0
    } else {
        columns(tokens.drop_last()) + tokens.last().text.len()
    }
}

/// The length of `v` without the newlines at its end.
fn line_end_index(v: &Vec<char>) -> (n: usize)
    ensures
        n <= v.len(),
        v@.take(n as int) == without_line_end(v@),
{
    let mut n: usize = v.len();
    assert(v@.take(n as int) == v@);
    while n > 0 && v[n - 1] == '\n'
        invariant
            n <= v.len(),
            without_line_end(v@.take(n as int)) == without_line_end(v@),
        decreases n,
    {
        assert(v@.take(n as int).drop_last() == v@.take(n as int - 1));
        n -= 1;
    }
    n
}

/// The tokens of one line of highlighted code.
pub fn line_tokens(spans: &Vec<Span>) -> (tokens: Vec<Token>)
    ensures
        token_models(tokens@) == tokens_of(span_models(spans@)),
{
    let mut tokens: Vec<Token> = Vec::new();
    let mut i: usize = 0;
    while i < spans.len()
        invariant
            i <= spans.len(),
            token_models(tokens@) == tokens_of(span_models(spans@.take(i as int))),
        decreases spans.len() - i,
    {
        let span = &spans[i];
        let chars = chars_of(span.text.as_str());
        let n = line_end_index(&chars);
        proof {
            let upto = span_models(spans@.take(i + 1));
            assert(upto.drop_last() =~= span_models(spans@.take(i as int)));
            assert(upto.last() == spans@[i as int]@);
        }
        if n > 0 {
            let text = string_of(&slice_chars(&chars, 0, n));
            let ghost before = tokens@;
            let token = Token {
                color: hex_color(span.red, span.green, span.blue),
                text: expand_tabs(text.as_str(), TAB_WIDTH),
            };
            tokens.push(token);
            assert(token_models(tokens@) =~= token_models(before).push(token@));
        }
        i += 1;
    }
    assert(spans@.take(i as int) == spans@);
    tokens
}

/// The number of characters in the texts of `tokens`, or the greatest number
/// there is if they are more.
pub fn token_columns(tokens: &Vec<Token>) -> (n: usize)
    ensures
        n == if columns(token_models(tokens@)) <= usize::MAX {
            columns(token_models(tokens@))
        } else {
            usize::MAX as nat
        },
{
    let mut n: usize = 0;
    let mut i: usize = 0;
    while i < tokens.len()
        invariant
            i <= tokens.len(),
            n == if columns(token_models(tokens@.take(i as int))) <= usize::MAX {
                columns(token_models(tokens@.take(i as int)))
            } else {
                usize::MAX as nat
            },
        decreases tokens.len() - i,
    {
        let len = chars_of(tokens[i].text.as_str()).len();
        proof {
            let upto = token_models(tokens@.take(i + 1));
            assert(upto.drop_last() =~= token_models(tokens@.take(i as int)));
            assert(upto.last() == tokens@[i as int]@);
        }
        n = if len > usize::MAX - n {
            usize::MAX
        } else {
            n + len
        };
        i += 1;
    }
    assert(tokens@.take(i as int) == tokens@);
    n
}

/// The opening of the markup of a drawn code block: the root element with the
/// size of the drawing, and the rounded rectangle that fills it.
pub open spec fn svg_open_text(width: nat, height: nat, background: Seq<char>) -> Seq<char> {
    "<svg xmlns=\"http://www.w3.org/2000/svg\" width=\""@ + decimal(width) + "\" height=\""@
        + decimal(height) + "\" viewBox=\"0 0 "@ + decimal(width) + seq![' '] + decimal(height)
        + "\">"@ + "<rect width=\"100%\" height=\"100%\" fill=\""@ + background
        + "\" rx=\"6\" />"@
}

/// Writes the opening of the markup of a drawn code block.
pub fn svg_open(width: u32, height: u32, background: &str) -> (r: String)
    ensures
        r@ == svg_open_text(width as nat, height as nat, background@),
{
    let w = decimal_of(width as u64);
    let h = decimal_of(height as u64);
    let mut out: Vec<char> = Vec::new();
    push_str(&mut out, "<svg xmlns=\"http://www.w3.org/2000/svg\" width=\"");
    push_chars(&mut out, &w);
    push_str(&mut out, "\" height=\"");
    push_chars(&mut out, &h);
    push_str(&mut out, "\" viewBox=\"0 0 ");
    push_chars(&mut out, &w);
    out.push(' ');
    push_chars(&mut out, &h);
    push_str(&mut out, "\">");
    push_str(&mut out, "<rect width=\"100%\" height=\"100%\" fill=\"");
    push_str(&mut out, background);
    push_str(&mut out, "\" rx=\"6\" />");
    assert(out@ =~= svg_open_text(width as nat, height as nat, background@));
    string_of(&out)
}

/// The markup of one token: a text element at the given place, in the token's
/// colour, holding the token's text escaped.
pub open spec fn svg_text_element(
    x: Seq<char>,
    y: Seq<char>,
    token: TokenModel,
    font_family: Seq<char>,
    font_size: Seq<char>,
) -> Seq<char> {
    "<text x=\""@ + x + "\" y=\""@ + y + "\" fill=\""@ + token.color + "\" font-family=\""@
        + font_family + "\" font-size=\""@ + font_size + "\" xml:space=\"preserve\">"@
        + xml_escaped(token.text) + "</text>"@
}

/// Writes the markup of one token. The place and the font size are given as
/// they are to stand in the markup.
pub fn svg_text(x: &str, y: &str, token: &Token, font_family: &str, font_size: &str) -> (r: String)
    ensures
        r@ == svg_text_element(x@, y@, token@, font_family@, font_size@),
{
    let escaped = escape_xml(token.text.as_str());
    let mut out: Vec<char> = Vec::new();
    push_str(&mut out, "<text x=\"");
    push_str(&mut out, x);
    push_str(&mut out, "\" y=\"");
    push_str(&mut out, y);
    push_str(&mut out, "\" fill=\"");
    push_str(&mut out, token.color.as_str());
    push_str(&mut out, "\" font-family=\"");
    push_str(&mut out, font_family);
    push_str(&mut out, "\" font-size=\"");
    push_str(&mut out, font_size);
    push_str(&mut out, "\" xml:space=\"preserve\">");
    push_str(&mut out, escaped.as_str());
    push_str(&mut out, "</text>");
    assert(out@ =~= svg_text_element(x@, y@, token@, font_family@, font_size@));
    string_of(&out)
}

} // verus!
