//! The converter: a single pass over the events of a Markdown document that
//! writes styled plain text, tracking the open styles, the open lists and the
//! code block being captured.

use crate::carbon::{carbon_url, carbon_url_text};
use crate::code_image::CodeImagePaths;
use crate::events::{
    event_models, markdown_events, parse_events, EventModel, MdEvent, MdTag, MdTagEnd, TagModel,
};
use crate::text::{
    chars_of, decimal, decimal_of, first_word, first_word_of, optional_chars, optional_string,
    push_chars, push_str, string_of, trim, trim_end, trimmed, trimmed_end,
};
use crate::unicode::{style_chars, styled, TextStyle};
use vstd::prelude::*;

verus! {

/// What becomes of a code block.
#[derive(Clone, Copy, Debug, PartialEq, Eq, Structural)]
pub enum CodeBlockMode {
    /// The block is left out.
    Omit,
    /// The block's text is kept.
    Text,
    /// The block is replaced by the address of a code viewer.
    Carbon,
    /// The block is handed out to be drawn as an image.
    Image,
}

/// The settings of one conversion.
#[derive(Clone, Debug)]
pub struct ConvertOptions {
    pub code_block_mode: CodeBlockMode,
    /// What stands before each item of an unordered list.
    pub bullet: String,
    /// Whether leading and trailing whitespace is removed from the result.
    pub trim_output: bool,
    /// Whether text is left in plain letters whatever its style.
    pub plain: bool,
}

/// The settings of one conversion, with the bullet as a character sequence.
pub struct OptionsModel {
    pub code_block_mode: CodeBlockMode,
    pub bullet: Seq<char>,
    pub trim_output: bool,
    pub plain: bool,
}

impl View for ConvertOptions {
    type V = OptionsModel;

    open spec fn view(&self) -> OptionsModel {
        OptionsModel {
            code_block_mode: self.code_block_mode,
            bullet: self.bullet@,
            trim_output: self.trim_output,
            plain: self.plain,
        }
    }
}

/// The default settings: code blocks omitted, a bullet glyph, trimmed, styled.
pub open spec fn default_options() -> OptionsModel {
    OptionsModel {
        code_block_mode: CodeBlockMode::Omit,
        bullet: seq!['\u{2022}'],
        trim_output: true,
        plain: false,
    }
}

impl Default for ConvertOptions {
    fn default() -> (r: ConvertOptions)
        ensures
            r@ == default_options(),
    {
        let mut bullet: Vec<char> = Vec::new();
        bullet.push('\u{2022}');
        assert(bullet@ == seq!['\u{2022}']);
        ConvertOptions {
            code_block_mode: CodeBlockMode::Omit,
            bullet: string_of(&bullet),
            trim_output: true,
            plain: false,
        }
    }
}

/// An open list: whether its items are numbered, and the number of its next item.
#[derive(Clone, Copy, Debug, PartialEq, Eq, Structural)]
pub struct ListContext {
    pub ordered: bool,
    pub next_index: u64,
}

/// `text` as it is written under `style`: unchanged if `plain` is set or the
/// style is normal, else with its letters mapped.
pub open spec fn applied_style(text: Seq<char>, style: TextStyle, plain: bool) -> Seq<char> {
    if plain || style == TextStyle::Normal {
        text
    } else {
        styled(text, style)
    }
}

/// `output`, followed by a newline unless it already ends with one.
pub open spec fn with_newline(output: Seq<char>) -> Seq<char> {
    if output.len() > 0 && output.last() == '\n' {
        output
    } else {
        output.push('\n')
    }
}

/// `output`, ending with a blank line: unchanged if it is empty or already ends
/// with two newlines, else completed by one newline or by two.
pub open spec fn with_blank_line(output: Seq<char>) -> Seq<char> {
    if output.len() == 0 {
        output
    } else if output.last() != '\n' {
        output.push('\n').push('\n')
    } else if output.len() >= 2 && output[output.len() - 2] == '\n' {
        output
    } else {
        output.push('\n')
    }
}

/// `output`, followed by a newline if it is not empty and does not end with one.
pub open spec fn at_line_start(output: Seq<char>) -> Seq<char> {
    if output.len() > 0 && output.last() != '\n' {
        output.push('\n')
    } else {
        output
    }
}

/// The style at the top of the stack; normal if the stack is empty.
pub open spec fn effective_style(styles: Seq<TextStyle>) -> TextStyle {
    if styles.len() > 0 {
        styles.last()
    } else {
        TextStyle::Normal
    }
}

/// The style of a strong span opened under `current`.
pub open spec fn strong_under(current: TextStyle) -> TextStyle {
    if current == TextStyle::Italic {
        TextStyle::BoldItalic
    } else {
        TextStyle::Bold
    }
}

/// The style of an emphasised span opened under `current`.
pub open spec fn emphasis_under(current: TextStyle) -> TextStyle {
    if current == TextStyle::Bold {
        TextStyle::BoldItalic
    } else {
        TextStyle::Italic
    }
}

/// The stack without its top frame; the bottom frame is never removed.
pub open spec fn popped(styles: Seq<TextStyle>) -> Seq<TextStyle> {
    if styles.len() > 1 {
        styles.drop_last()
    } else {
        styles
    }
}

/// The context of a list that declares `start` as the number of its first item.
pub open spec fn opened_list(start: Option<u64>) -> ListContext {
    match start {
        Some(n) => ListContext { ordered: true, next_index: n },
        None => ListContext { ordered: false, next_index: 1 },
    }
}

/// The number that follows `n`; the counter starts over after its last value.
pub open spec fn following_index(n: u64) -> u64 {
    if n == u64::MAX {
        0
    } else {
        (n + 1) as u64
    }
}

/// The ordinal that follows `n`; the counter starts over after its last value.
pub open spec fn following_ordinal(n: usize) -> usize {
    if n == usize::MAX {
        0
    } else {
        (n + 1) as usize
    }
}

/// What stands before an item: the number and `". "` in an ordered list, else
/// the bullet and a space.
pub open spec fn item_marker(lists: Seq<ListContext>, bullet: Seq<char>) -> Seq<char> {
    if lists.len() > 0 && lists.last().ordered {
        decimal(lists.last().next_index as nat) + seq!['.', ' ']
    } else {
        bullet.push(' ')
    }
}

/// The open lists after an item's marker was written: the innermost list, if
/// ordered, counts on.
pub open spec fn lists_after_item(lists: Seq<ListContext>) -> Seq<ListContext> {
    if lists.len() > 0 && lists.last().ordered {
        lists.update(
            lists.len() - 1,
            ListContext { ordered: true, next_index: following_index(lists.last().next_index) },
        )
    } else {
        lists
    }
}

/// The language of a code block: the first word of the fence's info string.
pub open spec fn fence_language(info: Option<Seq<char>>) -> Option<Seq<char>> {
    match info {
        Some(text) => first_word(text),
        None => None,
    }
}

/// What a finished code block adds to the output under `mode`.
pub open spec fn code_block_text(
    mode: CodeBlockMode,
    code: Seq<char>,
    language: Option<Seq<char>>,
) -> Seq<char> {
    match mode {
        CodeBlockMode::Omit => Seq::empty(),
        CodeBlockMode::Text => trim_end(code) + seq!['\n', '\n'],
        CodeBlockMode::Carbon => carbon_url_text(code, language) + seq!['\n', '\n'],
        CodeBlockMode::Image => Seq::empty(),
    }
}

/// What the destination of a closing link or image adds to the output.
pub open spec fn link_suffix(pending_url: Option<Seq<char>>, in_code_block: bool) -> Seq<char> {
    match pending_url {
        Some(url) => if in_code_block {
            Seq::empty()
        } else {
            seq![' ', '('] + url + seq![')']
        },
        None => Seq::empty(),
    }
}

/// The two lines that name the files of a drawn code block, and a blank line.
pub open spec fn image_lines(png: Seq<char>, svg: Seq<char>) -> Seq<char> {
    "Code image (png): "@ + png + seq!['\n'] + "Code image (svg): "@ + svg + seq!['\n', '\n']
}

/// The state of a conversion between two events.
pub struct ConverterModel {
    /// The text written so far.
    pub output: Seq<char>,
    /// The open styles, innermost last, above a bottom frame that is normal.
    pub styles: Seq<TextStyle>,
    /// The open lists, innermost last.
    pub lists: Seq<ListContext>,
    pub in_code_block: bool,
    /// The text captured since the last code block began.
    pub code: Seq<char>,
    /// The language of the code block being captured.
    pub language: Option<Seq<char>>,
    /// The number of code blocks that have ended.
    pub code_index: usize,
    /// The destination of the link or image that is open.
    pub pending_url: Option<Seq<char>>,
}

/// A code block that is to be drawn as an image.
pub struct ImageRequestModel {
    pub code: Seq<char>,
    pub language: Option<Seq<char>>,
    pub index: usize,
}

impl ConverterModel {
    /// The state before the first event.
    pub open spec fn initial() -> ConverterModel {
        ConverterModel {
            output: Seq::empty(),
            styles: seq![TextStyle::Normal],
            lists: Seq::empty(),
            in_code_block: false,
            code: Seq::empty(),
            language: None,
            code_index: 0,
            pending_url: None,
        }
    }

    /// The style stack is never empty and its bottom frame is normal.
    pub open spec fn wf(self) -> bool {
        self.styles.len() >= 1 && self.styles[0] == TextStyle::Normal
    }

    /// The state with one more style frame.
    pub open spec fn enter(self, style: TextStyle) -> ConverterModel {
        ConverterModel { styles: self.styles.push(style), ..self }
    }

    /// The state after an element opens.
    pub open spec fn start(self, tag: TagModel, options: OptionsModel) -> ConverterModel {
        match tag {
            TagModel::Heading => self.enter(TextStyle::Bold),
            TagModel::Strong => self.enter(strong_under(effective_style(self.styles))),
            TagModel::Emphasis => self.enter(emphasis_under(effective_style(self.styles))),
            TagModel::BlockQuote => self.enter(TextStyle::Italic),
            TagModel::List(start) => ConverterModel {
                lists: self.lists.push(opened_list(start)),
                ..self
            },
            TagModel::Item => ConverterModel {
                output: at_line_start(self.output) + item_marker(self.lists, options.bullet),
                lists: lists_after_item(self.lists),
                ..self
            },
            TagModel::Link(url) => ConverterModel { pending_url: Some(url), ..self },
            TagModel::Image(url) => ConverterModel { pending_url: Some(url), ..self },
            TagModel::CodeBlock(info) => ConverterModel {
                in_code_block: true,
                code: Seq::empty(),
                language: fence_language(info),
                ..self
            },
            TagModel::Other => self,
        }
    }

    /// The state after a link or an image closes.
    pub open spec fn close_link(self) -> ConverterModel {
        ConverterModel {
            output: self.output + link_suffix(self.pending_url, self.in_code_block),
            pending_url: None,
            ..self
        }
    }

    /// The state after an element closes.
    pub open spec fn end(self, end: MdTagEnd, options: OptionsModel) -> ConverterModel {
        match end {
            MdTagEnd::Paragraph => ConverterModel {
                output: with_blank_line(self.output),
                ..self
            },
            MdTagEnd::Heading => ConverterModel {
                styles: popped(self.styles),
                output: with_blank_line(self.output),
                ..self
            },
            MdTagEnd::Strong => ConverterModel { styles: popped(self.styles), ..self },
            MdTagEnd::Emphasis => ConverterModel { styles: popped(self.styles), ..self },
            MdTagEnd::BlockQuote => ConverterModel {
                styles: popped(self.styles),
                output: with_newline(self.output),
                ..self
            },
            MdTagEnd::List => ConverterModel {
                lists: if self.lists.len() > 0 {
                    self.lists.drop_last()
                } else {
                    self.lists
                },
                output: with_blank_line(self.output),
                ..self
            },
            MdTagEnd::Item => ConverterModel { output: with_newline(self.output), ..self },
            MdTagEnd::Link => self.close_link(),
            MdTagEnd::Image => self.close_link(),
            MdTagEnd::CodeBlock => ConverterModel {
                in_code_block: false,
                output: self.output + code_block_text(
                    options.code_block_mode,
                    self.code,
                    self.language,
                ),
                language: None,
                code_index: following_ordinal(self.code_index),
                ..self
            },
            MdTagEnd::Other => self,
        }
    }

    /// The state after a run of text.
    pub open spec fn text(self, text: Seq<char>, options: OptionsModel) -> ConverterModel {
        if self.in_code_block {
            ConverterModel { code: self.code + text, ..self }
        } else {
            ConverterModel {
                output: self.output + applied_style(
                    text,
                    effective_style(self.styles),
                    options.plain,
                ),
                ..self
            }
        }
    }

    /// The state after a line break.
    pub open spec fn line_break(self) -> ConverterModel {
        if self.in_code_block {
            ConverterModel { code: self.code.push('\n'), ..self }
        } else {
            ConverterModel { output: with_newline(self.output), ..self }
        }
    }

    /// The state after one event.
    pub open spec fn step(self, event: EventModel, options: OptionsModel) -> ConverterModel {
        match event {
            EventModel::Start(tag) => self.start(tag, options),
            EventModel::End(end) => self.end(end, options),
            EventModel::Text(text) => self.text(text, options),
            EventModel::Code(code) => ConverterModel { output: self.output + code, ..self },
            EventModel::SoftBreak => self.line_break(),
            EventModel::HardBreak => self.line_break(),
            EventModel::Other => self,
        }
    }

    /// The code block that `event` hands out to be drawn: the one that ends with
    /// it, if code blocks are drawn as images.
    pub open spec fn image_request(self, event: EventModel, options: OptionsModel) -> Option<
        ImageRequestModel,
    > {
        if event == EventModel::End(MdTagEnd::CodeBlock) && options.code_block_mode
            == CodeBlockMode::Image {
            Some(
                ImageRequestModel {
                    code: self.code,
                    language: self.language,
                    index: self.code_index,
                },
            )
        } else {
            None
        }
    }

    /// The state after the events of `events`, in order.
    pub open spec fn run(self, events: Seq<EventModel>, options: OptionsModel) -> ConverterModel
        decreases events.len(),
    {
        if events.len() == 0 {
            self
        } else {
            self.run(events.drop_last(), options).step(events.last(), options)
        }
    }

    /// The state after the files of a drawn code block were named in the output.
    pub open spec fn with_image(self, png: Seq<char>, svg: Seq<char>) -> ConverterModel {
        ConverterModel { output: self.output + image_lines(png, svg), ..self }
    }

    /// The result of the conversion: the output, trimmed if the options say so.
    pub open spec fn finished(self, options: OptionsModel) -> Seq<char> {
        if options.trim_output {
            trim(self.output)
        } else {
            self.output
        }
    }
}

/// The text that a document with the given events is converted to.
pub open spec fn converted(events: Seq<EventModel>, options: OptionsModel) -> Seq<char> {
    ConverterModel::initial().run(events, options).finished(options)
}

/// A code block that is to be drawn as an image: its text, its language and
/// the number of code blocks that ended before it.
#[derive(Clone, Debug, PartialEq, Eq)]
pub struct ImageRequest {
    pub code: String,
    pub language: Option<String>,
    pub index: usize,
}

impl View for ImageRequest {
    type V = ImageRequestModel;

    open spec fn view(&self) -> ImageRequestModel {
        ImageRequestModel {
            code: self.code@,
            language: optional_string(self.language),
            index: self.index,
        }
    }
}

/// The view of an optional request.
pub open spec fn optional_request(request: Option<ImageRequest>) -> Option<ImageRequestModel> {
    match request {
        Some(r) => Some(r@),
        None => None,
    }
}

/// Appends a newline to `output` unless it ends with one.
pub fn ensure_newline(output: &mut Vec<char>)
    ensures
        final(output)@ == with_newline(old(output)@),
{
    let n = output.len();
    if n == 0 || output[n - 1] != '\n' {
        output.push('\n');
    }
}

/// Completes `output` to end with a blank line; an empty `output` stays empty.
pub fn ensure_blank_line(output: &mut Vec<char>)
    ensures
        final(output)@ == with_blank_line(old(output)@),
{
    let n = output.len();
    if n == 0 {
        return ;
    }
    if output[n - 1] != '\n' {
        output.push('\n');
        output.push('\n');
    } else if n < 2 || output[n - 2] != '\n' {
        output.push('\n');
    }
}

/// `text` written under `style`, or unchanged if `plain` is set.
pub fn apply_style(text: &str, style: TextStyle, plain: bool) -> (r: String)
    ensures
        r@ == applied_style(text@, style, plain),
{
    let chars = chars_of(text);
    if plain || style == TextStyle::Normal {
        string_of(&chars)
    } else {
        string_of(&style_chars(&chars, style))
    }
}

/// The state of a conversion between two events.
pub struct Converter {
    output: Vec<char>,
    styles: Vec<TextStyle>,
    lists: Vec<ListContext>,
    in_code_block: bool,
    code: Vec<char>,
    language: Option<Vec<char>>,
    code_index: usize,
    pending_url: Option<Vec<char>>,
}

impl View for Converter {
    type V = ConverterModel;

    closed spec fn view(&self) -> ConverterModel {
        ConverterModel {
            output: self.output@,
            styles: self.styles@,
            lists: self.lists@,
            in_code_block: self.in_code_block,
            code: self.code@,
            language: optional_chars(self.language),
            code_index: self.code_index,
            pending_url: optional_chars(self.pending_url),
        }
    }
}

impl Converter {
    /// The state before the first event.
    pub fn new() -> (r: Converter)
        ensures
            r@ == ConverterModel::initial(),
            r@.wf(),
    {
        let mut styles: Vec<TextStyle> = Vec::new();
        styles.push(TextStyle::Normal);
        assert(styles@ == seq![TextStyle::Normal]);
        Converter {
            output: Vec::new(),
            styles,
            lists: Vec::new(),
            in_code_block: false,
            code: Vec::new(),
            language: None,
            code_index: 0,
            pending_url: None,
        }
    }

    /// The style in which text is written now.
    fn current_style(&self) -> (style: TextStyle)
        ensures
            style == effective_style(self@.styles),
    {
        let n = self.styles.len();
        if n > 0 {
            self.styles[n - 1]
        } else {
            TextStyle::Normal
        }
    }

    /// Removes the top style frame, unless it is the bottom one.
    fn pop_style(&mut self)
        ensures
            final(self)@ == (ConverterModel { styles: popped(old(self)@.styles), ..old(self)@ }),
    {
        if self.styles.len() > 1 {
            self.styles.pop();
        }
    }

    /// Writes the marker of a list item at the start of a line.
    fn start_item(&mut self, options: &ConvertOptions)
        ensures
            final(self)@ == old(self)@.start(TagModel::Item, options@),
    {
        let n = self.output.len();
        if n > 0 && self.output[n - 1] != '\n' {
            self.output.push('\n');
        }
        let depth = self.lists.len();
        if depth > 0 && self.lists[depth - 1].ordered {
            let index: u64 = self.lists[depth - 1].next_index;
            push_chars(&mut self.output, &decimal_of(index));
            self.output.push('.');
            self.output.push(' ');
            let next: u64 = if index == u64::MAX {
                0
            } else {
                index + 1
            };
            self.lists.pop();
            self.lists.push(ListContext { ordered: true, next_index: next });
            assert(self.lists@ =~= lists_after_item(old(self)@.lists));
        } else {
            push_str(&mut self.output, options.bullet.as_str());
            self.output.push(' ');
        }
        assert(self.output@ =~= at_line_start(old(self)@.output) + item_marker(
            old(self)@.lists,
            options@.bullet,
        ));
    }

    /// Takes in the opening of an element.
    fn start(&mut self, tag: &MdTag, options: &ConvertOptions)
        ensures
            final(self)@ == old(self)@.start(tag@, options@),
    {
        match tag {
            MdTag::Heading => {
                self.styles.push(TextStyle::Bold);
            },
            MdTag::Strong => {
                let style = if self.current_style() == TextStyle::Italic {
                    TextStyle::BoldItalic
                } else {
                    TextStyle::Bold
                };
                self.styles.push(style);
            },
            MdTag::Emphasis => {
                let style = if self.current_style() == TextStyle::Bold {
                    TextStyle::BoldItalic
                } else {
                    TextStyle::Italic
                };
                self.styles.push(style);
            },
            MdTag::BlockQuote => {
                self.styles.push(TextStyle::Italic);
            },
            MdTag::List(start) => {
                let context = match start {
                    Some(n) => ListContext { ordered: true, next_index: *n },
                    None => ListContext { ordered: false, next_index: 1 },
                };
                self.lists.push(context);
            },
            MdTag::Item => {
                self.start_item(options);
            },
            MdTag::Link(url) => {
                self.pending_url = Some(chars_of(url.as_str()));
            },
            MdTag::Image(url) => {
                self.pending_url = Some(chars_of(url.as_str()));
            },
            MdTag::CodeBlock(info) => {
                self.in_code_block = true;
                self.code = Vec::new();
                self.language = match info {
                    Some(text) => first_word_of(&chars_of(text.as_str())),
                    None => None,
                };
            },
            MdTag::Other => {},
        }
    }

    /// Writes the destination of the link or image that closes.
    fn close_link(&mut self)
        ensures
            final(self)@ == old(self)@.close_link(),
    {
        let pending = self.pending_url.take();
        match pending {
            Some(url) => {
                if !self.in_code_block {
                    self.output.push(' ');
                    self.output.push('(');
                    push_chars(&mut self.output, &url);
                    self.output.push(')');
                }
            },
            None => {},
        }
        assert(self.output@ =~= old(self)@.output + link_suffix(
            old(self)@.pending_url,
            old(self)@.in_code_block,
        ));
    }

    /// Writes what the code block that ends adds to the output, and hands the
    /// block out if it is to be drawn.
    fn end_code_block(&mut self, options: &ConvertOptions) -> (request: Option<ImageRequest>)
        ensures
            final(self)@ == old(self)@.end(MdTagEnd::CodeBlock, options@),
            optional_request(request) == old(self)@.image_request(
                EventModel::End(MdTagEnd::CodeBlock),
                options@,
            ),
    {
        self.in_code_block = false;
        let mut request: Option<ImageRequest> = None;
        match options.code_block_mode {
            CodeBlockMode::Omit => {},
            CodeBlockMode::Text => {
                push_chars(&mut self.output, &trimmed_end(&self.code));
                self.output.push('\n');
                self.output.push('\n');
            },
            CodeBlockMode::Carbon => {
                let code = string_of(&self.code);
                let url = match &self.language {
                    Some(lang) => {
                        let lang = string_of(lang);
                        carbon_url(code.as_str(), Some(lang.as_str()))
                    },
                    None => carbon_url(code.as_str(), None),
                };
                push_str(&mut self.output, url.as_str());
                self.output.push('\n');
                self.output.push('\n');
            },
            CodeBlockMode::Image => {
                let language = match &self.language {
                    Some(lang) => Some(string_of(lang)),
                    None => None,
                };
                request = Some(
                    ImageRequest { code: string_of(&self.code), language, index: self.code_index },
                );
            },
        }
        assert(self.output@ =~= old(self)@.output + code_block_text(
            options@.code_block_mode,
            old(self)@.code,
            old(self)@.language,
        ));
        self.language = None;
        self.code_index = if self.code_index == usize::MAX {
            0
        } else {
            self.code_index + 1
        };
        request
    }

    /// Takes in the closing of an element.
    fn end(&mut self, end: MdTagEnd, options: &ConvertOptions) -> (request: Option<ImageRequest>)
        ensures
            final(self)@ == old(self)@.end(end, options@),
            optional_request(request) == old(self)@.image_request(EventModel::End(end), options@),
    {
        match end {
            MdTagEnd::Paragraph => {
                ensure_blank_line(&mut self.output);
            },
            MdTagEnd::Heading => {
                self.pop_style();
                ensure_blank_line(&mut self.output);
            },
            MdTagEnd::Strong => {
                self.pop_style();
            },
            MdTagEnd::Emphasis => {
                self.pop_style();
            },
            MdTagEnd::BlockQuote => {
                self.pop_style();
                ensure_newline(&mut self.output);
            },
            MdTagEnd::List => {
                if self.lists.len() > 0 {
                    self.lists.pop();
                }
                ensure_blank_line(&mut self.output);
            },
            MdTagEnd::Item => {
                ensure_newline(&mut self.output);
            },
            MdTagEnd::Link => {
                self.close_link();
            },
            MdTagEnd::Image => {
                self.close_link();
            },
            MdTagEnd::CodeBlock => {
                return self.end_code_block(options);
            },
            MdTagEnd::Other => {},
        }
        None
    }

    /// Takes in a run of text.
    fn text(&mut self, text: &str, options: &ConvertOptions)
        ensures
            final(self)@ == old(self)@.text(text@, options@),
    {
        let chars = chars_of(text);
        if self.in_code_block {
            push_chars(&mut self.code, &chars);
        } else {
            let style = self.current_style();
            if options.plain || style == TextStyle::Normal {
                push_chars(&mut self.output, &chars);
            } else {
                push_chars(&mut self.output, &style_chars(&chars, style));
            }
        }
    }

    /// Takes in a line break.
    fn line_break(&mut self)
        ensures
            final(self)@ == old(self)@.line_break(),
    {
        if self.in_code_block {
            self.code.push('\n');
        } else {
            ensure_newline(&mut self.output);
        }
    }

    /// Takes in one event. Where the event ends a code block that is to be drawn
    /// as an image, the block is handed out; nothing is written for it until
    /// `image_rendered` is told of the files.
    pub fn step(&mut self, event: &MdEvent, options: &ConvertOptions) -> (request: Option<
        ImageRequest,
    >)
        ensures
            final(self)@ == old(self)@.step(event@, options@),
            old(self)@.wf() ==> final(self)@.wf(),
            optional_request(request) == old(self)@.image_request(event@, options@),
    {
        proof {
            if self@.wf() {
                lemma_step_keeps_wf(self@, event@, options@);
            }
        }
        match event {
            MdEvent::Start(tag) => {
                self.start(tag, options);
                None
            },
            MdEvent::End(end) => self.end(*end, options),
            MdEvent::Text(text) => {
                self.text(text.as_str(), options);
                None
            },
            MdEvent::Code(code) => {
                push_str(&mut self.output, code.as_str());
                None
            },
            MdEvent::SoftBreak => {
                self.line_break();
                None
            },
            MdEvent::HardBreak => {
                self.line_break();
                None
            },
            MdEvent::Other => None,
        }
    }

    /// Writes the two lines that name the files of a drawn code block.
    pub fn image_rendered(&mut self, paths: &CodeImagePaths)
        ensures
            final(self)@ == old(self)@.with_image(paths.png@, paths.svg@),
    {
        push_str(&mut self.output, "Code image (png): ");
        push_str(&mut self.output, paths.png.as_str());
        self.output.push('\n');
        push_str(&mut self.output, "Code image (svg): ");
        push_str(&mut self.output, paths.svg.as_str());
        self.output.push('\n');
        self.output.push('\n');
        assert(self.output@ =~= old(self)@.output + image_lines(paths.png@, paths.svg@));
    }

    /// The result of the conversion.
    pub fn finish(self, options: &ConvertOptions) -> (r: String)
        ensures
            r@ == self@.finished(options@),
    {
        if options.trim_output {
            string_of(&trimmed(&self.output))
        } else {
            string_of(&self.output)
        }
    }
}

/// Every step keeps the style stack well formed.
pub proof fn lemma_step_keeps_wf(state: ConverterModel, event: EventModel, options: OptionsModel)
    requires
        state.wf(),
    ensures
        state.step(event, options).wf(),
{
}

/// Converts a document given by its events.
pub fn convert_events(events: &Vec<MdEvent>, options: &ConvertOptions) -> (r: String)
    ensures
        r@ == converted(event_models(events@), options@),
{
    let mut converter = Converter::new();
    let mut i: usize = 0;
    while i < events.len()
        invariant
            i <= events.len(),
            converter@.wf(),
            converter@ == ConverterModel::initial().run(
                event_models(events@.take(i as int)),
                options@,
            ),
        decreases events.len() - i,
    {
        let _ = converter.step(&events[i], options);
        proof {
            let before = event_models(events@.take(i as int));
            let after = event_models(events@.take(i + 1));
            assert(after.drop_last() =~= before);
            assert(after.last() == events@[i as int]@);
        }
        i += 1;
    }
    assert(events@.take(i as int) == events@);
    converter.finish(options)
}

/// Converts Markdown into plain text. A code block that would be drawn as an
/// image adds nothing here.
pub fn convert(markdown: &str, options: &ConvertOptions) -> (r: String)
    ensures
        r@ == converted(markdown_events(markdown@), options@),
{
    let events = parse_events(markdown);
    convert_events(&events, options)
}

} // verus!
