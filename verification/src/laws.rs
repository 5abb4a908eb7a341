//! Laws of the converter, proved of its model.

use crate::converter::{
    at_line_start, converted, emphasis_under, item_marker, strong_under, CodeBlockMode,
    ConvertOptions, ConverterModel, ListContext, OptionsModel,
};
use crate::events::{markdown_events, EventModel, MdTagEnd, TagModel};
use crate::text::{decimal, trim};
use crate::unicode::{styled, TextStyle};
use vstd::prelude::*;

verus! {

/// Running one more event is one more step.
pub proof fn lemma_run_push(
    state: ConverterModel,
    events: Seq<EventModel>,
    event: EventModel,
    options: OptionsModel,
)
    ensures
        state.run(events.push(event), options) == state.run(events, options).step(event, options),
{
    assert(events.push(event).drop_last() =~= events);
}

/// Running two sequences of events one after the other is running their
/// concatenation.
pub proof fn lemma_run_concat(
    state: ConverterModel,
    first: Seq<EventModel>,
    second: Seq<EventModel>,
    options: OptionsModel,
)
    ensures
        state.run(first + second, options) == state.run(first, options).run(second, options),
    decreases second.len(),
{
    if second.len() == 0 {
        assert(first + second =~= first);
    } else {
        lemma_run_concat(state, first, second.drop_last(), options);
        assert((first + second).drop_last() =~= first + second.drop_last());
    }
}

/// Every run keeps the style stack well formed.
pub proof fn lemma_run_keeps_wf(
    state: ConverterModel,
    events: Seq<EventModel>,
    options: OptionsModel,
)
    requires
        state.wf(),
    ensures
        state.run(events, options).wf(),
    decreases events.len(),
{
    if events.len() > 0 {
        lemma_run_keeps_wf(state, events.drop_last(), options);
    }
}

/// The result of a conversion depends on the text and the options alone: two
/// results for the same text and the same options are the same text.
pub proof fn lemma_same_input_same_text(
    markdown1: &str,
    options1: &ConvertOptions,
    result1: String,
    markdown2: &str,
    options2: &ConvertOptions,
    result2: String,
)
    requires
        markdown1@ == markdown2@,
        options1@ == options2@,
        result1@ == converted(markdown_events(markdown1@), options1@),
        result2@ == converted(markdown_events(markdown2@), options2@),
    ensures
        result1@ == result2@,
{
}

/// Strong and emphasis combine to bold italic in whichever order they open, and
/// a style that opens under itself stays what it is.
pub proof fn lemma_styles_combine()
    ensures
        strong_under(TextStyle::Normal) == TextStyle::Bold,
        emphasis_under(TextStyle::Normal) == TextStyle::Italic,
        strong_under(TextStyle::Italic) == TextStyle::BoldItalic,
        emphasis_under(TextStyle::Bold) == TextStyle::BoldItalic,
        emphasis_under(strong_under(TextStyle::Normal)) == strong_under(
            emphasis_under(TextStyle::Normal),
        ),
        strong_under(TextStyle::Bold) == TextStyle::Bold,
        emphasis_under(TextStyle::Italic) == TextStyle::Italic,
{
}

/// The events of a strong span around `before`, an emphasised `inner` and `after`.
pub open spec fn strong_around_emphasis(
    before: Seq<char>,
    inner: Seq<char>,
    after: Seq<char>,
) -> Seq<EventModel> {
    seq![
        EventModel::Start(TagModel::Strong),
        EventModel::Text(before),
        EventModel::Start(TagModel::Emphasis),
        EventModel::Text(inner),
        EventModel::End(MdTagEnd::Emphasis),
        EventModel::Text(after),
        EventModel::End(MdTagEnd::Strong),
    ]
}

/// The events of an emphasised span around `before`, a strong `inner` and `after`.
pub open spec fn emphasis_around_strong(
    before: Seq<char>,
    inner: Seq<char>,
    after: Seq<char>,
) -> Seq<EventModel> {
    seq![
        EventModel::Start(TagModel::Emphasis),
        EventModel::Text(before),
        EventModel::Start(TagModel::Strong),
        EventModel::Text(inner),
        EventModel::End(MdTagEnd::Strong),
        EventModel::Text(after),
        EventModel::End(MdTagEnd::Emphasis),
    ]
}

/// The state after the seven events `e`, taken one by one.
proof fn lemma_run_seven(state: ConverterModel, e: Seq<EventModel>, options: OptionsModel)
    requires
        e.len() == 7,
    ensures
        state.run(e, options) == state.step(e[0], options).step(e[1], options).step(
            e[2],
            options,
        ).step(e[3], options).step(e[4], options).step(e[5], options).step(e[6], options),
{
    let e0 = Seq::<EventModel>::empty();
    lemma_run_push(state, e0, e[0], options);
    lemma_run_push(state, e0.push(e[0]), e[1], options);
    lemma_run_push(state, e0.push(e[0]).push(e[1]), e[2], options);
    lemma_run_push(state, e0.push(e[0]).push(e[1]).push(e[2]), e[3], options);
    lemma_run_push(state, e0.push(e[0]).push(e[1]).push(e[2]).push(e[3]), e[4], options);
    lemma_run_push(
        state,
        e0.push(e[0]).push(e[1]).push(e[2]).push(e[3]).push(e[4]),
        e[5],
        options,
    );
    lemma_run_push(
        state,
        e0.push(e[0]).push(e[1]).push(e[2]).push(e[3]).push(e[4]).push(e[5]),
        e[6],
        options,
    );
    assert(e =~= e0.push(e[0]).push(e[1]).push(e[2]).push(e[3]).push(e[4]).push(e[5]).push(e[6]));
}

/// Emphasis inside a strong span is written in bold italic, and the rest of the
/// strong span in bold: where text is styled and no style is open, the span adds
/// to the output the bold form of what stands before the emphasis, the bold
/// italic form of the emphasised text and the bold form of what stands after
/// it, and leaves the style stack as it was.
pub proof fn lemma_emphasis_inside_strong(
    state: ConverterModel,
    before: Seq<char>,
    inner: Seq<char>,
    after: Seq<char>,
    options: OptionsModel,
)
    requires
        state.wf(),
        !state.in_code_block,
        state.styles.last() == TextStyle::Normal,
        !options.plain,
    ensures
        state.run(strong_around_emphasis(before, inner, after), options).output == state.output
            + styled(before, TextStyle::Bold) + styled(inner, TextStyle::BoldItalic) + styled(
            after,
            TextStyle::Bold,
        ),
        state.run(strong_around_emphasis(before, inner, after), options).styles == state.styles,
{
    let e = strong_around_emphasis(before, inner, after);
    lemma_run_seven(state, e, options);
    let s1 = state.step(e[0], options);
    let s2 = s1.step(e[1], options);
    let s3 = s2.step(e[2], options);
    let s4 = s3.step(e[3], options);
    let s5 = s4.step(e[4], options);
    let s6 = s5.step(e[5], options);
    let s7 = s6.step(e[6], options);
    assert(s1.styles.last() == TextStyle::Bold);
    assert(s3.styles.last() == TextStyle::BoldItalic);
    assert(s5.styles =~= s1.styles);
    assert(s7.styles =~= state.styles);
    assert(s7.output =~= state.output + styled(before, TextStyle::Bold) + styled(
        inner,
        TextStyle::BoldItalic,
    ) + styled(after, TextStyle::Bold));
}

/// A strong span inside emphasis is written in bold italic, and the rest of the
/// emphasised span in italic.
pub proof fn lemma_strong_inside_emphasis(
    state: ConverterModel,
    before: Seq<char>,
    inner: Seq<char>,
    after: Seq<char>,
    options: OptionsModel,
)
    requires
        state.wf(),
        !state.in_code_block,
        state.styles.last() == TextStyle::Normal,
        !options.plain,
    ensures
        state.run(emphasis_around_strong(before, inner, after), options).output == state.output
            + styled(before, TextStyle::Italic) + styled(inner, TextStyle::BoldItalic) + styled(
            after,
            TextStyle::Italic,
        ),
        state.run(emphasis_around_strong(before, inner, after), options).styles == state.styles,
{
    let e = emphasis_around_strong(before, inner, after);
    lemma_run_seven(state, e, options);
    let s1 = state.step(e[0], options);
    let s2 = s1.step(e[1], options);
    let s3 = s2.step(e[2], options);
    let s4 = s3.step(e[3], options);
    let s5 = s4.step(e[4], options);
    let s6 = s5.step(e[5], options);
    let s7 = s6.step(e[6], options);
    assert(s1.styles.last() == TextStyle::Italic);
    assert(s3.styles.last() == TextStyle::BoldItalic);
    assert(s5.styles =~= s1.styles);
    assert(s7.styles =~= state.styles);
    assert(s7.output =~= state.output + styled(before, TextStyle::Italic) + styled(
        inner,
        TextStyle::BoldItalic,
    ) + styled(after, TextStyle::Italic));
}

/// By how much `event` changes the number of open lists.
pub open spec fn list_depth_change(event: EventModel) -> int {
    match event {
        EventModel::Start(TagModel::List(_)) => 1,
        EventModel::End(MdTagEnd::List) => -1,
        _ => 0,
    }
}

/// The number of lists that `events` opens, less the number it closes.
pub open spec fn list_depth(events: Seq<EventModel>) -> int
    decreases events.len(),
{
    if events.len() == 0 {
        0
    } else {
        list_depth(events.drop_last()) + list_depth_change(events.last())
    }
}

/// Whether `event` reads or changes the innermost open list.
pub open spec fn touches_innermost_list(event: EventModel) -> bool {
    event == EventModel::Start(TagModel::Item) || event == EventModel::End(MdTagEnd::List)
}

/// Whether every item and every end of a list in `events` belongs to a list that
/// `events` itself has opened.
pub open spec fn within_own_lists(events: Seq<EventModel>) -> bool {
    forall|k: int|
        0 <= k < events.len() && touches_innermost_list(#[trigger] events[k]) ==> list_depth(
            events.take(k),
        ) >= 1
}

/// Events that stay within their own lists leave the lists that were open before
/// them as they were, beneath the lists that they have opened and not closed.
pub proof fn lemma_outer_lists_untouched(
    state: ConverterModel,
    events: Seq<EventModel>,
    options: OptionsModel,
)
    requires
        within_own_lists(events),
    ensures
        list_depth(events) >= 0,
        state.run(events, options).lists.len() == state.lists.len() + list_depth(events),
        state.run(events, options).lists.take(state.lists.len() as int) == state.lists,
    decreases events.len(),
{
    if events.len() == 0 {
        assert(state.lists.take(state.lists.len() as int) =~= state.lists);
    } else {
        let front = events.drop_last();
        let last = events.last();
        assert forall|k: int|
            0 <= k < front.len() && touches_innermost_list(#[trigger] front[k]) implies list_depth(
            front.take(k),
        ) >= 1 by {
            assert(front[k] == events[k]);
            assert(front.take(k) =~= events.take(k));
        }
        lemma_outer_lists_untouched(state, front, options);
        let mid = state.run(front, options);
        let n = state.lists.len() as int;
        assert(events.take(events.len() - 1) =~= front);
        assert(events[events.len() - 1] == last);
        if touches_innermost_list(last) {
            assert(list_depth(front) >= 1);
        }
        assert(mid.step(last, options).lists.take(n) =~= mid.lists.take(n));
    }
}

/// The state after the items with the given bodies, each between the start and
/// the end of an item.
pub open spec fn after_items(
    state: ConverterModel,
    bodies: Seq<Seq<EventModel>>,
    options: OptionsModel,
) -> ConverterModel
    decreases bodies.len(),
{
    if bodies.len() == 0 {
        state
    } else {
        after_items(state, bodies.drop_last(), options).step(
            EventModel::Start(TagModel::Item),
            options,
        ).run(bodies.last(), options).step(EventModel::End(MdTagEnd::Item), options)
    }
}

/// The items of an ordered list that starts at `first` are numbered `first`,
/// `first + 1`, `first + 2` and so on, whatever lists their bodies hold: after
/// the list has opened and any number of items have passed, each with a body
/// that opens and closes its own lists in pairs, the list's counter stands at
/// `first` plus the number of those items, and that is the number the next item
/// is marked with.
pub proof fn lemma_ordered_list_counts_up(
    state: ConverterModel,
    first: u64,
    bodies: Seq<Seq<EventModel>>,
    options: OptionsModel,
)
    requires
        first + bodies.len() <= u64::MAX,
        forall|i: int|
            0 <= i < bodies.len() ==> within_own_lists(#[trigger] bodies[i]) && list_depth(
                bodies[i],
            ) == 0,
    ensures
        ({
            let opened = state.step(EventModel::Start(TagModel::List(Some(first))), options);
            let now = after_items(opened, bodies, options);
            let number = (first + bodies.len()) as u64;
            &&& now.lists == state.lists.push(ListContext { ordered: true, next_index: number })
            &&& item_marker(now.lists, options.bullet) == decimal(number as nat) + seq!['.', ' ']
            &&& now.step(EventModel::Start(TagModel::Item), options).output == at_line_start(
                now.output,
            ) + decimal(number as nat) + seq!['.', ' ']
        }),
    decreases bodies.len(),
{
    let opened = state.step(EventModel::Start(TagModel::List(Some(first))), options);
    let now = after_items(opened, bodies, options);
    let number = (first + bodies.len()) as u64;
    if bodies.len() == 0 {
    } else {
        let front = bodies.drop_last();
        assert forall|i: int| 0 <= i < front.len() implies within_own_lists(#[trigger] front[i])
            && list_depth(front[i]) == 0 by {
            assert(front[i] == bodies[i]);
        }
        lemma_ordered_list_counts_up(state, first, front, options);
        let earlier = after_items(opened, front, options);
        let marked = earlier.step(EventModel::Start(TagModel::Item), options);
        let expected = state.lists.push(ListContext { ordered: true, next_index: number });
        assert(marked.lists =~= expected);
        let body = bodies.last();
        assert(body == bodies[bodies.len() - 1]);
        lemma_outer_lists_untouched(marked, body, options);
        let done = marked.run(body, options);
        assert(done.lists =~= done.lists.take(marked.lists.len() as int));
        assert(now.lists == done.lists);
    }
    assert(now.step(EventModel::Start(TagModel::Item), options).output =~= at_line_start(
        now.output,
    ) + decimal(number as nat) + seq!['.', ' ']);
}

/// Whether every event of `events` is text or a line break.
pub open spec fn only_text(events: Seq<EventModel>) -> bool {
    forall|i: int|
        0 <= i < events.len() ==> (#[trigger] events[i]) is Text || events[i] is SoftBreak
            || events[i] is HardBreak
}

/// Inside a code block, text and line breaks are captured: they leave the
/// output as it was.
pub proof fn lemma_captured_text_is_not_written(
    state: ConverterModel,
    events: Seq<EventModel>,
    options: OptionsModel,
)
    requires
        state.in_code_block,
        only_text(events),
    ensures
        state.run(events, options).in_code_block,
        state.run(events, options).output == state.output,
    decreases events.len(),
{
    if events.len() > 0 {
        let front = events.drop_last();
        assert forall|i: int| 0 <= i < front.len() implies (#[trigger] front[i]) is Text
            || front[i] is SoftBreak || front[i] is HardBreak by {
            assert(front[i] == events[i]);
        }
        lemma_captured_text_is_not_written(state, front, options);
        assert(events.last() == events[events.len() - 1]);
    }
}

/// The events of a document that is a single code block holding `lines`.
pub open spec fn single_code_block(info: Option<Seq<char>>, lines: Seq<EventModel>) -> Seq<
    EventModel,
> {
    seq![EventModel::Start(TagModel::CodeBlock(info))] + lines + seq![
        EventModel::End(MdTagEnd::CodeBlock),
    ]
}

/// Where code blocks are omitted, a document that is a single code block is
/// converted to the empty text.
pub proof fn lemma_omitted_code_block_leaves_nothing(
    info: Option<Seq<char>>,
    lines: Seq<EventModel>,
    options: OptionsModel,
)
    requires
        options.code_block_mode == CodeBlockMode::Omit,
        only_text(lines),
    ensures
        converted(single_code_block(info, lines), options) == Seq::<char>::empty(),
{
    let start = EventModel::Start(TagModel::CodeBlock(info));
    let end = EventModel::End(MdTagEnd::CodeBlock);
    let initial = ConverterModel::initial();
    lemma_run_push(initial, Seq::empty(), start, options);
    assert(Seq::<EventModel>::empty().push(start) =~= seq![start]);
    let opened = initial.run(seq![start], options);
    lemma_run_concat(initial, seq![start], lines, options);
    lemma_captured_text_is_not_written(opened, lines, options);
    lemma_run_push(initial, seq![start] + lines, end, options);
    assert((seq![start] + lines).push(end) =~= single_code_block(info, lines));
    let last = initial.run(single_code_block(info, lines), options);
    assert(last.output =~= Seq::<char>::empty());
    assert(trim(Seq::<char>::empty()) =~= Seq::<char>::empty());
}

} // verus!
