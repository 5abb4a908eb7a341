use mdtolinkedin::events::{parse_events, MdEvent, MdTag, MdTagEnd};

fn text(s: &str) -> MdEvent {
    MdEvent::Text(s.to_string())
}

#[test]
fn heading_is_parsed_into_start_text_end() {
    assert_eq!(
        parse_events("# Title"),
        vec![MdEvent::Start(MdTag::Heading), text("Title"), MdEvent::End(MdTagEnd::Heading)]
    );
}

#[test]
fn paragraph_start_is_an_element_that_is_not_rendered() {
    assert_eq!(
        parse_events("a **b** *c* `d`"),
        vec![
            MdEvent::Start(MdTag::Other),
            text("a "),
            MdEvent::Start(MdTag::Strong),
            text("b"),
            MdEvent::End(MdTagEnd::Strong),
            text(" "),
            MdEvent::Start(MdTag::Emphasis),
            text("c"),
            MdEvent::End(MdTagEnd::Emphasis),
            text(" "),
            MdEvent::Code("d".to_string()),
            MdEvent::End(MdTagEnd::Paragraph),
        ]
    );
}

#[test]
fn lists_carry_their_start_number() {
    assert_eq!(
        parse_events("5. a\n6. b"),
        vec![
            MdEvent::Start(MdTag::List(Some(5))),
            MdEvent::Start(MdTag::Item),
            text("a"),
            MdEvent::End(MdTagEnd::Item),
            MdEvent::Start(MdTag::Item),
            text("b"),
            MdEvent::End(MdTagEnd::Item),
            MdEvent::End(MdTagEnd::List),
        ]
    );
    assert_eq!(
        parse_events("- a"),
        vec![
            MdEvent::Start(MdTag::List(None)),
            MdEvent::Start(MdTag::Item),
            text("a"),
            MdEvent::End(MdTagEnd::Item),
            MdEvent::End(MdTagEnd::List),
        ]
    );
}

#[test]
fn links_and_images_carry_their_destination() {
    assert_eq!(
        parse_events("[t](https://a.example \"title\") ![alt](pic.png)"),
        vec![
            MdEvent::Start(MdTag::Other),
            MdEvent::Start(MdTag::Link("https://a.example".to_string())),
            text("t"),
            MdEvent::End(MdTagEnd::Link),
            text(" "),
            MdEvent::Start(MdTag::Image("pic.png".to_string())),
            text("alt"),
            MdEvent::End(MdTagEnd::Image),
            MdEvent::End(MdTagEnd::Paragraph),
        ]
    );
}

#[test]
fn code_blocks_carry_the_info_string_of_their_fence() {
    assert_eq!(
        parse_events("```rust ignore\nx\n```"),
        vec![
            MdEvent::Start(MdTag::CodeBlock(Some("rust ignore".to_string()))),
            text("x\n"),
            MdEvent::End(MdTagEnd::CodeBlock),
        ]
    );
    assert_eq!(
        parse_events("```\nx\n```"),
        vec![
            MdEvent::Start(MdTag::CodeBlock(Some(String::new()))),
            text("x\n"),
            MdEvent::End(MdTagEnd::CodeBlock),
        ]
    );
    assert_eq!(
        parse_events("    x\n"),
        vec![
            MdEvent::Start(MdTag::CodeBlock(None)),
            text("x\n"),
            MdEvent::End(MdTagEnd::CodeBlock),
        ]
    );
}

#[test]
fn blockquotes_and_breaks_are_told_apart() {
    assert_eq!(
        parse_events("> a\n> b  \n> c"),
        vec![
            MdEvent::Start(MdTag::BlockQuote),
            MdEvent::Start(MdTag::Other),
            text("a"),
            MdEvent::SoftBreak,
            text("b"),
            MdEvent::HardBreak,
            text("c"),
            MdEvent::End(MdTagEnd::Paragraph),
            MdEvent::End(MdTagEnd::BlockQuote),
        ]
    );
}

#[test]
fn what_is_not_rendered_is_other() {
    assert_eq!(parse_events("---"), vec![MdEvent::Other]);
    assert_eq!(
        parse_events("<div>\n"),
        vec![MdEvent::Start(MdTag::Other), MdEvent::Other, MdEvent::End(MdTagEnd::Other)]
    );
    assert_eq!(parse_events(""), Vec::<MdEvent>::new());
}
