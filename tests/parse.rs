use oreneo::reader::{flow_text, raw_text, Boundary, LineFilter};
use oreneo::{Attribute, Page, PageParseError, Reader, Section};

fn lines(v: &[&str]) -> Vec<String> {
    v.iter().map(|s| s.to_string()).collect()
}

fn sections_of(source: &str) -> Page {
    Page::from_source(source).unwrap()
}

#[test]
fn attribute_with_argument() {
    assert_eq!(Attribute::parse("id: foo"), Ok(Some(Attribute::Id("foo".to_string()))));
}

#[test]
fn attribute_without_argument() {
    assert_eq!(Attribute::parse("hidden"), Ok(Some(Attribute::Hidden)));
}

#[test]
fn attribute_unexpected_argument() {
    assert_eq!(
        Attribute::parse("hidden: x"),
        Err(PageParseError::UnexpectedArgument("x".to_string(), "hidden".to_string()))
    );
}

#[test]
fn attribute_missing_argument() {
    assert_eq!(
        Attribute::parse("id"),
        Err(PageParseError::MissingAttributeArgument("id".to_string()))
    );
}

#[test]
fn attribute_unknown_name() {
    assert_eq!(Attribute::parse("colour: red"), Ok(None));
}

#[test]
fn attribute_value_keeps_later_separators() {
    assert_eq!(
        Attribute::parse("title: a: b"),
        Ok(Some(Attribute::Title("a: b".to_string())))
    );
}

#[test]
fn flowed_lines_join_with_spaces() {
    let items = lines(&["alpha", "  beta", "gamma  "]);
    assert_eq!(flow_text(&items), "alpha   beta gamma");
}

#[test]
fn flowed_blank_line_becomes_one_break() {
    let items = lines(&["a", "b", "   ", "c", "d"]);
    assert_eq!(flow_text(&items), "a b\nc d");
}

#[test]
fn flowed_blank_run_becomes_one_break() {
    let items = lines(&["a", "", "", "c"]);
    assert_eq!(flow_text(&items), "a\nc");
}

#[test]
fn paragraph_blank_run_becomes_one_break() {
    let page = sections_of("--p\na\n\n\n\nb");
    assert_eq!(
        *page.sections(),
        vec![Section::Text {
            tag: "p".to_string(),
            class: None,
            attributes: vec![],
            content: "a\nb".to_string(),
        }]
    );
}

#[test]
fn raw_lines_keep_their_breaks() {
    let items = lines(&["  fn x() {", "    1", "  }"]);
    assert_eq!(raw_text(&items), "  fn x() {\n    1\n  }");
}

#[test]
fn raw_of_nothing_is_empty() {
    assert_eq!(raw_text(&Vec::new()), "");
    assert_eq!(flow_text(&Vec::new()), "");
}

#[test]
fn reader_text_stops_at_section() {
    let mut r = Reader::new(lines(&["", "one", "two", "--p", "three"]));
    assert_eq!(r.next_text(&LineFilter::Until(Boundary::Section), false), "one two");
    assert_eq!(r.peek_line().map(|s| s.as_str()), Some("--p"));
    assert_eq!(r.remaining(), 2);
}

#[test]
fn reader_text_until_tag_consumes_the_tag() {
    let mut r = Reader::new(lines(&["a", "b", "--/pre", "after"]));
    assert_eq!(r.next_text_until_tag("pre", true), "a\nb");
    assert_eq!(r.next_line(), Some("after".to_string()));
    assert_eq!(r.next_line(), None);
}

#[test]
fn reader_attributes_stop_at_other_marker() {
    let mut r = Reader::new(lines(&["-- id: x", "--class: c d", "--p", "text"]));
    assert_eq!(
        r.next_attrs(),
        Ok(vec![Attribute::Id("x".to_string()), Attribute::Class("c d".to_string())])
    );
    assert_eq!(r.peek_line().map(|s| s.as_str()), Some("--p"));
}

#[test]
fn container_nesting() {
    let page = sections_of("--div/\n--p\ntext\n--/div");
    assert_eq!(
        *page.sections(),
        vec![Section::Container {
            tag: "div".to_string(),
            attributes: vec![],
            content: vec![Section::Text {
                tag: "p".to_string(),
                class: None,
                attributes: vec![],
                content: "text".to_string(),
            }],
        }]
    );
}

#[test]
fn unclosed_container_ends_with_input() {
    let page = sections_of("--section/\nbody");
    let s = page.sections();
    assert_eq!(s.len(), 1);
    match &s[0] {
        Section::Container { tag, content, .. } => {
            assert_eq!(tag, "section");
            assert_eq!(content.len(), 1);
        }
        other => panic!("unexpected {:?}", other),
    }
}

#[test]
fn unknown_section_is_fatal() {
    assert_eq!(
        Page::from_source("--bogus\ntext"),
        Err(PageParseError::UnknownSection("bogus".to_string()))
    );
}

#[test]
fn empty_title_is_fatal() {
    assert_eq!(Page::from_source("--title\n\n"), Err(PageParseError::EmptyTitle));
}

#[test]
fn missing_image_source() {
    assert_eq!(Page::from_source("--image\ntext"), Err(PageParseError::ExpectedImageSource));
}

#[test]
fn missing_video_id() {
    assert_eq!(Page::from_source("--vimeo\n"), Err(PageParseError::ExpectedVideoID));
}

#[test]
fn bad_metadata_line() {
    assert_eq!(
        Page::from_source("--metadata\n-- oops"),
        Err(PageParseError::WrongMetadataFormat(" oops".to_string()))
    );
}

#[test]
fn bad_attribute_inside_section() {
    assert_eq!(
        Page::from_source("--p\n--id\ntext"),
        Err(PageParseError::MissingAttributeArgument("id".to_string()))
    );
}

#[test]
fn metadata_last_write_wins() {
    let page = sections_of("--metadata\n-- a: 1\n-- b: 2\n-- a: 3");
    assert_eq!(
        *page.sections(),
        vec![Section::Metadata {
            data: vec![
                ("a".to_string(), "3".to_string()),
                ("b".to_string(), "2".to_string())
            ],
        }]
    );
}

#[test]
fn categories_are_trimmed() {
    let page = sections_of("--categories\n-- rust \n--web");
    assert_eq!(
        *page.sections(),
        vec![Section::Categories { categories: vec!["rust".to_string(), "web".to_string()] }]
    );
}

#[test]
fn headings_pick_their_level() {
    let page = sections_of("## Sub\n## more\n# new");
    assert_eq!(
        *page.sections(),
        vec![
            Section::Text {
                tag: "h2".to_string(),
                class: None,
                attributes: vec![],
                content: "Sub  more".to_string(),
            },
            Section::Text {
                tag: "h1".to_string(),
                class: None,
                attributes: vec![],
                content: "new".to_string(),
            },
        ]
    );
}

#[test]
fn fenced_code_gets_language_class() {
    let page = sections_of("```rust\nlet x = 1;\n```\nafter");
    let s = page.sections();
    assert_eq!(
        s[0],
        Section::Code {
            tag: "code".to_string(),
            attributes: vec![Attribute::Class("language-rust".to_string())],
            content: "let x = 1;".to_string(),
        }
    );
    assert_eq!(s.len(), 2);
}

#[test]
fn css_block_becomes_style() {
    let page = sections_of("--css/\nb { x: 1; }\n--/css");
    assert_eq!(
        *page.sections(),
        vec![Section::Code {
            tag: "style".to_string(),
            attributes: vec![],
            content: "b { x: 1; }".to_string(),
        }]
    );
}

#[test]
fn blockquote_attribution() {
    let page = sections_of("--blockquote\n--by: Ann\n--source: Book\nWise words");
    match &page.sections()[0] {
        Section::TextWrapper { tag, content, .. } => {
            assert_eq!(tag, "blockquote");
            assert_eq!(content, "Wise words\n-- Ann (Book)");
        }
        other => panic!("unexpected {:?}", other),
    }
}

#[test]
fn ref_title_moves_into_text() {
    let page = sections_of("--ref\n--title: T\n--subtitle: S\n--url: u\n--id: r\nBody");
    assert_eq!(
        *page.sections(),
        vec![Section::TextWrapper {
            tag: "ref".to_string(),
            attributes: vec![Attribute::Url("u".to_string()), Attribute::Id("r".to_string())],
            content: ">T>u> S\nBody".to_string(),
        }]
    );
}

#[test]
fn lists_and_checklists() {
    let page = sections_of("--notes\n- one\n- two\n  more\n--todo\nBuy\n[] milk\n[x] eggs");
    assert_eq!(
        *page.sections(),
        vec![
            Section::Notes {
                class: "note".to_string(),
                attributes: vec![],
                content: vec!["one".to_string(), "two   more".to_string()],
            },
            Section::Checklist {
                attributes: vec![],
                prelude: "Buy".to_string(),
                content: vec!["[] milk".to_string(), "[x] eggs".to_string()],
                todo: true,
            },
        ]
    );
}

#[test]
fn crlf_lines_are_split() {
    let page = sections_of("--p\r\nx\r\ny\r\n");
    assert_eq!(
        *page.sections(),
        vec![Section::Text {
            tag: "p".to_string(),
            class: None,
            attributes: vec![],
            content: "x y".to_string(),
        }]
    );
}

#[test]
fn empty_source_has_no_sections() {
    assert!(sections_of("").sections().is_empty());
    assert!(sections_of("\n  \n").sections().is_empty());
}

#[test]
fn error_messages_name_the_fragment() {
    assert_eq!(
        PageParseError::UnknownSection("bogus".to_string()).message(),
        "Unknown section: 'bogus'"
    );
    assert_eq!(
        PageParseError::MissingAttributeArgument("id".to_string()).message(),
        "Missing attribute argument in attribute 'id'"
    );
}
