//! Sections: the block-level constructs of a page, and the grammar that reads them.
use crate::attribute::{Attribute, AttributeV};
use crate::error::{PageParseError, ParseErrorV};
use crate::reader::{
    Boundary, ItemMarker, LineFilter, Reader,
    attrs_of, attrs_view, drop_one, has_section_prefix_spec, is_item, lemma_skip_blanks_suffix,
    lemma_take_count_le, take_count, filter_line, list_of, skip_blanks_spec, strings_view,
    strip_section_prefix, strip_section_prefix_spec, text_of, unmarked, BoundaryV, FilterV, ItemMarkerV,
};
use crate::text::{
    is_blank, is_ws,
    chars_of, eq_str, find, opt_view, push_char, split_once_str, starts_with, starts_with_str,
    string_of_range, strip_prefix, strip_prefix_str, trim, trim_str,
};
use vstd::prelude::*;

verus! {

/// A section
#[derive(Debug, PartialEq, Eq)]
#[allow(inconsistent_fields)]
pub enum Section {
    /// p, h1..h6, title, subtitle, nav, footnote
    Text {
        tag: String,
        class: Option<Vec<String>>,
        attributes: Vec<Attribute>,
        content: String,
    },
    /// aside, blockquote, ref, note, warning
    TextWrapper { tag: String, attributes: Vec<Attribute>, content: String },
    /// article, section, div
    Container { tag: String, attributes: Vec<Attribute>, content: Vec<Section> },
    /// code, pre, script, html, css
    Code { tag: String, attributes: Vec<Attribute>, content: String },
    /// hr
    Tag { tag: String, attributes: Vec<Attribute> },
    /// bookmark
    Bookmark { attributes: Vec<Attribute>, content: String },
    /// notes, warnings
    Notes { class: String, attributes: Vec<Attribute>, content: Vec<String> },
    /// list, olist
    List { tag: String, attributes: Vec<Attribute>, content: Vec<String> },
    /// checklist, todo
    Checklist { attributes: Vec<Attribute>, prelude: String, content: Vec<String>, todo: bool },
    /// image
    Image { src: String, attributes: Vec<Attribute> },
    /// youtube
    Youtube { id: String },
    /// vimeo
    Vimeo { id: String },
    /// hidden
    Hidden { content: String },
    /// metadata: keys are unique (`Section::parse` ensures it), in order of first appearance;
    /// a key set twice keeps its place and takes the later value
    Metadata { data: Vec<(String, String)> },
    /// categories
    Categories { categories: Vec<String> },
}

#[allow(inconsistent_fields)]
pub enum SectionV {
    Text {
        tag: Seq<char>,
        class: Option<Seq<Seq<char>>>,
        attributes: Seq<AttributeV>,
        content: Seq<char>,
    },
    TextWrapper { tag: Seq<char>, attributes: Seq<AttributeV>, content: Seq<char> },
    Container { tag: Seq<char>, attributes: Seq<AttributeV>, content: Seq<SectionV> },
    Code { tag: Seq<char>, attributes: Seq<AttributeV>, content: Seq<char> },
    Tag { tag: Seq<char>, attributes: Seq<AttributeV> },
    Bookmark { attributes: Seq<AttributeV>, content: Seq<char> },
    Notes { class: Seq<char>, attributes: Seq<AttributeV>, content: Seq<Seq<char>> },
    List { tag: Seq<char>, attributes: Seq<AttributeV>, content: Seq<Seq<char>> },
    Checklist {
        attributes: Seq<AttributeV>,
        prelude: Seq<char>,
        content: Seq<Seq<char>>,
        todo: bool,
    },
    Image { src: Seq<char>, attributes: Seq<AttributeV> },
    Youtube { id: Seq<char> },
    Vimeo { id: Seq<char> },
    Hidden { content: Seq<char> },
    Metadata { data: Seq<(Seq<char>, Seq<char>)> },
    Categories { categories: Seq<Seq<char>> },
}

pub open spec fn pairs_view(v: Seq<(String, String)>) -> Seq<(Seq<char>, Seq<char>)> {
    v.map_values(|p: (String, String)| (p.0@, p.1@))
}

pub open spec fn section_view(s: &Section) -> SectionV
    decreases s,
{
    match s {
        Section::Text { tag, class, attributes, content } => SectionV::Text {
            tag: tag@,
            class: match class {
                Some(c) => Some(strings_view(c@)),
                None => None,
            },
            attributes: attrs_view(attributes@),
            content: content@,
        },
        Section::TextWrapper { tag, attributes, content } => SectionV::TextWrapper {
            tag: tag@,
            attributes: attrs_view(attributes@),
            content: content@,
        },
        Section::Container { tag, attributes, content } => SectionV::Container {
            tag: tag@,
            attributes: attrs_view(attributes@),
            content: Seq::new(
                content@.len(),
                |i: int|
                    if 0 <= i < content@.len() {
                        section_view(&content@[i])
                    } else {
                        SectionV::Hidden { content: Seq::empty() }
                    },
            ),
        },
        Section::Code { tag, attributes, content } => SectionV::Code {
            tag: tag@,
            attributes: attrs_view(attributes@),
            content: content@,
        },
        Section::Tag { tag, attributes } => SectionV::Tag {
            tag: tag@,
            attributes: attrs_view(attributes@),
        },
        Section::Bookmark { attributes, content } => SectionV::Bookmark {
            attributes: attrs_view(attributes@),
            content: content@,
        },
        Section::Notes { class, attributes, content } => SectionV::Notes {
            class: class@,
            attributes: attrs_view(attributes@),
            content: strings_view(content@),
        },
        Section::List { tag, attributes, content } => SectionV::List {
            tag: tag@,
            attributes: attrs_view(attributes@),
            content: strings_view(content@),
        },
        Section::Checklist { attributes, prelude, content, todo } => SectionV::Checklist {
            attributes: attrs_view(attributes@),
            prelude: prelude@,
            content: strings_view(content@),
            todo: *todo,
        },
        Section::Image { src, attributes } => SectionV::Image {
            src: src@,
            attributes: attrs_view(attributes@),
        },
        Section::Youtube { id } => SectionV::Youtube { id: id@ },
        Section::Vimeo { id } => SectionV::Vimeo { id: id@ },
        Section::Hidden { content } => SectionV::Hidden { content: content@ },
        Section::Metadata { data } => SectionV::Metadata { data: pairs_view(data@) },
        Section::Categories { categories } => SectionV::Categories {
            categories: strings_view(categories@),
        },
    }
}

impl View for Section {
    type V = SectionV;

    open spec fn view(&self) -> SectionV {
        section_view(self)
    }
}

pub open spec fn sections_view(v: Seq<Section>) -> Seq<SectionV> {
    v.map_values(|s: Section| s@)
}


/// Attributes that sections look up by kind.
#[derive(Clone, Copy)]
pub enum AttrKind {
    Title,
    Subtitle,
    By,
    Source,
    Url,
}

pub open spec fn kind_value(a: AttributeV, k: AttrKind) -> Option<Seq<char>> {
    match (a, k) {
        (AttributeV::Title(v), AttrKind::Title) => Some(v),
        (AttributeV::Subtitle(v), AttrKind::Subtitle) => Some(v),
        (AttributeV::By(v), AttrKind::By) => Some(v),
        (AttributeV::Source(v), AttrKind::Source) => Some(v),
        (AttributeV::Url(v), AttrKind::Url) => Some(v),
        _ => None,
    }
}

/// The index of the first attribute of kind `k`.
pub open spec fn attr_position(a: Seq<AttributeV>, k: AttrKind) -> Option<int>
    decreases a.len(),
{
    if a.len() == 0 {
        None
    } else if kind_value(a[0], k) is Some {
        Some(0)
    } else {
        match attr_position(a.drop_first(), k) {
            Some(i) => Some(i + 1),
            None => None,
        }
    }
}

/// The value of the first attribute of kind `k`.
pub open spec fn find_attr(a: Seq<AttributeV>, k: AttrKind) -> Option<Seq<char>> {
    match attr_position(a, k) {
        Some(i) => kind_value(a[i], k),
        None => None,
    }
}

/// The attributes without the first of kind `k`.
pub open spec fn without_first(a: Seq<AttributeV>, k: AttrKind) -> Seq<AttributeV> {
    match attr_position(a, k) {
        Some(i) => a.remove(i),
        None => a,
    }
}

/// The line closes the container named `tag`: `--/tag`.
pub open spec fn ends_block(tag: Seq<char>, l: Seq<char>) -> bool {
    strip_section_prefix_spec(l) matches Some(s) && strip_prefix(s, "/"@) == Some(tag)
}

/// The number of `#`s that a line starts with.
pub open spec fn hash_count(l: Seq<char>) -> nat
    decreases l.len(),
{
    if l.len() > 0 && l[0] == '#' {
        1 + hash_count(l.drop_first())
    } else {
        0
    }
}

pub open spec fn digit(n: nat) -> char {
    if n == 0 { '0' } else if n == 1 { '1' } else if n == 2 { '2' } else if n == 3 { '3' }
    else if n == 4 { '4' } else if n == 5 { '5' } else if n == 6 { '6' } else if n == 7 { '7' }
    else if n == 8 { '8' } else { '9' }
}

/// `n` in decimal digits.
pub open spec fn decimal(n: nat) -> Seq<char>
    decreases n,
{
    if n < 10 {
        seq![digit(n)]
    } else {
        decimal(n / 10).push(digit(n % 10))
    }
}

pub open spec fn is_text_name(n: Seq<char>) -> bool {
    n == "title"@ || n == "subtitle"@ || n == "h1"@ || n == "h2"@ || n == "h3"@ || n == "h4"@
        || n == "h5"@ || n == "h6"@ || n == "p"@ || n == "nav"@ || n == "footnote"@
}

pub open spec fn text_tag(n: Seq<char>) -> Seq<char> {
    if n == "title"@ {
        "h1"@
    } else if n == "subtitle"@ || n == "footnote"@ {
        "p"@
    } else {
        n
    }
}

pub open spec fn is_code_name(n: Seq<char>) -> bool {
    n == "code"@ || n == "pre"@ || n == "script"@ || n == "html"@ || n == "css"@
}

pub open spec fn code_tag(n: Seq<char>) -> Seq<char> {
    if n == "css"@ {
        "style"@
    } else {
        n
    }
}

/// The tag that a block marker (`div/`, `code/`, ...) opens.
pub open spec fn block_tag(n: Seq<char>) -> Option<Seq<char>> {
    if n == "article/"@ {
        Some("article"@)
    } else if n == "section/"@ {
        Some("section"@)
    } else if n == "div/"@ {
        Some("div"@)
    } else if n == "code/"@ {
        Some("code"@)
    } else if n == "pre/"@ {
        Some("pre"@)
    } else if n == "script/"@ {
        Some("script"@)
    } else if n == "html/"@ {
        Some("html"@)
    } else if n == "css/"@ {
        Some("css"@)
    } else {
        None
    }
}

pub open spec fn notes_class(n: Seq<char>) -> Option<Seq<char>> {
    if n == "notes"@ {
        Some("note"@)
    } else if n == "warnings"@ {
        Some("warning"@)
    } else {
        None
    }
}

pub open spec fn list_tag(n: Seq<char>) -> Option<Seq<char>> {
    if n == "list"@ {
        Some("ul"@)
    } else if n == "olist"@ {
        Some("ol"@)
    } else {
        None
    }
}

/// Sections whose attribute lines come right after the marker.
pub open spec fn reads_attrs_first(n: Seq<char>) -> bool {
    starts_with(n, "```"@) || is_text_name(n) || n == "aside"@ || n == "blockquote"@ || n
        == "ref"@ || n == "note"@ || n == "warning"@ || block_tag(n) is Some || is_code_name(n)
        || n == "hr"@ || n == "bookmark"@ || notes_class(n) is Some || list_tag(n) is Some || n
        == "checklist"@ || n == "todo"@
}

/// A blockquote's text with its attribution line.
pub open spec fn quote_content(a: Seq<AttributeV>, t: Seq<char>) -> Seq<char> {
    match find_attr(a, AttrKind::By) {
        None => t,
        Some(by) => {
            let t1 = t + "\n-- "@ + by;
            match find_attr(a, AttrKind::Source) {
                None => t1,
                Some(src) => match find_attr(a, AttrKind::Url) {
                    Some(url) => t1 + " (>"@ + src + ">"@ + url + ">)"@,
                    None => t1 + " ("@ + src + ")"@,
                },
            }
        },
    }
}

/// A reference's attributes and text: its title (a link when it has a url) and subtitle
/// become the first line of the text and leave the attributes.
pub open spec fn ref_parts(a: Seq<AttributeV>, t: Seq<char>) -> (Seq<AttributeV>, Seq<char>) {
    match find_attr(a, AttrKind::Title) {
        None => (a, t),
        Some(title) => {
            let head = match find_attr(a, AttrKind::Url) {
                Some(url) => ">"@ + title + ">"@ + url + ">"@,
                None => title,
            };
            match find_attr(a, AttrKind::Subtitle) {
                Some(sub) => (
                    without_first(without_first(a, AttrKind::Subtitle), AttrKind::Title),
                    head + " "@ + sub + "\n"@ + t,
                ),
                None => (without_first(a, AttrKind::Title), head + "\n"@ + t),
            }
        },
    }
}

/// `s` cut at each occurrence of `sep`.
pub open spec fn split_on(s: Seq<char>, sep: Seq<char>) -> Seq<Seq<char>>
    decreases s.len(),
{
    if sep.len() == 0 {
        seq![s]
    } else {
        match find(s, sep) {
            Some(i) => if 0 <= i && i + sep.len() <= s.len() {
                seq![s.subrange(0, i)] + split_on(s.subrange(i + sep.len(), s.len() as int), sep)
            } else {
                seq![s]
            },
            None => seq![s],
        }
    }
}

pub open spec fn key_index(d: Seq<(Seq<char>, Seq<char>)>, k: Seq<char>) -> Option<int>
    decreases d.len(),
{
    if d.len() == 0 {
        None
    } else if d.last().0 == k {
        Some(d.len() - 1)
    } else {
        key_index(d.drop_last(), k)
    }
}

/// Sets `k` to `v`: in place when the key is there, else at the end.
pub open spec fn upsert(d: Seq<(Seq<char>, Seq<char>)>, k: Seq<char>, v: Seq<char>) -> Seq<
    (Seq<char>, Seq<char>),
> {
    match key_index(d, k) {
        Some(i) => d.update(i, (k, v)),
        None => d.push((k, v)),
    }
}

/// Metadata lines read into `d`, in order: each is `key: value`, both trimmed.
pub open spec fn meta_fold(d: Seq<(Seq<char>, Seq<char>)>, lines: Seq<Seq<char>>) -> Result<
    Seq<(Seq<char>, Seq<char>)>,
    ParseErrorV,
>
    decreases lines.len(),
{
    if lines.len() == 0 {
        Ok(d)
    } else {
        let l = lines[0];
        match find(l, ":"@) {
            Some(i) => meta_fold(
                upsert(
                    d,
                    trim(l.subrange(0, i)),
                    trim(l.subrange(i + ":"@.len(), l.len() as int)),
                ),
                lines.drop_first(),
            ),
            None => Err(ParseErrorV::WrongMetadataFormat(l)),
        }
    }
}

pub type Parsed = (Result<SectionV, ParseErrorV>, Seq<Seq<char>>);

pub type ParsedSeq = (Result<Seq<SectionV>, ParseErrorV>, Seq<Seq<char>>);

pub open spec fn until_section() -> FilterV {
    FilterV::Until(BoundaryV::Section)
}

pub open spec fn flowed_wrapper(tag: Seq<char>, a: Seq<AttributeV>, r: Seq<Seq<char>>) -> Parsed {
    let (t, rest) = text_of(r, until_section(), false);
    (Ok(SectionV::TextWrapper { tag, attributes: a, content: t }), rest)
}

pub open spec fn dash_list(r: Seq<Seq<char>>) -> (Seq<Seq<char>>, Seq<Seq<char>>) {
    let (l, rest) = list_of(r, ItemMarkerV::Prefix("- "@));
    (l.map_values(|e: Seq<char>| unmarked(e, "- "@)), rest)
}

/// A section whose attributes `a` have been read, with the lines `r` left after them.
pub open spec fn after_attrs(n: Seq<char>, a: Seq<AttributeV>, r: Seq<Seq<char>>) -> Parsed {
    if starts_with(n, "```"@) {
        let lang = strip_prefix(n, "```"@)->0;
        let (t, rest) = text_of(r, FilterV::Until(BoundaryV::CloseTag("```"@)), true);
        let attributes = if lang.len() > 0 {
            a.push(AttributeV::Class("language-"@ + lang))
        } else {
            a
        };
        (Ok(SectionV::Code { tag: "code"@, attributes, content: t }), drop_one(rest))
    } else if is_text_name(n) {
        if n == "title"@ || n == "subtitle"@ {
            let r1 = skip_blanks_spec(r);
            if r1.len() == 0 {
                (Err(ParseErrorV::EmptyTitle), r1)
            } else {
                (
                    Ok(
                        SectionV::Text {
                            tag: text_tag(n),
                            class: Some(seq![n]),
                            attributes: a,
                            content: r1[0],
                        },
                    ),
                    r1.drop_first(),
                )
            }
        } else {
            let (t, rest) = text_of(r, until_section(), false);
            (Ok(SectionV::Text { tag: text_tag(n), class: None, attributes: a, content: t }), rest)
        }
    } else if n == "aside"@ {
        flowed_wrapper(n, a, r)
    } else if n == "blockquote"@ {
        let (t, rest) = text_of(r, until_section(), false);
        (Ok(SectionV::TextWrapper { tag: n, attributes: a, content: quote_content(a, t) }), rest)
    } else if n == "ref"@ {
        let (t, rest) = text_of(r, until_section(), false);
        let (a2, c2) = ref_parts(a, t);
        (Ok(SectionV::TextWrapper { tag: n, attributes: a2, content: c2 }), rest)
    } else if n == "note"@ || n == "warning"@ {
        flowed_wrapper("div class = \""@ + n + "\""@, a, r)
    } else if block_tag(n) is Some {
        let tag = block_tag(n)->0;
        let (t, rest) = text_of(r, FilterV::Until(BoundaryV::CloseTag(tag)), true);
        (Ok(SectionV::Code { tag: code_tag(tag), attributes: a, content: t }), drop_one(rest))
    } else if is_code_name(n) {
        let (t, rest) = text_of(r, until_section(), true);
        (Ok(SectionV::Code { tag: code_tag(n), attributes: a, content: t }), rest)
    } else if n == "hr"@ {
        (Ok(SectionV::Tag { tag: n, attributes: a }), r)
    } else if n == "bookmark"@ {
        let (t, rest) = text_of(r, until_section(), false);
        (Ok(SectionV::Bookmark { attributes: a, content: t }), rest)
    } else if notes_class(n) is Some {
        let (l, rest) = dash_list(r);
        (Ok(SectionV::Notes { class: notes_class(n)->0, attributes: a, content: l }), rest)
    } else if list_tag(n) is Some {
        let (l, rest) = dash_list(r);
        (Ok(SectionV::List { tag: list_tag(n)->0, attributes: a, content: l }), rest)
    } else {
        let (p, r1) = text_of(r, FilterV::Until(BoundaryV::CheckItem), false);
        let (l, rest) = list_of(r1, ItemMarkerV::Check);
        (
            Ok(
                SectionV::Checklist {
                    attributes: a,
                    prelude: p,
                    content: l,
                    todo: n == "todo"@,
                },
            ),
            rest,
        )
    }
}

/// The one line that an image or a video section needs, then the section.
pub open spec fn resource_line(
    r: Seq<Seq<char>>,
    missing: ParseErrorV,
) -> (Result<Seq<char>, ParseErrorV>, Seq<Seq<char>>) {
    if r.len() > 0 && filter_line(FilterV::AttrBody, r[0]) is Some {
        (Ok(filter_line(FilterV::AttrBody, r[0])->0), r.drop_first())
    } else {
        (Err(missing), r)
    }
}

/// A section that reads no attribute lines first (or not at once).
pub open spec fn other_section(n: Seq<char>, r: Seq<Seq<char>>) -> Parsed {
    if n == "image"@ {
        match resource_line(r, ParseErrorV::ExpectedImageSource) {
            (Ok(src), r1) => match attrs_of(r1) {
                (Ok(a), rest) => (Ok(SectionV::Image { src, attributes: a }), rest),
                (Err(e), rest) => (Err(e), rest),
            },
            (Err(e), r1) => (Err(e), r1),
        }
    } else if n == "youtube"@ {
        match resource_line(r, ParseErrorV::ExpectedVideoID) {
            (Ok(id), r1) => (Ok(SectionV::Youtube { id }), r1),
            (Err(e), r1) => (Err(e), r1),
        }
    } else if n == "vimeo"@ {
        match resource_line(r, ParseErrorV::ExpectedVideoID) {
            (Ok(id), r1) => (Ok(SectionV::Vimeo { id }), r1),
            (Err(e), r1) => (Err(e), r1),
        }
    } else if n == "hidden"@ {
        let (t, rest) = text_of(r, until_section(), true);
        (Ok(SectionV::Hidden { content: t }), rest)
    } else if n == "metadata"@ {
        let (t, rest) = text_of(r, FilterV::Prefixed("--"@, true), true);
        match meta_fold(Seq::empty(), split_on(t, "\n"@)) {
            Ok(d) => (Ok(SectionV::Metadata { data: d }), rest),
            Err(e) => (Err(e), rest),
        }
    } else if n == "categories"@ {
        let (t, rest) = text_of(r, FilterV::Prefixed("--"@, true), true);
        (
            Ok(
                SectionV::Categories {
                    categories: split_on(t, "\n"@).map_values(|c: Seq<char>| trim(c)),
                },
            ),
            rest,
        )
    } else {
        (Err(ParseErrorV::UnknownSection(n)), r)
    }
}

pub proof fn lemma_attrs_of_len(r: Seq<Seq<char>>)
    ensures
        attrs_of(r).1.len() <= r.len(),
    decreases r.len(),
{
    if r.len() > 0 {
        lemma_attrs_of_len(r.drop_first());
    }
}

/// The section named `n`, whose marker line has been read, and the lines left after it.
pub open spec fn section_of(r: Seq<Seq<char>>, n: Seq<char>) -> Parsed
    decreases r.len(), 2nat
        via section_of_decreases
{
    if reads_attrs_first(n) {
        match attrs_of(r) {
            (Err(e), r1) => (Err(e), r1),
            (Ok(a), r1) => if block_tag(n) is Some && !is_code_name(block_tag(n)->0) {
                let tag = block_tag(n)->0;
                match sections_of(r1, Some(tag)) {
                    (Ok(c), rest) => (
                        Ok(SectionV::Container { tag, attributes: a, content: c }),
                        rest,
                    ),
                    (Err(e), rest) => (Err(e), rest),
                }
            } else {
                after_attrs(n, a, r1)
            },
        }
    } else {
        other_section(n, r)
    }
}

#[via_fn]
proof fn section_of_decreases(r: Seq<Seq<char>>, n: Seq<char>) {
    lemma_attrs_of_len(r);
}

#[via_fn]
proof fn sections_of_decreases(r: Seq<Seq<char>>, end: Option<Seq<char>>) {
    lemma_skip_blanks_suffix(r);
}

/// A heading: the `#`s pick the level, and the lines that follow with as many `#`s
/// continue it.
pub open spec fn heading_of(r: Seq<Seq<char>>) -> Parsed {
    let k = hash_count(r[0]);
    let (t, rest) = text_of(r, FilterV::Heading(r[0].take(k as int)), false);
    (
        Ok(
            SectionV::Text {
                tag: "h"@ + decimal(k),
                class: None,
                attributes: Seq::empty(),
                content: t,
            },
        ),
        rest,
    )
}

/// A paragraph: lines up to the next section marker.
pub open spec fn paragraph_of(r: Seq<Seq<char>>) -> Parsed {
    let (t, rest) = text_of(r, until_section(), false);
    (Ok(SectionV::Text { tag: "p"@, class: None, attributes: Seq::empty(), content: t }), rest)
}

/// The next section of a run, starting at a line that is not blank.
pub open spec fn step_of(r: Seq<Seq<char>>) -> Parsed
    decreases r.len(), 0nat
{
    if r.len() == 0 {
        (Err(ParseErrorV::ExpectedSection(Seq::empty())), r)
    } else if starts_with(r[0], "#"@) {
        heading_of(r)
    } else if strip_section_prefix_spec(r[0]) is Some {
        section_of(r.drop_first(), strip_section_prefix_spec(r[0])->0)
    } else {
        paragraph_of(r)
    }
}

/// The sections up to the end of the lines or, with `end`, up to the line that closes that
/// container (consumed); and the lines left after them. A step that consumed no line would
/// end the run; none does (see `lemma_step_consumes`).
pub open spec fn sections_of(r: Seq<Seq<char>>, end: Option<Seq<char>>) -> ParsedSeq
    decreases r.len(), 1nat
        via sections_of_decreases
{
    let r1 = skip_blanks_spec(r);
    if r1.len() == 0 {
        (Ok(Seq::empty()), r1)
    } else if end matches Some(t) && ends_block(t, r1[0]) {
        (Ok(Seq::empty()), r1.drop_first())
    } else {
        let (res, r2) = step_of(r1);
        if r2.len() >= r.len() {
            (Ok(Seq::empty()), r2)
        } else {
            match res {
                Err(e) => (Err(e), r2),
                Ok(s) => {
                    let (more, rest) = sections_of(r2, end);
                    (
                        match more {
                            Ok(m) => Ok(seq![s] + m),
                            Err(e) => Err(e),
                        },
                        rest,
                    )
                },
            }
        }
    }
}

pub open spec fn parsed_view(r: Result<Section, PageParseError>) -> Result<SectionV, ParseErrorV> {
    match r {
        Ok(s) => Ok(s@),
        Err(e) => Err(e@),
    }
}

fn kind_of(a: &Attribute, k: AttrKind) -> (r: Option<&String>)
    ensures
        r matches Some(v) ==> kind_value(a@, k) == Some(v@),
        r is None ==> kind_value(a@, k) is None,
{
    match (a, k) {
        (Attribute::Title(v), AttrKind::Title) => Some(v),
        (Attribute::Subtitle(v), AttrKind::Subtitle) => Some(v),
        (Attribute::By(v), AttrKind::By) => Some(v),
        (Attribute::Source(v), AttrKind::Source) => Some(v),
        (Attribute::Url(v), AttrKind::Url) => Some(v),
        _ => None,
    }
}

proof fn lemma_attr_position(a: Seq<AttributeV>, k: AttrKind, i: int)
    requires
        0 <= i <= a.len(),
        forall|j: int| 0 <= j < i ==> kind_value(#[trigger] a[j], k) is None,
    ensures
        attr_position(a, k) == match attr_position(a.skip(i), k) {
            Some(p) => Some(p + i),
            None => None::<int>,
        },
    decreases i,
{
    if i > 0 {
        assert forall|j: int| 0 <= j < i - 1 implies kind_value(#[trigger] a.drop_first()[j], k) is None by {
            assert(a.drop_first()[j] == a[j + 1]);
        }
        lemma_attr_position(a.drop_first(), k, i - 1);
        assert(a.drop_first().skip(i - 1) =~= a.skip(i));
        assert(kind_value(a[0], k) is None);
    } else {
        assert(a.skip(0) =~= a);
    }
}

/// The index of the first attribute of kind `k`.
fn position_of(attrs: &Vec<Attribute>, k: AttrKind) -> (r: Option<usize>)
    ensures
        r matches Some(i) ==> attr_position(attrs_view(attrs@), k) == Some(i as int) && i
            < attrs@.len(),
        r is None ==> attr_position(attrs_view(attrs@), k) is None,
{
    let ghost a = attrs_view(attrs@);
    let mut i: usize = 0;
    while i < attrs.len()
        invariant
            a == attrs_view(attrs@),
            i <= attrs@.len(),
            forall|j: int| 0 <= j < i ==> kind_value(#[trigger] a[j], k) is None,
        decreases attrs@.len() - i,
    {
        if kind_of(&attrs[i], k).is_some() {
            proof {
                lemma_attr_position(a, k, i as int);
                assert(a.skip(i as int)[0] == a[i as int]);
            }
            return Some(i);
        }
        i = i + 1;
    }
    proof {
        lemma_attr_position(a, k, i as int);
    }
    None
}

/// The value of the first attribute of kind `k`.
pub(crate) fn find_attr_exec(attrs: &Vec<Attribute>, k: AttrKind) -> (r: Option<String>)
    ensures
        opt_view(r) == find_attr(attrs_view(attrs@), k),
{
    match position_of(attrs, k) {
        Some(i) => match kind_of(&attrs[i], k) {
            Some(v) => Some(v.clone()),
            None => None,
        },
        None => None,
    }
}

/// Removes the first attribute of kind `k`.
fn remove_first(attrs: &mut Vec<Attribute>, k: AttrKind)
    ensures
        attrs_view(final(attrs)@) == without_first(attrs_view(old(attrs)@), k),
{
    match position_of(attrs, k) {
        Some(i) => {
            let ghost before = attrs@;
            attrs.remove(i);
            assert(attrs_view(attrs@) =~= attrs_view(before).remove(i as int));
        },
        None => {},
    }
}

fn digit_char(n: usize) -> (c: char)
    requires
        n < 10,
    ensures
        c == digit(n as nat),
{
    if n == 0 { '0' } else if n == 1 { '1' } else if n == 2 { '2' } else if n == 3 { '3' }
    else if n == 4 { '4' } else if n == 5 { '5' } else if n == 6 { '6' } else if n == 7 { '7' }
    else if n == 8 { '8' } else { '9' }
}

/// `n` in decimal digits.
pub fn decimal_string(n: usize) -> (r: String)
    ensures
        r@ == decimal(n as nat),
    decreases n,
{
    if n < 10 {
        let mut r = String::new();
        push_char(&mut r, digit_char(n));
        r
    } else {
        let mut r = decimal_string(n / 10);
        push_char(&mut r, digit_char(n % 10));
        r
    }
}

proof fn lemma_hash_count(l: Seq<char>, i: int)
    requires
        0 <= i <= l.len(),
        forall|j: int| 0 <= j < i ==> #[trigger] l[j] == '#',
    ensures
        hash_count(l) == i + hash_count(l.skip(i)),
    decreases i,
{
    if i > 0 {
        assert forall|j: int| 0 <= j < i - 1 implies #[trigger] l.drop_first()[j] == '#' by {
            assert(l.drop_first()[j] == l[j + 1]);
        }
        lemma_hash_count(l.drop_first(), i - 1);
        assert(l.drop_first().skip(i - 1) =~= l.skip(i));
    } else {
        assert(l.skip(0) =~= l);
    }
}

/// The `#`s that a line starts with.
fn hash_prefix(line: &str) -> (r: String)
    ensures
        r@ == line@.take(hash_count(line@) as int),
        r@.len() == hash_count(line@),
{
    let v = chars_of(line);
    let mut i: usize = 0;
    while i < v.len() && v[i] == '#'
        invariant
            v@ == line@,
            i <= v@.len(),
            forall|j: int| 0 <= j < i ==> #[trigger] v@[j] == '#',
        decreases v@.len() - i,
    {
        i = i + 1;
    }
    proof {
        lemma_hash_count(line@, i as int);
        if i < v@.len() {
            assert(line@.skip(i as int)[0] == v@[i as int]);
        }
    }
    string_of_range(&v, 0, i)
}

/// `s` cut at each occurrence of `sep`.
pub fn split_str(s: &str, sep: &str) -> (r: Vec<String>)
    ensures
        strings_view(r@) == split_on(s@, sep@),
    decreases s@.len(),
{
    let v = chars_of(sep);
    if v.len() == 0 {
        let mut r = Vec::new();
        r.push(String::from_str(s));
        assert(strings_view(r@) =~= seq![s@]);
        return r;
    }
    match split_once_str(s, sep) {
        Some((head, tail)) => {
            let rest = split_str(tail.as_str(), sep);
            let mut r = Vec::new();
            r.push(head);
            let mut rest = rest;
            r.append(&mut rest);
            assert(strings_view(r@) =~= split_on(s@, sep@));
            r
        },
        None => {
            let mut r = Vec::new();
            r.push(String::from_str(s));
            assert(strings_view(r@) =~= seq![s@]);
            r
        },
    }
}

fn key_position(d: &Vec<(String, String)>, k: &str) -> (r: Option<usize>)
    ensures
        r matches Some(i) ==> key_index(pairs_view(d@), k@) == Some(i as int) && i < d@.len(),
        r is None ==> key_index(pairs_view(d@), k@) is None,
{
    let ghost pv = pairs_view(d@);
    let mut i = d.len();
    assert(pv.take(i as int) =~= pv);
    while i > 0
        invariant
            pv == pairs_view(d@),
            i <= d@.len(),
            key_index(pv, k@) == key_index(pv.take(i as int), k@),
        decreases i,
    {
        let ghost t = pv.take(i as int);
        assert(t.last() == pv[i - 1]);
        if eq_str(d[i - 1].0.as_str(), k) {
            return Some(i - 1);
        }
        assert(t.drop_last() =~= pv.take(i - 1));
        i = i - 1;
    }
    assert(pv.take(0) =~= Seq::<(Seq<char>, Seq<char>)>::empty());
    None
}

fn upsert_exec(d: &mut Vec<(String, String)>, k: String, v: String)
    ensures
        pairs_view(final(d)@) == upsert(pairs_view(old(d)@), k@, v@),
{
    let ghost before = pairs_view(d@);
    match key_position(d, k.as_str()) {
        Some(i) => {
            d.set(i, (k, v));
            assert(pairs_view(d@) =~= before.update(i as int, (k@, v@)));
        },
        None => {
            d.push((k, v));
            assert(pairs_view(d@) =~= before.push((k@, v@)));
        },
    }
}

/// Reads metadata lines: `key: value` each.
fn read_metadata(lines: &Vec<String>) -> (r: Result<Vec<(String, String)>, PageParseError>)
    ensures
        r matches Ok(d) ==> keys_unique(pairs_view(d@)),
        r matches Ok(d) ==> meta_fold(Seq::empty(), strings_view(lines@)) == Ok::<
            Seq<(Seq<char>, Seq<char>)>,
            ParseErrorV,
        >(pairs_view(d@)),
        r matches Err(e) ==> meta_fold(Seq::empty(), strings_view(lines@)) == Err::<
            Seq<(Seq<char>, Seq<char>)>,
            ParseErrorV,
        >(e@),
{
    let ghost lv = strings_view(lines@);
    let mut d: Vec<(String, String)> = Vec::new();
    let mut i: usize = 0;
    assert(pairs_view(d@) =~= Seq::<(Seq<char>, Seq<char>)>::empty());
    assert(lv.skip(0) =~= lv);
    while i < lines.len()
        invariant
            lv == strings_view(lines@),
            i <= lines@.len(),
            meta_fold(Seq::empty(), lv) == meta_fold(pairs_view(d@), lv.skip(i as int)),
        decreases lines@.len() - i,
    {
        let line = lines[i].as_str();
        assert(lv.skip(i as int)[0] == line@);
        assert(lv.skip(i as int).drop_first() =~= lv.skip(i + 1));
        match split_once_str(line, ":") {
            Some((name, value)) => {
                upsert_exec(&mut d, trim_str(name.as_str()), trim_str(value.as_str()));
            },
            None => {
                return Err(PageParseError::WrongMetadataFormat(String::from_str(line)));
            },
        }
        i = i + 1;
    }
    assert(lv.skip(i as int) =~= Seq::<Seq<char>>::empty());
    proof {
        lemma_metadata_keys_unique(Seq::empty(), lv);
    }
    Ok(d)
}

fn is_text_name_exec(n: &str) -> (r: bool)
    ensures
        r == is_text_name(n@),
{
    eq_str(n, "title") || eq_str(n, "subtitle") || eq_str(n, "h1") || eq_str(n, "h2") || eq_str(
        n,
        "h3",
    ) || eq_str(n, "h4") || eq_str(n, "h5") || eq_str(n, "h6") || eq_str(n, "p") || eq_str(
        n,
        "nav",
    ) || eq_str(n, "footnote")
}

fn text_tag_exec(n: &str) -> (r: String)
    ensures
        r@ == text_tag(n@),
{
    if eq_str(n, "title") {
        String::from_str("h1")
    } else if eq_str(n, "subtitle") || eq_str(n, "footnote") {
        String::from_str("p")
    } else {
        String::from_str(n)
    }
}

fn is_code_name_exec(n: &str) -> (r: bool)
    ensures
        r == is_code_name(n@),
{
    eq_str(n, "code") || eq_str(n, "pre") || eq_str(n, "script") || eq_str(n, "html") || eq_str(
        n,
        "css",
    )
}

fn code_tag_exec(n: &str) -> (r: String)
    ensures
        r@ == code_tag(n@),
{
    if eq_str(n, "css") {
        String::from_str("style")
    } else {
        String::from_str(n)
    }
}

fn block_tag_exec(n: &str) -> (r: Option<String>)
    ensures
        opt_view(r) == block_tag(n@),
{
    if eq_str(n, "article/") {
        Some(String::from_str("article"))
    } else if eq_str(n, "section/") {
        Some(String::from_str("section"))
    } else if eq_str(n, "div/") {
        Some(String::from_str("div"))
    } else if eq_str(n, "code/") {
        Some(String::from_str("code"))
    } else if eq_str(n, "pre/") {
        Some(String::from_str("pre"))
    } else if eq_str(n, "script/") {
        Some(String::from_str("script"))
    } else if eq_str(n, "html/") {
        Some(String::from_str("html"))
    } else if eq_str(n, "css/") {
        Some(String::from_str("css"))
    } else {
        None
    }
}

fn notes_class_exec(n: &str) -> (r: Option<String>)
    ensures
        opt_view(r) == notes_class(n@),
{
    if eq_str(n, "notes") {
        Some(String::from_str("note"))
    } else if eq_str(n, "warnings") {
        Some(String::from_str("warning"))
    } else {
        None
    }
}

fn list_tag_exec(n: &str) -> (r: Option<String>)
    ensures
        opt_view(r) == list_tag(n@),
{
    if eq_str(n, "list") {
        Some(String::from_str("ul"))
    } else if eq_str(n, "olist") {
        Some(String::from_str("ol"))
    } else {
        None
    }
}

fn reads_attrs_first_exec(n: &str) -> (r: bool)
    ensures
        r == reads_attrs_first(n@),
{
    starts_with_str(n, "```") || is_text_name_exec(n) || eq_str(n, "aside") || eq_str(
        n,
        "blockquote",
    ) || eq_str(n, "ref") || eq_str(n, "note") || eq_str(n, "warning") || block_tag_exec(
        n,
    ).is_some() || is_code_name_exec(n) || eq_str(n, "hr") || eq_str(n, "bookmark")
        || notes_class_exec(n).is_some() || list_tag_exec(n).is_some() || eq_str(n, "checklist")
        || eq_str(n, "todo")
}

impl Section {
    /// A section that reads no attribute lines first (or not at once).
    fn parse_other(source: &mut Reader, section: &str) -> (r: Result<Section, PageParseError>)
        requires
            old(source).wf(),
        ensures
            final(source).wf(),
            (parsed_view(r), final(source)@) == other_section(section@, old(source)@),
            r matches Ok(Section::Metadata { data }) ==> keys_unique(pairs_view(data@)),
    {
        if eq_str(section, "image") {
            let src = match source.next_line_if_map(&LineFilter::AttrBody) {
                Some(src) => src,
                None => return Err(PageParseError::ExpectedImageSource),
            };
            match source.next_attrs() {
                Ok(attributes) => Ok(Section::Image { src, attributes }),
                Err(e) => Err(e),
            }
        } else if eq_str(section, "youtube") {
            match source.next_line_if_map(&LineFilter::AttrBody) {
                Some(id) => Ok(Section::Youtube { id }),
                None => Err(PageParseError::ExpectedVideoID),
            }
        } else if eq_str(section, "vimeo") {
            match source.next_line_if_map(&LineFilter::AttrBody) {
                Some(id) => Ok(Section::Vimeo { id }),
                None => Err(PageParseError::ExpectedVideoID),
            }
        } else if eq_str(section, "hidden") {
            Ok(Section::Hidden { content: source.next_text_until_section(true) })
        } else if eq_str(section, "metadata") {
            let text = source.next_text_prefixed("--", true);
            let lines = split_str(text.as_str(), "\n");
            match read_metadata(&lines) {
                Ok(data) => Ok(Section::Metadata { data }),
                Err(e) => Err(e),
            }
        } else if eq_str(section, "categories") {
            let text = source.next_text_prefixed("--", true);
            let lines = split_str(text.as_str(), "\n");
            let mut categories: Vec<String> = Vec::new();
            let mut i: usize = 0;
            while i < lines.len()
                invariant
                    i <= lines@.len(),
                    strings_view(categories@) == strings_view(lines@).take(i as int).map_values(
                        |c: Seq<char>| trim(c),
                    ),
                decreases lines@.len() - i,
            {
                let ghost before = strings_view(categories@);
                categories.push(trim_str(lines[i].as_str()));
                proof {
                    assert(strings_view(categories@) =~= before.push(trim(lines@[i as int]@)));
                    assert(strings_view(lines@).take(i + 1).map_values(|c: Seq<char>| trim(c))
                        =~= strings_view(lines@).take(i as int).map_values(|c: Seq<char>| trim(c)).push(
                        trim(lines@[i as int]@),
                    ));
                }
                i = i + 1;
            }
            assert(strings_view(lines@).take(lines@.len() as int) =~= strings_view(lines@));
            Ok(Section::Categories { categories })
        } else {
            Err(PageParseError::UnknownSection(String::from_str(section)))
        }
    }
}

fn quote_content_exec(attrs: &Vec<Attribute>, t: String) -> (r: String)
    ensures
        r@ == quote_content(attrs_view(attrs@), t@),
{
    match find_attr_exec(attrs, AttrKind::By) {
        None => t,
        Some(by) => {
            let mut c = t;
            c.append("\n-- ");
            c.append(by.as_str());
            match find_attr_exec(attrs, AttrKind::Source) {
                None => {},
                Some(src) => match find_attr_exec(attrs, AttrKind::Url) {
                    Some(url) => {
                        c.append(" (>");
                        c.append(src.as_str());
                        c.append(">");
                        c.append(url.as_str());
                        c.append(">)");
                    },
                    None => {
                        c.append(" (");
                        c.append(src.as_str());
                        c.append(")");
                    },
                },
            }
            c
        },
    }
}

fn ref_parts_exec(attrs: Vec<Attribute>, t: String) -> (r: (Vec<Attribute>, String))
    ensures
        (attrs_view(r.0@), r.1@) == ref_parts(attrs_view(attrs@), t@),
{
    match find_attr_exec(&attrs, AttrKind::Title) {
        None => (attrs, t),
        Some(title) => {
            let mut head = match find_attr_exec(&attrs, AttrKind::Url) {
                Some(url) => {
                    let mut h = String::from_str(">");
                    h.append(title.as_str());
                    h.append(">");
                    h.append(url.as_str());
                    h.append(">");
                    h
                },
                None => title,
            };
            let mut attrs = attrs;
            match find_attr_exec(&attrs, AttrKind::Subtitle) {
                Some(sub) => {
                    head.append(" ");
                    head.append(sub.as_str());
                    head.append("\n");
                    head.append(t.as_str());
                    remove_first(&mut attrs, AttrKind::Subtitle);
                    remove_first(&mut attrs, AttrKind::Title);
                    (attrs, head)
                },
                None => {
                    head.append("\n");
                    head.append(t.as_str());
                    remove_first(&mut attrs, AttrKind::Title);
                    (attrs, head)
                },
            }
        },
    }
}

fn wrap_class(n: &str) -> (r: String)
    ensures
        r@ == "div class = \""@ + n@ + "\""@,
{
    let mut r = String::from_str("div class = \"");
    r.append(n);
    r.append("\"");
    r
}

impl Section {
    /// A section whose attributes have been read.
    fn parse_after_attrs(source: &mut Reader, section: &str, attributes: Vec<Attribute>) -> (r:
        Result<Section, PageParseError>)
        requires
            old(source).wf(),
            !(block_tag(section@) is Some && !is_code_name(block_tag(section@)->0)),
        ensures
            final(source).wf(),
            (parsed_view(r), final(source)@) == after_attrs(
                section@,
                attrs_view(attributes@),
                old(source)@,
            ),
    {
        let mut attributes = attributes;
        if starts_with_str(section, "```") {
            let language = strip_prefix_str(section, "```").unwrap();
            if chars_of(language.as_str()).len() > 0 {
                let mut class = String::from_str("language-");
                class.append(language.as_str());
                let ghost before = attrs_view(attributes@);
                attributes.push(Attribute::Class(class));
                assert(attrs_view(attributes@) =~= before.push(AttributeV::Class("language-"@ + language@)));
            }
            let content = source.next_text_until_tag("```", true);
            Ok(Section::Code { tag: String::from_str("code"), attributes, content })
        } else if is_text_name_exec(section) {
            let tag = text_tag_exec(section);
            if eq_str(section, "title") || eq_str(section, "subtitle") {
                source.skip_blanks();
                match source.next_line() {
                    Some(content) => {
                        let mut class = Vec::new();
                        class.push(String::from_str(section));
                        assert(strings_view(class@) =~= seq![section@]);
                        Ok(Section::Text { tag, class: Some(class), attributes, content })
                    },
                    None => Err(PageParseError::EmptyTitle),
                }
            } else {
                let content = source.next_text_until_section(false);
                Ok(Section::Text { tag, class: None, attributes, content })
            }
        } else if eq_str(section, "aside") {
            let content = source.next_text_until_section(false);
            Ok(Section::TextWrapper { tag: String::from_str(section), attributes, content })
        } else if eq_str(section, "blockquote") {
            let content = source.next_text_until_section(false);
            let content = quote_content_exec(&attributes, content);
            Ok(Section::TextWrapper { tag: String::from_str(section), attributes, content })
        } else if eq_str(section, "ref") {
            let content = source.next_text_until_section(false);
            let (attributes, content) = ref_parts_exec(attributes, content);
            Ok(Section::TextWrapper { tag: String::from_str(section), attributes, content })
        } else if eq_str(section, "note") || eq_str(section, "warning") {
            let content = source.next_text_until_section(false);
            Ok(Section::TextWrapper { tag: wrap_class(section), attributes, content })
        } else if block_tag_exec(section).is_some() {
            let tag = block_tag_exec(section).unwrap();
            let content = source.next_text_until_tag(tag.as_str(), true);
            Ok(Section::Code { tag: code_tag_exec(tag.as_str()), attributes, content })
        } else if is_code_name_exec(section) {
            let content = source.next_text_until_section(true);
            Ok(Section::Code { tag: code_tag_exec(section), attributes, content })
        } else if eq_str(section, "hr") {
            Ok(Section::Tag { tag: String::from_str(section), attributes })
        } else if eq_str(section, "bookmark") {
            let content = source.next_text_until_section(false);
            Ok(Section::Bookmark { attributes, content })
        } else if notes_class_exec(section).is_some() {
            let class = notes_class_exec(section).unwrap();
            let content = source.next_list_prefixed("- ");
            Ok(Section::Notes { class, attributes, content })
        } else if list_tag_exec(section).is_some() {
            let tag = list_tag_exec(section).unwrap();
            let content = source.next_list_prefixed("- ");
            Ok(Section::List { tag, attributes, content })
        } else {
            let prelude = source.next_text_until(Boundary::CheckItem, false);
            let content = source.next_list(&ItemMarker::Check);
            Ok(Section::Checklist { attributes, prelude, content, todo: eq_str(section, "todo") })
        }
    }
}

pub open spec fn opt_str_view(o: Option<&str>) -> Option<Seq<char>> {
    match o {
        Some(s) => Some(s@),
        None => None,
    }
}

pub open spec fn sections_result_view(r: Result<Vec<Section>, PageParseError>) -> Result<
    Seq<SectionV>,
    ParseErrorV,
> {
    match r {
        Ok(v) => Ok(sections_view(v@)),
        Err(e) => Err(e@),
    }
}

/// Sections `acc` put before those of a parse result.
pub open spec fn prepend_sections(acc: Seq<SectionV>, x: ParsedSeq) -> ParsedSeq {
    (
        match x.0 {
            Ok(s) => Ok(acc + s),
            Err(e) => Err(e),
        },
        x.1,
    )
}

fn ends_block_exec(tag: &str, line: &str) -> (r: bool)
    ensures
        r == ends_block(tag@, line@),
{
    match strip_section_prefix(line) {
        Some(section) => match strip_prefix_str(section.as_str(), "/") {
            Some(t) => eq_str(t.as_str(), tag),
            None => false,
        },
        None => false,
    }
}

impl Section {
    /// Parses the section named `section`, whose marker line has been read.
    pub fn parse(source: &mut Reader, section: &str) -> (r: Result<Section, PageParseError>)
        requires
            old(source).wf(),
        ensures
            final(source).wf(),
            (parsed_view(r), final(source)@) == section_of(old(source)@, section@),
            r matches Ok(Section::Metadata { data }) ==> keys_unique(pairs_view(data@)),
        decreases old(source)@.len(), 2nat,
    {
        if reads_attrs_first_exec(section) {
            proof {
                lemma_attrs_of_len(source@);
            }
            let attributes = match source.next_attrs() {
                Ok(a) => a,
                Err(e) => return Err(e),
            };
            match block_tag_exec(section) {
                Some(tag) => if !is_code_name_exec(tag.as_str()) {
                    return match source.next_sections(Some(tag.as_str())) {
                        Ok(content) => {
                            let ghost c = content@;
                            let sec = Section::Container { tag, attributes, content };
                            proof {
                                match sec@ {
                                    SectionV::Container { content: x, .. } => {
                                        assert(x =~= sections_view(c));
                                    },
                                    _ => {},
                                }
                            }
                            Ok(sec)
                        },
                        Err(e) => Err(e),
                    };
                },
                None => {},
            }
            Self::parse_after_attrs(source, section, attributes)
        } else {
            Self::parse_other(source, section)
        }
    }
}

impl Reader {
    /// The section at the next line, which is not blank: a heading, a marked section or a
    /// paragraph.
    fn next_section(&mut self) -> (r: Result<Section, PageParseError>)
        requires
            old(self).wf(),
        ensures
            final(self).wf(),
            (parsed_view(r), final(self)@) == step_of(old(self)@),
        decreases old(self)@.len(), 0nat,
    {
        let line = match self.peek_line() {
            Some(l) => l.clone(),
            None => return Err(PageParseError::ExpectedSection(String::new())),
        };
        if starts_with_str(line.as_str(), "#") {
            let prefix = hash_prefix(line.as_str());
            let mut tag = String::from_str("h");
            tag.append(decimal_string(chars_of(prefix.as_str()).len()).as_str());
            let content = self.next_text(&LineFilter::Heading(prefix), false);
            let attributes: Vec<Attribute> = Vec::new();
            assert(attrs_view(attributes@) =~= Seq::<AttributeV>::empty());
            Ok(Section::Text { tag, class: None, attributes, content })
        } else {
            match strip_section_prefix(line.as_str()) {
                Some(section) => {
                    self.next_line();
                    Section::parse(self, section.as_str())
                },
                None => {
                    let content = self.next_text_until_section(false);
                    let attributes: Vec<Attribute> = Vec::new();
                    assert(attrs_view(attributes@) =~= Seq::<AttributeV>::empty());
                    Ok(Section::Text { tag: String::from_str("p"), class: None, attributes, content })
                },
            }
        }
    }

    /// The sections up to the end of the lines or, with `end_tag`, up to the line that
    /// closes that container.
    pub fn next_sections(&mut self, end_tag: Option<&str>) -> (r: Result<
        Vec<Section>,
        PageParseError,
    >)
        requires
            old(self).wf(),
        ensures
            final(self).wf(),
            (sections_result_view(r), final(self)@) == sections_of(
                old(self)@,
                opt_str_view(end_tag),
            ),
        decreases old(self)@.len(), 1nat,
    {
        let ghost end = opt_str_view(end_tag);
        let mut sections: Vec<Section> = Vec::new();
        assert(sections_view(sections@) + sections_of(self@, end).0->Ok_0 =~= sections_of(self@, end).0->Ok_0);
        loop
            invariant
                self.wf(),
                end == opt_str_view(end_tag),
                self@.len() <= old(self)@.len(),
                sections_of(old(self)@, end) == prepend_sections(
                    sections_view(sections@),
                    sections_of(self@, end),
                ),
            decreases self@.len(),
        {
            let ghost r = self@;
            let start = self.remaining();
            self.skip_blanks();
            proof {
                lemma_skip_blanks_suffix(r);
            }
            let line = match self.peek_line() {
                Some(l) => l.clone(),
                None => {
                    assert(sections_view(sections@) + Seq::empty() =~= sections_view(sections@));
                    return Ok(sections);
                },
            };
            match end_tag {
                Some(t) => if ends_block_exec(t, line.as_str()) {
                    self.next_line();
                    assert(sections_view(sections@) + Seq::empty() =~= sections_view(sections@));
                    return Ok(sections);
                },
                None => {},
            }
            let step = self.next_section();
            if self.remaining() >= start {
                assert(sections_view(sections@) + Seq::empty() =~= sections_view(sections@));
                return Ok(sections);
            }
            match step {
                Ok(s) => {
                    let ghost acc = sections_view(sections@);
                    sections.push(s);
                    proof {
                        assert(sections_view(sections@) =~= acc.push(s@));
                        let more = sections_of(self@, end).0;
                        if more is Ok {
                            assert(acc + (seq![s@] + more->Ok_0) =~= acc.push(s@) + more->Ok_0);
                        }
                    }
                },
                Err(e) => return Err(e),
            }
        }
    }
}

proof fn lemma_skip_len(r: Seq<Seq<char>>, k: int)
    requires
        0 <= k <= r.len(),
    ensures
        r.skip(k).len() == r.len() - k,
{
}

proof fn lemma_text_of_len(r: Seq<Seq<char>>, f: FilterV, raw: bool)
    ensures
        text_of(r, f, raw).1.len() <= r.len(),
{
    lemma_skip_blanks_suffix(r);
    lemma_take_count_le(skip_blanks_spec(r), f);
}

proof fn lemma_list_of_len(r: Seq<Seq<char>>, m: ItemMarkerV)
    ensures
        list_of(r, m).1.len() <= r.len(),
    decreases r.len(),
{
    lemma_skip_blanks_suffix(r);
    let r1 = skip_blanks_spec(r);
    if r1.len() > 0 && is_item(m, r1[0]) {
        let f = FilterV::Until(BoundaryV::ListItem(m));
        let tail = r1.drop_first();
        lemma_take_count_le(tail, f);
        lemma_list_of_len(tail.skip(take_count(tail, f) as int), m);
    }
}

proof fn lemma_after_attrs_len(n: Seq<char>, a: Seq<AttributeV>, r: Seq<Seq<char>>)
    ensures
        after_attrs(n, a, r).1.len() <= r.len(),
{
    lemma_skip_blanks_suffix(r);
    lemma_text_of_len(r, until_section(), false);
    lemma_text_of_len(r, until_section(), true);
    lemma_text_of_len(r, FilterV::Until(BoundaryV::CloseTag("```"@)), true);
    if block_tag(n) is Some {
        lemma_text_of_len(r, FilterV::Until(BoundaryV::CloseTag(block_tag(n)->0)), true);
    }
    lemma_list_of_len(r, ItemMarkerV::Prefix("- "@));
    lemma_text_of_len(r, FilterV::Until(BoundaryV::CheckItem), false);
    let r1 = text_of(r, FilterV::Until(BoundaryV::CheckItem), false).1;
    lemma_list_of_len(r1, ItemMarkerV::Check);
}

proof fn lemma_other_section_len(n: Seq<char>, r: Seq<Seq<char>>)
    ensures
        other_section(n, r).1.len() <= r.len(),
{
    if r.len() > 0 {
        lemma_attrs_of_len(r.drop_first());
    }
    lemma_text_of_len(r, until_section(), true);
    lemma_text_of_len(r, FilterV::Prefixed("--"@, true), true);
}

/// A section leaves no more lines than it was given.
pub proof fn lemma_section_of_len(r: Seq<Seq<char>>, n: Seq<char>)
    ensures
        section_of(r, n).1.len() <= r.len(),
    decreases r.len(), 2nat,
{
    lemma_attrs_of_len(r);
    let r1 = attrs_of(r).1;
    if reads_attrs_first(n) {
        if attrs_of(r).0 is Ok {
            if block_tag(n) is Some && !is_code_name(block_tag(n)->0) {
                lemma_sections_of_len(r1, Some(block_tag(n)->0));
            } else {
                lemma_after_attrs_len(n, attrs_of(r).0->Ok_0, r1);
            }
        }
    } else {
        lemma_other_section_len(n, r);
    }
}

/// A run of sections leaves no more lines than it was given.
pub proof fn lemma_sections_of_len(r: Seq<Seq<char>>, end: Option<Seq<char>>)
    ensures
        sections_of(r, end).1.len() <= r.len(),
    decreases r.len(), 1nat,
{
    lemma_skip_blanks_suffix(r);
    let r1 = skip_blanks_spec(r);
    if r1.len() > 0 && !(end matches Some(t) && ends_block(t, r1[0])) {
        lemma_step_len(r1);
        let r2 = step_of(r1).1;
        if r2.len() < r.len() && step_of(r1).0 is Ok {
            lemma_sections_of_len(r2, end);
        }
    }
}

proof fn lemma_step_len(r: Seq<Seq<char>>)
    ensures
        step_of(r).1.len() <= r.len(),
    decreases r.len(), 0nat,
{
    if r.len() > 0 {
        lemma_text_of_len(r, FilterV::Heading(r[0].take(hash_count(r[0]) as int)), false);
        lemma_text_of_len(r, until_section(), false);
        if strip_section_prefix_spec(r[0]) is Some {
            lemma_section_of_len(r.drop_first(), strip_section_prefix_spec(r[0])->0);
        }
    }
}

/// A step that starts at a line that is not blank consumes at least that line.
pub proof fn lemma_step_consumes(r: Seq<Seq<char>>)
    requires
        r.len() > 0,
        !is_blank(r[0]),
    ensures
        step_of(r).1.len() < r.len(),
{
    let l = r[0];
    assert(skip_blanks_spec(r) == r);
    reveal_strlit("#");
    reveal_strlit("--");
    reveal_strlit("```");
    if starts_with(l, "#"@) {
        let k = hash_count(l);
        assert(l.subrange(0, 1)[0] == l[0]);
        assert("#"@[0] == '#');
        assert(l[0] == '#');
        assert(k >= 1) by {
            assert(l.subrange(0, 1)[0] == l[0]);
        }
        lemma_hash_count_prefix(l);
        let p = l.take(k as int);
        let f = FilterV::Heading(p);
        assert(!is_ws(l[0]));
        assert(l.subrange(0, p.len() as int) =~= p);
        let rest = l.subrange(k as int, l.len() as int);
        assert(!starts_with(rest, "#"@)) by {
            if rest.len() > 0 {
                assert(rest[0] == l[k as int]);
                assert(rest.subrange(0, 1)[0] == rest[0]);
            }
        }
        assert(filter_line(f, l) is Some);
        assert(take_count(r, f) >= 1);
        lemma_take_count_le(r, f);
    } else if strip_section_prefix_spec(l) is Some {
        lemma_section_of_len(r.drop_first(), strip_section_prefix_spec(l)->0);
    } else {
        let f = until_section();
        assert(!has_section_prefix_spec(l));
        assert(filter_line(f, l) is Some);
        assert(take_count(r, f) >= 1);
        lemma_take_count_le(r, f);
    }
}

proof fn lemma_hash_count_prefix(l: Seq<char>)
    ensures
        hash_count(l) <= l.len(),
        forall|j: int| 0 <= j < hash_count(l) ==> #[trigger] l[j] == '#',
        hash_count(l) < l.len() ==> l[hash_count(l) as int] != '#',
    decreases l.len(),
{
    if l.len() > 0 && l[0] == '#' {
        lemma_hash_count_prefix(l.drop_first());
        assert forall|j: int| 0 <= j < hash_count(l) implies #[trigger] l[j] == '#' by {
            if j > 0 {
                assert(l[j] == l.drop_first()[j - 1]);
            }
        }
        if hash_count(l) < l.len() {
            assert(l[hash_count(l) as int] == l.drop_first()[hash_count(l.drop_first()) as int]);
        }
    }
}

/// No key appears twice.
pub open spec fn keys_unique(d: Seq<(Seq<char>, Seq<char>)>) -> bool {
    forall|i: int, j: int| 0 <= i < j < d.len() ==> d[i].0 != d[j].0
}

proof fn lemma_key_index(d: Seq<(Seq<char>, Seq<char>)>, k: Seq<char>)
    ensures
        key_index(d, k) matches Some(i) ==> 0 <= i < d.len() && d[i].0 == k,
        key_index(d, k) is None ==> forall|i: int| 0 <= i < d.len() ==> #[trigger] d[i].0 != k,
    decreases d.len(),
{
    if d.len() > 0 && d.last().0 != k {
        lemma_key_index(d.drop_last(), k);
        assert forall|i: int| 0 <= i < d.len() - 1 implies #[trigger] d[i].0 == d.drop_last()[i].0 by {}
    }
}

/// Setting a key keeps the keys unique, and the key then holds the value just set: the
/// last write wins.
pub proof fn lemma_upsert(d: Seq<(Seq<char>, Seq<char>)>, k: Seq<char>, v: Seq<char>)
    requires
        keys_unique(d),
    ensures
        keys_unique(upsert(d, k, v)),
        key_index(upsert(d, k, v), k) matches Some(i) && upsert(d, k, v)[i] == (k, v),
{
    lemma_key_index(d, k);
    let u = upsert(d, k, v);
    lemma_key_index(u, k);
    match key_index(d, k) {
        Some(i) => {
            assert forall|a: int, b: int| 0 <= a < b < u.len() implies u[a].0 != u[b].0 by {
                assert(u[a].0 == d[a].0 && u[b].0 == d[b].0);
            }
            assert(u[i] == (k, v));
            if key_index(u, k) != Some(i) {
                let j = key_index(u, k)->0;
                assert(u[j].0 == k && d[j].0 == k);
            }
        },
        None => {
            assert forall|a: int, b: int| 0 <= a < b < u.len() implies u[a].0 != u[b].0 by {
                if b == d.len() {
                    assert(u[a].0 == d[a].0);
                } else {
                    assert(u[a].0 == d[a].0 && u[b].0 == d[b].0);
                }
            }
            assert(u.last().0 == k);
        },
    }
}

/// Metadata read from lines never holds a key twice.
pub proof fn lemma_metadata_keys_unique(d: Seq<(Seq<char>, Seq<char>)>, lines: Seq<Seq<char>>)
    requires
        keys_unique(d),
    ensures
        meta_fold(d, lines) matches Ok(r) ==> keys_unique(r),
    decreases lines.len(),
{
    if lines.len() > 0 {
        let l = lines[0];
        match find(l, ":"@) {
            Some(i) => {
                let k = trim(l.subrange(0, i));
                let v = trim(l.subrange(i + ":"@.len(), l.len() as int));
                lemma_upsert(d, k, v);
                lemma_metadata_keys_unique(upsert(d, k, v), lines.drop_first());
            },
            None => {},
        }
    }
}

} // verus!
