//! HTML emission: each section variant has one fixed template.
use crate::attribute::{attribute_html, Attribute, AttributeV};
use crate::error::PageBuildError;
use crate::inline::{escape, escape_html, format_link, format_link_spec, text_html, text_to_html};
use crate::reader::{attrs_view, strings_view};
use crate::section::{find_attr, AttrKind, Section, SectionV};
use crate::text::{eq_str, starts_with, starts_with_str, strip_prefix, strip_prefix_str};
use vstd::prelude::*;

verus! {

/// `items` with `sep` between each two.
pub open spec fn joined(items: Seq<Seq<char>>, sep: Seq<char>) -> Seq<char>
    decreases items.len(),
{
    if items.len() == 0 {
        Seq::empty()
    } else if items.len() == 1 {
        items[0]
    } else {
        joined(items.drop_last(), sep) + sep + items.last()
    }
}

/// Relies on `itertools::Itertools::intersperse`: the items with `sep` between each two,
/// concatenated.
#[verifier::external_body]
fn join_iter(items: Vec<String>, sep: &str) -> (r: String)
    ensures
        r@ == joined(strings_view(items@), sep@),
{
    itertools::Itertools::intersperse(items.into_iter(), sep.to_owned()).collect::<String>()
}

/// The attributes as they stand in a start tag, each after a space.
pub open spec fn attrs_html(a: Seq<AttributeV>) -> Seq<char>
    decreases a.len(),
{
    if a.len() == 0 {
        Seq::empty()
    } else {
        attrs_html(a.drop_last()) + match attribute_html(a.last()) {
            Some(h) => " "@ + h,
            None => Seq::empty(),
        }
    }
}

/// The section's title attribute as a `tag` element.
pub open spec fn title_html(root: Seq<char>, a: Seq<AttributeV>, tag: Seq<char>) -> Seq<char> {
    match find_attr(a, AttrKind::Title) {
        Some(t) => "<"@ + tag + ">"@ + text_html(root, t) + "</"@ + tag + ">"@,
        None => Seq::empty(),
    }
}

pub open spec fn concat(cs: Seq<Seq<char>>) -> Seq<char>
    decreases cs.len(),
{
    if cs.len() == 0 {
        Seq::empty()
    } else {
        concat(cs.drop_last()) + cs.last()
    }
}

pub open spec fn class_html(class: Option<Seq<Seq<char>>>) -> Seq<char> {
    match class {
        Some(cs) => " class=\""@ + concat(cs) + "\""@,
        None => Seq::empty(),
    }
}

pub open spec fn code_html(content: Seq<char>, title: Seq<char>, attrs: Seq<char>) -> Seq<char> {
    "<pre>"@ + title + "<code"@ + attrs + ">"@ + escape(content) + "</code></pre>"@
}

pub open spec fn has_show(a: Seq<AttributeV>) -> bool
    decreases a.len(),
{
    a.len() > 0 && (a.last() is Show || has_show(a.drop_last()))
}

pub open spec fn li_items(root: Seq<char>, items: Seq<Seq<char>>) -> Seq<Seq<char>> {
    items.map_values(|it: Seq<char>| "<li><p>"@ + text_html(root, it) + "</p></li>"@)
}

/// A checklist entry without its `[]` or `[x]`.
pub open spec fn unchecked(item: Seq<char>) -> Seq<char> {
    match strip_prefix(item, "[]"@) {
        Some(rest) => rest,
        None => match strip_prefix(item, "[x]"@) {
            Some(rest) => rest,
            None => item,
        },
    }
}

pub open spec fn check_item(root: Seq<char>, item: Seq<char>, todo: bool) -> Seq<char> {
    "<label><input type=\"checkbox\" "@ + (if todo {
        "disabled "@
    } else {
        Seq::empty()
    }) + (if starts_with(item, "[x]"@) {
        "checked "@
    } else {
        Seq::empty()
    }) + "/> "@ + text_html(root, unchecked(item)) + "</label><br>"@
}

pub open spec fn check_items(root: Seq<char>, items: Seq<Seq<char>>, todo: bool) -> Seq<
    Seq<char>,
> {
    items.map_values(|it: Seq<char>| check_item(root, it, todo))
}

pub open spec fn bookmark_title(root: Seq<char>, a: Seq<AttributeV>) -> Seq<char> {
    match find_attr(a, AttrKind::Title) {
        Some(t) => "<h4>"@ + match find_attr(a, AttrKind::Url) {
            Some(url) => text_html(root, ">"@ + t + ">"@ + url + ">"@),
            None => text_html(root, t),
        } + "</h4>"@,
        None => Seq::empty(),
    }
}

pub open spec fn youtube_html(id: Seq<char>) -> Seq<char> {
    "<iframe width=\"623\" height=\"350\" src=\"https://www.youtube-nocookie.com/embed/"@ + id
        + "\" title=\"YouTube video player\" allow=\"accelerometer; autoplay; clipboard-write; encrypted-media; gyroscope; picture-in-picture; web-share\" allowfullscreen=\"\"></iframe>"@
}

pub open spec fn vimeo_html(id: Seq<char>) -> Seq<char> {
    "<div style=\"padding:56.25% 0 0 0;position:relative;\"><iframe src=\"https://player.vimeo.com/video/"@
        + id
        + "?title=0&byline=0&portrait=0\" style=\"position:absolute;top:0;left:0;width:100%;height:100%;\" frameborder=\"0\" allow=\"autoplay; fullscreen; picture-in-picture\" allowfullscreen></iframe></div>"@
}

/// The HTML of a section, with root-relative links taken from `root`.
pub open spec fn section_html(s: SectionV, root: Seq<char>) -> Seq<char>
    decreases s,
{
    match s {
        SectionV::Text { tag, class, attributes: a, content } => "<"@ + tag + class_html(class)
            + attrs_html(a) + ">"@ + title_html(root, a, "h4"@) + text_html(root, content) + "</"@
            + tag + ">"@,
        SectionV::TextWrapper { tag, attributes: a, content } => "<"@ + tag + attrs_html(a) + ">"@
            + title_html(root, a, "h4"@) + "<p>"@ + text_html(root, content) + "</p></"@ + tag
            + ">"@,
        SectionV::Container { tag, attributes: a, content } => "<"@ + tag + attrs_html(a) + ">"@
            + title_html(root, a, "h4"@) + children_html(content, root) + "</"@ + tag + ">"@,
        SectionV::Code { tag, attributes: a, content } => if tag == "code"@ {
            code_html(content, title_html(root, a, "h4"@), attrs_html(a))
        } else {
            "<"@ + tag + attrs_html(a) + ">"@ + content + "</"@ + tag + ">"@ + if has_show(a) {
                code_html(content, title_html(root, a, "h4"@), Seq::empty())
            } else {
                Seq::empty()
            }
        },
        SectionV::Tag { tag, attributes: a } => "<"@ + tag + attrs_html(a) + " />"@,
        SectionV::Bookmark { attributes: a, content } => "<div class = \"bookmark\""@ + attrs_html(
            a,
        ) + ">"@ + bookmark_title(root, a) + text_html(root, content) + "</div>"@,
        SectionV::Notes { class, attributes: a, content } => "<div class = \""@ + class + "\""@
            + attrs_html(a) + ">"@ + title_html(root, a, "h4"@) + "<ul>"@ + joined(
            li_items(root, content),
            ""@,
        ) + "</ul></div>"@,
        SectionV::List { tag, attributes: a, content } => "<div"@ + attrs_html(a) + ">"@
            + title_html(root, a, "h4"@) + "<"@ + tag + ">"@ + joined(li_items(root, content), ""@)
            + "</"@ + tag + "></div>"@,
        SectionV::Checklist { attributes: a, prelude, content, todo } => "<div"@ + attrs_html(a)
            + ">"@ + title_html(root, a, "h4"@) + "<p>"@ + text_html(root, prelude) + "</p>"@
            + joined(check_items(root, content, todo), ""@) + "</div>"@,
        SectionV::Image { src, attributes: a } => title_html(
            root,
            a,
            "h2 class = \"imageTitle\""@,
        ) + "<image src = \""@ + format_link_spec(root, src) + "\""@ + attrs_html(a) + " />"@,
        SectionV::Youtube { id } => youtube_html(id),
        SectionV::Vimeo { id } => vimeo_html(id),
        SectionV::Hidden { content } => "<!-- "@ + escape(content) + " -->"@,
        SectionV::Metadata { .. } => Seq::empty(),
        SectionV::Categories { .. } => Seq::empty(),
    }
}

/// The HTML of a run of sections, one after another.
pub open spec fn children_html(cs: Seq<SectionV>, root: Seq<char>) -> Seq<char>
    decreases cs,
{
    if cs.len() == 0 {
        Seq::empty()
    } else {
        children_html(cs.subrange(0, cs.len() - 1), root) + section_html(cs[cs.len() - 1], root)
    }
}

fn attrs_html_exec(attrs: &Vec<Attribute>) -> (r: String)
    ensures
        r@ == attrs_html(attrs_view(attrs@)),
{
    let ghost a = attrs_view(attrs@);
    let mut r = String::new();
    let mut i: usize = 0;
    while i < attrs.len()
        invariant
            a == attrs_view(attrs@),
            i <= attrs@.len(),
            r@ == attrs_html(a.take(i as int)),
        decreases attrs@.len() - i,
    {
        proof {
            assert(a.take(i + 1).drop_last() =~= a.take(i as int));
            assert(a.take(i + 1).last() == attrs@[i as int]@);
        }
        match attrs[i].to_html() {
            Some(h) => {
                r.append(" ");
                r.append(h.as_str());
            },
            None => {
                assert(r@ + Seq::<char>::empty() =~= r@);
            },
        }
        i = i + 1;
    }
    assert(a.take(attrs@.len() as int) =~= a);
    r
}

fn title_html_exec(root: &str, attrs: &Vec<Attribute>, tag: &str) -> (r: String)
    ensures
        r@ == title_html(root@, attrs_view(attrs@), tag@),
{
    match crate::section::find_attr_exec(attrs, AttrKind::Title) {
        Some(t) => {
            let mut r = String::from_str("<");
            r.append(tag);
            r.append(">");
            r.append(text_to_html(root, t.as_str()).as_str());
            r.append("</");
            r.append(tag);
            r.append(">");
            r
        },
        None => String::new(),
    }
}

fn class_html_exec(class: &Option<Vec<String>>) -> (r: String)
    ensures
        r@ == class_html(
            match class {
                Some(c) => Some(strings_view(c@)),
                None => None,
            },
        ),
{
    match class {
        Some(cs) => {
            let ghost v = strings_view(cs@);
            let mut r = String::from_str(" class=\"");
            let ghost start = r@;
            let mut i: usize = 0;
            while i < cs.len()
                invariant
                    v == strings_view(cs@),
                    i <= cs@.len(),
                    r@ == start + concat(v.take(i as int)),
                decreases cs@.len() - i,
            {
                proof {
                    assert(v.take(i + 1).drop_last() =~= v.take(i as int));
                    assert(v.take(i + 1).last() == cs@[i as int]@);
                }
                r.append(cs[i].as_str());
                i = i + 1;
            }
            assert(v.take(cs@.len() as int) =~= v);
            r.append("\"");
            r
        },
        None => String::new(),
    }
}

fn code_html_exec(content: &str, title: &str, attrs: &str) -> (r: String)
    ensures
        r@ == code_html(content@, title@, attrs@),
{
    let mut r = String::from_str("<pre>");
    r.append(title);
    r.append("<code");
    r.append(attrs);
    r.append(">");
    r.append(escape_html(content).as_str());
    r.append("</code></pre>");
    r
}

fn has_show_exec(attrs: &Vec<Attribute>) -> (r: bool)
    ensures
        r == has_show(attrs_view(attrs@)),
{
    let ghost a = attrs_view(attrs@);
    let mut i: usize = 0;
    let mut found = false;
    while i < attrs.len()
        invariant
            a == attrs_view(attrs@),
            i <= attrs@.len(),
            found == has_show(a.take(i as int)),
        decreases attrs@.len() - i,
    {
        proof {
            assert(a.take(i + 1).drop_last() =~= a.take(i as int));
            assert(a.take(i + 1).last() == attrs@[i as int]@);
        }
        let show = match attrs[i] {
            Attribute::Show => true,
            _ => false,
        };
        found = found || show;
        i = i + 1;
    }
    assert(a.take(attrs@.len() as int) =~= a);
    found
}

fn li_items_exec(root: &str, items: &Vec<String>) -> (r: Vec<String>)
    ensures
        strings_view(r@) == li_items(root@, strings_view(items@)),
{
    let ghost v = strings_view(items@);
    let mut r: Vec<String> = Vec::new();
    let mut i: usize = 0;
    while i < items.len()
        invariant
            v == strings_view(items@),
            i <= items@.len(),
            strings_view(r@) == li_items(root@, v.take(i as int)),
        decreases items@.len() - i,
    {
        let mut li = String::from_str("<li><p>");
        li.append(text_to_html(root, items[i].as_str()).as_str());
        li.append("</p></li>");
        let ghost before = strings_view(r@);
        r.push(li);
        proof {
            assert(strings_view(r@) =~= before.push(li@));
            assert(li_items(root@, v.take(i + 1)) =~= li_items(root@, v.take(i as int)).push(li@));
        }
        i = i + 1;
    }
    assert(v.take(items@.len() as int) =~= v);
    r
}

fn unchecked_exec(item: &str) -> (r: String)
    ensures
        r@ == unchecked(item@),
{
    match strip_prefix_str(item, "[]") {
        Some(rest) => rest,
        None => match strip_prefix_str(item, "[x]") {
            Some(rest) => rest,
            None => String::from_str(item),
        },
    }
}

fn check_items_exec(root: &str, items: &Vec<String>, todo: bool) -> (r: Vec<String>)
    ensures
        strings_view(r@) == check_items(root@, strings_view(items@), todo),
{
    let ghost v = strings_view(items@);
    let mut r: Vec<String> = Vec::new();
    let mut i: usize = 0;
    while i < items.len()
        invariant
            v == strings_view(items@),
            i <= items@.len(),
            strings_view(r@) == check_items(root@, v.take(i as int), todo),
        decreases items@.len() - i,
    {
        let item = items[i].as_str();
        let mut c = String::from_str("<label><input type=\"checkbox\" ");
        if todo {
            c.append("disabled ");
        } else {
            assert(c@ + Seq::<char>::empty() =~= c@);
        }
        if starts_with_str(item, "[x]") {
            c.append("checked ");
        } else {
            assert(c@ + Seq::<char>::empty() =~= c@);
        }
        c.append("/> ");
        c.append(text_to_html(root, unchecked_exec(item).as_str()).as_str());
        c.append("</label><br>");
        let ghost before = strings_view(r@);
        r.push(c);
        proof {
            assert(strings_view(r@) =~= before.push(c@));
            assert(check_items(root@, v.take(i + 1), todo) =~= check_items(
                root@,
                v.take(i as int),
                todo,
            ).push(c@));
        }
        i = i + 1;
    }
    assert(v.take(items@.len() as int) =~= v);
    r
}

fn bookmark_title_exec(root: &str, attrs: &Vec<Attribute>) -> (r: String)
    ensures
        r@ == bookmark_title(root@, attrs_view(attrs@)),
{
    match crate::section::find_attr_exec(attrs, AttrKind::Title) {
        Some(t) => {
            let mut r = String::from_str("<h4>");
            match crate::section::find_attr_exec(attrs, AttrKind::Url) {
                Some(url) => {
                    let mut link = String::from_str(">");
                    link.append(t.as_str());
                    link.append(">");
                    link.append(url.as_str());
                    link.append(">");
                    r.append(text_to_html(root, link.as_str()).as_str());
                },
                None => {
                    r.append(text_to_html(root, t.as_str()).as_str());
                },
            }
            r.append("</h4>");
            r
        },
        None => String::new(),
    }
}

fn open_tag(tag: &str, attrs: &Vec<Attribute>) -> (r: String)
    ensures
        r@ == "<"@ + tag@ + attrs_html(attrs_view(attrs@)) + ">"@,
{
    let mut r = String::from_str("<");
    r.append(tag);
    r.append(attrs_html_exec(attrs).as_str());
    r.append(">");
    r
}

fn close_tag(r: &mut String, tag: &str)
    ensures
        final(r)@ == old(r)@ + "</"@ + tag@ + ">"@,
{
    r.append("</");
    r.append(tag);
    r.append(">");
}

fn text_section_html(
    root: &str,
    tag: &String,
    class: &Option<Vec<String>>,
    attributes: &Vec<Attribute>,
    content: &String,
) -> (r: String)
    ensures
        r@ == "<"@ + tag@ + class_html(
            match class {
                Some(c) => Some(strings_view(c@)),
                None => None,
            },
        ) + attrs_html(attrs_view(attributes@)) + ">"@ + title_html(
            root@,
            attrs_view(attributes@),
            "h4"@,
        ) + text_html(root@, content@) + "</"@ + tag@ + ">"@,
{
    let mut r = String::from_str("<");
    r.append(tag.as_str());
    r.append(class_html_exec(class).as_str());
    r.append(attrs_html_exec(attributes).as_str());
    r.append(">");
    r.append(title_html_exec(root, attributes, "h4").as_str());
    r.append(text_to_html(root, content.as_str()).as_str());
    close_tag(&mut r, tag.as_str());
    r
}

fn code_section_html(root: &str, tag: &String, attributes: &Vec<Attribute>, content: &String) -> (r:
    String)
    ensures
        r@ == section_html(
            SectionV::Code { tag: tag@, attributes: attrs_view(attributes@), content: content@ },
            root@,
        ),
{
    let title = title_html_exec(root, attributes, "h4");
    if eq_str(tag.as_str(), "code") {
        code_html_exec(content.as_str(), title.as_str(), attrs_html_exec(attributes).as_str())
    } else {
        let mut r = open_tag(tag.as_str(), attributes);
        r.append(content.as_str());
        close_tag(&mut r, tag.as_str());
        if has_show_exec(attributes) {
            let none = String::new();
            r.append(code_html_exec(content.as_str(), title.as_str(), none.as_str()).as_str());
        } else {
            assert(r@ + Seq::<char>::empty() =~= r@);
        }
        r
    }
}

fn list_section_html(root: &str, s: &Section) -> (r: String)
    requires
        s is Notes || s is List || s is Checklist,
    ensures
        r@ == section_html(s@, root@),
{
    match s {
        Section::Notes { class, attributes, content } => {
            let mut r = String::from_str("<div class = \"");
            r.append(class.as_str());
            r.append("\"");
            r.append(attrs_html_exec(attributes).as_str());
            r.append(">");
            r.append(title_html_exec(root, attributes, "h4").as_str());
            r.append("<ul>");
            r.append(join_iter(li_items_exec(root, content), "").as_str());
            r.append("</ul></div>");
            r
        },
        Section::List { tag, attributes, content } => {
            let mut r = String::from_str("<div");
            r.append(attrs_html_exec(attributes).as_str());
            r.append(">");
            r.append(title_html_exec(root, attributes, "h4").as_str());
            r.append("<");
            r.append(tag.as_str());
            r.append(">");
            r.append(join_iter(li_items_exec(root, content), "").as_str());
            r.append("</");
            r.append(tag.as_str());
            r.append("></div>");
            r
        },
        Section::Checklist { attributes, prelude, content, todo } => {
            let mut r = String::from_str("<div");
            r.append(attrs_html_exec(attributes).as_str());
            r.append(">");
            r.append(title_html_exec(root, attributes, "h4").as_str());
            r.append("<p>");
            r.append(text_to_html(root, prelude.as_str()).as_str());
            r.append("</p>");
            r.append(join_iter(check_items_exec(root, content, *todo), "").as_str());
            r.append("</div>");
            r
        },
        _ => String::new(),
    }
}

fn media_section_html(root: &str, s: &Section) -> (r: String)
    requires
        s is Image || s is Youtube || s is Vimeo || s is Hidden || s is Tag || s is Bookmark
            || s is TextWrapper,
    ensures
        r@ == section_html(s@, root@),
{
    match s {
        Section::TextWrapper { tag, attributes, content } => {
            let mut r = open_tag(tag.as_str(), attributes);
            r.append(title_html_exec(root, attributes, "h4").as_str());
            r.append("<p>");
            r.append(text_to_html(root, content.as_str()).as_str());
            r.append("</p></");
            r.append(tag.as_str());
            r.append(">");
            r
        },
        Section::Tag { tag, attributes } => {
            let mut r = String::from_str("<");
            r.append(tag.as_str());
            r.append(attrs_html_exec(attributes).as_str());
            r.append(" />");
            r
        },
        Section::Bookmark { attributes, content } => {
            let mut r = String::from_str("<div class = \"bookmark\"");
            r.append(attrs_html_exec(attributes).as_str());
            r.append(">");
            r.append(bookmark_title_exec(root, attributes).as_str());
            r.append(text_to_html(root, content.as_str()).as_str());
            r.append("</div>");
            r
        },
        Section::Image { src, attributes } => {
            let mut r = title_html_exec(root, attributes, "h2 class = \"imageTitle\"");
            r.append("<image src = \"");
            r.append(format_link(root, src.as_str()).as_str());
            r.append("\"");
            r.append(attrs_html_exec(attributes).as_str());
            r.append(" />");
            r
        },
        Section::Youtube { id } => {
            let mut r = String::from_str(
                "<iframe width=\"623\" height=\"350\" src=\"https://www.youtube-nocookie.com/embed/",
            );
            r.append(id.as_str());
            r.append(
                "\" title=\"YouTube video player\" allow=\"accelerometer; autoplay; clipboard-write; encrypted-media; gyroscope; picture-in-picture; web-share\" allowfullscreen=\"\"></iframe>",
            );
            r
        },
        Section::Vimeo { id } => {
            let mut r = String::from_str(
                "<div style=\"padding:56.25% 0 0 0;position:relative;\"><iframe src=\"https://player.vimeo.com/video/",
            );
            r.append(id.as_str());
            r.append(
                "?title=0&byline=0&portrait=0\" style=\"position:absolute;top:0;left:0;width:100%;height:100%;\" frameborder=\"0\" allow=\"autoplay; fullscreen; picture-in-picture\" allowfullscreen></iframe></div>",
            );
            r
        },
        Section::Hidden { content } => {
            let mut r = String::from_str("<!-- ");
            r.append(escape_html(content.as_str()).as_str());
            r.append(" -->");
            r
        },
        _ => String::new(),
    }
}

impl Section {
    /// The HTML of this section; links that start with `/` are taken from `project_root`.
    pub fn to_html(&self, project_root: &str) -> (r: Result<String, PageBuildError>)
        ensures
            r matches Ok(h) && h@ == section_html(self@, project_root@),
        decreases self,
    {
        let root = project_root;
        match self {
            Section::Text { tag, class, attributes, content } => Ok(
                text_section_html(root, tag, class, attributes, content),
            ),
            Section::Container { tag, attributes, content } => {
                let ghost cv = self@->Container_content;
                assert(self->Container_content == *content);
                let mut r = open_tag(tag.as_str(), attributes);
                r.append(title_html_exec(root, attributes, "h4").as_str());
                let ghost start = r@;
                let mut i: usize = 0;
                while i < content.len()
                    invariant
                        cv == self@->Container_content,
                        self is Container,
                        self->Container_content == *content,
                        cv.len() == content@.len(),
                        forall|j: int| 0 <= j < cv.len() ==> cv[j] == (#[trigger] content@[j])@,
                        i <= content@.len(),
                        r@ == start + children_html(cv.subrange(0, i as int), root@),
                    decreases content@.len() - i,
                {
                    proof {
                        broadcast use vstd::std_specs::vec::axiom_vec_index_decreases;
                        assert(decreases_to!(*content => content[i as int]));
                        assert(self->Container_content == *content);
                        assert(decreases_to!(*self => self->Container_content));
                        assert(decreases_to!(*self => content[i as int]));
                        assert(cv.subrange(0, i + 1).subrange(0, i as int) =~= cv.subrange(0, i as int));
                        assert(cv.subrange(0, i + 1)[i as int] == cv[i as int]);
                    }
                    match content[i].to_html(root) {
                        Ok(h) => r.append(h.as_str()),
                        Err(e) => return Err(e),
                    }
                    i = i + 1;
                }
                assert(cv.subrange(0, cv.len() as int) =~= cv);
                close_tag(&mut r, tag.as_str());
                Ok(r)
            },
            Section::Code { tag, attributes, content } => Ok(
                code_section_html(root, tag, attributes, content),
            ),
            Section::Notes { .. } | Section::List { .. } | Section::Checklist { .. } => Ok(
                list_section_html(root, self),
            ),
            Section::Metadata { .. } => Ok(String::new()),
            Section::Categories { .. } => Ok(String::new()),
            _ => Ok(media_section_html(root, self)),
        }
    }
}

} // verus!
