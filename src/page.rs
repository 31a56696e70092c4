//! A page: the sections parsed from a whole source, and the HTML document built from them.
use build_html::{Html, HtmlContainer};
use crate::error::{PageBuildError, PageParseError, ParseErrorV};
use crate::html::children_html;
use crate::inline::{join_path, join_path_exec};
use crate::reader::{strings_view, Reader};
use crate::section::{sections_of, sections_view, split_on, split_str, Section, SectionV};
use crate::text::chars_of;
use vstd::prelude::*;

verus! {

#[verifier::external_type_specification]
#[verifier::external_body]
pub struct ExHtmlPage(build_html::HtmlPage);

/// What the head of a `build_html::HtmlPage` holds so far.
pub uninterp spec fn page_head(p: build_html::HtmlPage) -> Seq<char>;

/// What the body of a `build_html::HtmlPage` holds so far.
pub uninterp spec fn page_body(p: build_html::HtmlPage) -> Seq<char>;

/// The page is an HTML5 document, whose doctype is `<!DOCTYPE html>` and whose `html` tag
/// has no attributes.
pub uninterp spec fn page_is_html5(p: build_html::HtmlPage) -> bool;

/// Relies on `build_html::HtmlPage::new`: an empty HTML5 page.
#[verifier::external_body]
fn html_page_new() -> (r: build_html::HtmlPage)
    ensures
        page_head(r) == Seq::<char>::empty(),
        page_body(r) == Seq::<char>::empty(),
        page_is_html5(r),
{
    build_html::HtmlPage::new()
}

/// Relies on `build_html::HtmlPage::add_head_link`: a `link` element at the end of the head.
#[verifier::external_body]
fn add_head_link(p: &mut build_html::HtmlPage, href: &str, rel: &str)
    ensures
        page_head(*final(p)) == page_head(*old(p)) + "<link href=\""@ + href@ + "\" rel=\""@ + rel@
            + "\">"@,
        page_body(*final(p)) == page_body(*old(p)),
        page_is_html5(*final(p)) == page_is_html5(*old(p)),
{
    p.add_head_link(href, rel)
}

/// Relies on `build_html::HtmlPage::add_script_link`: a `script` element that loads `src`,
/// at the end of the head.
#[verifier::external_body]
fn add_script_link(p: &mut build_html::HtmlPage, src: &str)
    ensures
        page_head(*final(p)) == page_head(*old(p)) + "<script src=\""@ + src@ + "\"></script>"@,
        page_body(*final(p)) == page_body(*old(p)),
        page_is_html5(*final(p)) == page_is_html5(*old(p)),
{
    p.add_script_link(src)
}

/// Relies on `build_html::HtmlPage::add_script_literal`: a `script` element holding `code`,
/// at the end of the head.
#[verifier::external_body]
fn add_script_literal(p: &mut build_html::HtmlPage, code: &str)
    ensures
        page_head(*final(p)) == page_head(*old(p)) + "<script>"@ + code@ + "</script>"@,
        page_body(*final(p)) == page_body(*old(p)),
        page_is_html5(*final(p)) == page_is_html5(*old(p)),
{
    p.add_script_literal(code)
}

/// Relies on `build_html::HtmlContainer::add_html` for a `String`: the text at the end of
/// the body.
#[verifier::external_body]
fn add_html(p: &mut build_html::HtmlPage, html: String)
    ensures
        page_head(*final(p)) == page_head(*old(p)),
        page_body(*final(p)) == page_body(*old(p)) + html@,
        page_is_html5(*final(p)) == page_is_html5(*old(p)),
{
    p.add_html(html)
}

/// Relies on `build_html::Html::to_html_string` for an `HtmlPage`: the doctype, then the
/// head and the body inside an `html` element.
#[verifier::external_body]
fn html_page_string(p: &build_html::HtmlPage) -> (r: String)
    ensures
        page_is_html5(*p) ==> r@ == "<!DOCTYPE html><html><head>"@ + page_head(*p)
            + "</head><body>"@ + page_body(*p) + "</body></html>"@,
{
    p.to_html_string()
}

pub open spec fn highlight_css() -> Seq<char> {
    "https://cdnjs.cloudflare.com/ajax/libs/highlight.js/11.8.0/styles/github-dark.min.css"@
}

pub open spec fn highlight_js() -> Seq<char> {
    "https://cdnjs.cloudflare.com/ajax/libs/highlight.js/11.8.0/highlight.min.js"@
}

/// The head of every page: the code highlighter's style and script, the project's global
/// style sheet, and the call that starts highlighting.
pub open spec fn head_html(root: Seq<char>) -> Seq<char> {
    "<link href=\""@ + highlight_css() + "\" rel=\""@ + "stylesheet"@ + "\">"@ + "<script src=\""@
        + highlight_js() + "\"></script>"@ + "<link href=\""@ + join_path(root, "global.css"@)
        + "\" rel=\""@ + "stylesheet"@ + "\">"@ + "<script>"@ + "hljs.highlightAll();"@
        + "</script>"@
}

/// The whole HTML document of a page.
pub open spec fn document_html(sections: Seq<SectionV>, root: Seq<char>) -> Seq<char> {
    "<!DOCTYPE html><html><head>"@ + head_html(root) + "</head><body>"@ + children_html(
        sections,
        root,
    ) + "</body></html>"@
}

/// A line without the carriage return of a `\r\n` ending.
pub open spec fn without_cr(l: Seq<char>) -> Seq<char> {
    if l.len() > 0 && l.last() == '\r' {
        l.drop_last()
    } else {
        l
    }
}

/// The lines of a source: cut at each `\n`, a `\r` before it dropped; a last line that is
/// empty is no line.
pub open spec fn source_lines(s: Seq<char>) -> Seq<Seq<char>> {
    let p = split_on(s, "\n"@);
    let k = p.len() - 1;
    Seq::new(k as nat, |i: int| without_cr(p[i])) + if k >= 0 && p[k].len() > 0 {
        seq![p[k]]
    } else {
        Seq::empty()
    }
}

pub proof fn lemma_split_nonempty(s: Seq<char>, sep: Seq<char>)
    ensures
        split_on(s, sep).len() >= 1,
    decreases s.len(),
{
    if sep.len() > 0 {
        match crate::text::find(s, sep) {
            Some(i) => if 0 <= i && i + sep.len() <= s.len() {
                lemma_split_nonempty(s.subrange(i + sep.len(), s.len() as int), sep);
            },
            None => {},
        }
    }
}

/// Cuts a source into lines.
pub fn lines_of(source: &str) -> (r: Vec<String>)
    ensures
        strings_view(r@) == source_lines(source@),
{
    let pieces = split_str(source, "\n");
    proof {
        lemma_split_nonempty(source@, "\n"@);
    }
    let ghost p = strings_view(pieces@);
    let k = pieces.len() - 1;
    let mut lines: Vec<String> = Vec::new();
    let mut i: usize = 0;
    while i < k
        invariant
            p == strings_view(pieces@),
            k == pieces@.len() - 1,
            i <= k,
            strings_view(lines@) == Seq::new(i as nat, |j: int| without_cr(p[j])),
        decreases k - i,
    {
        let v = chars_of(pieces[i].as_str());
        let line = if v.len() > 0 && v[v.len() - 1] == '\r' {
            crate::text::string_of_range(&v, 0, v.len() - 1)
        } else {
            pieces[i].clone()
        };
        proof {
            if v@.len() > 0 && v@[v@.len() - 1] == '\r' {
                assert(v@.subrange(0, v@.len() - 1) =~= v@.drop_last());
            }
        }
        assert(line@ == without_cr(p[i as int]));
        let ghost before = strings_view(lines@);
        lines.push(line);
        assert(strings_view(lines@) =~= before.push(without_cr(p[i as int])));
        assert(strings_view(lines@) =~= Seq::new((i + 1) as nat, |j: int| without_cr(p[j])));
        i = i + 1;
    }
    if chars_of(pieces[k].as_str()).len() > 0 {
        let ghost before = strings_view(lines@);
        lines.push(pieces[k].clone());
        assert(strings_view(lines@) =~= before + seq![p[k as int]]);
    } else {
        assert(strings_view(lines@) =~= strings_view(lines@) + Seq::<Seq<char>>::empty());
    }
    lines
}

/// A page
#[derive(Debug, PartialEq, Eq)]
pub struct Page {
    sections: Vec<Section>,
}

impl View for Page {
    type V = Seq<SectionV>;

    closed spec fn view(&self) -> Seq<SectionV> {
        sections_view(self.sections@)
    }
}

pub open spec fn page_result_view(r: Result<Page, PageParseError>) -> Result<
    Seq<SectionV>,
    ParseErrorV,
> {
    match r {
        Ok(p) => Ok(p@),
        Err(e) => Err(e@),
    }
}

impl Page {
    /// Parses a page from its lines.
    pub fn new(lines: Vec<String>) -> (r: Result<Page, PageParseError>)
        ensures
            page_result_view(r) == sections_of(strings_view(lines@), None).0,
    {
        let mut reader = Reader::new(lines);
        match reader.next_sections(None) {
            Ok(sections) => Ok(Page { sections }),
            Err(e) => Err(e),
        }
    }

    /// Parses a page from its source text.
    pub fn from_source(source: &str) -> (r: Result<Page, PageParseError>)
        ensures
            page_result_view(r) == sections_of(source_lines(source@), None).0,
    {
        Self::new(lines_of(source))
    }

    /// The top-level sections, in order.
    pub fn sections(&self) -> (r: &Vec<Section>)
        ensures
            sections_view(r@) == self@,
    {
        &self.sections
    }

    /// The page as an HTML document; links that start with `/` are taken from
    /// `project_root`.
    pub fn to_html(&self, project_root: &str) -> (r: Result<build_html::HtmlPage, PageBuildError>)
        ensures
            r matches Ok(p) && page_is_html5(p) && page_head(p) == head_html(project_root@)
                && page_body(p) == children_html(self@, project_root@),
    {
        let mut page = html_page_new();
        add_head_link(
            &mut page,
            "https://cdnjs.cloudflare.com/ajax/libs/highlight.js/11.8.0/styles/github-dark.min.css",
            "stylesheet",
        );
        add_script_link(
            &mut page,
            "https://cdnjs.cloudflare.com/ajax/libs/highlight.js/11.8.0/highlight.min.js",
        );
        add_head_link(
            &mut page,
            join_path_exec(project_root, "global.css").as_str(),
            "stylesheet",
        );
        add_script_literal(&mut page, "hljs.highlightAll();");
        let ghost sv = self@;
        let mut i: usize = 0;
        while i < self.sections.len()
            invariant
                sv == self@,
                sv == sections_view(self.sections@),
                i <= self.sections@.len(),
                page_is_html5(page),
                page_head(page) == head_html(project_root@),
                page_body(page) == children_html(sv.subrange(0, i as int), project_root@),
            decreases self.sections@.len() - i,
        {
            proof {
                assert(sv.subrange(0, i + 1).subrange(0, i as int) =~= sv.subrange(0, i as int));
                assert(sv.subrange(0, i + 1)[i as int] == self.sections@[i as int]@);
            }
            match self.sections[i].to_html(project_root) {
                Ok(h) => add_html(&mut page, h),
                Err(e) => return Err(e),
            }
            i = i + 1;
        }
        assert(sv.subrange(0, sv.len() as int) =~= sv);
        Ok(page)
    }

    /// The page as a string holding its HTML document.
    pub fn to_html_string(&self, page_path: &str) -> (r: Result<String, PageBuildError>)
        ensures
            r matches Ok(s) && s@ == document_html(self@, page_path@),
    {
        match self.to_html(page_path) {
            Ok(page) => Ok(html_page_string(&page)),
            Err(e) => Err(e),
        }
    }
}

} // verus!
