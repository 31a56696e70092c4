use oreneo::inline::{rewrite_match, rewrite_pieces, Pass};
use oreneo::{escape_html, format_link, text_to_html, Page, Section};

#[test]
fn escaping_once() {
    assert_eq!(escape_html("<a & b>"), "&lt;a &amp; b&gt;");
    assert_eq!(escape_html("&lt;"), "&amp;lt;");
}

#[test]
fn end_to_end_scenario() {
    let page = Page::from_source("--title\nHello\n--p\nSome *bold*b* text.\n").unwrap();
    let html = page.to_html_string(".").unwrap();
    assert!(html.contains("<h1 class=\"title\">Hello</h1>"));
    assert!(html.contains("<p>Some <strong b>bold</strong> text.</p>"));
    assert_eq!(
        html,
        [
            "<!DOCTYPE html><html><head>",
            "<link href=\"https://cdnjs.cloudflare.com/ajax/libs/highlight.js/11.8.0/styles/github-dark.min.css\" rel=\"stylesheet\">",
            "<script src=\"https://cdnjs.cloudflare.com/ajax/libs/highlight.js/11.8.0/highlight.min.js\"></script>",
            "<link href=\"./global.css\" rel=\"stylesheet\">",
            "<script>hljs.highlightAll();</script>",
            "</head><body>",
            "<h1 class=\"title\">Hello</h1><p>Some <strong b>bold</strong> text.</p>",
            "</body></html>"
        ]
        .concat()
    );
}

#[test]
fn links_from_project_root() {
    assert_eq!(format_link("..", "/a/b.png"), "../a/b.png");
    assert_eq!(format_link("", "/x"), "x");
    assert_eq!(format_link("root/", "/x"), "root/x");
    assert_eq!(format_link("r", "https://e.org"), "https://e.org");
}

#[test]
fn inline_image_tag() {
    assert_eq!(text_to_html("..", "<<img|/pic.png>>"), "<img src=\"../pic.png\" />");
}

#[test]
fn inline_generic_tags() {
    assert_eq!(text_to_html("", "<<br|>>"), "<br  />");
    assert_eq!(
        text_to_html("", "<<span|hi|id: x>>"),
        "<span hi|id = \"x\" />"
    );
    assert_eq!(
        text_to_html("", "<<link|home|/index.html>>"),
        "<link home|/index.html />"
    );
}

#[test]
fn inline_links() {
    assert_eq!(
        text_to_html("", ">Example>https://example.com>"),
        "<a href = \"https://example.com\">Example</a>"
    );
    assert_eq!(
        text_to_html("", "<https://e.org>"),
        "<a href = \"https://e.org\">https://e.org</a>"
    );
    assert_eq!(
        text_to_html("", ">x>y.html|class: big>"),
        "<a href = \"y.html\"class = \"big\">x</a>"
    );
}

#[test]
fn inline_emphasis_and_code() {
    assert_eq!(text_to_html("", "_hi__"), "<em >hi</em>");
    assert_eq!(text_to_html("", "~gone~~"), "<s >gone</s>");
    assert_eq!(text_to_html("", "`x < y``"), "<code >x &lt; y</code>");
    assert_eq!(text_to_html("", "*b*id: k*"), "<strong id = \"k\">b</strong>");
}

#[test]
fn inline_backslash_escapes() {
    assert_eq!(text_to_html("", "\\*not bold*x*"), "&#x002a;not bold*x*");
    assert_eq!(text_to_html("", "a\\\\b"), "a&bsol;b");
}

#[test]
fn line_breaks_become_br() {
    assert_eq!(text_to_html("", "a\nb"), "a<br>b");
}

#[test]
fn notes_render_as_list() {
    let page = Page::from_source("--notes\n- one\n- two").unwrap();
    assert_eq!(
        page.sections()[0].to_html("").unwrap(),
        "<div class = \"note\"><ul><li><p>one</p></li><li><p>two</p></li></ul></div>"
    );
}

#[test]
fn todo_renders_disabled_boxes() {
    let page = Page::from_source("--todo\nBuy\n[] milk\n[x] eggs").unwrap();
    assert_eq!(
        page.sections()[0].to_html("").unwrap(),
        [
            "<div><p>Buy</p>",
            "<label><input type=\"checkbox\" disabled />  milk</label><br>",
            "<label><input type=\"checkbox\" disabled checked />  eggs</label><br>",
            "</div>"
        ]
        .concat()
    );
}

#[test]
fn code_renders_escaped() {
    let page = Page::from_source("```rust\na < b\n```").unwrap();
    assert_eq!(
        page.sections()[0].to_html("").unwrap(),
        "<pre><code class=\"language-rust\">a &lt; b</code></pre>"
    );
}

#[test]
fn html_block_with_show() {
    let page = Page::from_source("--html/\n--show\n<b>x</b>\n--/html").unwrap();
    assert_eq!(
        page.sections()[0].to_html("").unwrap(),
        "<html><b>x</b></html><pre><code>&lt;b&gt;x&lt;/b&gt;</code></pre>"
    );
}

#[test]
fn container_renders_children() {
    let page = Page::from_source("--div/\n--id: box\n--title: Box\n--p\ntext\n--/div").unwrap();
    assert_eq!(
        page.sections()[0].to_html("").unwrap(),
        "<div id=\"box\" title=\"Box\"><h4>Box</h4><p>text</p></div>"
    );
}

#[test]
fn hidden_and_metadata_render() {
    let hidden = Section::Hidden { content: "a<b".to_string() };
    assert_eq!(hidden.to_html("").unwrap(), "<!-- a&lt;b -->");
    let meta = Section::Metadata { data: vec![("k".to_string(), "v".to_string())] };
    assert_eq!(meta.to_html("").unwrap(), "");
}

#[test]
fn image_and_video_render() {
    let page = Page::from_source("--image\n-- /img/a.png\n--alt: A\n--youtube\n-- abc").unwrap();
    assert_eq!(
        page.sections()[0].to_html("..").unwrap(),
        "<image src = \"../img/a.png\" alt=\"A\" />"
    );
    let yt = page.sections()[1].to_html("").unwrap();
    assert!(yt.starts_with("<iframe width=\"623\" height=\"350\" src=\"https://www.youtube-nocookie.com/embed/abc\""));
}

#[test]
fn splice_puts_replacements_between_pieces() {
    let pieces = vec!["a".to_string(), "b".to_string(), "c".to_string()];
    let reps = vec!["X".to_string(), "Y".to_string()];
    assert_eq!(oreneo::inline::splice(&pieces, &reps), "aXbYc");
    assert_eq!(oreneo::inline::splice(&vec!["only".to_string()], &vec![]), "only");
}

#[test]
fn rewrite_of_one_match() {
    let strong = vec![Some("*bold**".to_string()), Some("bold".to_string()), Some(String::new())];
    assert_eq!(rewrite_match(Pass::Strong, "", &strong), "<strong >bold</strong>");
    let link = vec![None, Some("Home".to_string()), Some("/index.html".to_string())];
    assert_eq!(
        rewrite_match(Pass::LinkArrow, "..", &link),
        "<a href = \"../index.html\">Home</a>"
    );
    let img = vec![None, Some("img".to_string()), Some("/p.png".to_string())];
    assert_eq!(rewrite_match(Pass::TagVoid, "r", &img), "<img src=\"r/p.png\" />");
}

#[test]
fn build_error_message() {
    assert_eq!(
        oreneo::PageBuildError::RelativePathNotFound("a.neo".to_string()).message(),
        "Failed to find relative path to project file from file 'a.neo'"
    );
}

#[test]
fn one_pass_over_cut_text() {
    let pieces = vec!["a ".to_string(), " c".to_string()];
    let caps = vec![vec![Some("*b**".to_string()), Some("b".to_string()), Some(String::new())]];
    assert_eq!(rewrite_pieces(Pass::Strong, "", &pieces, &caps), "a <strong >b</strong> c");
}
