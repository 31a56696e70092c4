//! The inline formatter: escapes flowed text and rewrites its inline markup (links,
//! emphasis, code spans, generic tags) into HTML.
use crate::reader::strings_view;
use crate::text::{
    chars_of, eq_str, find, opt_view, push_char, split_once_str, starts_with, starts_with_str, strip_prefix,
    strip_prefix_str,
};
use vstd::prelude::*;

verus! {

/// Whether `regex::Regex::new` accepts the pattern.
pub uninterp spec fn regex_compiles(pattern: Seq<char>) -> bool;

/// The pieces of `text` between the matches of the pattern, as `regex::Regex::split` yields
/// them.
pub uninterp spec fn regex_pieces(pattern: Seq<char>, text: Seq<char>) -> Seq<Seq<char>>;

/// The capture groups of each match of the pattern in `text`, as
/// `regex::Regex::captures_iter` yields them (group 0 is the whole match).
pub uninterp spec fn regex_captures(pattern: Seq<char>, text: Seq<char>) -> Seq<
    Seq<Option<Seq<char>>>,
>;

pub open spec fn groups_view(v: Seq<Vec<Option<String>>>) -> Seq<Seq<Option<Seq<char>>>> {
    v.map_values(|m: Vec<Option<String>>| m@.map_values(|g: Option<String>| opt_view(g)))
}

/// Relies on `regex::Regex::new` and `regex::Regex::split`: the pieces of `text` between
/// the matches, or `None` when the pattern does not compile.
#[verifier::external_body]
fn regex_split(pattern: &str, text: &str) -> (r: Option<Vec<String>>)
    ensures
        r is Some == regex_compiles(pattern@),
        r matches Some(v) ==> strings_view(v@) == regex_pieces(pattern@, text@),
{
    regex::Regex::new(pattern).ok().map(|re| re.split(text).map(|p| p.to_owned()).collect())
}

/// Relies on `regex::Regex::new` and `regex::Regex::captures_iter`: the groups of each
/// match, or `None` when the pattern does not compile.
#[verifier::external_body]
fn regex_groups(pattern: &str, text: &str) -> (r: Option<Vec<Vec<Option<String>>>>)
    ensures
        r is Some == regex_compiles(pattern@),
        r matches Some(v) ==> groups_view(v@) == regex_captures(pattern@, text@),
{
    regex::Regex::new(pattern).ok().map(
        |re|
            re.captures_iter(text).map(
                |c| c.iter().map(|g| g.map(|m| m.as_str().to_owned())).collect(),
            ).collect(),
    )
}

pub open spec fn escape_char(c: char) -> Seq<char> {
    if c == '&' {
        "&amp;"@
    } else if c == '<' {
        "&lt;"@
    } else if c == '>' {
        "&gt;"@
    } else {
        seq![c]
    }
}

/// `&`, `<` and `>` written as HTML entities.
pub open spec fn escape(s: Seq<char>) -> Seq<char>
    decreases s.len(),
{
    if s.len() == 0 {
        Seq::empty()
    } else {
        escape(s.drop_last()) + escape_char(s.last())
    }
}

/// Every occurrence of `from` in `s`, left to right, replaced by `to`.
pub open spec fn replace(s: Seq<char>, from: Seq<char>, to: Seq<char>) -> Seq<char>
    decreases s.len(),
{
    if from.len() == 0 {
        s
    } else {
        match find(s, from) {
            Some(i) => if 0 <= i && i + from.len() <= s.len() {
                s.subrange(0, i) + to + replace(
                    s.subrange(i + from.len(), s.len() as int),
                    from,
                    to,
                )
            } else {
                s
            },
            None => s,
        }
    }
}

/// The first `i` pieces, each but the last followed by its replacement.
pub open spec fn interleave_upto(p: Seq<Seq<char>>, r: Seq<Seq<char>>, i: int) -> Seq<char>
    decreases i,
{
    if i <= 0 {
        Seq::empty()
    } else {
        interleave_upto(p, r, i - 1) + p[i - 1] + if i < p.len() && i - 1 < r.len() {
            r[i - 1]
        } else {
            Seq::empty()
        }
    }
}

pub open spec fn interleave(p: Seq<Seq<char>>, r: Seq<Seq<char>>) -> Seq<char> {
    interleave_upto(p, r, p.len() as int)
}

pub fn escape_html(code: &str) -> (r: String)
    ensures
        r@ == escape(code@),
{
    let v = chars_of(code);
    let mut r = String::new();
    let mut i: usize = 0;
    while i < v.len()
        invariant
            v@ == code@,
            i <= v@.len(),
            r@ == escape(code@.take(i as int)),
        decreases v@.len() - i,
    {
        let c = v[i];
        if c == '&' {
            r.append("&amp;");
        } else if c == '<' {
            r.append("&lt;");
        } else if c == '>' {
            r.append("&gt;");
        } else {
            push_char(&mut r, c);
        }
        proof {
            assert(code@.take(i + 1).drop_last() =~= code@.take(i as int));
            assert(code@.take(i + 1).last() == c);
        }
        i = i + 1;
    }
    assert(code@.take(v@.len() as int) =~= code@);
    r
}

/// Every occurrence of `from` replaced by `to`.
pub fn replace_str(s: &str, from: &str, to: &str) -> (r: String)
    ensures
        r@ == replace(s@, from@, to@),
    decreases s@.len(),
{
    if chars_of(from).len() == 0 {
        return String::from_str(s);
    }
    match split_once_str(s, from) {
        Some((head, tail)) => {
            let rest = replace_str(tail.as_str(), from, to);
            let mut r = head;
            r.append(to);
            r.append(rest.as_str());
            r
        },
        None => String::from_str(s),
    }
}

/// `rel` joined onto the directory `root`, with `/` as the separator: a `rel` that starts
/// with `/` stands alone, and an empty `root` adds nothing.
pub open spec fn join_path(root: Seq<char>, rel: Seq<char>) -> Seq<char> {
    if starts_with(rel, "/"@) || root.len() == 0 {
        rel
    } else if root.last() == '/' {
        root + rel
    } else {
        root + seq!['/'] + rel
    }
}

/// A link as written in the page: one that starts with `/` is taken from the project root.
pub open spec fn format_link_spec(root: Seq<char>, link: Seq<char>) -> Seq<char> {
    match strip_prefix(link, "/"@) {
        Some(local) => join_path(root, local),
        None => link,
    }
}

/// The inline rewrites, in the order in which they apply (the first one rewrites attribute
/// lists inside the others).
#[derive(Clone, Copy)]
pub enum Pass {
    Attrs,
    TagVoid,
    TagWrap,
    LinkArrow,
    LinkAngle,
    Strong,
    Em,
    Strike,
    Code,
}

pub open spec fn pass_pattern(p: Pass) -> Seq<char> {
    match p {
        Pass::Attrs => "(\\w+)\\s*:\\s*(\\w+)\\|?"@,
        Pass::TagVoid => "<<(\\w+)\\s*\\|(.*?)>>"@,
        Pass::TagWrap => "<<(\\w+)\\s*\\|(.*?)\\|(.*?)>>"@,
        Pass::LinkArrow => ">(.*?)>(.*?)>"@,
        Pass::LinkAngle => "<(.*?)>"@,
        Pass::Strong => "\\*(.*?)\\*(.*?)\\*"@,
        Pass::Em => "_(.*?)_(.*?)_"@,
        Pass::Strike => "\\~(.*?)\\~(.*?)\\~"@,
        Pass::Code => "`(.*?)`(.*?)`"@,
    }
}

/// Capture group `i`, empty when it took no part in the match.
pub open spec fn group(g: Seq<Option<Seq<char>>>, i: int) -> Seq<char> {
    if 0 <= i < g.len() && g[i] is Some {
        g[i]->0
    } else {
        Seq::empty()
    }
}

pub open spec fn rank(p: Pass) -> nat {
    match p {
        Pass::Attrs => 0,
        _ => 1,
    }
}

/// What each match becomes, in order.
pub open spec fn pass_reps(p: Pass, root: Seq<char>, caps: Seq<Seq<Option<Seq<char>>>>) -> Seq<
    Seq<char>,
>
    decreases rank(p), 4nat, caps.len(),
{
    if caps.len() == 0 {
        Seq::empty()
    } else {
        pass_reps(p, root, caps.drop_last()).push(rewrite(p, root, caps.last()))
    }
}

/// Every match of the pass's pattern in `t` rewritten; `t` itself when the pattern does
/// not compile.
pub open spec fn rewrite_all(p: Pass, root: Seq<char>, t: Seq<char>) -> Seq<char>
    decreases rank(p), 5nat, 0nat,
{
    let pattern = escape(pass_pattern(p));
    if regex_compiles(pattern) {
        interleave(regex_pieces(pattern, t), pass_reps(p, root, regex_captures(pattern, t)))
    } else {
        t
    }
}

/// An attribute list `key: value|key: value` as HTML attributes `key = "value"`.
pub open spec fn format_attrs(a: Seq<char>) -> Seq<char>
    decreases 0nat, 6nat, 0nat,
{
    rewrite_all(Pass::Attrs, Seq::empty(), a)
}

pub open spec fn wrap_tag(tag: Seq<char>, attrs: Seq<char>, content: Seq<char>) -> Seq<char> {
    "<"@ + tag + " "@ + attrs + ">"@ + content + "</"@ + tag + ">"@
}

/// An anchor to `link`, whose attribute list follows a `|`.
pub open spec fn make_link(root: Seq<char>, text: Seq<char>, link: Seq<char>) -> Seq<char>
    decreases 1nat, 2nat, 0nat,
{
    let (l, a) = match find(link, "|"@) {
        Some(i) => (link.subrange(0, i), link.subrange(i + "|"@.len(), link.len() as int)),
        None => (link, Seq::empty()),
    };
    wrap_tag("a"@, "href = \""@ + format_link_spec(root, l) + "\""@ + format_attrs(a), text)
}

/// What a match of the pass's pattern becomes.
pub open spec fn rewrite(p: Pass, root: Seq<char>, g: Seq<Option<Seq<char>>>) -> Seq<char>
    decreases rank(p), 3nat, 0nat,
{
    match p {
        Pass::Attrs => group(g, 1) + " = \""@ + group(g, 2) + "\""@,
        Pass::TagVoid => if group(g, 1) == "img"@ {
            "<img src=\""@ + format_link_spec(root, group(g, 2)) + "\" />"@
        } else {
            "<"@ + group(g, 1) + " "@ + format_attrs(group(g, 2)) + " />"@
        },
        Pass::TagWrap => if group(g, 1) == "link"@ {
            make_link(root, group(g, 2), group(g, 3))
        } else {
            wrap_tag(group(g, 1), format_attrs(group(g, 3)), group(g, 2))
        },
        Pass::LinkArrow => make_link(root, group(g, 1), group(g, 2)),
        Pass::LinkAngle => make_link(root, group(g, 1), group(g, 1)),
        Pass::Strong => wrap_tag("strong"@, format_attrs(group(g, 2)), group(g, 1)),
        Pass::Em => wrap_tag("em"@, format_attrs(group(g, 2)), group(g, 1)),
        Pass::Strike => wrap_tag("s"@, format_attrs(group(g, 2)), group(g, 1)),
        Pass::Code => "<code "@ + format_attrs(group(g, 2)) + ">"@ + group(g, 1) + "</code>"@,
    }
}

/// Backslash escapes of markup characters, after HTML escaping.
pub open spec fn unescape_marks(t: Seq<char>) -> Seq<char> {
    let t = replace(t, "\\\\"@, "&bsol;"@);
    let t = replace(t, "\\&lt;"@, "&#x003c;"@);
    let t = replace(t, "\\&gt;"@, "&#x003e;"@);
    let t = replace(t, "\\*"@, "&#x002a;"@);
    let t = replace(t, "\\_"@, "&#x005f;"@);
    let t = replace(t, "\\~"@, "&#x007e;"@);
    replace(t, "\\`"@, "&#x0060;"@)
}

/// Flowed text as HTML: escaped, with its inline markup rewritten and its line breaks
/// turned into `<br>`.
pub open spec fn text_html(root: Seq<char>, text: Seq<char>) -> Seq<char> {
    let t = unescape_marks(escape(text));
    let t = rewrite_all(Pass::TagVoid, root, t);
    let t = rewrite_all(Pass::TagWrap, root, t);
    let t = rewrite_all(Pass::LinkArrow, root, t);
    let t = rewrite_all(Pass::LinkAngle, root, t);
    let t = rewrite_all(Pass::Strong, root, t);
    let t = rewrite_all(Pass::Em, root, t);
    let t = rewrite_all(Pass::Strike, root, t);
    let t = rewrite_all(Pass::Code, root, t);
    replace(t, "\n"@, "<br>"@)
}

pub fn join_path_exec(root: &str, rel: &str) -> (r: String)
    ensures
        r@ == join_path(root@, rel@),
{
    let v = chars_of(root);
    if starts_with_str(rel, "/") || v.len() == 0 {
        String::from_str(rel)
    } else {
        let mut r = String::from_str(root);
        if v[v.len() - 1] != '/' {
            push_char(&mut r, '/');
        }
        r.append(rel);
        r
    }
}

/// A link as written in the page: one that starts with `/` is taken from the project root.
pub fn format_link(project_root: &str, link: &str) -> (r: String)
    ensures
        r@ == format_link_spec(project_root@, link@),
{
    match strip_prefix_str(link, "/") {
        Some(local) => join_path_exec(project_root, local.as_str()),
        None => String::from_str(link),
    }
}

impl Pass {
    fn pattern(&self) -> (r: &'static str)
        ensures
            r@ == pass_pattern(*self),
    {
        match self {
            Pass::Attrs => "(\\w+)\\s*:\\s*(\\w+)\\|?",
            Pass::TagVoid => "<<(\\w+)\\s*\\|(.*?)>>",
            Pass::TagWrap => "<<(\\w+)\\s*\\|(.*?)\\|(.*?)>>",
            Pass::LinkArrow => ">(.*?)>(.*?)>",
            Pass::LinkAngle => "<(.*?)>",
            Pass::Strong => "\\*(.*?)\\*(.*?)\\*",
            Pass::Em => "_(.*?)_(.*?)_",
            Pass::Strike => "\\~(.*?)\\~(.*?)\\~",
            Pass::Code => "`(.*?)`(.*?)`",
        }
    }
}

fn group_exec(g: &Vec<Option<String>>, i: usize) -> (r: String)
    ensures
        r@ == group(g@.map_values(|x: Option<String>| opt_view(x)), i as int),
{
    if i < g.len() {
        match &g[i] {
            Some(s) => s.clone(),
            None => String::new(),
        }
    } else {
        String::new()
    }
}

/// The pieces, each but the last followed by its replacement.
pub fn splice(pieces: &Vec<String>, reps: &Vec<String>) -> (r: String)
    ensures
        r@ == interleave(strings_view(pieces@), strings_view(reps@)),
{
    let ghost p = strings_view(pieces@);
    let ghost q = strings_view(reps@);
    let mut r = String::new();
    let mut i: usize = 0;
    while i < pieces.len()
        invariant
            p == strings_view(pieces@),
            q == strings_view(reps@),
            i <= pieces@.len(),
            r@ == interleave_upto(p, q, i as int),
        decreases pieces@.len() - i,
    {
        r.append(pieces[i].as_str());
        if i + 1 < pieces.len() && i < reps.len() {
            r.append(reps[i].as_str());
        } else {
            assert(r@ + Seq::<char>::empty() =~= r@);
        }
        i = i + 1;
    }
    r
}

fn wrap_tag_exec(tag: &str, attrs: &str, content: &str) -> (r: String)
    ensures
        r@ == wrap_tag(tag@, attrs@, content@),
{
    let mut r = String::from_str("<");
    r.append(tag);
    r.append(" ");
    r.append(attrs);
    r.append(">");
    r.append(content);
    r.append("</");
    r.append(tag);
    r.append(">");
    r
}

/// An attribute list `key: value|key: value` as HTML attributes `key = "value"`.
pub fn format_attrs_exec(a: &str) -> (r: String)
    ensures
        r@ == format_attrs(a@),
    decreases 0nat, 6nat, 0nat,
{
    let no_root = String::new();
    rewrite_all_exec(Pass::Attrs, no_root.as_str(), a)
}

fn make_link_exec(root: &str, text: &str, link: &str) -> (r: String)
    ensures
        r@ == make_link(root@, text@, link@),
    decreases 1nat, 2nat, 0nat,
{
    let (l, a) = match split_once_str(link, "|") {
        Some((l, a)) => (l, a),
        None => (String::from_str(link), String::new()),
    };
    let mut attrs = String::from_str("href = \"");
    attrs.append(format_link(root, l.as_str()).as_str());
    attrs.append("\"");
    attrs.append(format_attrs_exec(a.as_str()).as_str());
    wrap_tag_exec("a", attrs.as_str(), text)
}

/// What one match of the pass's pattern, with capture groups `g`, becomes.
pub fn rewrite_match(p: Pass, root: &str, g: &Vec<Option<String>>) -> (r: String)
    ensures
        r@ == rewrite(p, root@, g@.map_values(|x: Option<String>| opt_view(x))),
    decreases rank(p), 3nat, 0nat,
{
    match p {
        Pass::Attrs => {
            let mut r = group_exec(g, 1);
            r.append(" = \"");
            r.append(group_exec(g, 2).as_str());
            r.append("\"");
            r
        },
        Pass::TagVoid => {
            let name = group_exec(g, 1);
            if eq_str(name.as_str(), "img") {
                let mut r = String::from_str("<img src=\"");
                r.append(format_link(root, group_exec(g, 2).as_str()).as_str());
                r.append("\" />");
                r
            } else {
                let mut r = String::from_str("<");
                r.append(name.as_str());
                r.append(" ");
                r.append(format_attrs_exec(group_exec(g, 2).as_str()).as_str());
                r.append(" />");
                r
            }
        },
        Pass::TagWrap => {
            let name = group_exec(g, 1);
            if eq_str(name.as_str(), "link") {
                make_link_exec(root, group_exec(g, 2).as_str(), group_exec(g, 3).as_str())
            } else {
                wrap_tag_exec(
                    name.as_str(),
                    format_attrs_exec(group_exec(g, 3).as_str()).as_str(),
                    group_exec(g, 2).as_str(),
                )
            }
        },
        Pass::LinkArrow => make_link_exec(
            root,
            group_exec(g, 1).as_str(),
            group_exec(g, 2).as_str(),
        ),
        Pass::LinkAngle => make_link_exec(
            root,
            group_exec(g, 1).as_str(),
            group_exec(g, 1).as_str(),
        ),
        Pass::Strong => wrap_tag_exec(
            "strong",
            format_attrs_exec(group_exec(g, 2).as_str()).as_str(),
            group_exec(g, 1).as_str(),
        ),
        Pass::Em => wrap_tag_exec(
            "em",
            format_attrs_exec(group_exec(g, 2).as_str()).as_str(),
            group_exec(g, 1).as_str(),
        ),
        Pass::Strike => wrap_tag_exec(
            "s",
            format_attrs_exec(group_exec(g, 2).as_str()).as_str(),
            group_exec(g, 1).as_str(),
        ),
        Pass::Code => {
            let mut r = String::from_str("<code ");
            r.append(format_attrs_exec(group_exec(g, 2).as_str()).as_str());
            r.append(">");
            r.append(group_exec(g, 1).as_str());
            r.append("</code>");
            r
        },
    }
}

/// Rewrites every match of the pass's pattern in `t`.
fn rewrite_all_exec(p: Pass, root: &str, t: &str) -> (r: String)
    ensures
        r@ == rewrite_all(p, root@, t@),
    decreases rank(p), 5nat, 0nat,
{
    let pattern = escape_html(p.pattern());
    let pieces = match regex_split(pattern.as_str(), t) {
        Some(v) => v,
        None => return String::from_str(t),
    };
    let caps = match regex_groups(pattern.as_str(), t) {
        Some(v) => v,
        None => return String::from_str(t),
    };
    rewrite_pieces(p, root, &pieces, &caps)
}

/// One pass over text already cut by its pattern: the pieces between the matches, each but
/// the last followed by what the next match, given by its capture groups, becomes.
pub fn rewrite_pieces(
    p: Pass,
    root: &str,
    pieces: &Vec<String>,
    caps: &Vec<Vec<Option<String>>>,
) -> (r: String)
    ensures
        r@ == interleave(strings_view(pieces@), pass_reps(p, root@, groups_view(caps@))),
    decreases rank(p), 4nat, 0nat,
{
    let ghost cv = groups_view(caps@);
    let mut reps: Vec<String> = Vec::new();
    let mut i: usize = 0;
    while i < caps.len()
        invariant
            cv == groups_view(caps@),
            i <= caps@.len(),
            strings_view(reps@) == pass_reps(p, root@, cv.take(i as int)),
        decreases caps@.len() - i,
    {
        let rep = rewrite_match(p, root, &caps[i]);
        let ghost before = strings_view(reps@);
        reps.push(rep);
        proof {
            assert(cv.take(i + 1).drop_last() =~= cv.take(i as int));
            assert(cv.take(i + 1).last() == cv[i as int]);
            assert(strings_view(reps@) =~= before.push(rep@));
        }
        i = i + 1;
    }
    assert(cv.take(caps@.len() as int) =~= cv);
    splice(pieces, &reps)
}

/// Flowed text as HTML: escaped, with its inline markup rewritten and its line breaks
/// turned into `<br>`.
pub fn text_to_html(project_root: &str, text: &str) -> (r: String)
    ensures
        r@ == text_html(project_root@, text@),
{
    let t = escape_html(text);
    let t = replace_str(t.as_str(), "\\\\", "&bsol;");
    let t = replace_str(t.as_str(), "\\&lt;", "&#x003c;");
    let t = replace_str(t.as_str(), "\\&gt;", "&#x003e;");
    let t = replace_str(t.as_str(), "\\*", "&#x002a;");
    let t = replace_str(t.as_str(), "\\_", "&#x005f;");
    let t = replace_str(t.as_str(), "\\~", "&#x007e;");
    let t = replace_str(t.as_str(), "\\`", "&#x0060;");
    let t = rewrite_all_exec(Pass::TagVoid, project_root, t.as_str());
    let t = rewrite_all_exec(Pass::TagWrap, project_root, t.as_str());
    let t = rewrite_all_exec(Pass::LinkArrow, project_root, t.as_str());
    let t = rewrite_all_exec(Pass::LinkAngle, project_root, t.as_str());
    let t = rewrite_all_exec(Pass::Strong, project_root, t.as_str());
    let t = rewrite_all_exec(Pass::Em, project_root, t.as_str());
    let t = rewrite_all_exec(Pass::Strike, project_root, t.as_str());
    let t = rewrite_all_exec(Pass::Code, project_root, t.as_str());
    replace_str(t.as_str(), "\n", "<br>")
}

} // verus!
