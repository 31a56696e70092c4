//! Attributes: the `-- key` and `-- key: value` lines that follow a section marker.
use crate::error::{PageParseError, ParseErrorV};
use crate::text::{eq_str, find, opt_view, split_once_str};
use vstd::prelude::*;

verus! {

/// An attribute
#[derive(Clone, Debug, PartialEq, Eq)]
pub enum Attribute {
    /// -- alt: Alt text
    Alt(String),
    /// -- class: alfa bravo
    Class(String),
    /// -- hidden
    Hidden,
    /// -- id: charlie
    Id(String),
    /// -- show
    Show,
    /// -- src: source.js
    Src(String),
    /// -- title: Neopolitan
    Title(String),
    /// -- subtitle: Some subtitle
    Subtitle(String),
    /// -- by: Author
    By(String),
    /// -- source: A book of quotes
    Source(String),
    /// -- url: https://example.com/quote_source_url
    Url(String),
}

pub enum AttributeV {
    Alt(Seq<char>),
    Class(Seq<char>),
    Hidden,
    Id(Seq<char>),
    Show,
    Src(Seq<char>),
    Title(Seq<char>),
    Subtitle(Seq<char>),
    By(Seq<char>),
    Source(Seq<char>),
    Url(Seq<char>),
}

impl View for Attribute {
    type V = AttributeV;

    open spec fn view(&self) -> AttributeV {
        match self {
            Attribute::Alt(s) => AttributeV::Alt(s@),
            Attribute::Class(s) => AttributeV::Class(s@),
            Attribute::Hidden => AttributeV::Hidden,
            Attribute::Id(s) => AttributeV::Id(s@),
            Attribute::Show => AttributeV::Show,
            Attribute::Src(s) => AttributeV::Src(s@),
            Attribute::Title(s) => AttributeV::Title(s@),
            Attribute::Subtitle(s) => AttributeV::Subtitle(s@),
            Attribute::By(s) => AttributeV::By(s@),
            Attribute::Source(s) => AttributeV::Source(s@),
            Attribute::Url(s) => AttributeV::Url(s@),
        }
    }
}

/// The name of an attribute line and its argument: split at the first `": "`, or the whole
/// line and no argument.
pub open spec fn split_attr(s: Seq<char>) -> (Seq<char>, Option<Seq<char>>) {
    match find(s, ": "@) {
        Some(i) => (s.subrange(0, i), Some(s.subrange(i + ": "@.len(), s.len() as int))),
        None => (s, None),
    }
}

pub open spec fn with_arg(
    name: Seq<char>,
    value: Option<Seq<char>>,
    make: spec_fn(Seq<char>) -> AttributeV,
) -> Result<Option<AttributeV>, ParseErrorV> {
    match value {
        Some(v) => Ok(Some(make(v))),
        None => Err(ParseErrorV::MissingAttributeArgument(name)),
    }
}

pub open spec fn no_arg(name: Seq<char>, value: Option<Seq<char>>, a: AttributeV) -> Result<
    Option<AttributeV>,
    ParseErrorV,
> {
    match value {
        Some(v) => Err(ParseErrorV::UnexpectedArgument(v, name)),
        None => Ok(Some(a)),
    }
}

/// What an attribute line (marker already stripped) means: an attribute, an error, or
/// `None` when the name is not an attribute's.
pub open spec fn parse_attribute(s: Seq<char>) -> Result<Option<AttributeV>, ParseErrorV> {
    let (n, v) = split_attr(s);
    if n == "alt"@ {
        with_arg(n, v, |x| AttributeV::Alt(x))
    } else if n == "class"@ {
        with_arg(n, v, |x| AttributeV::Class(x))
    } else if n == "hidden"@ {
        no_arg(n, v, AttributeV::Hidden)
    } else if n == "id"@ {
        with_arg(n, v, |x| AttributeV::Id(x))
    } else if n == "show"@ {
        no_arg(n, v, AttributeV::Show)
    } else if n == "src"@ {
        with_arg(n, v, |x| AttributeV::Src(x))
    } else if n == "title"@ {
        with_arg(n, v, |x| AttributeV::Title(x))
    } else if n == "subtitle"@ {
        with_arg(n, v, |x| AttributeV::Subtitle(x))
    } else if n == "by"@ {
        with_arg(n, v, |x| AttributeV::By(x))
    } else if n == "source"@ {
        with_arg(n, v, |x| AttributeV::Source(x))
    } else if n == "url"@ {
        with_arg(n, v, |x| AttributeV::Url(x))
    } else {
        Ok(None)
    }
}

pub open spec fn quoted_attr(name: Seq<char>, v: Seq<char>) -> Seq<char> {
    name + "=\""@ + v + "\""@
}

/// The HTML attribute text of an attribute, if it has one.
pub open spec fn attribute_html(a: AttributeV) -> Option<Seq<char>> {
    match a {
        AttributeV::Alt(v) => Some(quoted_attr("alt"@, v)),
        AttributeV::Class(v) => Some(quoted_attr("class"@, v)),
        AttributeV::Hidden => Some("hidden"@),
        AttributeV::Id(v) => Some(quoted_attr("id"@, v)),
        AttributeV::Show => None,
        AttributeV::Src(v) => Some(quoted_attr("src"@, v)),
        AttributeV::Title(v) => Some(quoted_attr("title"@, v)),
        _ => None,
    }
}

pub open spec fn result_view(r: Result<Option<Attribute>, PageParseError>) -> Result<
    Option<AttributeV>,
    ParseErrorV,
> {
    match r {
        Ok(Some(a)) => Ok(Some(a@)),
        Ok(None) => Ok(None),
        Err(e) => Err(e@),
    }
}

fn with_arg_exec(
    name: String,
    value: Option<String>,
    make: impl Fn(String) -> Attribute,
) -> (r: Result<Option<Attribute>, PageParseError>)
    requires
        forall|v: String| make.requires((v,)),
    ensures
        value is None ==> r == Err::<Option<Attribute>, PageParseError>(
            PageParseError::MissingAttributeArgument(name),
        ),
        value matches Some(v) ==> r matches Ok(Some(a)) && make.ensures((v,), a),
{
    match value {
        Some(v) => Ok(Some(make(v))),
        None => Err(PageParseError::MissingAttributeArgument(name)),
    }
}

fn no_arg_exec(name: String, value: Option<String>, a: Attribute) -> (r: Result<
    Option<Attribute>,
    PageParseError,
>)
    ensures
        result_view(r) == no_arg(name@, opt_view(value), a@),
{
    match value {
        Some(v) => Err(PageParseError::UnexpectedArgument(v, name)),
        None => Ok(Some(a)),
    }
}

impl Attribute {
    /// Parses an attribute line whose marker has been stripped.
    pub fn parse(attr: &str) -> (r: Result<Option<Attribute>, PageParseError>)
        ensures
            result_view(r) == parse_attribute(attr@),
    {
        let (name, value) = match split_once_str(attr, ": ") {
            Some((n, v)) => (n, Some(v)),
            None => (String::from_str(attr), None),
        };
        assert((name@, opt_view(value)) == split_attr(attr@));
        let n = name.as_str();
        if eq_str(n, "alt") {
            with_arg_exec(name, value, |x: String| -> (a: Attribute) ensures a == Attribute::Alt(x) { Attribute::Alt(x) })
        } else if eq_str(n, "class") {
            with_arg_exec(name, value, |x: String| -> (a: Attribute) ensures a == Attribute::Class(x) { Attribute::Class(x) })
        } else if eq_str(n, "hidden") {
            no_arg_exec(name, value, Attribute::Hidden)
        } else if eq_str(n, "id") {
            with_arg_exec(name, value, |x: String| -> (a: Attribute) ensures a == Attribute::Id(x) { Attribute::Id(x) })
        } else if eq_str(n, "show") {
            no_arg_exec(name, value, Attribute::Show)
        } else if eq_str(n, "src") {
            with_arg_exec(name, value, |x: String| -> (a: Attribute) ensures a == Attribute::Src(x) { Attribute::Src(x) })
        } else if eq_str(n, "title") {
            with_arg_exec(name, value, |x: String| -> (a: Attribute) ensures a == Attribute::Title(x) { Attribute::Title(x) })
        } else if eq_str(n, "subtitle") {
            with_arg_exec(name, value, |x: String| -> (a: Attribute) ensures a == Attribute::Subtitle(x) { Attribute::Subtitle(x) })
        } else if eq_str(n, "by") {
            with_arg_exec(name, value, |x: String| -> (a: Attribute) ensures a == Attribute::By(x) { Attribute::By(x) })
        } else if eq_str(n, "source") {
            with_arg_exec(name, value, |x: String| -> (a: Attribute) ensures a == Attribute::Source(x) { Attribute::Source(x) })
        } else if eq_str(n, "url") {
            with_arg_exec(name, value, |x: String| -> (a: Attribute) ensures a == Attribute::Url(x) { Attribute::Url(x) })
        } else {
            Ok(None)
        }
    }

    /// The text that this attribute adds to an HTML start tag, if any.
    pub fn to_html(&self) -> (r: Option<String>)
        ensures
            r matches Some(s) ==> attribute_html(self@) == Some(s@),
            r is None ==> attribute_html(self@) is None,
    {
        match self {
            Attribute::Alt(v) => Some(quoted_attr_exec("alt", v)),
            Attribute::Class(v) => Some(quoted_attr_exec("class", v)),
            Attribute::Hidden => Some(String::from_str("hidden")),
            Attribute::Id(v) => Some(quoted_attr_exec("id", v)),
            Attribute::Show => None,
            Attribute::Src(v) => Some(quoted_attr_exec("src", v)),
            Attribute::Title(v) => Some(quoted_attr_exec("title", v)),
            Attribute::Subtitle(_) => None,
            Attribute::By(_) => None,
            Attribute::Source(_) => None,
            Attribute::Url(_) => None,
        }
    }
}

fn quoted_attr_exec(name: &str, v: &String) -> (r: String)
    ensures
        r@ == quoted_attr(name@, v@),
{
    let mut r = String::from_str(name);
    r.append("=\"");
    r.append(v.as_str());
    r.append("\"");
    r
}

} // verus!
