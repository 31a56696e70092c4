//! What can go wrong while parsing or building a page.
use vstd::prelude::*;

verus! {

/// Why a page could not be parsed.
#[derive(Clone, Debug, PartialEq, Eq)]
pub enum PageParseError {
    /// Reading the source failed.
    IOError(String),
    /// A marker line where an attribute was expected.
    ExpectedAttribute(String),
    /// A line where a section was expected.
    ExpectedSection(String),
    /// A section keyword that the grammar does not know.
    UnknownSection(String),
    /// An attribute that takes an argument was given none.
    MissingAttributeArgument(String),
    /// An attribute that takes no argument was given one: the argument, then the attribute.
    UnexpectedArgument(String, String),
    /// A metadata line without a `:`.
    WrongMetadataFormat(String),
    /// A title or subtitle section without a line.
    EmptyTitle,
    /// An image section without its source line.
    ExpectedImageSource,
    /// A video section without its id line.
    ExpectedVideoID,
}

pub enum ParseErrorV {
    IOError(Seq<char>),
    ExpectedAttribute(Seq<char>),
    ExpectedSection(Seq<char>),
    UnknownSection(Seq<char>),
    MissingAttributeArgument(Seq<char>),
    UnexpectedArgument(Seq<char>, Seq<char>),
    WrongMetadataFormat(Seq<char>),
    EmptyTitle,
    ExpectedImageSource,
    ExpectedVideoID,
}

impl View for PageParseError {
    type V = ParseErrorV;

    open spec fn view(&self) -> ParseErrorV {
        match self {
            PageParseError::IOError(s) => ParseErrorV::IOError(s@),
            PageParseError::ExpectedAttribute(s) => ParseErrorV::ExpectedAttribute(s@),
            PageParseError::ExpectedSection(s) => ParseErrorV::ExpectedSection(s@),
            PageParseError::UnknownSection(s) => ParseErrorV::UnknownSection(s@),
            PageParseError::MissingAttributeArgument(s) => ParseErrorV::MissingAttributeArgument(s@),
            PageParseError::UnexpectedArgument(v, a) => ParseErrorV::UnexpectedArgument(v@, a@),
            PageParseError::WrongMetadataFormat(s) => ParseErrorV::WrongMetadataFormat(s@),
            PageParseError::EmptyTitle => ParseErrorV::EmptyTitle,
            PageParseError::ExpectedImageSource => ParseErrorV::ExpectedImageSource,
            PageParseError::ExpectedVideoID => ParseErrorV::ExpectedVideoID,
        }
    }
}

/// The human-readable description of a parse error, which quotes the offending fragment.
pub open spec fn parse_error_message(e: ParseErrorV) -> Seq<char> {
    match e {
        ParseErrorV::IOError(_) => "Page load error"@,
        ParseErrorV::ExpectedAttribute(s) => "Expected attribute, got '"@ + s + "'"@,
        ParseErrorV::ExpectedSection(s) => "Expected section, got '"@ + s + "'"@,
        ParseErrorV::UnknownSection(s) => "Unknown section: '"@ + s + "'"@,
        ParseErrorV::MissingAttributeArgument(s) => "Missing attribute argument in attribute '"@
            + s + "'"@,
        ParseErrorV::UnexpectedArgument(v, a) => "Unexpected argument '"@ + v
            + "' in attribute '"@ + a
            + "', this attribute is ment to be used without arguments"@,
        ParseErrorV::WrongMetadataFormat(s) => "Wrong metadata format: "@ + s + ""@,
        ParseErrorV::EmptyTitle => "Title/Subtitle section is empty!"@,
        ParseErrorV::ExpectedImageSource => "Expected image source"@,
        ParseErrorV::ExpectedVideoID => "Expected video ID"@,
    }
}

impl PageParseError {
    /// The human-readable description of the error.
    pub fn message(&self) -> (r: String)
        ensures
            r@ == parse_error_message(self@),
    {
        match self {
            PageParseError::IOError(_) => String::from_str("Page load error"),
            PageParseError::ExpectedAttribute(s) => quoted("Expected attribute, got '", s, "'"),
            PageParseError::ExpectedSection(s) => quoted("Expected section, got '", s, "'"),
            PageParseError::UnknownSection(s) => quoted("Unknown section: '", s, "'"),
            PageParseError::MissingAttributeArgument(s) => quoted(
                "Missing attribute argument in attribute '",
                s,
                "'",
            ),
            PageParseError::UnexpectedArgument(v, a) => {
                let mut r = quoted("Unexpected argument '", v, "' in attribute '");
                r.append(a.as_str());
                r.append("', this attribute is ment to be used without arguments");
                r
            },
            PageParseError::WrongMetadataFormat(s) => quoted("Wrong metadata format: ", s, ""),
            PageParseError::EmptyTitle => String::from_str("Title/Subtitle section is empty!"),
            PageParseError::ExpectedImageSource => String::from_str("Expected image source"),
            PageParseError::ExpectedVideoID => String::from_str("Expected video ID"),
        }
    }
}

fn quoted(before: &str, s: &String, after: &str) -> (r: String)
    ensures
        r@ == before@ + s@ + after@,
{
    let mut r = String::from_str(before);
    r.append(s.as_str());
    r.append(after);
    r
}

/// Why a page could not be turned into HTML.
#[derive(Clone, Debug, PartialEq, Eq)]
pub enum PageBuildError {
    /// No path to a project file could be formed from the named file.
    RelativePathNotFound(String),
}

impl PageBuildError {
    /// The human-readable description of the error.
    pub fn message(&self) -> (r: String)
        ensures
            r@ == match self {
                PageBuildError::RelativePathNotFound(s) => "Failed to find relative path to project file from file '"@
                    + s@ + "'"@,
            },
    {
        match self {
            PageBuildError::RelativePathNotFound(s) => quoted(
                "Failed to find relative path to project file from file '",
                s,
                "'",
            ),
        }
    }
}

} // verus!
