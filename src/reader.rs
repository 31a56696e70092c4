//! The single-lookahead line reader and what it accumulates: flowed and raw text,
//! attribute lines and list entries.
use crate::attribute::{parse_attribute, result_view, Attribute, AttributeV};
use crate::error::{PageParseError, ParseErrorV};
use crate::text::{
    chars_of, eq_str, has_content, is_blank, is_ws, lemma_trim_end_concat, lemma_trim_start_concat, is_blank_line, opt_view, push_char, starts_with, starts_with_str, strip_prefix,
    strip_prefix_str, trim, trim_end, trim_end_str, trim_start, trim_str,
};
use vstd::prelude::*;

verus! {

/// A section marker: `--`, a code fence or a heading.
pub open spec fn has_section_prefix_spec(l: Seq<char>) -> bool {
    starts_with(l, "--"@) || starts_with(l, "```"@) || starts_with(l, "#"@)
}

/// The body of a section marker line: after `--`, or the whole fence line, trimmed.
pub open spec fn strip_section_prefix_spec(l: Seq<char>) -> Option<Seq<char>> {
    match strip_prefix(l, "--"@) {
        Some(s) => Some(trim(s)),
        None => if starts_with(l, "```"@) {
            Some(trim(l))
        } else {
            None
        },
    }
}

pub open spec fn has_attr_prefix_spec(l: Seq<char>) -> bool {
    starts_with(l, "--"@)
}

pub open spec fn strip_attr_prefix_spec(l: Seq<char>) -> Option<Seq<char>> {
    match strip_prefix(l, "--"@) {
        Some(s) => Some(trim(s)),
        None => None,
    }
}

/// The line closes the block named `tag`: `--/tag`, or a bare fence for a fenced block.
pub open spec fn closes_tag(tag: Seq<char>, l: Seq<char>) -> bool {
    (tag == "```"@ && l == tag) || (strip_section_prefix_spec(l) matches Some(s) && strip_prefix(
        s,
        "/"@,
    ) == Some(tag))
}

/// A checklist entry starts with `[]` or `[x]`.
pub open spec fn is_check_item(l: Seq<char>) -> bool {
    starts_with(l, "[]"@) || starts_with(l, "[x]"@)
}

/// How the entries of a list are marked.
pub enum ItemMarker {
    /// Each entry starts with this prefix.
    Prefix(String),
    /// Each entry starts with `[]` or `[x]`.
    Check,
}

pub enum ItemMarkerV {
    Prefix(Seq<char>),
    Check,
}

impl View for ItemMarker {
    type V = ItemMarkerV;

    open spec fn view(&self) -> ItemMarkerV {
        match self {
            ItemMarker::Prefix(p) => ItemMarkerV::Prefix(p@),
            ItemMarker::Check => ItemMarkerV::Check,
        }
    }
}

pub open spec fn is_item(m: ItemMarkerV, l: Seq<char>) -> bool {
    match m {
        ItemMarkerV::Prefix(p) => starts_with(l, p),
        ItemMarkerV::Check => is_check_item(l),
    }
}

/// Where a run of text ends.
pub enum Boundary {
    /// At the next section marker.
    Section,
    /// At the line that closes the named block.
    CloseTag(String),
    /// At the next checklist entry.
    CheckItem,
    /// At the next section marker or list entry.
    ListItem(ItemMarker),
}

pub enum BoundaryV {
    Section,
    CloseTag(Seq<char>),
    CheckItem,
    ListItem(ItemMarkerV),
}

impl View for Boundary {
    type V = BoundaryV;

    open spec fn view(&self) -> BoundaryV {
        match self {
            Boundary::Section => BoundaryV::Section,
            Boundary::CloseTag(t) => BoundaryV::CloseTag(t@),
            Boundary::CheckItem => BoundaryV::CheckItem,
            Boundary::ListItem(m) => BoundaryV::ListItem(m@),
        }
    }
}

pub open spec fn at_boundary(b: BoundaryV, l: Seq<char>) -> bool {
    match b {
        BoundaryV::Section => has_section_prefix_spec(l),
        BoundaryV::CloseTag(t) => closes_tag(t, l),
        BoundaryV::CheckItem => is_check_item(l),
        BoundaryV::ListItem(m) => has_section_prefix_spec(l) || is_item(m, l),
    }
}

/// Which lines a run of text takes, and what it keeps of each.
pub enum LineFilter {
    /// Every line up to a boundary, whole.
    Until(Boundary),
    /// Lines that start with the prefix, without it; with `true`, a blank line ends the run.
    Prefixed(String, bool),
    /// The lines of a heading with this many `#`s: blank lines, and lines that start with
    /// exactly that many, without them.
    Heading(String),
    /// One attribute-marked line, without its marker, trimmed.
    AttrBody,
    /// A blank line.
    Blank,
}

pub enum FilterV {
    Until(BoundaryV),
    Prefixed(Seq<char>, bool),
    Heading(Seq<char>),
    AttrBody,
    Blank,
}

impl View for LineFilter {
    type V = FilterV;

    open spec fn view(&self) -> FilterV {
        match self {
            LineFilter::Until(b) => FilterV::Until(b@),
            LineFilter::Prefixed(p, raw) => FilterV::Prefixed(p@, *raw),
            LineFilter::Heading(p) => FilterV::Heading(p@),
            LineFilter::AttrBody => FilterV::AttrBody,
            LineFilter::Blank => FilterV::Blank,
        }
    }
}

pub open spec fn filter_line(f: FilterV, l: Seq<char>) -> Option<Seq<char>> {
    match f {
        FilterV::Until(b) => if at_boundary(b, l) {
            None
        } else {
            Some(l)
        },
        FilterV::Prefixed(p, raw) => if raw && is_blank(l) {
            None
        } else {
            strip_prefix(l, p)
        },
        FilterV::Heading(p) => if is_blank(l) {
            Some(l)
        } else {
            match strip_prefix(l, p) {
                Some(rest) => if starts_with(rest, "#"@) {
                    None
                } else {
                    Some(rest)
                },
                None => None,
            }
        },
        FilterV::AttrBody => strip_attr_prefix_spec(l),
        FilterV::Blank => if is_blank(l) {
            Some(l)
        } else {
            None
        },
    }
}

/// The lines left once leading blank lines are consumed.
pub open spec fn skip_blanks_spec(r: Seq<Seq<char>>) -> Seq<Seq<char>>
    decreases r.len(),
{
    if r.len() > 0 && is_blank(r[0]) {
        skip_blanks_spec(r.drop_first())
    } else {
        r
    }
}

/// How many leading lines the filter takes.
pub open spec fn take_count(r: Seq<Seq<char>>, f: FilterV) -> nat
    decreases r.len(),
{
    if r.len() > 0 && filter_line(f, r[0]) is Some {
        1 + take_count(r.drop_first(), f)
    } else {
        0
    }
}

/// What the filter keeps of the leading lines that it takes.
pub open spec fn taken(r: Seq<Seq<char>>, f: FilterV) -> Seq<Seq<char>> {
    kept(r, f, take_count(r, f) as int)
}

/// What the filter keeps of each of the first `k` lines.
pub open spec fn kept(r: Seq<Seq<char>>, f: FilterV, k: int) -> Seq<Seq<char>> {
    Seq::new(k as nat, |i: int| filter_line(f, r[i])->0)
}

/// The line before the last is blank.
pub open spec fn follows_blank(items: Seq<Seq<char>>) -> bool {
    items.len() > 1 && is_blank(items[items.len() - 2])
}

/// Flowed text before trimming: a run of blank lines adds one line break; any other line
/// is appended, right after a break or else after a space.
pub open spec fn flow_acc(items: Seq<Seq<char>>) -> Seq<char>
    decreases items.len(),
{
    if items.len() == 0 {
        Seq::empty()
    } else {
        let t = flow_acc(items.drop_last());
        let l = items.last();
        if is_blank(l) {
            if follows_blank(items) {
                t
            } else {
                t.push('\n')
            }
        } else if follows_blank(items) {
            t + l
        } else {
            t.push(' ') + l
        }
    }
}

/// Raw text before trimming: every line followed by a line break.
pub open spec fn raw_acc(items: Seq<Seq<char>>) -> Seq<char>
    decreases items.len(),
{
    if items.len() == 0 {
        Seq::empty()
    } else {
        (raw_acc(items.drop_last()) + items.last()).push('\n')
    }
}

pub open spec fn flow(items: Seq<Seq<char>>) -> Seq<char> {
    trim(flow_acc(items))
}

pub open spec fn raw(items: Seq<Seq<char>>) -> Seq<char> {
    trim_end(raw_acc(items))
}

pub open spec fn accumulate(items: Seq<Seq<char>>, is_raw: bool) -> Seq<char> {
    if is_raw {
        raw(items)
    } else {
        flow(items)
    }
}

/// The text that a run yields, and the lines left after it.
pub open spec fn text_of(r: Seq<Seq<char>>, f: FilterV, is_raw: bool) -> (
    Seq<char>,
    Seq<Seq<char>>,
) {
    let r1 = skip_blanks_spec(r);
    (accumulate(taken(r1, f), is_raw), r1.skip(take_count(r1, f) as int))
}

pub open spec fn strings_view(v: Seq<String>) -> Seq<Seq<char>> {
    v.map_values(|s: String| s@)
}

pub open spec fn attrs_view(v: Seq<Attribute>) -> Seq<AttributeV> {
    v.map_values(|a: Attribute| a@)
}

/// One attribute line, if the next line is one.
pub open spec fn attr_step(r: Seq<Seq<char>>) -> Result<Option<AttributeV>, ParseErrorV> {
    if r.len() > 0 && has_attr_prefix_spec(r[0]) {
        parse_attribute(strip_attr_prefix_spec(r[0])->0)
    } else {
        Ok(None)
    }
}

/// The attributes at the head of the lines, and the lines left after them.
pub open spec fn attrs_of(r: Seq<Seq<char>>) -> (Result<Seq<AttributeV>, ParseErrorV>, Seq<
    Seq<char>,
>)
    decreases r.len(),
{
    match attr_step(r) {
        Ok(Some(a)) => prepend_attr(a, attrs_of(r.drop_first())),
        Ok(None) => (Ok(Seq::empty()), r),
        Err(e) => (Err(e), r.drop_first()),
    }
}

pub open spec fn prepend_attr(
    a: AttributeV,
    x: (Result<Seq<AttributeV>, ParseErrorV>, Seq<Seq<char>>),
) -> (Result<Seq<AttributeV>, ParseErrorV>, Seq<Seq<char>>) {
    (
        match x.0 {
            Ok(s) => Ok(seq![a] + s),
            Err(e) => Err(e),
        },
        x.1,
    )
}

/// The entries of a list at the head of the lines, and the lines left after it. An entry
/// is its first line and what follows up to the next entry or section, flowed.
pub open spec fn list_of(r: Seq<Seq<char>>, m: ItemMarkerV) -> (Seq<Seq<char>>, Seq<Seq<char>>)
    decreases r.len()
        via list_of_decreases

{
    let r1 = skip_blanks_spec(r);
    if r1.len() > 0 && is_item(m, r1[0]) {
        let f = FilterV::Until(BoundaryV::ListItem(m));
        let tail = r1.drop_first();
        let entry = flow(seq![r1[0]] + taken(tail, f));
        let rest = tail.skip(take_count(tail, f) as int);
        let next = list_of(rest, m);
        (seq![entry] + next.0, next.1)
    } else {
        (Seq::empty(), r1)
    }
}

pub proof fn lemma_skip_blanks_suffix(r: Seq<Seq<char>>)
    ensures
        skip_blanks_spec(r).len() <= r.len(),
        skip_blanks_spec(r) == r.skip(r.len() - skip_blanks_spec(r).len()),
    decreases r.len(),
{
    if r.len() > 0 && is_blank(r[0]) {
        lemma_skip_blanks_suffix(r.drop_first());
        let k = r.len() - skip_blanks_spec(r).len();
        assert(r.drop_first().skip(k - 1) =~= r.skip(k));
    } else {
        assert(r.skip(0) =~= r);
    }
}

pub proof fn lemma_take_count_le(r: Seq<Seq<char>>, f: FilterV)
    ensures
        take_count(r, f) <= r.len(),
    decreases r.len(),
{
    if r.len() > 0 && filter_line(f, r[0]) is Some {
        lemma_take_count_le(r.drop_first(), f);
    }
}

#[via_fn]
proof fn list_of_decreases(r: Seq<Seq<char>>, m: ItemMarkerV) {
    lemma_skip_blanks_suffix(r);
    let r1 = skip_blanks_spec(r);
    if r1.len() > 0 && is_item(m, r1[0]) {
        let f = FilterV::Until(BoundaryV::ListItem(m));
        lemma_take_count_le(r1.drop_first(), f);
    }
}

/// Lines joined with single spaces.
pub open spec fn join_spaced(items: Seq<Seq<char>>) -> Seq<char>
    decreases items.len(),
{
    if items.len() == 0 {
        Seq::empty()
    } else if items.len() == 1 {
        items[0]
    } else {
        join_spaced(items.drop_last()) + seq![' '] + items.last()
    }
}

/// Each line followed by a line break.
pub open spec fn each_line_ended(items: Seq<Seq<char>>) -> Seq<char> {
    raw_acc(items)
}

/// All the lines are blank.
pub open spec fn all_blank(items: Seq<Seq<char>>) -> bool {
    forall|i: int| 0 <= i < items.len() ==> is_blank(#[trigger] items[i])
}

/// No line is blank.
pub open spec fn none_blank(items: Seq<Seq<char>>) -> bool {
    forall|i: int| 0 <= i < items.len() ==> !is_blank(#[trigger] items[i])
}

proof fn lemma_flow_acc_spaced(items: Seq<Seq<char>>)
    requires
        none_blank(items),
    ensures
        items.len() > 0 ==> flow_acc(items) == seq![' '] + join_spaced(items),
        items.len() > 0 ==> has_content(join_spaced(items)),
    decreases items.len(),
{
    if items.len() > 0 {
        let init = items.drop_last();
        let l = items.last();
        assert(!is_blank(items[items.len() - 1]));
        assert forall|i: int| 0 <= i < init.len() implies !is_blank(#[trigger] init[i]) by {
            assert(init[i] == items[i]);
        }
        lemma_flow_acc_spaced(init);
        let k = choose|k: int| 0 <= k < l.len() && !is_ws(#[trigger] l[k]);
        if items.len() == 1 {
            assert(flow_acc(init) =~= Seq::empty());
            assert(flow_acc(items) =~= seq![' '] + l);
            assert(join_spaced(items) == l);
        } else {
            assert(!is_blank(items[items.len() - 2]));
            let j = join_spaced(init);
            assert(flow_acc(items) =~= seq![' '] + (j + seq![' '] + l));
            let jj = join_spaced(items);
            assert(jj[j.len() + 1 + k] == l[k]);
        }
    }
}

proof fn lemma_trim_spaced(x: Seq<char>)
    requires
        has_content(x),
    ensures
        trim(seq![' '] + x) == trim(x),
{
    lemma_trim_end_concat(seq![' '], x);
    let t = trim_end(x);
    assert((seq![' '] + t)[0] == ' ');
    assert((seq![' '] + t).drop_first() =~= t);
}

/// Flowing lines that are not blank joins them with single spaces, trimmed.
pub proof fn lemma_flow_joins_lines(items: Seq<Seq<char>>)
    requires
        none_blank(items),
    ensures
        flow(items) == trim(join_spaced(items)),
{
    lemma_flow_acc_spaced(items);
    if items.len() > 0 {
        lemma_trim_spaced(join_spaced(items));
    } else {
        assert(flow_acc(items) =~= join_spaced(items));
    }
}

/// A run of blank lines, however long, between two runs of lines that are not blank
/// becomes one line break between their flowed texts.
pub proof fn lemma_flow_blank_line_break(
    a: Seq<Seq<char>>,
    blanks: Seq<Seq<char>>,
    b: Seq<Seq<char>>,
)
    requires
        a.len() > 0,
        blanks.len() > 0,
        b.len() > 0,
        none_blank(a),
        all_blank(blanks),
        none_blank(b),
    ensures
        flow(a + blanks + b) == trim_start(join_spaced(a)) + seq!['\n'] + trim_end(
            join_spaced(b),
        ),
{
    lemma_flow_acc_spaced(a);
    lemma_flow_acc_spaced(b);
    let ja = join_spaced(a);
    let jb = join_spaced(b);
    let head = seq![' '] + ja + seq!['\n'];
    lemma_flow_break_then(a, blanks, b);
    lemma_trim_end_concat(head, jb);
    let i = choose|i: int| 0 <= i < ja.len() && !is_ws(#[trigger] ja[i]);
    assert((seq![' '] + ja)[i + 1] == ja[i]);
    lemma_trim_start_concat(seq![' '] + ja, seq!['\n'] + trim_end(jb));
    assert(head + trim_end(jb) =~= (seq![' '] + ja) + (seq!['\n'] + trim_end(jb)));
    assert((seq![' '] + ja).drop_first() =~= ja);
    assert(trim_start(ja) + (seq!['\n'] + trim_end(jb)) =~= trim_start(ja) + seq!['\n'] + trim_end(jb));
}

proof fn lemma_flow_then_blanks(a: Seq<Seq<char>>, blanks: Seq<Seq<char>>)
    requires
        a.len() > 0,
        blanks.len() > 0,
        none_blank(a),
        all_blank(blanks),
    ensures
        flow_acc(a + blanks) == seq![' '] + join_spaced(a) + seq!['\n'],
    decreases blanks.len(),
{
    lemma_flow_acc_spaced(a);
    let all = a + blanks;
    assert(all.last() == blanks[blanks.len() - 1]);
    if blanks.len() == 1 {
        assert(all.drop_last() =~= a);
        assert(all[all.len() - 2] == a[a.len() - 1]);
    } else {
        let bi = blanks.drop_last();
        assert forall|i: int| 0 <= i < bi.len() implies is_blank(#[trigger] bi[i]) by {
            assert(bi[i] == blanks[i]);
        }
        lemma_flow_then_blanks(a, bi);
        assert(all.drop_last() =~= a + bi);
        assert(all[all.len() - 2] == blanks[blanks.len() - 2]);
    }
}

proof fn lemma_flow_break_then(a: Seq<Seq<char>>, blanks: Seq<Seq<char>>, b: Seq<Seq<char>>)
    requires
        a.len() > 0,
        blanks.len() > 0,
        none_blank(a),
        all_blank(blanks),
        none_blank(b),
    ensures
        flow_acc(a + blanks + b) == seq![' '] + join_spaced(a) + seq!['\n'] + join_spaced(b),
    decreases b.len(),
{
    lemma_flow_then_blanks(a, blanks);
    let all = a + blanks + b;
    if b.len() == 0 {
        assert(all =~= a + blanks);
        assert(join_spaced(b) =~= Seq::<char>::empty());
        assert(flow_acc(all) =~= seq![' '] + join_spaced(a) + seq!['\n'] + join_spaced(b));
    } else {
        let bi = b.drop_last();
        assert forall|i: int| 0 <= i < bi.len() implies !is_blank(#[trigger] bi[i]) by {
            assert(bi[i] == b[i]);
        }
        lemma_flow_break_then(a, blanks, bi);
        assert(all.drop_last() =~= a + blanks + bi);
        assert(all.last() == b[b.len() - 1]);
        if bi.len() == 0 {
            assert(all.drop_last() =~= a + blanks);
            assert(all[all.len() - 2] == blanks[blanks.len() - 1]);
            assert(join_spaced(bi) =~= Seq::<char>::empty());
            assert(join_spaced(b) == b[0]);
            assert(flow_acc(all) =~= seq![' '] + join_spaced(a) + seq!['\n'] + join_spaced(b));
        } else {
            assert(all[all.len() - 2] == b[b.len() - 2]);
            assert(flow_acc(all) =~= seq![' '] + join_spaced(a) + seq!['\n'] + join_spaced(b));
        }
    }
}

/// Raw lines come back each followed by a line break, but for the last line's break.
pub proof fn lemma_raw_keeps_lines(items: Seq<Seq<char>>)
    requires
        items.len() > 0,
        items.last().len() > 0,
        !is_ws(items.last().last()),
    ensures
        raw(items) == each_line_ended(items.drop_last()) + items.last(),
{
    let x = each_line_ended(items.drop_last()) + items.last();
    assert(raw_acc(items) == x.push('\n'));
    assert(x.push('\n').drop_last() =~= x);
    assert(x.last() == items.last().last());
    assert(trim_end(x.push('\n')) == trim_end(x));
    assert(trim_end(x) == x);
}

pub fn has_section_prefix(line: &str) -> (r: bool)
    ensures
        r == has_section_prefix_spec(line@),
{
    starts_with_str(line, "--") || starts_with_str(line, "```") || starts_with_str(line, "#")
}

pub fn strip_section_prefix(line: &str) -> (r: Option<String>)
    ensures
        opt_view(r) == strip_section_prefix_spec(line@),
{
    match strip_prefix_str(line, "--") {
        Some(s) => Some(trim_str(s.as_str())),
        None => if starts_with_str(line, "```") {
            Some(trim_str(line))
        } else {
            None
        },
    }
}

pub fn has_attr_prefix(line: &str) -> (r: bool)
    ensures
        r == has_attr_prefix_spec(line@),
{
    starts_with_str(line, "--")
}

pub fn strip_attr_prefix(line: &str) -> (r: Option<String>)
    ensures
        opt_view(r) == strip_attr_prefix_spec(line@),
{
    match strip_prefix_str(line, "--") {
        Some(s) => Some(trim_str(s.as_str())),
        None => None,
    }
}

pub fn closes_tag_exec(tag: &str, line: &str) -> (r: bool)
    ensures
        r == closes_tag(tag@, line@),
{
    if eq_str(tag, "```") && eq_str(line, tag) {
        return true;
    }
    match strip_section_prefix(line) {
        Some(section) => match strip_prefix_str(section.as_str(), "/") {
            Some(section_tag) => eq_str(section_tag.as_str(), tag),
            None => false,
        },
        None => false,
    }
}

pub fn is_check_item_exec(line: &str) -> (r: bool)
    ensures
        r == is_check_item(line@),
{
    starts_with_str(line, "[]") || starts_with_str(line, "[x]")
}

impl ItemMarker {
    pub fn matches_line(&self, line: &str) -> (r: bool)
        ensures
            r == is_item(self@, line@),
    {
        match self {
            ItemMarker::Prefix(p) => starts_with_str(line, p.as_str()),
            ItemMarker::Check => is_check_item_exec(line),
        }
    }
}

impl ItemMarker {
    pub fn copy(&self) -> (r: ItemMarker)
        ensures
            r@ == self@,
    {
        match self {
            ItemMarker::Prefix(p) => ItemMarker::Prefix(p.clone()),
            ItemMarker::Check => ItemMarker::Check,
        }
    }
}

impl Boundary {
    pub fn reached(&self, line: &str) -> (r: bool)
        ensures
            r == at_boundary(self@, line@),
    {
        match self {
            Boundary::Section => has_section_prefix(line),
            Boundary::CloseTag(t) => closes_tag_exec(t.as_str(), line),
            Boundary::CheckItem => is_check_item_exec(line),
            Boundary::ListItem(m) => has_section_prefix(line) || m.matches_line(line),
        }
    }
}

impl LineFilter {
    pub fn apply(&self, line: &str) -> (r: Option<String>)
        ensures
            opt_view(r) == filter_line(self@, line@),
    {
        match self {
            LineFilter::Until(b) => if b.reached(line) {
                None
            } else {
                Some(String::from_str(line))
            },
            LineFilter::Prefixed(p, raw) => if *raw && is_blank_line(line) {
                None
            } else {
                strip_prefix_str(line, p.as_str())
            },
            LineFilter::Heading(p) => if is_blank_line(line) {
                Some(String::from_str(line))
            } else {
                match strip_prefix_str(line, p.as_str()) {
                    Some(rest) => if starts_with_str(rest.as_str(), "#") {
                        None
                    } else {
                        Some(rest)
                    },
                    None => None,
                }
            },
            LineFilter::AttrBody => strip_attr_prefix(line),
            LineFilter::Blank => if is_blank_line(line) {
                Some(String::from_str(line))
            } else {
                None
            },
        }
    }
}

/// Flowed text: see [`flow_acc`].
pub fn flow_text(items: &Vec<String>) -> (r: String)
    ensures
        r@ == flow(strings_view(items@)),
{
    let ghost s = strings_view(items@);
    let mut t = String::new();
    let mut after_blank = false;
    let mut i: usize = 0;
    while i < items.len()
        invariant
            s == strings_view(items@),
            i <= items@.len(),
            t@ == flow_acc(s.take(i as int)),
            after_blank == (i > 0 && is_blank(s[i - 1])),
        decreases items@.len() - i,
    {
        let line = items[i].as_str();
        proof {
            assert(s.take(i + 1).drop_last() =~= s.take(i as int));
            assert(s.take(i + 1).last() == line@);
            if i > 0 {
                assert(s.take(i + 1)[i - 1] == s[i - 1]);
            }
        }
        let blank = is_blank_line(line);
        if blank {
            if !after_blank {
                push_char(&mut t, '\n');
            }
        } else {
            if !after_blank {
                push_char(&mut t, ' ');
            }
            t.append(line);
        }
        after_blank = blank;
        i = i + 1;
    }
    assert(s.take(items@.len() as int) =~= s);
    trim_str(t.as_str())
}

/// Raw text: see [`raw_acc`].
pub fn raw_text(items: &Vec<String>) -> (r: String)
    ensures
        r@ == raw(strings_view(items@)),
{
    let ghost s = strings_view(items@);
    let mut t = String::new();
    let mut i: usize = 0;
    while i < items.len()
        invariant
            s == strings_view(items@),
            i <= items@.len(),
            t@ == raw_acc(s.take(i as int)),
        decreases items@.len() - i,
    {
        proof {
            assert(s.take(i + 1).drop_last() =~= s.take(i as int));
            assert(s.take(i + 1).last() == items@[i as int]@);
        }
        t.append(items[i].as_str());
        push_char(&mut t, '\n');
        i = i + 1;
    }
    assert(s.take(items@.len() as int) =~= s);
    trim_end_str(t.as_str())
}

/// An entry without its marker; an entry that lost it to trimming is empty.
pub open spec fn unmarked(e: Seq<char>, prefix: Seq<char>) -> Seq<char> {
    match strip_prefix(e, prefix) {
        Some(rest) => rest,
        None => Seq::empty(),
    }
}

pub open spec fn attrs_result_view(r: Result<Vec<Attribute>, PageParseError>) -> Result<
    Seq<AttributeV>,
    ParseErrorV,
> {
    match r {
        Ok(v) => Ok(attrs_view(v@)),
        Err(e) => Err(e@),
    }
}

/// Attributes `acc` put before those of a parse result.
pub open spec fn prepend_attrs(
    acc: Seq<AttributeV>,
    x: (Result<Seq<AttributeV>, ParseErrorV>, Seq<Seq<char>>),
) -> (Result<Seq<AttributeV>, ParseErrorV>, Seq<Seq<char>>) {
    (
        match x.0 {
            Ok(s) => Ok(acc + s),
            Err(e) => Err(e),
        },
        x.1,
    )
}

/// The lines left after consuming one, if there is one.
pub open spec fn drop_one(r: Seq<Seq<char>>) -> Seq<Seq<char>> {
    if r.len() > 0 {
        r.drop_first()
    } else {
        r
    }
}

pub proof fn lemma_take_count_split(r: Seq<Seq<char>>, f: FilterV, j: int)
    requires
        0 <= j <= r.len(),
        forall|i: int| 0 <= i < j ==> filter_line(f, #[trigger] r[i]) is Some,
    ensures
        take_count(r, f) == j + take_count(r.skip(j), f),
    decreases j,
{
    if j > 0 {
        assert(filter_line(f, r[0]) is Some);
        assert forall|i: int| 0 <= i < j - 1 implies filter_line(
            f,
            #[trigger] r.drop_first()[i],
        ) is Some by {
            assert(r.drop_first()[i] == r[i + 1]);
        }
        lemma_take_count_split(r.drop_first(), f, j - 1);
        assert(r.drop_first().skip(j - 1) =~= r.skip(j));
    } else {
        assert(r.skip(0) =~= r);
    }
}

/// A cursor over the lines of a page, with one line of lookahead.
pub struct Reader {
    lines: Vec<String>,
    pos: usize,
}

impl View for Reader {
    type V = Seq<Seq<char>>;

    /// The lines not consumed yet.
    closed spec fn view(&self) -> Seq<Seq<char>> {
        strings_view(self.lines@).skip(self.pos as int)
    }
}

impl Reader {
    pub closed spec fn wf(&self) -> bool {
        self.pos <= self.lines@.len()
    }

    pub fn new(lines: Vec<String>) -> (r: Reader)
        ensures
            r.wf(),
            r@ == strings_view(lines@),
    {
        let r = Reader { lines, pos: 0 };
        assert(strings_view(r.lines@).skip(0) =~= strings_view(r.lines@));
        r
    }

    /// How many lines are left.
    pub fn remaining(&self) -> (r: usize)
        requires
            self.wf(),
        ensures
            r == self@.len(),
    {
        self.lines.len() - self.pos
    }

    /// The next line, without consuming it.
    pub fn peek_line(&self) -> (r: Option<&String>)
        requires
            self.wf(),
        ensures
            r matches Some(l) ==> self@.len() > 0 && l@ == self@[0],
            r is None ==> self@.len() == 0,
    {
        if self.pos < self.lines.len() {
            Some(&self.lines[self.pos])
        } else {
            None
        }
    }

    /// Consumes the next line.
    pub fn next_line(&mut self) -> (r: Option<String>)
        requires
            old(self).wf(),
        ensures
            final(self).wf(),
            final(self)@ == drop_one(old(self)@),
            r matches Some(l) ==> old(self)@.len() > 0 && l@ == old(self)@[0],
            r is None ==> old(self)@.len() == 0,
    {
        if self.pos < self.lines.len() {
            let l = self.lines[self.pos].clone();
            self.pos = self.pos + 1;
            proof {
                assert(self@ =~= old(self)@.drop_first());
            }
            Some(l)
        } else {
            None
        }
    }

    /// Consumes the next line, whole, if the filter takes it.
    pub fn next_line_if(&mut self, filter: &LineFilter) -> (r: Option<String>)
        requires
            old(self).wf(),
        ensures
            final(self).wf(),
            old(self)@.len() > 0 && filter_line(filter@, old(self)@[0]) is Some ==> (r matches Some(
                l,
            ) && l@ == old(self)@[0]) && final(self)@ == old(self)@.drop_first(),
            !(old(self)@.len() > 0 && filter_line(filter@, old(self)@[0]) is Some) ==> r is None
                && final(self)@ == old(self)@,
    {
        let pass = match self.peek_line() {
            Some(line) => filter.apply(line.as_str()).is_some(),
            None => false,
        };
        if pass {
            self.next_line()
        } else {
            None
        }
    }

    /// Consumes the next line if the filter takes it, and returns what it keeps of it.
    pub fn next_line_if_map(&mut self, map: &LineFilter) -> (r: Option<String>)
        requires
            old(self).wf(),
        ensures
            final(self).wf(),
            old(self)@.len() > 0 && filter_line(map@, old(self)@[0]) is Some ==> opt_view(r)
                == filter_line(map@, old(self)@[0]) && final(self)@ == old(self)@.drop_first(),
            !(old(self)@.len() > 0 && filter_line(map@, old(self)@[0]) is Some) ==> r is None
                && final(self)@ == old(self)@,
    {
        let mapped = match self.peek_line() {
            Some(line) => map.apply(line.as_str()),
            None => None,
        };
        match mapped {
            Some(l) => {
                self.next_line();
                Some(l)
            },
            None => None,
        }
    }

    /// Consumes one blank line, if the next line is one.
    pub fn skip_blank(&mut self) -> (r: bool)
        requires
            old(self).wf(),
        ensures
            final(self).wf(),
            r == (old(self)@.len() > 0 && is_blank(old(self)@[0])),
            final(self)@ == if r {
                old(self)@.drop_first()
            } else {
                old(self)@
            },
    {
        self.next_line_if(&LineFilter::Blank).is_some()
    }

    /// Consumes the blank lines ahead.
    pub fn skip_blanks(&mut self)
        requires
            old(self).wf(),
        ensures
            final(self).wf(),
            final(self)@ == skip_blanks_spec(old(self)@),
    {
        while self.skip_blank()
            invariant
                self.wf(),
                skip_blanks_spec(self@) == skip_blanks_spec(old(self)@),
            decreases self@.len(),
        {
        }
    }

    /// Consumes the lines that the filter takes, and returns what it keeps of them.
    fn take_lines(&mut self, f: &LineFilter) -> (items: Vec<String>)
        requires
            old(self).wf(),
        ensures
            final(self).wf(),
            strings_view(items@) == taken(old(self)@, f@),
            final(self)@ == old(self)@.skip(take_count(old(self)@, f@) as int),
    {
        let ghost orig = self@;
        let mut items: Vec<String> = Vec::new();
        let ghost mut j: int = 0;
        loop
            invariant
                self.wf(),
                orig == old(self)@,
                0 <= j <= orig.len(),
                self@ == orig.skip(j),
                forall|i: int| 0 <= i < j ==> filter_line(f@, #[trigger] orig[i]) is Some,
                strings_view(items@) == kept(orig, f@, j),
            decreases orig.len() - j,
        {
            let ghost before = self@;
            match self.next_line_if_map(f) {
                Some(l) => {
                    proof {
                        assert(before[0] == orig[j]);
                        assert(orig.skip(j).drop_first() =~= orig.skip(j + 1));
                    }
                    let ghost old_items = items@;
                    let ghost lv = l@;
                    items.push(l);
                    proof {
                        assert(lv == filter_line(f@, orig[j])->0);
                        assert(strings_view(items@) =~= strings_view(old_items).push(lv));
                        assert(kept(orig, f@, j + 1) =~= kept(orig, f@, j).push(lv));
                        j = j + 1;
                        assert(strings_view(items@) =~= kept(orig, f@, j));
                    }
                },
                None => {
                    proof {
                        lemma_take_count_split(orig, f@, j);
                        assert(take_count(before, f@) == 0);
                        assert(taken(orig, f@) =~= kept(orig, f@, j));
                    }
                    return items;
                },
            }
        }
    }

    /// Skips blank lines, then accumulates the lines that the filter takes: raw or flowed.
    pub fn next_text(&mut self, filter: &LineFilter, raw: bool) -> (r: String)
        requires
            old(self).wf(),
        ensures
            final(self).wf(),
            (r@, final(self)@) == text_of(old(self)@, filter@, raw),
    {
        self.skip_blanks();
        let items = self.take_lines(filter);
        if raw {
            raw_text(&items)
        } else {
            flow_text(&items)
        }
    }

    /// Text up to a boundary.
    pub fn next_text_until(&mut self, until: Boundary, raw: bool) -> (r: String)
        requires
            old(self).wf(),
        ensures
            final(self).wf(),
            (r@, final(self)@) == text_of(old(self)@, FilterV::Until(until@), raw),
    {
        self.next_text(&LineFilter::Until(until), raw)
    }

    /// Text up to the line that closes `tag`, which is consumed too.
    pub fn next_text_until_tag(&mut self, tag: &str, raw: bool) -> (r: String)
        requires
            old(self).wf(),
        ensures
            final(self).wf(),
            ({
                let (t, rest) = text_of(
                    old(self)@,
                    FilterV::Until(BoundaryV::CloseTag(tag@)),
                    raw,
                );
                r@ == t && final(self)@ == drop_one(rest)
            }),
    {
        let text = self.next_text_until(Boundary::CloseTag(String::from_str(tag)), raw);
        self.next_line();
        text
    }

    /// The lines that start with `prefix`, without it.
    pub fn next_text_prefixed(&mut self, prefix: &str, raw: bool) -> (r: String)
        requires
            old(self).wf(),
        ensures
            final(self).wf(),
            (r@, final(self)@) == text_of(
                old(self)@,
                FilterV::Prefixed(prefix@, raw),
                raw,
            ),
    {
        self.next_text(&LineFilter::Prefixed(String::from_str(prefix), raw), raw)
    }

    /// Text up to the next section marker.
    pub fn next_text_until_section(&mut self, raw: bool) -> (r: String)
        requires
            old(self).wf(),
        ensures
            final(self).wf(),
            (r@, final(self)@) == text_of(old(self)@, FilterV::Until(BoundaryV::Section), raw),
    {
        self.next_text_until(Boundary::Section, raw)
    }

    /// Consumes an attribute line, if the next line is one.
    pub fn next_attr(&mut self) -> (r: Result<Option<Attribute>, PageParseError>)
        requires
            old(self).wf(),
        ensures
            final(self).wf(),
            result_view(r) == attr_step(old(self)@),
            final(self)@ == match attr_step(old(self)@) {
                Ok(None) => old(self)@,
                _ => old(self)@.drop_first(),
            },
    {
        let body = match self.peek_line() {
            Some(line) => if has_attr_prefix(line.as_str()) {
                strip_attr_prefix(line.as_str())
            } else {
                None
            },
            None => None,
        };
        match body {
            Some(attr) => match Attribute::parse(attr.as_str()) {
                Ok(Some(a)) => {
                    self.next_line();
                    Ok(Some(a))
                },
                Ok(None) => Ok(None),
                Err(e) => {
                    self.next_line();
                    Err(e)
                },
            },
            None => Ok(None),
        }
    }

    /// Consumes the attribute lines ahead.
    pub fn next_attrs(&mut self) -> (r: Result<Vec<Attribute>, PageParseError>)
        requires
            old(self).wf(),
        ensures
            final(self).wf(),
            (attrs_result_view(r), final(self)@) == attrs_of(old(self)@),
    {
        let mut attrs: Vec<Attribute> = Vec::new();
        loop
            invariant
                self.wf(),
                attrs_of(old(self)@) == prepend_attrs(attrs_view(attrs@), attrs_of(self@)),
            decreases self@.len(),
        {
            let ghost acc = attrs_view(attrs@);
            match self.next_attr() {
                Ok(Some(a)) => {
                    proof {
                        assert(prepend_attrs(acc, prepend_attr(a@, attrs_of(self@)))
                            == prepend_attrs(acc.push(a@), attrs_of(self@))) by {
                            assert(attrs_of(self@).0 matches Ok(s) ==> acc + (seq![a@] + s) =~= acc.push(a@) + s);
                        }
                    }
                    attrs.push(a);
                    assert(attrs_view(attrs@) =~= acc.push(a@));
                },
                Ok(None) => {
                    assert(acc + Seq::empty() =~= acc);
                    return Ok(attrs);
                },
                Err(e) => {
                    return Err(e);
                },
            }
        }
    }

    /// The entries of the list ahead.
    pub fn next_list(&mut self, marker: &ItemMarker) -> (r: Vec<String>)
        requires
            old(self).wf(),
        ensures
            final(self).wf(),
            (strings_view(r@), final(self)@) == list_of(old(self)@, marker@),
    {
        let mut list: Vec<String> = Vec::new();
        let cont = LineFilter::Until(Boundary::ListItem(marker.copy()));
        loop
            invariant
                self.wf(),
                cont@ == FilterV::Until(BoundaryV::ListItem(marker@)),
                list_of(old(self)@, marker@) == (strings_view(list@) + list_of(self@, marker@).0, list_of(self@, marker@).1),
            decreases self@.len(),
        {
            let ghost before = self@;
            self.skip_blanks();
            let is_entry = match self.peek_line() {
                Some(line) => marker.matches_line(line.as_str()),
                None => false,
            };
            if !is_entry {
                assert(strings_view(list@) + Seq::empty() =~= strings_view(list@));
                return list;
            }
            let first = self.next_line();
            let mut items = self.take_lines(&cont);
            match first {
                Some(l) => items.insert(0, l),
                None => {},
            }
            let ghost old_list = strings_view(list@);
            let entry = flow_text(&items);
            proof {
                lemma_skip_blanks_suffix(before);
                let r1 = skip_blanks_spec(before);
                lemma_take_count_le(r1.drop_first(), cont@);
                assert(strings_view(items@) =~= seq![r1[0]] + taken(r1.drop_first(), cont@));
            }
            list.push(entry);
            proof {
                assert(strings_view(list@) =~= old_list.push(entry@));
                assert(old_list + (seq![entry@] + list_of(self@, marker@).0) =~= strings_view(list@) + list_of(self@, marker@).0);
            }
        }
    }

    /// The entries of a list marked by `prefix`, without it.
    pub fn next_list_prefixed(&mut self, prefix: &str) -> (r: Vec<String>)
        requires
            old(self).wf(),
        ensures
            final(self).wf(),
            ({
                let (entries, rest) = list_of(old(self)@, ItemMarkerV::Prefix(prefix@));
                strings_view(r@) == entries.map_values(|e: Seq<char>| unmarked(e, prefix@))
                    && final(self)@ == rest
            }),
    {
        let entries = self.next_list(&ItemMarker::Prefix(String::from_str(prefix)));
        let mut out: Vec<String> = Vec::new();
        let mut i: usize = 0;
        while i < entries.len()
            invariant
                i <= entries@.len(),
                strings_view(out@) == strings_view(entries@).take(i as int).map_values(
                    |e: Seq<char>| unmarked(e, prefix@),
                ),
            decreases entries@.len() - i,
        {
            let e = match strip_prefix_str(entries[i].as_str(), prefix) {
                Some(rest) => rest,
                None => String::new(),
            };
            let ghost old_out = strings_view(out@);
            out.push(e);
            proof {
                assert(strings_view(out@) =~= old_out.push(e@));
                assert(strings_view(entries@).take(i + 1).map_values(
                    |e: Seq<char>| unmarked(e, prefix@),
                ) =~= strings_view(entries@).take(i as int).map_values(
                    |e: Seq<char>| unmarked(e, prefix@),
                ).push(unmarked(entries@[i as int]@, prefix@)));
            }
            i = i + 1;
        }
        assert(strings_view(entries@).take(entries@.len() as int) =~= strings_view(entries@));
        out
    }
}

} // verus!
