//! Value parsers: pure functions from a raw metadata value to its typed
//! form, dispatched by the field's `ParseType`.

use vstd::prelude::*;

use crate::date::{spec_parse_date, Date};
use crate::strutil::{lower_seq, strs_view, to_lower, trim, trim_seq};

verus! {

/// Which parser a metadata field uses.
#[derive(Clone, Copy, Debug)]
pub enum ParseType {
    Date,
    Editor,
    Literal,
    Level,
    LiteralList,
}

/// A parsed metadata value.
#[derive(Debug)]
pub enum ParseResult {
    Literal(String),
    LiteralVec(Vec<String>),
    Date(Date),
}

/// The mathematical shape of a `ParseResult`.
pub enum ParseResultV {
    Literal(Seq<char>),
    LiteralVec(Seq<Seq<char>>),
    Date(Date),
}

impl View for ParseResult {
    type V = ParseResultV;

    open spec fn view(&self) -> ParseResultV {
        match self {
            ParseResult::Literal(s) => ParseResultV::Literal(s@),
            ParseResult::LiteralVec(v) => ParseResultV::LiteralVec(strs_view(v@)),
            ParseResult::Date(d) => ParseResultV::Date(*d),
        }
    }
}

/// Lower-case and trim; `none` means "level unset", rendered as the empty
/// string.
pub open spec fn spec_parse_level(s: Seq<char>) -> Seq<char> {
    let t = lower_seq(trim_seq(s));
    if t == "none"@ {
        Seq::empty()
    } else {
        t
    }
}

pub fn parse_level(val: &String) -> (r: String)
    ensures
        r@ == spec_parse_level(val@),
{
    let t = to_lower(trim(val.as_str()));
    if crate::strutil::str_eq(t.as_str(), "none") {
        String::new()
    } else {
        t
    }
}

/// A list value contributes a single element holding the raw text.
pub open spec fn spec_parse_vec(s: Seq<char>) -> Seq<Seq<char>> {
    seq![s]
}

pub fn parse_vec(val: &String) -> (r: Vec<String>)
    ensures
        strs_view(r@) == spec_parse_vec(val@),
{
    let mut vec: Vec<String> = Vec::new();
    vec.push(val.clone());
    proof {
        assert(strs_view(vec@) =~= spec_parse_vec(val@));
    }
    vec
}

/// An editor value has the same shape as a list value; richer structured
/// parsing is reserved for a later pass.
pub fn parse_editor(val: &String) -> (r: Vec<String>)
    ensures
        strs_view(r@) == spec_parse_vec(val@),
{
    parse_vec(val)
}

/// What `parse_value` returns for each parser, with the date the sentinel
/// `now` resolves to given explicitly.
pub open spec fn spec_parse_value(pt: ParseType, s: Seq<char>, today: Date) -> Option<
    ParseResultV,
> {
    match pt {
        ParseType::Date => match spec_parse_date(s, today) {
            Some(d) => Some(ParseResultV::Date(d)),
            None => None,
        },
        ParseType::Editor => Some(ParseResultV::LiteralVec(spec_parse_vec(s))),
        ParseType::Literal => Some(ParseResultV::Literal(s)),
        ParseType::Level => Some(ParseResultV::Literal(spec_parse_level(s))),
        ParseType::LiteralList => Some(ParseResultV::LiteralVec(spec_parse_vec(s))),
    }
}

pub fn parse_value_with_today(parse_type: &ParseType, val: &String, today: Date) -> (r: Option<
    ParseResult,
>)
    requires
        today.wf(),
    ensures
        match r {
            Some(pr) => spec_parse_value(*parse_type, val@, today) == Some(pr@),
            None => spec_parse_value(*parse_type, val@, today) is None,
        },
{
    match parse_type {
        ParseType::Date => match crate::date::parse_date_with_today(val.as_str(), today) {
            Some(d) => Some(ParseResult::Date(d)),
            None => None,
        },
        ParseType::Editor => Some(ParseResult::LiteralVec(parse_editor(val))),
        ParseType::Literal => Some(ParseResult::Literal(val.clone())),
        ParseType::Level => Some(ParseResult::Literal(parse_level(val))),
        ParseType::LiteralList => Some(ParseResult::LiteralVec(parse_vec(val))),
    }
}

/// The three-state dispatcher over the parser table; `now` in a date value
/// resolves against the clock.
pub fn parse_value(parse_type: &ParseType, val: &String) -> (r: Option<ParseResult>)
    ensures
        exists|t: Date|
            #[trigger] t.wf() && match r {
                Some(pr) => spec_parse_value(*parse_type, val@, t) == Some(pr@),
                None => spec_parse_value(*parse_type, val@, t) is None,
            },
{
    let today = Date::today();
    let r = parse_value_with_today(parse_type, val, today);
    proof {
        assert(today.wf());
    }
    r
}

} // verus!
