//! The grammar of address conditions: a closure at each end, and between
//! them one, two or three addresses separated by `..`.

use vstd::prelude::*;
use vstd::string::StrSliceExecFns;
use crate::address::Address;
use crate::address_condition::{AddressCondition, Values};
use crate::segments::{segment_views, spec_split, split};
use crate::text::{parse_address, spec_parse_address, to_chars};

verus! {

/// Whether a bound of a range belongs to the range.
#[derive(Clone, Copy, Debug, PartialEq, Eq, Structural)]
pub enum ClosureType {
    Inclusive,
    Exclusive,
}

/// What can be wrong with the text of an address condition.
#[derive(Clone, Copy, Debug, PartialEq, Eq, Structural)]
pub enum ArgParseError {
    /// The text is empty.
    ArgEmpty,
    /// The text does not open with `[` or `(`, or does not close with `]` or
    /// `)`.
    MissingClosuresError,
    /// One of the addresses is not a number that fits an address.
    InvalidAddressNumber,
    /// A single address stands between an inclusive and an exclusive closure.
    InvalidClosuresError,
    /// The text holds no address, or more than three.
    InvalidAddressCount,
    /// The step of a stepped range is zero.
    InvalidStep,
}

/// The addresses of a condition's body.
pub type AddressList = Vec<Address>;

/// The closures and the addresses found in the text of an address condition.
#[derive(Debug, PartialEq)]
pub struct ParsedAddrCond {
    pub lower_enclosure: ClosureType,
    pub body_tokens: AddressList,
    pub upper_enclosure: ClosureType,
}

/// What taking a text apart gives.
pub type ParseResult = Result<ParsedAddrCond, ArgParseError>;

/// The mathematical content of a [`ParsedAddrCond`].
pub struct ParsedAddrCondView {
    pub lower_enclosure: ClosureType,
    pub body_tokens: Seq<Address>,
    pub upper_enclosure: ClosureType,
}

impl View for ParsedAddrCond {
    type V = ParsedAddrCondView;

    open spec fn view(&self) -> ParsedAddrCondView {
        ParsedAddrCondView {
            lower_enclosure: self.lower_enclosure,
            body_tokens: self.body_tokens@,
            upper_enclosure: self.upper_enclosure,
        }
    }
}

/// The closure that `c` opens a condition with, if it opens one.
pub open spec fn spec_lower_closure(c: char) -> Option<ClosureType> {
    if c == '[' {
        Some(ClosureType::Inclusive)
    } else if c == '(' {
        Some(ClosureType::Exclusive)
    } else {
        None
    }
}

/// The closure that `c` closes a condition with, if it closes one.
pub open spec fn spec_upper_closure(c: char) -> Option<ClosureType> {
    if c == ']' {
        Some(ClosureType::Inclusive)
    } else if c == ')' {
        Some(ClosureType::Exclusive)
    } else {
        None
    }
}

/// Whether `s` opens with a lower closure.
pub open spec fn spec_starts_with_closure(s: Seq<char>) -> bool {
    s.len() > 0 && spec_lower_closure(s[0]) is Some
}

/// Whether `s` closes with an upper closure.
pub open spec fn spec_ends_with_closure(s: Seq<char>) -> bool {
    s.len() > 0 && spec_upper_closure(s.last()) is Some
}

/// Whether `s` has a closure at each end.
pub open spec fn spec_check_closures(s: Seq<char>) -> bool {
    spec_starts_with_closure(s) && spec_ends_with_closure(s)
}

/// Whether every segment denotes an address.
pub open spec fn all_addresses(segments: Seq<Seq<char>>) -> bool {
    forall|i: int| 0 <= i < segments.len() ==> spec_parse_address(#[trigger] segments[i]) is Some
}

/// The addresses that the segments denote, in order.
pub open spec fn addresses_of(segments: Seq<Seq<char>>) -> Seq<Address> {
    Seq::new(segments.len(), |i: int| spec_parse_address(segments[i]).unwrap())
}

/// The addresses of the body of a condition: the body is split at `..`, and
/// each segment has to be an address. How many there are is not looked at.
pub open spec fn spec_address_list(body: Seq<char>) -> Result<Seq<Address>, ArgParseError> {
    let segments = spec_split(body);
    if !all_addresses(segments) {
        Err(ArgParseError::InvalidAddressNumber)
    } else {
        Ok(addresses_of(segments))
    }
}

/// What is left to check once closures and addresses are known: there are
/// one, two or three addresses; a single address stands between two closures
/// of one type; the step of a stepped range is not zero.
pub open spec fn spec_validate_split(parsed: ParsedAddrCondView) -> Result<
    ParsedAddrCondView,
    ArgParseError,
> {
    if parsed.body_tokens.len() == 0 || parsed.body_tokens.len() > 3 {
        Err(ArgParseError::InvalidAddressCount)
    } else if parsed.body_tokens.len() == 1 && parsed.lower_enclosure != parsed.upper_enclosure {
        Err(ArgParseError::InvalidClosuresError)
    } else if parsed.body_tokens.len() == 3 && parsed.body_tokens[1] == 0 {
        Err(ArgParseError::InvalidStep)
    } else {
        Ok(parsed)
    }
}

/// The closures and addresses of the text `s`. The closures are looked at
/// first, then the number of segments, then the addresses themselves, then
/// how they fit together.
pub open spec fn spec_split_arg(s: Seq<char>) -> Result<ParsedAddrCondView, ArgParseError> {
    let body = s.subrange(1, s.len() - 1);
    if !spec_check_closures(s) {
        Err(ArgParseError::MissingClosuresError)
    } else if spec_split(body).len() > 3 {
        Err(ArgParseError::InvalidAddressCount)
    } else {
        match spec_address_list(body) {
            Err(e) => Err(e),
            Ok(body_tokens) => spec_validate_split(
                ParsedAddrCondView {
                    lower_enclosure: spec_lower_closure(s[0]).unwrap(),
                    body_tokens,
                    upper_enclosure: spec_upper_closure(s.last()).unwrap(),
                },
            ),
        }
    }
}

/// The shape of the condition that valid closures and addresses stand for:
/// one address is a line number, two are the bounds of a range, three are the
/// lower bound, the step and the upper bound of a stepped range.
pub open spec fn spec_condition(parsed: ParsedAddrCondView) -> Values {
    let min_inclusive = parsed.lower_enclosure == ClosureType::Inclusive;
    let max_inclusive = parsed.upper_enclosure == ClosureType::Inclusive;
    if parsed.body_tokens.len() == 1 {
        Values::LineNumber(parsed.body_tokens[0])
    } else if parsed.body_tokens.len() == 2 {
        Values::Range {
            min: parsed.body_tokens[0],
            max: parsed.body_tokens[1],
            min_inclusive,
            max_inclusive,
        }
    } else {
        Values::StepRange {
            min: parsed.body_tokens[0],
            max: parsed.body_tokens[2],
            min_inclusive,
            max_inclusive,
            step: parsed.body_tokens[1],
        }
    }
}

/// The condition that the text `s` denotes, or what is wrong with it. A bare
/// address, without closures, denotes the line number that it names.
pub open spec fn spec_parse_arg(s: Seq<char>) -> Result<Values, ArgParseError> {
    if s.len() == 0 {
        Err(ArgParseError::ArgEmpty)
    } else if !spec_check_closures(s) {
        match spec_parse_address(s) {
            Some(n) => Ok(Values::LineNumber(n)),
            None => Err(ArgParseError::MissingClosuresError),
        }
    } else {
        match spec_split_arg(s) {
            Err(e) => Err(e),
            Ok(parsed) => Ok(spec_condition(parsed)),
        }
    }
}

/// Parses the text of an address condition.
pub fn parse_arg(arg: &String) -> (r: Result<AddressCondition, ArgParseError>)
    ensures
        match r {
            Ok(cond) => spec_parse_arg(arg@) == Ok::<Values, ArgParseError>(cond@),
            Err(e) => spec_parse_arg(arg@) == Err::<Values, ArgParseError>(e),
        },
{
    if arg.as_str().unicode_len() == 0 {
        return Err(ArgParseError::ArgEmpty);
    }
    if !check_closures(arg) {
        let chars = to_chars(arg.as_str());
        return match parse_address(chars.as_slice()) {
            Some(n) => Ok(AddressCondition::line_number(n)),
            None => Err(ArgParseError::MissingClosuresError),
        };
    }
    let parsed = split_arg(arg)?;
    let min_inclusive = parsed.lower_enclosure == ClosureType::Inclusive;
    let max_inclusive = parsed.upper_enclosure == ClosureType::Inclusive;
    let tokens = &parsed.body_tokens;
    if tokens.len() == 1 {
        Ok(AddressCondition::line_number(tokens[0]))
    } else if tokens.len() == 2 {
        Ok(AddressCondition::range(tokens[0], tokens[1], min_inclusive, max_inclusive))
    } else {
        match AddressCondition::step_range(
            tokens[0],
            tokens[2],
            min_inclusive,
            max_inclusive,
            tokens[1],
        ) {
            Ok(cond) => Ok(cond),
            Err(_) => Err(ArgParseError::InvalidStep),
        }
    }
}

/// Whether the text has a closure at each end.
pub fn check_closures(arg: &String) -> (b: bool)
    ensures
        b == spec_check_closures(arg@),
{
    arg_starts_with_closure(arg) && arg_ends_with_closure(arg)
}

/// Whether the text opens with `[` or `(`.
pub fn arg_starts_with_closure(arg: &String) -> (b: bool)
    ensures
        b == spec_starts_with_closure(arg@),
{
    let s = arg.as_str();
    if s.unicode_len() == 0 {
        false
    } else {
        let c = s.get_char(0);
        c == '[' || c == '('
    }
}

/// Whether the text closes with `]` or `)`.
pub fn arg_ends_with_closure(arg: &String) -> (b: bool)
    ensures
        b == spec_ends_with_closure(arg@),
{
    let s = arg.as_str();
    let n = s.unicode_len();
    if n == 0 {
        false
    } else {
        let c = s.get_char(n - 1);
        c == ']' || c == ')'
    }
}

/// Takes the text apart into its closures and its addresses.
pub fn split_arg(arg: &String) -> (r: ParseResult)
    ensures
        match r {
            Ok(parsed) => spec_split_arg(arg@) == Ok::<ParsedAddrCondView, ArgParseError>(parsed@),
            Err(e) => spec_split_arg(arg@) == Err::<ParsedAddrCondView, ArgParseError>(e),
        },
{
    let mut body = to_chars(arg.as_str());
    let lower_enclosure = get_lower_enclosure_type(&mut body)?;
    let upper_enclosure = get_upper_enclosure_type(&mut body)?;
    assert(body@ =~= arg@.subrange(1, arg@.len() - 1));
    let segments = split(body.as_slice());
    assert(segment_views(segments@).len() == segments.len());
    if segments.len() > 3 {
        return Err(ArgParseError::InvalidAddressCount);
    }
    let body_tokens = get_address_list(body)?;
    validate_split(ParsedAddrCond { lower_enclosure, body_tokens, upper_enclosure })
}

/// Takes the first character off `chars` and reads it as a lower closure.
pub fn get_lower_enclosure_type(chars: &mut Vec<char>) -> (r: Result<ClosureType, ArgParseError>)
    ensures
        old(chars)@.len() == 0 ==> final(chars)@ == old(chars)@,
        old(chars)@.len() > 0 ==> final(chars)@ == old(chars)@.drop_first(),
        match r {
            Ok(closure) => old(chars)@.len() > 0 && spec_lower_closure(old(chars)@[0]) == Some(
                closure,
            ),
            Err(e) => e == ArgParseError::MissingClosuresError && !spec_starts_with_closure(
                old(chars)@,
            ),
        },
{
    if chars.len() == 0 {
        return Err(ArgParseError::MissingClosuresError);
    }
    let c = chars.remove(0);
    assert(chars@ =~= old(chars)@.drop_first());
    if c == '[' {
        Ok(ClosureType::Inclusive)
    } else if c == '(' {
        Ok(ClosureType::Exclusive)
    } else {
        Err(ArgParseError::MissingClosuresError)
    }
}

/// Takes the last character off `chars` and reads it as an upper closure.
pub fn get_upper_enclosure_type(chars: &mut Vec<char>) -> (r: Result<ClosureType, ArgParseError>)
    ensures
        old(chars)@.len() == 0 ==> final(chars)@ == old(chars)@,
        old(chars)@.len() > 0 ==> final(chars)@ == old(chars)@.drop_last(),
        match r {
            Ok(closure) => old(chars)@.len() > 0 && spec_upper_closure(old(chars)@.last()) == Some(
                closure,
            ),
            Err(e) => e == ArgParseError::MissingClosuresError && !spec_ends_with_closure(
                old(chars)@,
            ),
        },
{
    match chars.pop() {
        Some(c) => {
            if c == ']' {
                Ok(ClosureType::Inclusive)
            } else if c == ')' {
                Ok(ClosureType::Exclusive)
            } else {
                Err(ArgParseError::MissingClosuresError)
            }
        },
        None => Err(ArgParseError::MissingClosuresError),
    }
}

/// Splits the body of a condition at `..` and reads each segment as an
/// address.
pub fn get_address_list(body_chars: Vec<char>) -> (r: Result<AddressList, ArgParseError>)
    ensures
        match r {
            Ok(tokens) => spec_address_list(body_chars@) == Ok::<Seq<Address>, ArgParseError>(
                tokens@,
            ),
            Err(e) => spec_address_list(body_chars@) == Err::<Seq<Address>, ArgParseError>(e),
        },
{
    let segments = split(body_chars.as_slice());
    let ghost texts = spec_split(body_chars@);
    let mut tokens: AddressList = Vec::new();
    let mut i: usize = 0;
    while i < segments.len()
        invariant
            i <= segments.len(),
            texts == spec_split(body_chars@),
            texts == segment_views(segments@),
            tokens@.len() == i,
            forall|j: int| 0 <= j < i ==> spec_parse_address(#[trigger] texts[j]) == Some(tokens@[j]),
        decreases segments.len() - i,
    {
        match parse_address(segments[i].as_slice()) {
            Some(n) => {
                tokens.push(n);
            },
            None => {
                assert(spec_parse_address(texts[i as int]) is None);
                return Err(ArgParseError::InvalidAddressNumber);
            },
        }
        i += 1;
    }
    assert(tokens@ =~= addresses_of(texts));
    Ok(tokens)
}

/// Checks that closures and addresses fit together, and hands them back if
/// they do.
pub fn validate_split(parse_results: ParsedAddrCond) -> (r: ParseResult)
    ensures
        match r {
            Ok(parsed) => parsed == parse_results && spec_validate_split(parse_results@) == Ok::<
                ParsedAddrCondView,
                ArgParseError,
            >(parsed@),
            Err(e) => spec_validate_split(parse_results@) == Err::<
                ParsedAddrCondView,
                ArgParseError,
            >(e),
        },
{
    let count = parse_results.body_tokens.len();
    if count == 0 || count > 3 {
        Err(ArgParseError::InvalidAddressCount)
    } else if count == 1 && parse_results.lower_enclosure != parse_results.upper_enclosure {
        Err(ArgParseError::InvalidClosuresError)
    } else if count == 3 && parse_results.body_tokens[1] == 0 {
        Err(ArgParseError::InvalidStep)
    } else {
        Ok(parse_results)
    }
}

} // verus!
