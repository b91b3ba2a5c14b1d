//! Address conditions: which line addresses a command applies to.

use vstd::prelude::*;
use crate::address::Address;
use crate::parse::{
    addresses_of, all_addresses, spec_check_closures, spec_lower_closure, spec_parse_arg,
    spec_upper_closure, ArgParseError, ClosureType,
};
use crate::segments::{
    append_to_last, lemma_split_append, lemma_split_nonempty, lemma_split_prepend,
    prepend_to_first, segment_views, spec_split, split,
};
use crate::text::{parse_address, spec_parse_address, to_chars};

verus! {

/// The three shapes that an address condition can take.
#[derive(Clone, Copy, Debug, PartialEq, Eq, Structural)]
pub enum Values {
    /// Matches the one address `n`.
    LineNumber(Address),
    /// Matches the addresses between `min` and `max`, each bound taken in or
    /// left out as its flag says.
    Range { min: Address, max: Address, min_inclusive: bool, max_inclusive: bool },
    /// Matches the addresses of the range that lie a whole number of steps
    /// above `min`.
    StepRange { min: Address, max: Address, min_inclusive: bool, max_inclusive: bool, step: Address },
}

/// What can be wrong with the text of an address condition.
#[derive(Clone, Copy, Debug, PartialEq, Eq, Structural)]
pub enum AddressConditionParseError {
    /// The text is empty.
    ArgEmpty,
    /// The text holds more than three addresses.
    InvalidArgument,
    /// One of the addresses is not a number that fits an address.
    InvalidLineNumber,
    /// The text does not open and close with the closures that its shape
    /// takes.
    InvalidRangeClosure,
    /// The step of a stepped range is zero.
    InvalidStep,
}

/// Whether `addr` lies at or above the lower bound `min`, the bound itself
/// counting only when it is inclusive.
pub open spec fn spec_in_lower_bound(addr: Address, min: Address, inclusive: bool) -> bool {
    if inclusive {
        min <= addr
    } else {
        min < addr
    }
}

/// Whether `addr` lies at or below the upper bound `max`, the bound itself
/// counting only when it is inclusive.
pub open spec fn spec_in_upper_bound(addr: Address, max: Address, inclusive: bool) -> bool {
    if inclusive {
        addr <= max
    } else {
        addr < max
    }
}

/// Whether `addr` lies a whole number of steps above `min`.
pub open spec fn spec_in_step(addr: Address, min: Address, step: Address) -> bool {
    (addr - min) % (step as int) == 0
}

/// Whether a condition of the shape `vals` matches the address `addr`.
pub open spec fn spec_applies(vals: Values, addr: Address) -> bool {
    match vals {
        Values::LineNumber(n) => addr == n,
        Values::Range { min, max, min_inclusive, max_inclusive } => {
            spec_in_lower_bound(addr, min, min_inclusive) && spec_in_upper_bound(
                addr,
                max,
                max_inclusive,
            )
        },
        Values::StepRange { min, max, min_inclusive, max_inclusive, step } => {
            spec_in_lower_bound(addr, min, min_inclusive) && spec_in_upper_bound(
                addr,
                max,
                max_inclusive,
            ) && spec_in_step(addr, min, step)
        },
    }
}

/// Whether `vals` is a shape that a condition may have: a stepped range
/// needs a step of at least one.
pub open spec fn well_formed(vals: Values) -> bool {
    vals matches Values::StepRange { step, .. } ==> step > 0
}

/// A predicate over line addresses.
#[derive(Clone, Copy, Debug, PartialEq, Eq)]
pub struct AddressCondition {
    vals: Values,
}

impl View for AddressCondition {
    type V = Values;

    closed spec fn view(&self) -> Values {
        self.vals
    }
}

impl AddressCondition {
    /// No condition has a step of zero.
    #[verifier::type_invariant]
    spec fn inv(self) -> bool {
        well_formed(self.vals)
    }

    /// The condition of the shape `vals`.
    pub closed spec fn with_shape(vals: Values) -> AddressCondition {
        AddressCondition { vals }
    }

    /// A condition is the one that has its shape.
    pub proof fn lemma_with_shape(self)
        ensures
            AddressCondition::with_shape(self@) == self,
    {
    }

    /// The condition of a shape has that shape.
    pub proof fn lemma_shape_of(vals: Values)
        ensures
            AddressCondition::with_shape(vals)@ == vals,
    {
    }

    /// The condition that matches the address `n` and no other.
    pub fn line_number(n: Address) -> (cond: AddressCondition)
        ensures
            cond@ == Values::LineNumber(n),
    {
        AddressCondition { vals: Values::LineNumber(n) }
    }

    /// The condition that matches the addresses from `min` to `max`.
    pub fn range(min: Address, max: Address, min_inclusive: bool, max_inclusive: bool) -> (cond:
        AddressCondition)
        ensures
            cond@ == (Values::Range { min, max, min_inclusive, max_inclusive }),
    {
        AddressCondition { vals: Values::Range { min, max, min_inclusive, max_inclusive } }
    }

    /// The condition that matches every `step`-th address from `min` to
    /// `max`, counted from `min`. A step of zero is refused.
    pub fn step_range(
        min: Address,
        max: Address,
        min_inclusive: bool,
        max_inclusive: bool,
        step: Address,
    ) -> (r: Result<AddressCondition, AddressConditionParseError>)
        ensures
            step == 0 ==> r == Err::<AddressCondition, _>(AddressConditionParseError::InvalidStep),
            step != 0 ==> r is Ok && r->Ok_0@ == (Values::StepRange {
                min,
                max,
                min_inclusive,
                max_inclusive,
                step,
            }),
    {
        if step == 0 {
            Err(AddressConditionParseError::InvalidStep)
        } else {
            Ok(
                AddressCondition {
                    vals: Values::StepRange { min, max, min_inclusive, max_inclusive, step },
                },
            )
        }
    }

    /// The shape of this condition.
    pub fn values(&self) -> (vals: Values)
        ensures
            vals == self@,
            well_formed(vals),
    {
        proof {
            use_type_invariant(self);
        }
        self.vals
    }

    /// Whether a command with this condition should edit the line at `addr`.
    pub fn applies(&self, addr: Address) -> (b: bool)
        ensures
            b == spec_applies(self@, addr),
    {
        proof {
            use_type_invariant(self);
        }
        match self.vals {
            Values::LineNumber(n) => addr == n,
            Values::Range { min, max, min_inclusive, max_inclusive } => {
                AddressCondition::in_lower_bound(addr, min, min_inclusive)
                    && AddressCondition::in_upper_bound(addr, max, max_inclusive)
            },
            Values::StepRange { min, max, min_inclusive, max_inclusive, step } => {
                AddressCondition::in_lower_bound(addr, min, min_inclusive)
                    && AddressCondition::in_upper_bound(addr, max, max_inclusive)
                    && AddressCondition::in_step(addr, min, step)
            },
        }
    }

    /// Whether `addr` lies within the lower bound `min`.
    fn in_lower_bound(addr: Address, min: Address, inclusive: bool) -> (b: bool)
        ensures
            b == spec_in_lower_bound(addr, min, inclusive),
    {
        if inclusive {
            min <= addr
        } else {
            min < addr
        }
    }

    /// Whether `addr` lies within the upper bound `max`.
    fn in_upper_bound(addr: Address, max: Address, inclusive: bool) -> (b: bool)
        ensures
            b == spec_in_upper_bound(addr, max, inclusive),
    {
        if inclusive {
            addr <= max
        } else {
            addr < max
        }
    }

    /// Whether `addr`, which is not below `min`, lies a whole number of
    /// steps above it.
    fn in_step(addr: Address, min: Address, step: Address) -> (b: bool)
        requires
            min <= addr,
            step > 0,
        ensures
            b == spec_in_step(addr, min, step),
    {
        (addr - min) % step == 0
    }
}

/// The name that [`AddressConditionParseError`] has for each fault that the
/// grammar knows.
pub open spec fn spec_condition_error(e: ArgParseError) -> AddressConditionParseError {
    match e {
        ArgParseError::ArgEmpty => AddressConditionParseError::ArgEmpty,
        ArgParseError::MissingClosuresError => AddressConditionParseError::InvalidRangeClosure,
        ArgParseError::InvalidAddressNumber => AddressConditionParseError::InvalidLineNumber,
        ArgParseError::InvalidClosuresError => AddressConditionParseError::InvalidRangeClosure,
        ArgParseError::InvalidAddressCount => AddressConditionParseError::InvalidArgument,
        ArgParseError::InvalidStep => AddressConditionParseError::InvalidStep,
    }
}

/// The condition that the text `s` denotes by the grammar, or the fault that
/// the grammar finds in it, under the name this module has for it.
pub open spec fn spec_from_str(s: Seq<char>) -> Result<Values, AddressConditionParseError> {
    match spec_parse_arg(s) {
        Ok(vals) => Ok(vals),
        Err(e) => Err(spec_condition_error(e)),
    }
}

/// What the address `s` reads as.
pub open spec fn spec_parse_addr(s: Seq<char>) -> Result<Address, AddressConditionParseError> {
    match spec_parse_address(s) {
        Some(addr) => Ok(addr),
        None => Err(AddressConditionParseError::InvalidLineNumber),
    }
}

/// Whether the lower closure `closure` takes its bound in.
pub open spec fn spec_is_min_inclusive(closure: char) -> Result<bool, AddressConditionParseError> {
    match spec_lower_closure(closure) {
        Some(kind) => Ok(kind == ClosureType::Inclusive),
        None => Err(AddressConditionParseError::InvalidRangeClosure),
    }
}

/// Whether the upper closure `closure` takes its bound in.
pub open spec fn spec_is_max_inclusive(closure: char) -> Result<bool, AddressConditionParseError> {
    match spec_upper_closure(closure) {
        Some(kind) => Ok(kind == ClosureType::Inclusive),
        None => Err(AddressConditionParseError::InvalidRangeClosure),
    }
}

/// The lower bound that a token such as `[29` denotes, and whether it is
/// inclusive. The closure is read first, then the address behind it.
pub open spec fn spec_min_token(token: Seq<char>) -> Result<
    (Address, bool),
    AddressConditionParseError,
> {
    if token.len() == 0 {
        Err(AddressConditionParseError::InvalidRangeClosure)
    } else {
        match spec_is_min_inclusive(token[0]) {
            Err(e) => Err(e),
            Ok(inclusive) => match spec_parse_addr(token.skip(1)) {
                Err(e) => Err(e),
                Ok(min) => Ok((min, inclusive)),
            },
        }
    }
}

/// The upper bound that a token such as `30)` denotes, and whether it is
/// inclusive. The closure is read first, then the address before it.
pub open spec fn spec_max_token(token: Seq<char>) -> Result<
    (Address, bool),
    AddressConditionParseError,
> {
    if token.len() == 0 {
        Err(AddressConditionParseError::InvalidRangeClosure)
    } else {
        match spec_is_max_inclusive(token.last()) {
            Err(e) => Err(e),
            Ok(inclusive) => match spec_parse_addr(token.drop_last()) {
                Err(e) => Err(e),
                Ok(max) => Ok((max, inclusive)),
            },
        }
    }
}

/// The line number that a token such as `[10]` or `(10)` denotes. Both
/// closures are read first, then the address between them; the closures have
/// to be of one type.
pub open spec fn spec_line_number(token: Seq<char>) -> Result<Values, AddressConditionParseError> {
    if !spec_check_closures(token) {
        Err(AddressConditionParseError::InvalidRangeClosure)
    } else {
        match spec_parse_addr(token.subrange(1, token.len() - 1)) {
            Err(e) => Err(e),
            Ok(n) => if spec_lower_closure(token[0]) == spec_upper_closure(token.last()) {
                Ok(Values::LineNumber(n))
            } else {
                Err(AddressConditionParseError::InvalidRangeClosure)
            },
        }
    }
}

/// The range that a lower and an upper token denote.
pub open spec fn spec_line_range(min_token: Seq<char>, max_token: Seq<char>) -> Result<
    Values,
    AddressConditionParseError,
> {
    match spec_min_token(min_token) {
        Err(e) => Err(e),
        Ok((min, min_inclusive)) => match spec_max_token(max_token) {
            Err(e) => Err(e),
            Ok((max, max_inclusive)) => Ok(
                Values::Range { min, max, min_inclusive, max_inclusive },
            ),
        },
    }
}

/// The stepped range that a lower token, a step and an upper token denote.
/// The bounds are read first, then the step, which must not be zero.
pub open spec fn spec_step_range(
    min_token: Seq<char>,
    step_token: Seq<char>,
    max_token: Seq<char>,
) -> Result<Values, AddressConditionParseError> {
    match spec_min_token(min_token) {
        Err(e) => Err(e),
        Ok((min, min_inclusive)) => match spec_max_token(max_token) {
            Err(e) => Err(e),
            Ok((max, max_inclusive)) => match spec_parse_addr(step_token) {
                Err(e) => Err(e),
                Ok(step) => if step == 0 {
                    Err(AddressConditionParseError::InvalidStep)
                } else {
                    Ok(Values::StepRange { min, max, min_inclusive, max_inclusive, step })
                },
            },
        },
    }
}

/// The condition that the tokens of a text denote: one token is a line
/// number, two are a range, three are a stepped range, and more are too many.
pub open spec fn spec_from_tokens(tokens: Seq<Seq<char>>) -> Result<
    Values,
    AddressConditionParseError,
> {
    if tokens.len() == 1 {
        spec_line_number(tokens[0])
    } else if tokens.len() == 2 {
        spec_line_range(tokens[0], tokens[1])
    } else if tokens.len() == 3 {
        spec_step_range(tokens[0], tokens[1], tokens[2])
    } else {
        Err(AddressConditionParseError::InvalidArgument)
    }
}

/// A text with a closure at each end can be read in two ways that agree. The
/// grammar takes the closures off and splits what is between them; the
/// tokens come from splitting the whole text, so that the first and the last
/// still carry their closure.
pub proof fn lemma_tokens_agree(s: Seq<char>)
    requires
        spec_check_closures(s),
    ensures
        spec_from_str(s) == spec_from_tokens(spec_split(s)),
{
    let first = s[0];
    let last = s.last();
    let body = s.subrange(1, s.len() - 1);
    let segments = spec_split(body);
    let tokens = spec_split(s);
    assert(s =~= (seq![first] + body) + seq![last]);
    lemma_split_prepend(first, body);
    lemma_split_append(seq![first] + body, last);
    lemma_split_nonempty(body);
    assert(tokens == append_to_last(prepend_to_first(seq![first], segments), seq![last]));
    assert(tokens.len() == segments.len());
    if segments.len() == 1 {
        assert(tokens[0] =~= (seq![first] + segments[0]) + seq![last]);
        assert(tokens[0].subrange(1, tokens[0].len() - 1) =~= segments[0]);
        lemma_one_segment(s, tokens[0]);
    } else if segments.len() == 2 {
        assert(tokens[0] =~= seq![first] + segments[0]);
        assert(tokens[1] =~= segments[1] + seq![last]);
        assert(tokens[0].skip(1) =~= segments[0]);
        assert(tokens[1].drop_last() =~= segments[1]);
        lemma_two_segments(s, tokens[0], tokens[1]);
    } else if segments.len() == 3 {
        assert(tokens[0] =~= seq![first] + segments[0]);
        assert(tokens[1] == segments[1]);
        assert(tokens[2] =~= segments[2] + seq![last]);
        assert(tokens[0].skip(1) =~= segments[0]);
        assert(tokens[2].drop_last() =~= segments[2]);
        lemma_three_segments(s, tokens[0], tokens[1], tokens[2]);
    } else {
    }
}

/// The two ways of reading agree on a text of one segment.
proof fn lemma_one_segment(s: Seq<char>, token: Seq<char>)
    requires
        spec_check_closures(s),
        spec_split(s.subrange(1, s.len() - 1)).len() == 1,
        token.len() >= 2,
        token[0] == s[0],
        token.last() == s.last(),
        token.subrange(1, token.len() - 1) == spec_split(s.subrange(1, s.len() - 1))[0],
    ensures
        spec_from_str(s) == spec_line_number(token),
{
    let segments = spec_split(s.subrange(1, s.len() - 1));
    if spec_parse_address(segments[0]) is Some {
        assert(all_addresses(segments));
        assert(addresses_of(segments)[0] == spec_parse_address(segments[0]).unwrap());
    } else {
        assert(!all_addresses(segments));
    }
}

/// The two ways of reading agree on a text of two segments.
proof fn lemma_two_segments(s: Seq<char>, min_token: Seq<char>, max_token: Seq<char>)
    requires
        spec_check_closures(s),
        spec_split(s.subrange(1, s.len() - 1)).len() == 2,
        min_token.len() >= 1,
        max_token.len() >= 1,
        min_token[0] == s[0],
        max_token.last() == s.last(),
        min_token.skip(1) == spec_split(s.subrange(1, s.len() - 1))[0],
        max_token.drop_last() == spec_split(s.subrange(1, s.len() - 1))[1],
    ensures
        spec_from_str(s) == spec_line_range(min_token, max_token),
{
    let segments = spec_split(s.subrange(1, s.len() - 1));
    if spec_parse_address(segments[0]) is Some && spec_parse_address(segments[1]) is Some {
        assert(all_addresses(segments));
        assert(addresses_of(segments)[0] == spec_parse_address(segments[0]).unwrap());
        assert(addresses_of(segments)[1] == spec_parse_address(segments[1]).unwrap());
    } else {
        assert(!all_addresses(segments));
    }
}

/// The two ways of reading agree on a text of three segments.
proof fn lemma_three_segments(
    s: Seq<char>,
    min_token: Seq<char>,
    step_token: Seq<char>,
    max_token: Seq<char>,
)
    requires
        spec_check_closures(s),
        spec_split(s.subrange(1, s.len() - 1)).len() == 3,
        min_token.len() >= 1,
        max_token.len() >= 1,
        min_token[0] == s[0],
        max_token.last() == s.last(),
        min_token.skip(1) == spec_split(s.subrange(1, s.len() - 1))[0],
        step_token == spec_split(s.subrange(1, s.len() - 1))[1],
        max_token.drop_last() == spec_split(s.subrange(1, s.len() - 1))[2],
    ensures
        spec_from_str(s) == spec_step_range(min_token, step_token, max_token),
{
    let segments = spec_split(s.subrange(1, s.len() - 1));
    if spec_parse_address(segments[0]) is Some && spec_parse_address(segments[1]) is Some
        && spec_parse_address(segments[2]) is Some {
        assert(all_addresses(segments));
        assert(addresses_of(segments)[0] == spec_parse_address(segments[0]).unwrap());
        assert(addresses_of(segments)[1] == spec_parse_address(segments[1]).unwrap());
        assert(addresses_of(segments)[2] == spec_parse_address(segments[2]).unwrap());
    } else {
        assert(!all_addresses(segments));
    }
}

impl AddressCondition {
    /// Parses the text of an address condition: `[n]`, `(n)` or a bare `n`
    /// for a line number, `[min..max]` for a range and `[min..step..max]` for
    /// a stepped range, where `(` and `)` in place of `[` and `]` leave the
    /// bound out.
    pub fn from_str(s: &str) -> (r: Result<AddressCondition, AddressConditionParseError>)
        ensures
            match r {
                Ok(cond) => spec_from_str(s@) == Ok::<Values, AddressConditionParseError>(cond@),
                Err(e) => spec_from_str(s@) == Err::<Values, AddressConditionParseError>(e),
            },
    {
        let chars = to_chars(s);
        let n = chars.len();
        if n == 0 {
            return Err(AddressConditionParseError::ArgEmpty);
        }
        let first = chars[0];
        let last = chars[n - 1];
        if !((first == '[' || first == '(') && (last == ']' || last == ')')) {
            return match AddressCondition::parse_addr(chars.as_slice()) {
                Ok(addr) => Ok(AddressCondition::line_number(addr)),
                Err(_) => Err(AddressConditionParseError::InvalidRangeClosure),
            };
        }
        let tokens = split(chars.as_slice());
        proof {
            lemma_tokens_agree(s@);
        }
        if tokens.len() == 1 {
            assert(tokens[0]@ == segment_views(tokens@)[0]);
            AddressCondition::parse_line_number(tokens[0].as_slice())
        } else if tokens.len() == 2 {
            assert(tokens[0]@ == segment_views(tokens@)[0]);
            assert(tokens[1]@ == segment_views(tokens@)[1]);
            AddressCondition::parse_line_range(tokens[0].as_slice(), tokens[1].as_slice())
        } else if tokens.len() == 3 {
            assert(tokens[0]@ == segment_views(tokens@)[0]);
            assert(tokens[1]@ == segment_views(tokens@)[1]);
            assert(tokens[2]@ == segment_views(tokens@)[2]);
            AddressCondition::parse_step_range(
                tokens[0].as_slice(),
                tokens[1].as_slice(),
                tokens[2].as_slice(),
            )
        } else {
            assert(segment_views(tokens@).len() == tokens.len());
            Err(AddressConditionParseError::InvalidArgument)
        }
    }

    /// Reads a token that holds one address between two closures.
    pub fn parse_line_number(arg: &[char]) -> (r: Result<
        AddressCondition,
        AddressConditionParseError,
    >)
        ensures
            match r {
                Ok(cond) => spec_line_number(arg@) == Ok::<Values, AddressConditionParseError>(
                    cond@,
                ),
                Err(e) => spec_line_number(arg@) == Err::<Values, AddressConditionParseError>(e),
            },
    {
        let n = arg.len();
        if n == 0 {
            return Err(AddressConditionParseError::InvalidRangeClosure);
        }
        let min_inclusive = AddressCondition::is_min_inclusive(arg[0])?;
        let max_inclusive = AddressCondition::is_max_inclusive(arg[n - 1])?;
        let addr = AddressCondition::parse_addr(&arg[1..n - 1])?;
        if min_inclusive == max_inclusive {
            Ok(AddressCondition::line_number(addr))
        } else {
            Err(AddressConditionParseError::InvalidRangeClosure)
        }
    }

    /// Reads the two tokens of a range.
    pub fn parse_line_range(min_token: &[char], max_token: &[char]) -> (r: Result<
        AddressCondition,
        AddressConditionParseError,
    >)
        ensures
            match r {
                Ok(cond) => spec_line_range(min_token@, max_token@) == Ok::<
                    Values,
                    AddressConditionParseError,
                >(cond@),
                Err(e) => spec_line_range(min_token@, max_token@) == Err::<
                    Values,
                    AddressConditionParseError,
                >(e),
            },
    {
        let (min, min_inclusive) = AddressCondition::parse_min_token(min_token)?;
        let (max, max_inclusive) = AddressCondition::parse_max_token(max_token)?;
        Ok(AddressCondition::range(min, max, min_inclusive, max_inclusive))
    }

    /// Reads the three tokens of a stepped range.
    pub fn parse_step_range(min_token: &[char], step_token: &[char], max_token: &[char]) -> (r:
        Result<AddressCondition, AddressConditionParseError>)
        ensures
            match r {
                Ok(cond) => spec_step_range(min_token@, step_token@, max_token@) == Ok::<
                    Values,
                    AddressConditionParseError,
                >(cond@),
                Err(e) => spec_step_range(min_token@, step_token@, max_token@) == Err::<
                    Values,
                    AddressConditionParseError,
                >(e),
            },
    {
        let (min, min_inclusive) = AddressCondition::parse_min_token(min_token)?;
        let (max, max_inclusive) = AddressCondition::parse_max_token(max_token)?;
        let step = AddressCondition::parse_addr(step_token)?;
        AddressCondition::step_range(min, max, min_inclusive, max_inclusive, step)
    }

    /// Reads an address.
    pub fn parse_addr(s: &[char]) -> (r: Result<Address, AddressConditionParseError>)
        ensures
            r == spec_parse_addr(s@),
    {
        match parse_address(s) {
            Some(addr) => Ok(addr),
            None => Err(AddressConditionParseError::InvalidLineNumber),
        }
    }

    /// Reads the lower token of a range: a closure, then an address.
    pub fn parse_min_token(min_token: &[char]) -> (r: Result<
        (Address, bool),
        AddressConditionParseError,
    >)
        ensures
            r == spec_min_token(min_token@),
    {
        if min_token.len() == 0 {
            return Err(AddressConditionParseError::InvalidRangeClosure);
        }
        let min_inclusive = AddressCondition::is_min_inclusive(min_token[0])?;
        let min = AddressCondition::parse_addr(&min_token[1..min_token.len()])?;
        Ok((min, min_inclusive))
    }

    /// Reads the upper token of a range: an address, then a closure.
    pub fn parse_max_token(max_token: &[char]) -> (r: Result<
        (Address, bool),
        AddressConditionParseError,
    >)
        ensures
            r == spec_max_token(max_token@),
    {
        let n = max_token.len();
        if n == 0 {
            return Err(AddressConditionParseError::InvalidRangeClosure);
        }
        let max_inclusive = AddressCondition::is_max_inclusive(max_token[n - 1])?;
        let max = AddressCondition::parse_addr(&max_token[0..n - 1])?;
        Ok((max, max_inclusive))
    }

    /// Whether a lower closure is the inclusive one.
    pub fn is_min_inclusive(closure: char) -> (r: Result<bool, AddressConditionParseError>)
        ensures
            r == spec_is_min_inclusive(closure),
    {
        if closure == '[' {
            Ok(true)
        } else if closure == '(' {
            Ok(false)
        } else {
            Err(AddressConditionParseError::InvalidRangeClosure)
        }
    }

    /// Whether an upper closure is the inclusive one.
    pub fn is_max_inclusive(closure: char) -> (r: Result<bool, AddressConditionParseError>)
        ensures
            r == spec_is_max_inclusive(closure),
    {
        if closure == ']' {
            Ok(true)
        } else if closure == ')' {
            Ok(false)
        } else {
            Err(AddressConditionParseError::InvalidRangeClosure)
        }
    }
}

impl core::str::FromStr for AddressCondition {
    type Err = AddressConditionParseError;

    /// Parses the text of an address condition, as the function of the same
    /// name on the type does.
    fn from_str(s: &str) -> (r: Result<Self, Self::Err>)
        ensures
            match r {
                Ok(cond) => spec_from_str(s@) == Ok::<Values, AddressConditionParseError>(cond@),
                Err(e) => spec_from_str(s@) == Err::<Values, AddressConditionParseError>(e),
            },
    {
        AddressCondition::from_str(s)
    }
}

} // verus!
