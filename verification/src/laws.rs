//! What holds of the grammar, of conditions and of commands, for every text,
//! address and line.

use vstd::prelude::*;
use crate::address::Address;
use crate::address_condition::{spec_applies, spec_from_str, AddressCondition, Values};
use crate::command::{spec_run, spec_should_run, Command, CommandType, CommandView};
use crate::line::LineView;
use crate::parse::{
    addresses_of, all_addresses, spec_check_closures, spec_lower_closure, spec_parse_arg,
    spec_upper_closure, ArgParseError,
};
use crate::segments::{
    delimiter, lemma_split_at_delimiter, lemma_split_without_stop, spec_split,
};
use crate::text::{lemma_address_text, spec_parse_address};

verus! {

/// The text of a condition with the body `body` between the closures `lower`
/// and `upper`.
pub open spec fn enclosed(lower: char, body: Seq<char>, upper: char) -> Seq<char> {
    seq![lower] + body + seq![upper]
}

/// A line number, written as `[n]`, as `(n)` or as a bare `n`, denotes the
/// condition that matches the address `n` and no other.
pub proof fn law_line_number(text: Seq<char>, n: Address, addr: Address)
    requires
        spec_parse_address(text) == Some(n),
    ensures
        spec_parse_arg(enclosed('[', text, ']')) == Ok::<Values, ArgParseError>(
            Values::LineNumber(n),
        ),
        spec_parse_arg(enclosed('(', text, ')')) == Ok::<Values, ArgParseError>(
            Values::LineNumber(n),
        ),
        spec_parse_arg(text) == Ok::<Values, ArgParseError>(Values::LineNumber(n)),
        spec_applies(Values::LineNumber(n), n),
        addr != n ==> !spec_applies(Values::LineNumber(n), addr),
{
    lemma_address_text(text);
    lemma_split_without_stop(text);
    assert(!spec_check_closures(text));
    lemma_one_address('[', text, ']', n);
    lemma_one_address('(', text, ')', n);
}

/// A range `min..max` between any two closures denotes the condition that
/// matches the addresses from `min` to `max`, where a square bracket takes
/// its bound in and a round one leaves it out. In particular, of a range
/// with `min` below `max`, the lower bound matches exactly if the text opens
/// with `[`, and the upper bound exactly if it closes with `]`.
pub proof fn law_range(
    lower: char,
    min_text: Seq<char>,
    max_text: Seq<char>,
    upper: char,
    min: Address,
    max: Address,
    addr: Address,
)
    requires
        spec_lower_closure(lower) is Some,
        spec_upper_closure(upper) is Some,
        spec_parse_address(min_text) == Some(min),
        spec_parse_address(max_text) == Some(max),
    ensures
        ({
            let vals = Values::Range {
                min,
                max,
                min_inclusive: lower == '[',
                max_inclusive: upper == ']',
            };
            &&& spec_parse_arg(enclosed(lower, min_text + delimiter() + max_text, upper)) == Ok::<
                Values,
                ArgParseError,
            >(vals)
            &&& spec_applies(vals, addr) <==> (if lower == '[' {
                min <= addr
            } else {
                min < addr
            }) && (if upper == ']' {
                addr <= max
            } else {
                addr < max
            })
            &&& min < max ==> (spec_applies(vals, min) <==> lower == '[')
            &&& min < max ==> (spec_applies(vals, max) <==> upper == ']')
        }),
{
    let body = min_text + delimiter() + max_text;
    let text = enclosed(lower, body, upper);
    lemma_address_text(min_text);
    lemma_address_text(max_text);
    lemma_split_without_stop(max_text);
    lemma_split_at_delimiter(min_text, max_text);
    let segments = spec_split(body);
    assert(segments =~= seq![min_text, max_text]);
    assert(all_addresses(segments));
    assert(addresses_of(segments) =~= seq![min, max]);
    assert(text.subrange(1, text.len() - 1) =~= body);
    assert(text[0] == lower);
    assert(text.last() == upper);
}

/// A stepped range `min..step..max` with a step above zero, between any two
/// closures, denotes the condition that matches the addresses of the range
/// `min..max` between the same closures that lie a whole number of steps
/// above `min`.
pub proof fn law_step_range(
    lower: char,
    min_text: Seq<char>,
    step_text: Seq<char>,
    max_text: Seq<char>,
    upper: char,
    min: Address,
    step: Address,
    max: Address,
    addr: Address,
)
    requires
        spec_lower_closure(lower) is Some,
        spec_upper_closure(upper) is Some,
        spec_parse_address(min_text) == Some(min),
        spec_parse_address(step_text) == Some(step),
        spec_parse_address(max_text) == Some(max),
        step > 0,
    ensures
        ({
            let min_inclusive = lower == '[';
            let max_inclusive = upper == ']';
            let vals = Values::StepRange { min, max, min_inclusive, max_inclusive, step };
            let range = Values::Range { min, max, min_inclusive, max_inclusive };
            &&& spec_parse_arg(
                enclosed(
                    lower,
                    min_text + delimiter() + step_text + delimiter() + max_text,
                    upper,
                ),
            ) == Ok::<Values, ArgParseError>(vals)
            &&& spec_applies(vals, addr) <==> spec_applies(range, addr) && (addr - min) % (
            step as int) == 0
        }),
{
    let tail = step_text + delimiter() + max_text;
    let body = min_text + delimiter() + step_text + delimiter() + max_text;
    let text = enclosed(lower, body, upper);
    lemma_address_text(min_text);
    lemma_address_text(step_text);
    lemma_address_text(max_text);
    lemma_split_without_stop(max_text);
    lemma_split_at_delimiter(step_text, max_text);
    lemma_split_at_delimiter(min_text, tail);
    assert(body =~= min_text + delimiter() + tail);
    let segments = spec_split(body);
    assert(segments =~= seq![min_text, step_text, max_text]);
    assert(all_addresses(segments));
    assert(addresses_of(segments) =~= seq![min, step, max]);
    assert(text.subrange(1, text.len() - 1) =~= body);
    assert(text[0] == lower);
    assert(text.last() == upper);
}

/// A stepped range whose step is zero denotes no condition.
pub proof fn law_zero_step(
    lower: char,
    min_text: Seq<char>,
    step_text: Seq<char>,
    max_text: Seq<char>,
    upper: char,
)
    requires
        spec_lower_closure(lower) is Some,
        spec_upper_closure(upper) is Some,
        spec_parse_address(min_text) is Some,
        spec_parse_address(step_text) == Some(0u32),
        spec_parse_address(max_text) is Some,
    ensures
        spec_parse_arg(
            enclosed(lower, min_text + delimiter() + step_text + delimiter() + max_text, upper),
        ) == Err::<Values, ArgParseError>(ArgParseError::InvalidStep),
{
    let tail = step_text + delimiter() + max_text;
    let body = min_text + delimiter() + step_text + delimiter() + max_text;
    let text = enclosed(lower, body, upper);
    lemma_address_text(min_text);
    lemma_address_text(step_text);
    lemma_address_text(max_text);
    lemma_split_without_stop(max_text);
    lemma_split_at_delimiter(step_text, max_text);
    lemma_split_at_delimiter(min_text, tail);
    assert(body =~= min_text + delimiter() + tail);
    let segments = spec_split(body);
    assert(segments =~= seq![min_text, step_text, max_text]);
    assert(all_addresses(segments));
    assert(addresses_of(segments)[1] == 0);
    assert(text.subrange(1, text.len() - 1) =~= body);
    assert(text[0] == lower);
    assert(text.last() == upper);
}

/// A range whose lower bound lies above its upper bound matches no address,
/// with or without a step.
pub proof fn law_empty_range(vals: Values, addr: Address)
    requires
        match vals {
            Values::LineNumber(_) => false,
            Values::Range { min, max, .. } => min > max,
            Values::StepRange { min, max, .. } => min > max,
        },
    ensures
        !spec_applies(vals, addr),
{
}

/// Every text is either a condition to both parsers, and then the same one,
/// or a fault to both.
pub proof fn law_parsers_agree(text: Seq<char>)
    ensures
        spec_from_str(text) is Ok <==> spec_parse_arg(text) is Ok,
        spec_from_str(text) is Ok ==> spec_from_str(text)->Ok_0 == spec_parse_arg(text)->Ok_0,
{
}

/// Whether a condition matches an address depends on the two alone: any two
/// answers of `applies` to one question are the same.
pub proof fn law_applies_is_a_function(
    cond: AddressCondition,
    addr: Address,
    once: bool,
    again: bool,
)
    requires
        call_ensures(AddressCondition::applies, (&cond, addr), once),
        call_ensures(AddressCondition::applies, (&cond, addr), again),
    ensures
        once == again,
{
}

/// Whether a command is to be taken at an address depends on the two alone:
/// any two answers of `should_run` to one question are the same.
pub proof fn law_should_run_is_a_function(
    command: Command,
    addr: Address,
    once: bool,
    again: bool,
)
    requires
        call_ensures(Command::should_run, (&command, addr), once),
        call_ensures(Command::should_run, (&command, addr), again),
    ensures
        once == again,
{
}

/// A command leaves a line as it is where its condition does not match the
/// line's address.
pub proof fn law_run_identity(command: CommandView, line: LineView)
    requires
        !spec_should_run(command, line.addr),
    ensures
        spec_run(command, line) == line,
{
}

/// A deletion, where it is to be taken, leaves the empty text at the same
/// address.
pub proof fn law_delete(command: CommandView, line: LineView)
    requires
        command.comm == CommandType::Delete,
        spec_should_run(command, line.addr),
    ensures
        spec_run(command, line).contents == ""@,
        spec_run(command, line).addr == line.addr,
{
    reveal_strlit("");
    assert(""@ =~= Seq::<char>::empty());
}

/// A print changes no line.
pub proof fn law_print_keeps_line(command: CommandView, line: LineView)
    requires
        command.comm == CommandType::Print,
    ensures
        spec_run(command, line) == line,
{
}

/// One address between two closures of one type is a line number.
proof fn lemma_one_address(lower: char, text: Seq<char>, upper: char, n: Address)
    requires
        spec_parse_address(text) == Some(n),
        spec_split(text) == seq![text],
        spec_lower_closure(lower) is Some,
        spec_upper_closure(upper) is Some,
        spec_lower_closure(lower) == spec_upper_closure(upper),
    ensures
        spec_parse_arg(enclosed(lower, text, upper)) == Ok::<Values, ArgParseError>(
            Values::LineNumber(n),
        ),
{
    let whole = enclosed(lower, text, upper);
    assert(whole.subrange(1, whole.len() - 1) =~= text);
    assert(whole[0] == lower);
    assert(whole.last() == upper);
    let segments = spec_split(text);
    assert(all_addresses(segments));
    assert(addresses_of(segments) =~= seq![n]);
}

} // verus!
