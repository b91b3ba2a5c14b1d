//! The per-line driver: it numbers the records of the stream and folds each
//! through the commands.

use vstd::prelude::*;
use crate::address::Address;
use crate::command::{spec_emitted, spec_run, Command, CommandView};
use crate::line::{Line, LineView};

verus! {

/// The mathematical content of the commands of `commands`.
pub open spec fn command_views(commands: Seq<Command>) -> Seq<CommandView> {
    Seq::new(commands.len(), |i: int| commands[i]@)
}

/// The texts that the strings of `texts` hold.
pub open spec fn text_views(texts: Seq<String>) -> Seq<Seq<char>> {
    Seq::new(texts.len(), |i: int| texts[i]@)
}

/// The line that results when `commands` are run on `line` one after the
/// other, each on what the one before it made of the line.
pub open spec fn spec_run_all(commands: Seq<CommandView>, line: LineView) -> LineView
    decreases commands.len(),
{
    if commands.len() == 0 {
        line
    } else {
        spec_run(commands.last(), spec_run_all(commands.drop_last(), line))
    }
}

/// The texts that `commands` emit when they are run on `line` one after the
/// other, in the order in which they are emitted. A command emits what the
/// commands before it have made of the line.
pub open spec fn spec_emitted_all(commands: Seq<CommandView>, line: LineView) -> Seq<Seq<char>>
    decreases commands.len(),
{
    if commands.len() == 0 {
        Seq::empty()
    } else {
        let before = spec_emitted_all(commands.drop_last(), line);
        match spec_emitted(commands.last(), spec_run_all(commands.drop_last(), line)) {
            Some(text) => before.push(text),
            None => before,
        }
    }
}

/// What the pipeline makes of one record.
#[derive(Debug, PartialEq)]
pub struct Output {
    /// The record that goes on downstream.
    pub forwarded: String,
    /// The texts that print commands emitted on the way, in order.
    pub printed: Vec<String>,
}

/// Runs `commands` on `line` in order, and gives the line that results and
/// the texts that were emitted on the way.
pub fn run_commands(commands: &Vec<Command>, line: Line) -> (r: (Line, Vec<String>))
    ensures
        r.0@ == spec_run_all(command_views(commands@), line@),
        text_views(r.1@) == spec_emitted_all(command_views(commands@), line@),
{
    let ghost start = line@;
    let ghost all = command_views(commands@);
    let mut current = line;
    let mut printed: Vec<String> = Vec::new();
    let mut i: usize = 0;
    assert(text_views(printed@) =~= spec_emitted_all(all.take(0), start));
    while i < commands.len()
        invariant
            i <= commands.len(),
            all == command_views(commands@),
            current@ == spec_run_all(all.take(i as int), start),
            text_views(printed@) == spec_emitted_all(all.take(i as int), start),
        decreases commands.len() - i,
    {
        let ghost before = printed@;
        assert(all.take(i + 1).drop_last() =~= all.take(i as int));
        assert(all.take(i + 1).last() == commands[i as int]@);
        match commands[i].emitted(&current) {
            Some(text) => {
                printed.push(text);
                assert(text_views(printed@) =~= text_views(before).push(text@));
            },
            None => {},
        }
        current = commands[i].run(current);
        i += 1;
    }
    assert(all.take(i as int) =~= all);
    (current, printed)
}

/// The state of a run: the commands, and the address of the next record.
pub struct Pipeline {
    commands: Vec<Command>,
    next: u64,
}

/// The mathematical content of a [`Pipeline`].
pub struct PipelineView {
    /// The commands, in the order in which they are run.
    pub commands: Seq<CommandView>,
    /// How many records have been consumed, which is also the address that
    /// the next one gets.
    pub consumed: nat,
}

impl View for Pipeline {
    type V = PipelineView;

    closed spec fn view(&self) -> PipelineView {
        PipelineView { commands: command_views(self.commands@), consumed: self.next as nat }
    }
}

impl Pipeline {
    /// The count of consumed records never passes the number of addresses.
    #[verifier::type_invariant]
    spec fn inv(self) -> bool {
        self.next <= Address::MAX + 1
    }

    /// A pipeline that runs `commands` and has consumed nothing yet.
    pub fn new(commands: Vec<Command>) -> (pipeline: Pipeline)
        ensures
            pipeline@.commands == command_views(commands@),
            pipeline@.consumed == 0,
    {
        Pipeline { commands, next: 0 }
    }

    /// The address that the next record gets, or nothing once every address
    /// has been given out.
    pub fn next_address(&self) -> (addr: Option<Address>)
        ensures
            self@.consumed <= Address::MAX + 1,
            match addr {
                Some(a) => a == self@.consumed,
                None => self@.consumed == Address::MAX + 1,
            },
    {
        proof {
            use_type_invariant(self);
        }
        if self.next <= Address::MAX as u64 {
            Some(self.next as Address)
        } else {
            None
        }
    }

    /// Consumes one record: gives it the next address, runs the commands on
    /// it, and hands out what goes downstream and what was printed. Once
    /// every address has been given out, no record is consumed any more.
    pub fn feed(&mut self, record: String) -> (r: Option<Output>)
        ensures
            final(self)@.commands == old(self)@.commands,
            match r {
                Some(output) => {
                    let line = (LineView {
                        contents: record@,
                        addr: old(self)@.consumed as Address,
                    });
                    &&& old(self)@.consumed <= Address::MAX
                    &&& final(self)@.consumed == old(self)@.consumed + 1
                    &&& output.forwarded@ == spec_run_all(old(self)@.commands, line).contents
                    &&& text_views(output.printed@) == spec_emitted_all(old(self)@.commands, line)
                },
                None => old(self)@.consumed > Address::MAX && final(self)@.consumed == old(
                    self,
                )@.consumed,
            },
    {
        proof {
            use_type_invariant(&*self);
        }
        if self.next > Address::MAX as u64 {
            return None;
        }
        let line = Line { contents: record, addr: self.next as Address };
        let (result, printed) = run_commands(&self.commands, line);
        self.next = self.next + 1;
        Some(Output { forwarded: result.contents, printed })
    }
}

} // verus!
