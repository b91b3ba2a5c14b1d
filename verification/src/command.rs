//! Commands: an action and the condition under which it is taken.

use vstd::prelude::*;
use vstd::std_specs::convert::TryFromSpecImpl;
use vstd::string::StringExecFns;
use crate::address::Address;
use crate::address_condition::{
    spec_applies, spec_from_str, AddressCondition, AddressConditionParseError, Values,
};
use crate::line::{Line, LineView};

verus! {

/// What a command does to a line.
#[derive(Clone, Copy, Debug, PartialEq, Eq, Structural)]
pub enum CommandType {
    /// Empties the line.
    Delete,
    /// Emits the line and leaves it as it is.
    Print,
}

/// What can be wrong with the tokens of a command.
#[derive(Clone, Copy, Debug, PartialEq, Eq, Structural)]
pub enum CommandParseError {
    /// There is no token at all.
    EmptyCommand,
    /// The second token is no address condition; the fault found in it is
    /// carried along.
    InvalidAddressCond(AddressConditionParseError),
    /// The first token names no command.
    InvalidCommandName,
}

/// An action, and the condition on a line's address under which it is taken.
/// Without a condition the action is taken on every line.
#[derive(Clone, Copy, Debug, PartialEq, Eq)]
pub struct Command {
    comm: CommandType,
    cond: Option<AddressCondition>,
}

/// The mathematical content of a [`Command`].
pub struct CommandView {
    pub comm: CommandType,
    pub cond: Option<Values>,
}

impl View for Command {
    type V = CommandView;

    closed spec fn view(&self) -> CommandView {
        CommandView {
            comm: self.comm,
            cond: match self.cond {
                Some(cond) => Some(cond@),
                None => None,
            },
        }
    }
}

/// Whether `command` is to be taken on the line at `addr`.
pub open spec fn spec_should_run(command: CommandView, addr: Address) -> bool {
    match command.cond {
        Some(vals) => spec_applies(vals, addr),
        None => true,
    }
}

/// The line that `command` makes of `line`: a deletion that is to be taken
/// empties the text and keeps the address; everything else keeps the line.
pub open spec fn spec_run(command: CommandView, line: LineView) -> LineView {
    if command.comm == CommandType::Delete && spec_should_run(command, line.addr) {
        LineView { contents: Seq::empty(), addr: line.addr }
    } else {
        line
    }
}

/// The text that `command` emits for `line`: a print that is to be taken
/// emits the line's text; everything else emits nothing.
pub open spec fn spec_emitted(command: CommandView, line: LineView) -> Option<Seq<char>> {
    if command.comm == CommandType::Print && spec_should_run(command, line.addr) {
        Some(line.contents)
    } else {
        None
    }
}

/// The command that the word `name` stands for.
pub open spec fn spec_command_type(name: Seq<char>) -> Option<CommandType> {
    if name == "delete"@ {
        Some(CommandType::Delete)
    } else if name == "print"@ {
        Some(CommandType::Print)
    } else {
        None
    }
}

/// The command that the tokens `args` describe: the first token names the
/// action, the second, if there is one, is the text of its condition. Tokens
/// behind the second are not read.
pub open spec fn spec_try_from(args: Seq<Seq<char>>) -> Result<CommandView, CommandParseError> {
    if args.len() == 0 {
        Err(CommandParseError::EmptyCommand)
    } else {
        match spec_command_type(args[0]) {
            None => Err(CommandParseError::InvalidCommandName),
            Some(comm) => if args.len() == 1 {
                Ok(CommandView { comm, cond: None })
            } else {
                match spec_from_str(args[1]) {
                    Ok(vals) => Ok(CommandView { comm, cond: Some(vals) }),
                    Err(e) => Err(CommandParseError::InvalidAddressCond(e)),
                }
            },
        }
    }
}

/// The texts that the strings of `args` hold.
pub open spec fn token_views(args: Seq<String>) -> Seq<Seq<char>> {
    Seq::new(args.len(), |i: int| args[i]@)
}

impl Command {
    /// The command whose content is `view`.
    pub closed spec fn with_view(view: CommandView) -> Command {
        Command {
            comm: view.comm,
            cond: match view.cond {
                Some(vals) => Some(AddressCondition::with_shape(vals)),
                None => None,
            },
        }
    }

    /// The command that takes the action `comm` where `cond` matches, or
    /// everywhere if there is no condition.
    pub fn new(comm: CommandType, cond: Option<AddressCondition>) -> (command: Command)
        ensures
            command@.comm == comm,
            match cond {
                Some(c) => command@.cond == Some(c@),
                None => command@.cond is None,
            },
    {
        Command { comm, cond }
    }

    /// The action of this command.
    pub fn command_type(&self) -> (comm: CommandType)
        ensures
            comm == self@.comm,
    {
        self.comm
    }

    /// The condition of this command, if it has one.
    pub fn condition(&self) -> (cond: Option<AddressCondition>)
        ensures
            match cond {
                Some(c) => self@.cond == Some(c@),
                None => self@.cond is None,
            },
    {
        self.cond
    }

    /// Whether this command is to be taken on the line at `addr`.
    pub fn should_run(&self, addr: Address) -> (b: bool)
        ensures
            b == spec_should_run(self@, addr),
    {
        match &self.cond {
            Some(cond) => cond.applies(addr),
            None => true,
        }
    }

    /// Runs the command on `line` and gives the line that results. A line
    /// that the command does not change is handed back as it came.
    pub fn run(&self, line: Line) -> (result: Line)
        ensures
            result@ == spec_run(self@, line@),
            !(self@.comm == CommandType::Delete && spec_should_run(self@, line.addr)) ==> result
                == line,
    {
        if !self.should_run(line.addr) {
            return line;
        }
        match self.comm {
            CommandType::Print => line,
            CommandType::Delete => Line { addr: line.addr, contents: String::new() },
        }
    }

    /// The text that running the command on `line` emits, if it emits any.
    pub fn emitted(&self, line: &Line) -> (text: Option<String>)
        ensures
            match text {
                Some(t) => spec_emitted(self@, line@) == Some(t@),
                None => spec_emitted(self@, line@) is None,
            },
    {
        match self.comm {
            CommandType::Print => if self.should_run(line.addr) {
                Some(line.contents.clone())
            } else {
                None
            },
            CommandType::Delete => None,
        }
    }
}

/// The command of a content has that content.
pub proof fn lemma_with_view(view: CommandView)
    ensures
        Command::with_view(view)@ == view,
{
    if let Some(vals) = view.cond {
        AddressCondition::lemma_shape_of(vals);
    }
}

impl TryFromSpecImpl<Vec<String>> for Command {
    open spec fn obeys_try_from_spec() -> bool {
        true
    }

    open spec fn try_from_spec(args: Vec<String>) -> Result<Command, CommandParseError> {
        match spec_try_from(token_views(args@)) {
            Ok(view) => Ok(Command::with_view(view)),
            Err(e) => Err(e),
        }
    }
}

impl TryFrom<Vec<String>> for Command {
    type Error = CommandParseError;

    /// Builds a command from its tokens.
    fn try_from(args: Vec<String>) -> (r: Result<Command, CommandParseError>)
        ensures
            match r {
                Ok(command) => spec_try_from(token_views(args@)) == Ok::<
                    CommandView,
                    CommandParseError,
                >(command@),
                Err(e) => spec_try_from(token_views(args@)) == Err::<
                    CommandView,
                    CommandParseError,
                >(e),
            },
    {
        if args.len() == 0 {
            return Err(CommandParseError::EmptyCommand);
        }
        assert(token_views(args@)[0] == args[0]@);
        let comm = if args[0] == String::from_str("delete") {
            CommandType::Delete
        } else if args[0] == String::from_str("print") {
            CommandType::Print
        } else {
            return Err(CommandParseError::InvalidCommandName);
        };
        if args.len() == 1 {
            return Ok(Command { comm, cond: None });
        }
        assert(token_views(args@)[1] == args[1]@);
        match AddressCondition::from_str(args[1].as_str()) {
            Ok(cond) => {
                proof {
                    cond.lemma_with_shape();
                }
                Ok(Command { comm, cond: Some(cond) })
            },
            Err(e) => Err(CommandParseError::InvalidAddressCond(e)),
        }
    }
}

} // verus!
