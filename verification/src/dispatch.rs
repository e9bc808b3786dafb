//! The command line of the text transforms: which transform a name
//! selects, what an argument list asks for, and what the program owes
//! its caller for it.

use vstd::prelude::*;
use crate::transform::{
    acronym, initials, invert, inverted, leet, leeted, no_spaces, reverse, uppercase, uppercased,
    without_spaces,
};

verus! {

/// One of the text transforms.
#[derive(Clone, Copy, Debug, PartialEq, Eq, Structural)]
pub enum Operation {
    Reverse,
    Invert,
    Uppercase,
    NoSpaces,
    Leet,
    Acronym,
}

impl Operation {
    /// The transform that a name selects. Names are matched exactly, case
    /// included.
    pub open spec fn named(name: Seq<char>) -> Option<Operation> {
        if name == "reverse"@ {
            Some(Operation::Reverse)
        } else if name == "invert"@ {
            Some(Operation::Invert)
        } else if name == "uppercase"@ {
            Some(Operation::Uppercase)
        } else if name == "no-spaces"@ {
            Some(Operation::NoSpaces)
        } else if name == "leet"@ {
            Some(Operation::Leet)
        } else if name == "acronym"@ {
            Some(Operation::Acronym)
        } else {
            None
        }
    }

    /// What the transform makes of a text.
    pub open spec fn applied(self, text: Seq<char>) -> Seq<char> {
        match self {
            Operation::Reverse => text.reverse(),
            Operation::Invert => inverted(text),
            Operation::Uppercase => uppercased(text),
            Operation::NoSpaces => without_spaces(text),
            Operation::Leet => leeted(text),
            Operation::Acronym => uppercased(initials(text)),
        }
    }

    /// Looks a transform up by its name.
    pub fn from_name(name: &str) -> (op: Option<Operation>)
        ensures
            op == Operation::named(name@),
    {
        if *name == *"reverse" {
            Some(Operation::Reverse)
        } else if *name == *"invert" {
            Some(Operation::Invert)
        } else if *name == *"uppercase" {
            Some(Operation::Uppercase)
        } else if *name == *"no-spaces" {
            Some(Operation::NoSpaces)
        } else if *name == *"leet" {
            Some(Operation::Leet)
        } else if *name == *"acronym" {
            Some(Operation::Acronym)
        } else {
            None
        }
    }

    /// Runs the transform on a text.
    pub fn apply(self, text: &str) -> (out: String)
        ensures
            out@ == self.applied(text@),
    {
        match self {
            Operation::Reverse => reverse(text),
            Operation::Invert => invert(text),
            Operation::Uppercase => uppercase(text),
            Operation::NoSpaces => no_spaces(text),
            Operation::Leet => leet(text),
            Operation::Acronym => acronym(text),
        }
    }
}

/// Why an invocation produced no output.
#[derive(Clone, Debug, PartialEq, Eq)]
pub enum CliError {
    /// The argument list did not hold exactly an operation and a text
    /// after the program's name.
    Usage { program: String },
    /// The operation's name selects no transform.
    UnknownOperation { name: String },
}

/// A `CliError` with its strings as sequences of characters.
pub enum CliErrorView {
    Usage { program: Seq<char> },
    UnknownOperation { name: Seq<char> },
}

impl View for CliError {
    type V = CliErrorView;

    open spec fn view(&self) -> CliErrorView {
        match self {
            CliError::Usage { program } => CliErrorView::Usage { program: program@ },
            CliError::UnknownOperation { name } => CliErrorView::UnknownOperation { name: name@ },
        }
    }
}

impl CliErrorView {
    /// The line that tells the user of the error.
    pub open spec fn message(self) -> Seq<char> {
        match self {
            CliErrorView::Usage { program } => "Usage: "@ + program + " <op> <text>"@,
            CliErrorView::UnknownOperation { name } => "Invalid operation: "@ + name,
        }
    }
}

impl CliError {
    /// The line for the error stream.
    pub fn message(&self) -> (line: String)
        ensures
            line@ == self@.message(),
    {
        match self {
            CliError::Usage { program } => {
                let mut line = String::from_str("Usage: ");
                line.append(program.as_str());
                line.append(" <op> <text>");
                line
            },
            CliError::UnknownOperation { name } => {
                let mut line = String::from_str("Invalid operation: ");
                line.append(name.as_str());
                line
            },
        }
    }
}

/// One request read off the command line: the name of an operation and
/// the text to run it on.
#[derive(Clone, Debug, PartialEq, Eq)]
pub struct Invocation {
    pub operation: String,
    pub input: String,
}

/// An `Invocation` with its strings as sequences of characters.
pub struct InvocationView {
    pub operation: Seq<char>,
    pub input: Seq<char>,
}

impl View for Invocation {
    type V = InvocationView;

    open spec fn view(&self) -> InvocationView {
        InvocationView { operation: self.operation@, input: self.input@ }
    }
}

/// The name under which the program was called: the first argument, or
/// nothing where the list is empty.
pub open spec fn program_name(args: Seq<Seq<char>>) -> Seq<char> {
    if args.len() > 0 {
        args[0]
    } else {
        Seq::empty()
    }
}

/// What an argument list asks for. The list starts with the program's
/// name; exactly two arguments must follow it.
pub open spec fn parsed(args: Seq<Seq<char>>) -> Result<InvocationView, CliErrorView> {
    if args.len() == 3 {
        Ok(InvocationView { operation: args[1], input: args[2] })
    } else {
        Err(CliErrorView::Usage { program: program_name(args) })
    }
}

impl InvocationView {
    /// The text that the invocation yields, or the error where its
    /// operation is not known.
    pub open spec fn outcome(self) -> Result<Seq<char>, CliErrorView> {
        match Operation::named(self.operation) {
            Some(op) => Ok(op.applied(self.input)),
            None => Err(CliErrorView::UnknownOperation { name: self.operation }),
        }
    }
}

/// What a run of the program on an argument list yields.
pub open spec fn outcome(args: Seq<Seq<char>>) -> Result<Seq<char>, CliErrorView> {
    match parsed(args) {
        Ok(invocation) => invocation.outcome(),
        Err(error) => Err(error),
    }
}

/// The exit status that goes with an outcome: 0 for a text, 1 for an error.
pub open spec fn status_of(outcome: Result<Seq<char>, CliErrorView>) -> int {
    match outcome {
        Ok(_) => 0,
        Err(_) => 1,
    }
}

/// The result of a run with its strings as sequences of characters.
pub open spec fn viewed(result: Result<String, CliError>) -> Result<Seq<char>, CliErrorView> {
    match result {
        Ok(text) => Ok(text@),
        Err(error) => Err(error@),
    }
}

impl Invocation {
    /// Reads the request off an argument list that starts with the
    /// program's name.
    pub fn from_args(args: &Vec<String>) -> (result: Result<Invocation, CliError>)
        ensures
            parsed(args.deep_view()) == (match result {
                Ok(invocation) => Ok::<InvocationView, CliErrorView>(invocation@),
                Err(error) => Err(error@),
            }),
    {
        if args.len() == 3 {
            Ok(Invocation { operation: args[1].clone(), input: args[2].clone() })
        } else if args.len() > 0 {
            Err(CliError::Usage { program: args[0].clone() })
        } else {
            Err(CliError::Usage { program: String::new() })
        }
    }

    /// Looks the operation up and runs it on the input.
    pub fn run(&self) -> (result: Result<String, CliError>)
        ensures
            viewed(result) == self@.outcome(),
    {
        match Operation::from_name(self.operation.as_str()) {
            Some(op) => Ok(op.apply(self.input.as_str())),
            None => Err(CliError::UnknownOperation { name: self.operation.clone() }),
        }
    }
}

/// Runs the program on an argument list that starts with the program's
/// name: checks the number of arguments, looks the operation up, and
/// transforms the text.
pub fn run(args: &Vec<String>) -> (result: Result<String, CliError>)
    ensures
        viewed(result) == outcome(args.deep_view()),
{
    match Invocation::from_args(args) {
        Ok(invocation) => invocation.run(),
        Err(error) => Err(error),
    }
}

/// The status with which the program exits after a run.
pub fn exit_status(result: &Result<String, CliError>) -> (status: i32)
    ensures
        status == status_of(viewed(*result)),
{
    match result {
        Ok(_) => 0,
        Err(_) => 1,
    }
}

/// An argument list that does not hold exactly an operation and a text
/// after the program's name yields the usage error, with status 1 and
/// no text.
pub proof fn lemma_wrong_count_is_usage_error(args: Seq<Seq<char>>)
    requires
        args.len() != 3,
    ensures
        outcome(args) == Err::<Seq<char>, CliErrorView>(
            CliErrorView::Usage { program: program_name(args) },
        ),
        status_of(outcome(args)) == 1,
{
}

/// An operation name that selects no transform yields the error that
/// names it, with status 1 and no text.
pub proof fn lemma_unknown_operation_is_error(args: Seq<Seq<char>>)
    requires
        args.len() == 3,
        Operation::named(args[1]) is None,
    ensures
        outcome(args) == Err::<Seq<char>, CliErrorView>(
            CliErrorView::UnknownOperation { name: args[1] },
        ),
        status_of(outcome(args)) == 1,
{
}

} // verus!
