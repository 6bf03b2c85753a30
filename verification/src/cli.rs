//! What the commands of the command line report.

use crate::{entity, event, experience, id, name, period};
use vstd::prelude::*;

verus! {

/// The errors of the commands of the command line.
#[derive(Debug)]
pub enum CliError {
    Entity(entity::Error),
    Name(name::Error),
    Id(id::Error),
    Event(event::Error),
    Experience(experience::Error),
    /// Reading or writing failed; holds the reason.
    Io(String),
    /// The bounds do not make a period.
    Period(period::Error),
    /// A number could not be read; holds the reason.
    ParseIntError(String),
    /// A required argument is missing; holds its name.
    MissingArgument(&'static str),
}

pub type CliResult = core::result::Result<(), CliError>;

impl From<CliError> for CliResult {
    fn from(value: CliError) -> (result: Self) {
        Err(value)
    }
}

impl vstd::std_specs::convert::FromSpecImpl<CliError> for CliResult {
    open spec fn obeys_from_spec() -> bool {
        true
    }

    open spec fn from_spec(value: CliError) -> CliResult {
        Err(value)
    }
}

impl CliError {
    /// The text of the message describing the error: that of the error it
    /// wraps, or the reason it holds. It is left unstated where the wrapped
    /// error leaves it so (a stack of constraint errors).
    pub open spec fn message_text(self) -> Option<Seq<char>> {
        match self {
            CliError::Entity(e) => Some(e.message_text()),
            CliError::Name(e) => Some(e.message_text()),
            CliError::Id(e) => Some(e.message_text()),
            CliError::Event(e) => Some(e.message_text()),
            CliError::Experience(e) => e.message_text(),
            CliError::Io(reason) => Some(reason@),
            CliError::Period(period::Error::NotANumber(reason)) => Some(reason@),
            CliError::Period(period::Error::WrongCount) => Some(
                "an interval takes one bound or two"@,
            ),
            CliError::ParseIntError(reason) => Some(reason@),
            CliError::MissingArgument(argument) => Some("missing argument: "@ + argument@),
        }
    }

    /// The message describing the error.
    pub fn message(&self) -> (text: String)
        ensures
            self.message_text() matches Some(t) ==> text@ == t,
            self matches CliError::Entity(e) ==> text@ == e.message_text(),
            self matches CliError::Name(_) ==> text@ == "invalid name"@,
            self matches CliError::Id(id::Error::Uuid(r)) ==> text@ == "uuid: "@ + r@,
            self matches CliError::Event(e) ==> text@ == e.message_text(),
            self matches CliError::Period(period::Error::NotANumber(r)) ==> text@ == r@,
            self matches CliError::Period(period::Error::WrongCount) ==> text@
                == "an interval takes one bound or two"@,
            self matches CliError::MissingArgument(a) ==> text@ == "missing argument: "@ + a@,
            self matches CliError::Io(reason) ==> text@ == reason@,
            self matches CliError::ParseIntError(reason) ==> text@ == reason@,
    {
        match self {
            CliError::Entity(error) => error.message(),
            CliError::Name(error) => error.message(),
            CliError::Id(error) => error.message(),
            CliError::Event(error) => error.message(),
            CliError::Experience(error) => error.message(),
            CliError::Period(period::Error::NotANumber(reason)) => reason.clone(),
            CliError::Period(period::Error::WrongCount) => String::from_str(
                "an interval takes one bound or two",
            ),
            CliError::Io(reason) => reason.clone(),
            CliError::ParseIntError(reason) => reason.clone(),
            CliError::MissingArgument(argument) => {
                let mut text = String::from_str("missing argument: ");
                text.append(argument);
                text
            },
        }
    }
}

/// What a command writes: the text for the standard output and that for the
/// standard error.
pub struct Output {
    pub out: String,
    pub err: String,
}

impl Output {
    /// Nothing written.
    pub fn new() -> (output: Self)
        ensures
            output.out@ == Seq::<char>::empty(),
            output.err@ == Seq::<char>::empty(),
    {
        Output { out: String::new(), err: String::new() }
    }
}

} // verus!
