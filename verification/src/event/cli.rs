//! The event commands of the command line: what they do on the events kept
//! and what they write.

use super::application::{saved_event, EventApplication, SaveEvent};
use super::{Event, EventRepository};
use crate::cli::{CliError, Output};
use crate::entity::cli::parse_id;
use crate::id::{uuid_parse, uuid_text, Id};
use crate::name::{valid_name, Name};
use crate::period::{period_of, Period};
use vstd::prelude::*;

verus! {

broadcast use vstd::string::group_string_axioms;

/// The arguments of the save command.
pub struct EventSaveArgs {
    /// The name of the event.
    pub name: Option<String>,
    /// The period during which the event takes place.
    pub interval: Option<Vec<String>>,
    /// The ids of all the entities implicated in the event.
    pub entities: Option<Vec<String>>,
}

/// The event commands.
pub enum EventSubCommand {
    /// Save an event.
    Save(EventSaveArgs),
}

/// An event command, on the event with the given id, if any.
pub struct EventCommand {
    /// The id of the event.
    pub event: Option<String>,
    /// The action to perform.
    pub command: Option<EventSubCommand>,
}

/// Reads the name in the given text, if any.
fn parse_name(text: Option<String>) -> (name: core::result::Result<Option<Name>, CliError>)
    ensures
        text is None ==> name matches Ok(None),
        text matches Some(t) ==> (name is Ok <==> valid_name(t@)),
        text matches Some(t) ==> (name matches Ok(Some(n)) ==> n@ == t@),
        text is Some ==> (name matches Ok(found) ==> found is Some),
        name matches Err(e) ==> e is Name,
{
    match text {
        None => Ok(None),
        Some(text) => match Name::try_from(text) {
            Ok(name) => Ok(Some(name)),
            Err(error) => Err(CliError::Name(error)),
        },
    }
}

/// Reads the period in the given texts of its bounds, if any.
fn parse_period(bounds: Option<Vec<String>>) -> (period: core::result::Result<Option<Period>, CliError>)
    ensures
        bounds is None ==> period matches Ok(None),
        bounds matches Some(b) ==> (period is Ok <==> period_of(b@) is Some),
        bounds matches Some(b) ==> (period matches Ok(Some(p)) ==> period_of(b@) == Some(p)),
        bounds is Some ==> (period matches Ok(found) ==> found is Some),
        period matches Err(e) ==> e is Period,
{
    match bounds {
        None => Ok(None),
        Some(bounds) => match Period::try_from(bounds) {
            Ok(period) => Ok(Some(period)),
            Err(error) => Err(CliError::Period(error)),
        },
    }
}

/// What running an event command gives, when the repository answers: an id
/// that is not valid is refused; with no subcommand nothing happens; saving
/// refuses a name or an interval that is not valid, and then saves the event
/// under the given id, or a new one, as [SaveEvent] does, and writes that id.
pub open spec fn event_execution(
    cmd: EventCommand,
    stored: Map<u128, Event<Period>>,
    available: bool,
    output: core::result::Result<Output, CliError>,
    kept: Map<u128, Event<Period>>,
) -> bool {
    let parsed = match cmd.event {
        Some(t) => uuid_parse(t@),
        None => None,
    };
    if cmd.event is Some && parsed is None {
        output matches Err(CliError::Id(_)) && kept == stored
    } else {
        match cmd.command {
            None => output matches Ok(o) && o.out@ == Seq::<char>::empty() && o.err@ == Seq::<
                char,
            >::empty() && kept == stored,
            Some(EventSubCommand::Save(args)) => save_execution(
                args,
                parsed,
                stored,
                available,
                output,
                kept,
            ),
        }
    }
}

/// The save transaction `cmd` is the one that the arguments give, on the
/// given id value, if any; when the repository answers, what it gives is
/// [saving_event]; when it fails, nothing changes.
pub open spec fn saved_by(
    args: EventSaveArgs,
    id: Option<u128>,
    stored: Map<u128, Event<Period>>,
    available: bool,
    cmd: SaveEvent<Period>,
    output: core::result::Result<Output, CliError>,
    kept: Map<u128, Event<Period>>,
) -> bool {
    &&& id matches Some(v) ==> cmd.id@ == v
    &&& (match args.name {
        Some(t) => cmd.name matches Some(n) && n@ == t@,
        None => cmd.name is None,
    })
    &&& (match args.interval {
        Some(b) => cmd.interval == period_of(b@),
        None => cmd.interval is None,
    })
    &&& available ==> saving_event(cmd, stored, output, kept)
    &&& output is Err ==> kept == stored
}

/// What the save subcommand gives, on the event with the given id value, if
/// any: a name or an interval that is not valid is refused and nothing
/// changes; then the event is saved under that id, or a new one, as
/// [SaveEvent] does.
pub open spec fn save_execution(
    args: EventSaveArgs,
    id: Option<u128>,
    stored: Map<u128, Event<Period>>,
    available: bool,
    output: core::result::Result<Output, CliError>,
    kept: Map<u128, Event<Period>>,
) -> bool {
    let name_ok = args.name matches Some(t) ==> valid_name(t@);
    let interval_ok = args.interval matches Some(b) ==> period_of(b@) is Some;
    if !name_ok {
        output matches Err(CliError::Name(_)) && kept == stored
    } else if !interval_ok {
        output matches Err(CliError::Period(_)) && kept == stored
    } else {
        exists|cmd: SaveEvent<Period>|
            #[trigger] saved_by(args, id, stored, available, cmd, output, kept)
    }
}

/// What saving with the given command gives: as [SaveEvent] does, with the id
/// written when it succeeds.
pub open spec fn saving_event(
    cmd: SaveEvent<Period>,
    stored: Map<u128, Event<Period>>,
    output: core::result::Result<Output, CliError>,
    kept: Map<u128, Event<Period>>,
) -> bool {
    if stored.contains_key(cmd.id@) || (cmd.name is Some && cmd.interval is Some) {
        &&& output matches Ok(o) && o.out@ == uuid_text(cmd.id@) + "\n"@ && o.err@ == Seq::<
            char,
        >::empty()
        &&& kept == stored.insert(
            cmd.id@,
            saved_event(
                if stored.contains_key(cmd.id@) {
                    Some(stored[cmd.id@])
                } else {
                    None
                },
                cmd,
            ),
        )
    } else {
        output matches Err(CliError::Event(_)) && kept == stored
    }
}

impl<R: EventRepository<Interval = Period>> EventApplication<R> {
    /// Given an [EventCommand], executes the corresponding logic and returns
    /// what it writes.
    pub fn execute(&mut self, event_cmd: EventCommand) -> (output: core::result::Result<
        Output,
        CliError,
    >)
        ensures
            event_execution(
                event_cmd,
                old(self).event_repo.stored(),
                old(self).event_repo.available(),
                output,
                final(self).event_repo.stored(),
            ),
    {
        let event_id = match parse_id(event_cmd.event) {
            Ok(id) => id,
            Err(error) => return Err(error),
        };
        match event_cmd.command {
            Some(command) => self.execute_subcommand(command, event_id),
            None => Ok(Output::new()),
        }
    }

    fn execute_subcommand(&mut self, subcommand: EventSubCommand, event_id: Option<Id>) -> (output:
        core::result::Result<Output, CliError>)
        ensures
            match subcommand {
                EventSubCommand::Save(args) => save_execution(
                    args,
                    match event_id {
                        Some(id) => Some(id@),
                        None => None,
                    },
                    old(self).event_repo.stored(),
                    old(self).event_repo.available(),
                    output,
                    final(self).event_repo.stored(),
                ),
            },
    {
        match subcommand {
            EventSubCommand::Save(args) => {
                let ghost spec_args = args;
                let ghost given = match event_id {
                    Some(id) => Some(id@),
                    None => None,
                };
                let event_id = match event_id {
                    Some(id) => id,
                    None => Id::default(),
                };
                let name = match parse_name(args.name) {
                    Ok(name) => name,
                    Err(error) => return Err(error),
                };
                let interval = match parse_period(args.interval) {
                    Ok(interval) => interval,
                    Err(error) => return Err(error),
                };
                let ghost stored = self.event_repo.stored();
                let ghost available = self.event_repo.available();
                let cmd = self.save_event(event_id).with_name(name).with_interval(interval);
                let ghost spec_cmd = cmd;
                let output = match cmd.execute(&mut self.event_repo) {
                    Err(error) => Err(CliError::Event(error)),
                    Ok(()) => {
                        let mut text = event_id.to_string();
                        text.append("\n");
                        proof {
                            reveal_strlit("\n");
                        }
                        let mut output = Output::new();
                        output.out = text;
                        Ok(output)
                    },
                };
                proof {
                    if available {
                        assert(saving_event(spec_cmd, stored, output, self.event_repo.stored()));
                    }
                    assert(saved_by(
                        spec_args,
                        given,
                        stored,
                        available,
                        spec_cmd,
                        output,
                        self.event_repo.stored(),
                    ));
                }
                output
            },
        }
    }
}

} // verus!
