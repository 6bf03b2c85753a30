//! The experience commands of the command line.

use super::application::{saving, ExperienceApplication, SaveExperience};
use super::repository::ExperienceRepository;
use super::{Experience, Profile, Result};
use crate::entity::{Entity, EntityRepository};
use crate::event::{Event, EventRepository};
use crate::interval::Interval;
use crate::cli::{CliError, Output};
use crate::id::{uuid_parse, uuid_text, Id};
use vstd::prelude::*;

verus! {

broadcast use vstd::string::group_string_axioms;

/// The arguments of the save command.
pub struct ExperienceSaveArgs {
    /// The id of the entities resulting from the experience.
    pub after: Vec<String>,
    /// Mark the experience as terminal.
    pub terminal: bool,
}

/// The experience commands.
pub enum ExperienceSubCommand {
    /// Save an experience.
    Save(ExperienceSaveArgs),
}

/// An experience command, on the experience with the given id: the id of its
/// entity and that of its event.
pub struct ExperienceCommand {
    /// The id of the experience.
    pub experience: Option<Vec<String>>,
    /// The action to perform.
    pub command: Option<ExperienceSubCommand>,
}

/// The text at the given position, or the empty text when there is none.
pub open spec fn component(texts: Seq<String>, i: int) -> Seq<char> {
    if i < texts.len() {
        texts[i]@
    } else {
        Seq::empty()
    }
}

/// The profiles after the experience that the save arguments give: none for
/// a terminal experience, those of the given ids otherwise, or no choice
/// when no id is given. It is `None` when an id is not valid.
pub open spec fn after_of(args: ExperienceSaveArgs) -> Option<Option<Seq<u128>>> {
    if args.terminal {
        Some(Some(Seq::empty()))
    } else if args.after@.len() == 0 {
        Some(None)
    } else if forall|i: int| 0 <= i < args.after@.len() ==> (#[trigger] uuid_parse(args.after@[i]@)) is Some {
        Some(Some(Seq::new(args.after@.len(), |i: int| uuid_parse(args.after@[i]@)->0)))
    } else {
        None
    }
}

/// The profiles after the experience are those that the save arguments give:
/// one for each id given, of no value, or none at all when no id is given.
pub open spec fn after_matches(args: ExperienceSaveArgs, after: Option<Vec<Profile>>) -> bool {
    match after_of(args) {
        Some(Some(ids)) => after matches Some(p) && p@.len() == ids.len() && forall|i: int|
            0 <= i < ids.len() ==> (#[trigger] p@[i]).entity@ == ids[i] && p@[i].values@ == Map::<
                String,
                String,
            >::empty(),
        Some(None) => after is None,
        None => false,
    }
}

/// What the save transaction `save`, which gave `saved`, leaves for the
/// command: it is of the entity and event with the given id values, with the
/// profiles that the arguments give; when it succeeds, the id of the
/// experience is written, otherwise its error is reported. What the
/// transaction does is [saving], when every repository answers; when it
/// fails, nothing is kept.
pub open spec fn save_outcome<Intv: Interval + Copy>(
    args: ExperienceSaveArgs,
    entity: u128,
    event: u128,
    stored: Seq<Experience>,
    entities: Map<u128, Entity>,
    events: Map<u128, Event<Intv>>,
    available: bool,
    save: SaveExperience,
    saved: Result<()>,
    output: core::result::Result<Output, CliError>,
    kept: Seq<Experience>,
) -> bool {
    &&& save.entity@ == entity
    &&& save.event@ == event
    &&& after_matches(args, save.after)
    &&& available ==> saving(save, stored, entities, events, saved, kept)
    &&& saved is Err ==> kept == stored
    &&& match saved {
        Ok(()) => output matches Ok(o) && o.out@ == uuid_text(entity) + " "@ + uuid_text(event)
            + "\n"@ && o.err@ == Seq::<char>::empty(),
        Err(e) => output == Err::<Output, CliError>(CliError::Experience(e)),
    }
}

/// What saving the experience of the entity and event with the given id
/// values gives: ids after it that are not valid are refused, and nothing is
/// kept; otherwise a save transaction runs as [save_outcome] says.
pub open spec fn save_execution<Intv: Interval + Copy>(
    args: ExperienceSaveArgs,
    entity: u128,
    event: u128,
    stored: Seq<Experience>,
    entities: Map<u128, Entity>,
    events: Map<u128, Event<Intv>>,
    available: bool,
    output: core::result::Result<Output, CliError>,
    kept: Seq<Experience>,
) -> bool {
    if after_of(args) is None {
        output matches Err(CliError::Id(_)) && kept == stored
    } else {
        exists|save: SaveExperience, saved: Result<()>|
            #[trigger] save_outcome(
                args,
                entity,
                event,
                stored,
                entities,
                events,
                available,
                save,
                saved,
                output,
                kept,
            )
    }
}

/// What running an experience command gives: the id of the experience is
/// required, and both of its components must be valid, or nothing is kept;
/// saving then requires the ids after it to be valid too, and saves the
/// experience as [save_execution] says.
pub open spec fn experience_execution<Intv: Interval + Copy>(
    cmd: ExperienceCommand,
    stored: Seq<Experience>,
    entities: Map<u128, Entity>,
    events: Map<u128, Event<Intv>>,
    available: bool,
    output: core::result::Result<Output, CliError>,
    kept: Seq<Experience>,
) -> bool {
    match cmd.experience {
        None => output matches Err(CliError::MissingArgument(_)) && kept == stored,
        Some(texts) => {
            let entity = uuid_parse(component(texts@, 0));
            let event = uuid_parse(component(texts@, 1));
            if entity is None || event is None {
                output matches Err(CliError::Id(_)) && kept == stored
            } else {
                match cmd.command {
                    Some(ExperienceSubCommand::Save(args)) => save_execution(
                        args,
                        entity->0,
                        event->0,
                        stored,
                        entities,
                        events,
                        available,
                        output,
                        kept,
                    ),
                    None => false,
                }
            }
        },
    }
}

/// The command names a valid experience but no subcommand: there is nothing
/// to run for it.
pub open spec fn without_subcommand(cmd: ExperienceCommand) -> bool {
    &&& cmd.command is None
    &&& cmd.experience matches Some(texts) && uuid_parse(component(texts@, 0)) is Some && uuid_parse(
        component(texts@, 1),
    ) is Some
}

/// Reads the id at the given position, or in the empty text when there is
/// none.
fn parse_component(texts: &Vec<String>, i: usize) -> (id: core::result::Result<Id, CliError>)
    ensures
        id matches Ok(v) ==> uuid_parse(component(texts@, i as int)) == Some(v@),
        id is Err <==> uuid_parse(component(texts@, i as int)) is None,
        id matches Err(e) ==> e is Id,
{
    let text = if i < texts.len() {
        texts[i].clone()
    } else {
        String::new()
    };
    match Id::try_from(text) {
        Ok(id) => Ok(id),
        Err(error) => Err(CliError::Id(error)),
    }
}

/// Reads the profiles after the experience out of the save arguments.
fn parse_after(args: ExperienceSaveArgs) -> (after: core::result::Result<
    Option<Vec<Profile>>,
    CliError,
>)
    ensures
        after is Ok <==> after_of(args) is Some,
        after matches Ok(a) ==> after_matches(args, a),
        after matches Err(e) ==> e is Id,
{
    if args.terminal {
        return Ok(Some(Vec::new()));
    }
    if args.after.len() == 0 {
        return Ok(None);
    }
    let mut profiles: Vec<Profile> = Vec::new();
    let mut i: usize = 0;
    while i < args.after.len()
        invariant
            i <= args.after@.len(),
            !args.terminal,
            args.after@.len() > 0,
            profiles@.len() == i,
            forall|j: int| 0 <= j < i ==> (#[trigger] uuid_parse(args.after@[j]@)) is Some,
            forall|j: int|
                0 <= j < i ==> (#[trigger] profiles@[j]).entity@ == uuid_parse(args.after@[j]@)->0
                    && profiles@[j].values@ == Map::<String, String>::empty(),
        decreases args.after@.len() - i,
    {
        match Id::try_from(args.after[i].clone()) {
            Ok(id) => profiles.push(Profile::new(id)),
            Err(error) => {
                assert(uuid_parse(args.after@[i as int]@) is None);
                return Err(CliError::Id(error));
            },
        }
        i = i + 1;
    }
    Ok(Some(profiles))
}

impl<ExperienceRepo, EntityRepo, EventRepo> ExperienceApplication<
    ExperienceRepo,
    EntityRepo,
    EventRepo,
> where
    ExperienceRepo: ExperienceRepository,
    EntityRepo: EntityRepository,
    EventRepo: EventRepository,
 {
    /// Given an [ExperienceCommand], executes the corresponding logic and
    /// returns what it writes. A command with the id of an experience and no
    /// subcommand has nothing to run.
    pub fn execute(&mut self, experience_cmd: ExperienceCommand) -> (output: core::result::Result<
        Output,
        CliError,
    >)
        requires
            !without_subcommand(experience_cmd),
        ensures
            experience_execution(
                experience_cmd,
                old(self).experience_repo.stored(),
                old(self).entity_repo.stored(),
                old(self).event_repo.stored(),
                old(self).experience_repo.available() && old(self).entity_repo.available()
                    && old(self).event_repo.available(),
                output,
                final(self).experience_repo.stored(),
            ),
            final(self).entity_repo.stored() == old(self).entity_repo.stored(),
            final(self).event_repo.stored() == old(self).event_repo.stored(),
    {
        let texts = match experience_cmd.experience {
            Some(texts) => texts,
            None => return Err(CliError::MissingArgument("experience id")),
        };
        let entity_id = match parse_component(&texts, 0) {
            Ok(id) => id,
            Err(error) => return Err(error),
        };
        let event_id = match parse_component(&texts, 1) {
            Ok(id) => id,
            Err(error) => return Err(error),
        };
        match experience_cmd.command {
            Some(command) => self.execute_subcommand(command, entity_id, event_id),
            None => Err(CliError::MissingArgument("experience command")),
        }
    }

    /// Executes the given [ExperienceCommand] unless it names a valid
    /// experience but no subcommand, which has nothing to run: then it gives
    /// nothing, and nothing is kept.
    pub fn try_execute(&mut self, experience_cmd: ExperienceCommand) -> (output: Option<
        core::result::Result<Output, CliError>,
    >)
        ensures
            output is None <==> without_subcommand(experience_cmd),
            output is None ==> final(self).experience_repo.stored() == old(
                self,
            ).experience_repo.stored(),
            output matches Some(o) ==> experience_execution(
                experience_cmd,
                old(self).experience_repo.stored(),
                old(self).entity_repo.stored(),
                old(self).event_repo.stored(),
                old(self).experience_repo.available() && old(self).entity_repo.available()
                    && old(self).event_repo.available(),
                o,
                final(self).experience_repo.stored(),
            ),
            final(self).entity_repo.stored() == old(self).entity_repo.stored(),
            final(self).event_repo.stored() == old(self).event_repo.stored(),
    {
        if experience_cmd.command.is_none() {
            if let Some(texts) = &experience_cmd.experience {
                let entity = parse_component(texts, 0);
                let event = parse_component(texts, 1);
                if entity.is_ok() && event.is_ok() {
                    return None;
                }
            }
        }
        Some(self.execute(experience_cmd))
    }

    fn execute_subcommand(
        &mut self,
        subcommand: ExperienceSubCommand,
        entity_id: Id,
        event_id: Id,
    ) -> (output: core::result::Result<Output, CliError>)
        ensures
            match subcommand {
                ExperienceSubCommand::Save(args) => save_execution(
                    args,
                    entity_id@,
                    event_id@,
                    old(self).experience_repo.stored(),
                    old(self).entity_repo.stored(),
                    old(self).event_repo.stored(),
                    old(self).experience_repo.available() && old(self).entity_repo.available()
                        && old(self).event_repo.available(),
                    output,
                    final(self).experience_repo.stored(),
                ),
            },
            final(self).entity_repo.stored() == old(self).entity_repo.stored(),
            final(self).event_repo.stored() == old(self).event_repo.stored(),
    {
        match subcommand {
            ExperienceSubCommand::Save(args) => {
                let ghost spec_args = args;
                let after = match parse_after(args) {
                    Ok(after) => after,
                    Err(error) => return Err(error),
                };
                let ghost stored = self.experience_repo.stored();
                let ghost available = self.experience_repo.available()
                    && self.entity_repo.available() && self.event_repo.available();
                let command = self.save_experience(entity_id, event_id).with_after(after);
                let ghost save = command;
                let saved = command.execute(
                    &mut self.experience_repo,
                    &self.entity_repo,
                    &self.event_repo,
                );
                let output = match saved {
                    Err(error) => Err(CliError::Experience(error)),
                    Ok(()) => {
                        let mut text = entity_id.to_string();
                        text.append(" ");
                        let event_text = event_id.to_string();
                        text.append(event_text.as_str());
                        text.append("\n");
                        proof {
                            reveal_strlit(" ");
                            reveal_strlit("\n");
                        }
                        let mut output = Output::new();
                        output.out = text;
                        Ok(output)
                    },
                };
                proof {
                    assert(save_outcome(
                        spec_args,
                        entity_id@,
                        event_id@,
                        stored,
                        self.entity_repo.stored(),
                        self.event_repo.stored(),
                        available,
                        save,
                        saved,
                        output,
                        self.experience_repo.stored(),
                    ));
                }
                output
            },
        }
    }
}

} // verus!
