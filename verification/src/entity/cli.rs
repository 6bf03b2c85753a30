//! The entity commands of the command line: what they do on the entities
//! kept and what they write.

use super::application::EntityApplication;
use super::fmt::{column_text, headers_text, row_text, Column, EntityFmt, Row};
use super::repository::matching;
use super::{Entity, EntityFilter, EntityRepository, Error};
use crate::cli::{CliError, Output};
use crate::id::{uuid_parse, uuid_text, Id};
use crate::name::{valid_name, Name};
use vstd::prelude::*;

verus! {

broadcast use vstd::string::group_string_axioms;

/// The arguments of the save command.
pub struct EntitySaveArgs {
    /// The name of the entity.
    pub name: String,
}

/// The arguments of the remove command.
pub struct EntityRemoveArgs {
    /// The uuid of all the entities to be removed.
    pub ids: Vec<String>,
}

/// The entity commands.
pub enum EntitySubCommand {
    /// Save an entity.
    Save(EntitySaveArgs),
    /// List all entities.
    List,
    /// Remove one or more entities.
    Remove(EntityRemoveArgs),
}

/// An entity command, on the entity with the given id, if any.
pub struct EntityCommand {
    pub entity: Option<String>,
    pub command: Option<EntitySubCommand>,
}

/// Parses the id in the given text, if any.
pub fn parse_id(text: Option<String>) -> (id: core::result::Result<Option<Id>, CliError>)
    ensures
        text is None ==> id matches Ok(None),
        text matches Some(t) ==> (id is Ok <==> uuid_parse(t@) is Some),
        text matches Some(t) ==> (id matches Ok(Some(i)) ==> uuid_parse(t@) == Some(i@)),
        text is Some ==> (id matches Ok(found) ==> found is Some),
        id matches Err(e) ==> e is Id,
{
    match text {
        None => Ok(None),
        Some(text) => match Id::try_from(text) {
            Ok(id) => Ok(Some(id)),
            Err(error) => Err(CliError::Id(error)),
        },
    }
}

/// The rows of the entities, one after the other.
pub open spec fn rows_text(entities: Seq<Entity>) -> Seq<char>
    decreases entities.len(),
{
    if entities.len() == 0 {
        Seq::empty()
    } else {
        rows_text(entities.drop_last()) + row_text(entities.last())
    }
}

/// The listing of the entities: the headers on a line, then their rows.
pub open spec fn list_text(entities: Seq<Entity>) -> Seq<char> {
    headers_text() + "\n"@ + rows_text(entities)
}

/// What removing the entities with the given ids, one after the other,
/// leaves kept and writes on the standard output and on the standard error:
/// the id of each entity removed, on a line, goes to the output; for an id of
/// no entity kept, the message of that error goes to the error; so does, for
/// an id that is not valid, the message of the parser's error, whose reason
/// is the one at the same position of `reasons`.
pub open spec fn removals(stored: Map<u128, Entity>, ids: Seq<String>, reasons: Seq<Seq<char>>) -> (
    Map<u128, Entity>,
    Seq<char>,
    Seq<char>,
)
    decreases ids.len(),
{
    if ids.len() == 0 {
        (stored, Seq::empty(), Seq::empty())
    } else {
        let (kept, out, err) = removals(stored, ids.drop_last(), reasons.drop_last());
        match uuid_parse(ids.last()@) {
            Some(v) => if kept.contains_key(v) {
                (kept.remove(v), out + uuid_text(v) + "\n"@, err)
            } else {
                (kept, out, err + "entity not found\n"@)
            },
            None => (kept, out, err + "uuid: "@ + reasons.last() + "\n"@),
        }
    }
}

/// The output and what is kept are those of removing the entities with the
/// given ids, the reasons of the parser's errors being `reasons`.
pub open spec fn removed_with(
    stored: Map<u128, Entity>,
    ids: Seq<String>,
    reasons: Seq<Seq<char>>,
    output: Output,
    kept: Map<u128, Entity>,
) -> bool {
    &&& reasons.len() == ids.len()
    &&& kept == removals(stored, ids, reasons).0
    &&& output.out@ == removals(stored, ids, reasons).1
    &&& output.err@ == removals(stored, ids, reasons).2
}

/// What removing the entities with the given ids, one after the other,
/// leaves kept and writes, whatever each removal answered: `answers` holds,
/// at the position of each valid id, no error when its entity was removed,
/// which writes the id on a line on the standard output, or the error that
/// the removal gave, whose message goes on a line to the standard error; for
/// an id that is not valid, the message of the parser's error, whose reason
/// is the one at the same position of `reasons`, goes to the standard error.
pub open spec fn removals_answered(
    stored: Map<u128, Entity>,
    ids: Seq<String>,
    reasons: Seq<Seq<char>>,
    answers: Seq<Option<Error>>,
) -> (Map<u128, Entity>, Seq<char>, Seq<char>)
    decreases ids.len(),
{
    if ids.len() == 0 {
        (stored, Seq::empty(), Seq::empty())
    } else {
        let (kept, out, err) = removals_answered(
            stored,
            ids.drop_last(),
            reasons.drop_last(),
            answers.drop_last(),
        );
        match uuid_parse(ids.last()@) {
            Some(v) => match answers.last() {
                None => (kept.remove(v), out + uuid_text(v) + "\n"@, err),
                Some(e) => (kept, out, err + e.message_text() + "\n"@),
            },
            None => (kept, out, err + "uuid: "@ + reasons.last() + "\n"@),
        }
    }
}

/// The output and what is kept are those of removing the entities with the
/// given ids, the reasons of the parser's errors being `reasons` and the
/// answers of the removals `answers`.
pub open spec fn removed_answering(
    stored: Map<u128, Entity>,
    ids: Seq<String>,
    reasons: Seq<Seq<char>>,
    answers: Seq<Option<Error>>,
    output: Output,
    kept: Map<u128, Entity>,
) -> bool {
    &&& reasons.len() == ids.len()
    &&& answers.len() == ids.len()
    &&& kept == removals_answered(stored, ids, reasons, answers).0
    &&& output.out@ == removals_answered(stored, ids, reasons, answers).1
    &&& output.err@ == removals_answered(stored, ids, reasons, answers).2
}

/// Removing the entity with the id value `v` answered `answer`: no error
/// when it was removed, which writes its id on a line; otherwise nothing
/// changes and the message of the error is written on a line to the
/// standard error.
pub open spec fn removed_one(
    stored: Map<u128, Entity>,
    v: u128,
    answer: Option<Error>,
    output: Output,
    kept: Map<u128, Entity>,
) -> bool {
    match answer {
        None => kept == stored.remove(v) && output.out@ == uuid_text(v) + "\n"@ && output.err@
            == Seq::<char>::empty(),
        Some(e) => kept == stored && output.out@ == Seq::<char>::empty() && output.err@
            == e.message_text() + "\n"@,
    }
}

/// The text of the id, on a line.
fn id_line(id: Id) -> (text: String)
    ensures
        text@ == uuid_text(id@) + "\n"@,
{
    let mut text = id.to_string();
    text.append("\n");
    proof {
        reveal_strlit("\n");
    }
    text
}

/// The message of the error, on a line.
fn error_line(error: &Error) -> (text: String)
    ensures
        text@ == error.message_text() + "\n"@,
{
    let mut text = error.message();
    text.append("\n");
    proof {
        reveal_strlit("\n");
    }
    text
}

/// The entity `e` has the name of the arguments and the given id value, if
/// any; it is kept under its id and the output writes that id.
pub open spec fn saved_as(
    args: EntitySaveArgs,
    id: Option<u128>,
    stored: Map<u128, Entity>,
    e: Entity,
    o: Output,
    kept: Map<u128, Entity>,
) -> bool {
    &&& e.name@ == args.name@
    &&& id matches Some(v) ==> e.id@ == v
    &&& kept == stored.insert(e.id@, e)
    &&& o.out@ == uuid_text(e.id@) + "\n"@
    &&& o.err@ == Seq::<char>::empty()
}

/// What running an entity subcommand gives, on the entity with the given id
/// value, if any: a name that is not valid is refused and nothing changes;
/// then, when the repository answers, saving keeps the entity under that id,
/// or a new one, and writes the id; removing always succeeds, writing each
/// id removed and the error of each one that is not, whatever the repository
/// answers; listing writes every entity and changes nothing.
pub open spec fn subcommand_execution(
    subcommand: EntitySubCommand,
    id: Option<u128>,
    stored: Map<u128, Entity>,
    available: bool,
    output: core::result::Result<Output, CliError>,
    kept: Map<u128, Entity>,
) -> bool {
    match subcommand {
        EntitySubCommand::Save(args) => if !valid_name(args.name@) {
            output matches Err(CliError::Name(_)) && kept == stored
        } else {
            available ==> (output matches Ok(o) && exists|e: Entity|
                #[trigger] saved_as(args, id, stored, e, o, kept))
        },
        EntitySubCommand::Remove(args) => output matches Ok(o) && match id {
            Some(v) => (exists|answer: Option<Error>| #[trigger] removed_one(stored, v, answer, o, kept))
                && (available ==> if stored.contains_key(v) {
                kept == stored.remove(v) && o.out@ == uuid_text(v) + "\n"@ && o.err@
                    == Seq::<char>::empty()
            } else {
                kept == stored && o.out@ == Seq::<char>::empty() && o.err@ == "entity not found\n"@
            }),
            None => (exists|reasons: Seq<Seq<char>>, answers: Seq<Option<Error>>|
                #[trigger] removed_answering(stored, args.ids@, reasons, answers, o, kept))
                && (available ==> exists|reasons: Seq<Seq<char>>|
                #[trigger] removed_with(stored, args.ids@, reasons, o, kept)),
        },
        EntitySubCommand::List => kept == stored && (available ==> listed(stored, output)),
    }
}

/// What running an entity command gives: an id that is not valid is refused
/// and nothing changes; with a subcommand, what it gives; with an id alone,
/// nothing changes and, when the repository answers, the entity is written
/// in different lines; with nothing, the listing.
pub open spec fn entity_execution(
    cmd: EntityCommand,
    stored: Map<u128, Entity>,
    available: bool,
    output: core::result::Result<Output, CliError>,
    kept: Map<u128, Entity>,
) -> bool {
    let parsed = match cmd.entity {
        Some(t) => uuid_parse(t@),
        None => None,
    };
    if cmd.entity is Some && parsed is None {
        output matches Err(CliError::Id(_)) && kept == stored
    } else {
        match cmd.command {
            Some(subcommand) => subcommand_execution(subcommand, parsed, stored, available, output, kept),
            None => match parsed {
                None => kept == stored && (available ==> listed(stored, output)),
                Some(v) => kept == stored && (available ==> found_one(stored, v, output)),
            },
        }
    }
}

/// The output lists every entity kept, each once.
pub open spec fn listed(stored: Map<u128, Entity>, output: core::result::Result<Output, CliError>) -> bool {
    output matches Ok(o) && exists|v: Seq<Entity>|
        {
            &&& v.to_set() == stored.values()
            &&& v.no_duplicates()
            &&& o.out@ == list_text(v)
            &&& o.err@ == Seq::<char>::empty()
        }
}

/// The entities kept whose id has the given value.
pub open spec fn with_id_value(stored: Map<u128, Entity>, v: u128) -> Set<Entity> {
    Set::new(|e: Entity| stored.values().contains(e) && e.id@ == v)
}

/// The output writes, in different lines, the only entity with the given
/// id; or it is the error of there being none, or more than one.
pub open spec fn found_one(
    stored: Map<u128, Entity>,
    v: u128,
    output: core::result::Result<Output, CliError>,
) -> bool {
    let all = with_id_value(stored, v);
    &&& all.len() == 0 ==> (output matches Err(CliError::Entity(Error::NotFound)))
    &&& all.len() > 1 ==> (output matches Err(CliError::Entity(Error::MoreThanOne)))
    &&& all.len() == 1 ==> (output matches Ok(o) && o.out@ == column_text(all.choose())
        && o.err@ == Seq::<char>::empty())
}

impl<R: EntityRepository> EntityApplication<R> {
    /// Given an [EntityCommand], executes the corresponding logic and
    /// returns what it writes.
    pub fn execute(&mut self, entity_cmd: EntityCommand) -> (output: core::result::Result<
        Output,
        CliError,
    >)
        ensures
            entity_execution(
                entity_cmd,
                old(self).entity_repo.stored(),
                old(self).entity_repo.available(),
                output,
                final(self).entity_repo.stored(),
            ),
    {
        let entity_id = match parse_id(entity_cmd.entity) {
            Ok(id) => id,
            Err(error) => return Err(error),
        };
        if let Some(command) = entity_cmd.command {
            return self.execute_subcommand(command, entity_id);
        }
        let entity_id = match entity_id {
            Some(id) => id,
            None => return self.execute_subcommand(EntitySubCommand::List, None),
        };
        let filter = EntityFilter::default().with_id(Some(entity_id));
        let ghost stored = self.entity_repo.stored();
        proof {
            assert(with_id_value(stored, entity_id@) =~= matching(stored, filter));
        }
        let entity = match self.find_entity().with_filter(filter).execute(&self.entity_repo) {
            Ok(entity) => entity,
            Err(error) => return Err(CliError::Entity(error)),
        };
        proof {
            let all = with_id_value(stored, entity_id@);
            assert(all == set![entity]);
            assert(all.len() == 1);
            assert(all.contains(all.choose()));
            assert(all.choose() == entity);
        }
        let mut output = Output::new();
        output.out = EntityFmt::column(&entity).to_string();
        Ok(output)
    }

    fn execute_subcommand(&mut self, subcommand: EntitySubCommand, entity_id: Option<Id>) -> (output:
        core::result::Result<Output, CliError>)
        ensures
            subcommand_execution(
                subcommand,
                match entity_id {
                    Some(id) => Some(id@),
                    None => None,
                },
                old(self).entity_repo.stored(),
                old(self).entity_repo.available(),
                output,
                final(self).entity_repo.stored(),
            ),
    {
        match subcommand {
            EntitySubCommand::Save(args) => {
                let ghost spec_args = args;
                let output = self.save(args, entity_id);
                assert(subcommand == EntitySubCommand::Save(spec_args));
                output
            },
            EntitySubCommand::List => {
                let ghost stored = self.entity_repo.stored();
                let r = self.list_all();
                assert(subcommand_execution(subcommand, None, stored, self.entity_repo.available(), r, self.entity_repo.stored()));
                r
            },
            EntitySubCommand::Remove(args) => match entity_id {
                Some(entity_id) => {
                    let ghost spec_args = args;
                    let ghost stored = self.entity_repo.stored();
                    let ghost available = self.entity_repo.available();
                    let output = self.remove_one(entity_id);
                    let result: core::result::Result<Output, CliError> = Ok(output);
                    proof {
                        let answer = choose|a: Option<Error>|
                            removed_one(stored, entity_id@, a, output, self.entity_repo.stored());
                        assert(result->Ok_0 == output);
                        assert(removed_one(stored, Some(entity_id@)->0, answer, result->Ok_0, self.entity_repo.stored()));
                    }
                    assert(subcommand == EntitySubCommand::Remove(spec_args));
                    assert(subcommand_execution(EntitySubCommand::Remove(spec_args), Some(entity_id@), stored, available, result, self.entity_repo.stored()));
                    result
                },
                None => {
                    let ghost spec_args = args;
                    let ghost stored = self.entity_repo.stored();
                    let ghost available = self.entity_repo.available();
                    let output = self.remove_each(args.ids);
                    assert(subcommand == EntitySubCommand::Remove(spec_args));
                    let result: core::result::Result<Output, CliError> = Ok(output);
                    proof {
                        let (rs, answers) = choose|r: Seq<Seq<char>>, a: Seq<Option<Error>>|
                            removed_answering(stored, spec_args.ids@, r, a, output, self.entity_repo.stored());
                        assert(result->Ok_0 == output);
                        assert(removed_answering(stored, spec_args.ids@, rs, answers, result->Ok_0, self.entity_repo.stored()));
                        if available {
                            let reasons = choose|r: Seq<Seq<char>>|
                                removed_with(stored, spec_args.ids@, r, output, self.entity_repo.stored());
                            assert(result->Ok_0 == output);
                            assert(removed_with(stored, spec_args.ids@, reasons, result->Ok_0, self.entity_repo.stored()));
                        }
                    }
                    assert(subcommand_execution(EntitySubCommand::Remove(spec_args), None, stored, available, result, self.entity_repo.stored()));
                    result
                },
            },
        }
    }

    /// Saves the entity with the given name under the given id, or a new
    /// one, and writes that id.
    fn save(&mut self, args: EntitySaveArgs, entity_id: Option<Id>) -> (output: core::result::Result<
        Output,
        CliError,
    >)
        ensures
            subcommand_execution(
                EntitySubCommand::Save(args),
                match entity_id {
                    Some(id) => Some(id@),
                    None => None,
                },
                old(self).entity_repo.stored(),
                old(self).entity_repo.available(),
                output,
                final(self).entity_repo.stored(),
            ),
    {
        let ghost text = args.name@;
        let ghost spec_args = args;
        let ghost given = match entity_id {
            Some(id) => Some(id@),
            None => None,
        };
        let ghost stored = self.entity_repo.stored();
        let ghost available = self.entity_repo.available();
        let entity_id = match entity_id {
            Some(id) => id,
            None => Id::default(),
        };
        let name = match Name::try_from(args.name) {
            Ok(name) => name,
            Err(error) => return Err(CliError::Name(error)),
        };
        let saved = match self.save_entity(entity_id, name).execute(&mut self.entity_repo) {
            Ok(saved) => saved,
            Err(error) => return Err(CliError::Entity(error)),
        };
        let mut output = Output::new();
        output.out = id_line(entity_id);
        proof {
            assert(saved.name@ == text);
            assert(saved_as(spec_args, given, stored, saved, output, self.entity_repo.stored()));
        }
        let result = Ok(output);
        assert(valid_name(spec_args.name@));
        assert(exists|e: Entity| #[trigger] saved_as(spec_args, given, stored, e, output, self.entity_repo.stored()));
        assert(result matches Ok(o) && o == output);
        assert(subcommand_execution(
            EntitySubCommand::Save(spec_args),
            given,
            stored,
            available,
            result,
            self.entity_repo.stored(),
        ));
        result
    }

    /// Writes the headers and a row for each entity kept.
    fn list_all(&self) -> (output: core::result::Result<Output, CliError>)
        ensures
            self.entity_repo.available() ==> listed(self.entity_repo.stored(), output),
    {
        let entities = match self.filter_entities().execute(&self.entity_repo) {
            Ok(entities) => entities,
            Err(error) => return Err(CliError::Entity(error)),
        };
        let mut text = EntityFmt::headers();
        text.append("\n");
        proof {
            reveal_strlit("\n");
            assert(entities@.take(0) =~= Seq::<Entity>::empty());
        }
        let mut i: usize = 0;
        while i < entities.len()
            invariant
                i <= entities@.len(),
                text@ == list_text(entities@.take(i as int)),
            decreases entities@.len() - i,
        {
            let row = EntityFmt::row(&entities[i]).to_string();
            text.append(row.as_str());
            proof {
                assert(entities@.take(i + 1).drop_last() =~= entities@.take(i as int));
            }
            i = i + 1;
        }
        proof {
            assert(entities@.take(i as int) =~= entities@);
            assert(matching(self.entity_repo.stored(), EntityFilter { name: None, id: None })
                =~= self.entity_repo.stored().values());
        }
        let mut output = Output::new();
        output.out = text;
        Ok(output)
    }

    /// Removes the entity with the given id, writing the id, or the error
    /// when there is none.
    fn remove_one(&mut self, entity_id: Id) -> (output: Output)
        ensures
            exists|answer: Option<Error>|
                #[trigger] removed_one(
                    old(self).entity_repo.stored(),
                    entity_id@,
                    answer,
                    output,
                    final(self).entity_repo.stored(),
                ),
            old(self).entity_repo.available() ==> if old(self).entity_repo.stored().contains_key(
                entity_id@,
            ) {
                final(self).entity_repo.stored() == old(self).entity_repo.stored().remove(
                    entity_id@,
                ) && output.out@ == uuid_text(entity_id@) + "\n"@ && output.err@ == Seq::<
                    char,
                >::empty()
            } else {
                final(self).entity_repo.stored() == old(self).entity_repo.stored() && output.out@
                    == Seq::<char>::empty() && output.err@ == "entity not found\n"@
            },
    {
        let ghost stored = self.entity_repo.stored();
        let mut output = Output::new();
        match self.remove_entity(entity_id).execute(&mut self.entity_repo) {
            Ok(()) => {
                output.out = id_line(entity_id);
                assert(removed_one(stored, entity_id@, None, output, self.entity_repo.stored()));
            },
            Err(error) => {
                let mut text = error.message();
                text.append("\n");
                proof {
                    reveal_strlit("entity not found");
                    reveal_strlit("\n");
                    reveal_strlit("entity not found\n");
                    assert("entity not found"@ + "\n"@ =~= "entity not found\n"@);
                }
                output.err = text;
                assert(removed_one(stored, entity_id@, Some(error), output, self.entity_repo.stored()));
            },
        }
        output
    }

    /// Removes the entities with the given ids, one after the other,
    /// writing each id removed; the ids that are not valid, or of no entity,
    /// are reported on the standard error.
    fn remove_each(&mut self, ids: Vec<String>) -> (output: Output)
        ensures
            exists|reasons: Seq<Seq<char>>, answers: Seq<Option<Error>>|
                #[trigger] removed_answering(
                    old(self).entity_repo.stored(),
                    ids@,
                    reasons,
                    answers,
                    output,
                    final(self).entity_repo.stored(),
                ),
            old(self).entity_repo.available() ==> exists|reasons: Seq<Seq<char>>|
                #[trigger] removed_with(
                    old(self).entity_repo.stored(),
                    ids@,
                    reasons,
                    output,
                    final(self).entity_repo.stored(),
                ),
    {
        let ghost stored = self.entity_repo.stored();
        let ghost available = self.entity_repo.available();
        let ghost mut reasons: Seq<Seq<char>> = Seq::empty();
        let ghost mut answers: Seq<Option<Error>> = Seq::empty();
        let mut output = Output::new();
        proof {
            assert(ids@.take(0) =~= Seq::<String>::empty());
            reveal_strlit("\n");
            reveal_strlit("entity not found");
            reveal_strlit("entity not found\n");
            assert("entity not found"@ + "\n"@ =~= "entity not found\n"@);
        }
        let mut i: usize = 0;
        while i < ids.len()
            invariant
                i <= ids@.len(),
                reasons.len() == i,
                removed_answering(
                    stored,
                    ids@.take(i as int),
                    reasons,
                    answers,
                    output,
                    self.entity_repo.stored(),
                ),
                "entity not found"@ + "\n"@ == "entity not found\n"@,
                available ==> self.entity_repo.available(),
                available ==> removed_with(
                    stored,
                    ids@.take(i as int),
                    reasons,
                    output,
                    self.entity_repo.stored(),
                ),
            decreases ids@.len() - i,
        {
            proof {
                assert(ids@.take(i + 1).drop_last() =~= ids@.take(i as int));
                assert(ids@.take(i + 1).last() == ids@[i as int]);
            }
            let ghost before = reasons;
            let ghost answered = answers;
            match Id::try_from(ids[i].clone()) {
                Ok(id) => {
                    proof {
                        reasons = reasons.push(Seq::empty());
                    }
                    match self.remove_entity(id).execute(&mut self.entity_repo) {
                        Ok(()) => {
                            proof {
                                answers = answers.push(None);
                            }
                            let line = id_line(id);
                            output.out.append(line.as_str());
                        },
                        Err(error) => {
                            proof {
                                answers = answers.push(Some(error));
                            }
                            let line = error_line(&error);
                            output.err.append(line.as_str());
                        },
                    }
                },
                Err(error) => {
                    proof {
                        let reason = error->Uuid_0@;
                        reasons = reasons.push(reason);
                        answers = answers.push(None);
                    }
                    let line = error_line(&Error::Id(error));
                    output.err.append(line.as_str());
                },
            }
            proof {
                assert(reasons.drop_last() =~= before);
                assert(answers.drop_last() =~= answered);
                let q = removals_answered(stored, ids@.take(i + 1), reasons, answers);
                assert(output.out@ =~= q.1);
                assert(output.err@ =~= q.2);
                if available {
                    let r = removals(stored, ids@.take(i + 1), reasons);
                    assert(output.out@ =~= r.1);
                    assert(output.err@ =~= r.2);
                }
            }
            i = i + 1;
        }
        proof {
            assert(ids@.take(i as int) =~= ids@);
        }
        output
    }
}

} // verus!
