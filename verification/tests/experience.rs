use plotline::cli::CliError;
use plotline::entity::{Entity, EntityRepository, InMemoryEntityRepository};
use plotline::event::{Event, EventRepository, InMemoryEventRepository};
use plotline::experience::application::ExperienceApplication;
use plotline::experience::cli::{ExperienceCommand, ExperienceSaveArgs, ExperienceSubCommand};
use plotline::experience::repository::{
    ExperienceFilter, ExperienceRepository, InMemoryExperienceRepository,
};
use plotline::experience::{
    constraint, find_profile, Error, Experience, ExperienceBuilder, ExperienceKind,
    ExperiencedEvent, Profile,
};
use plotline::id::Id;
use plotline::name::Name;
use plotline::period::Period;

fn name(text: &str) -> Name {
    Name::try_from(text.to_string()).unwrap()
}

type App = ExperienceApplication<
    InMemoryExperienceRepository,
    InMemoryEntityRepository,
    InMemoryEventRepository<Period>,
>;

fn app() -> App {
    ExperienceApplication {
        experience_repo: InMemoryExperienceRepository::new(),
        entity_repo: InMemoryEntityRepository::new(),
        event_repo: InMemoryEventRepository::new(),
    }
}

fn add_entity(app: &mut App) -> Id {
    let id = Id::default();
    app.entity_repo
        .create(&Entity::new(id, name("someone")))
        .unwrap();
    id
}

fn add_event(app: &mut App, lo: u64, hi: u64) -> Id {
    let id = Id::default();
    app.event_repo
        .create(&Event::new(id, name("happening"), Period::new(lo, hi)))
        .unwrap();
    id
}

#[test]
fn kinds_follow_the_profiles_after() {
    let terminal = Experience {
        entity: Id::default(),
        event: Id::default(),
        after: vec![],
    };
    assert!(ExperienceKind::from(&terminal).is_terminal());
    assert!(!ExperienceKind::from(&terminal).is_transitive());
    let kind: ExperienceKind = (&terminal).into();
    assert_eq!(kind, ExperienceKind::Terminal);
    let transitive = terminal.with_after(vec![Profile::new(Id::default())]);
    assert!(ExperienceKind::from(&transitive).is_transitive());
}

#[test]
fn find_profile_gives_the_first_of_the_entity() {
    let entity = Id::default();
    let mut first = Profile::new(entity);
    first.values.insert("age".to_string(), "12".to_string());
    let after = vec![Profile::new(Id::default()), first, Profile::new(entity)];
    let found = find_profile(&after, entity).unwrap();
    assert_eq!(found.entity, entity);
    assert_eq!(found.values.get("age"), Some(&"12".to_string()));
    assert!(find_profile(&after, Id::default()).is_none());
}

#[test]
fn builder_falls_back_on_the_closest_experiences() {
    let entity = Entity::new(Id::default(), name("someone"));
    let event = Event::new(Id::default(), name("now"), Period::new(5, 5));
    let next_event = Event::new(Id::default(), name("later"), Period::new(7, 7));
    let mut profile = Profile::new(entity.id);
    profile
        .values
        .insert("mood".to_string(), "happy".to_string());
    let next = Experience {
        entity: Id::default(),
        event: next_event.id,
        after: vec![profile],
    };
    let experienced = vec![ExperiencedEvent {
        experience: &next,
        event: &next_event,
    }];
    let built = ExperienceBuilder::new(&entity, &event)
        .with_fallbacks(&experienced)
        .build()
        .unwrap();
    assert_eq!(built.after.len(), 1);
    assert_eq!(built.after[0].values.get("mood"), Some(&"happy".to_string()));
    let kept = ExperienceBuilder::new(&entity, &event)
        .with_after(Some(vec![]))
        .with_kind(Some(ExperienceKind::Terminal))
        .with_fallbacks(&experienced)
        .build()
        .unwrap();
    assert!(kept.after.is_empty());
}

#[test]
fn repository_keeps_one_experience_per_entity_and_event() {
    let mut repo = InMemoryExperienceRepository::new();
    let entity = Id::default();
    let event = Id::default();
    let other = Id::default();
    let experience = Experience {
        entity,
        event,
        after: vec![Profile::new(other)],
    };
    assert_eq!(repo.create(experience), Ok(()));
    let again = Experience {
        entity,
        event,
        after: vec![],
    };
    assert_eq!(repo.create(again), Err(Error::AlreadyExists));

    let involving = |id: Id| ExperienceFilter::default().with_entity(Some(id));
    assert_eq!(repo.filter(&involving(entity)).unwrap().len(), 1);
    assert_eq!(repo.filter(&involving(other)).unwrap().len(), 1);
    assert_eq!(repo.filter(&involving(Id::default())).unwrap().len(), 0);
    let by_event = ExperienceFilter::default().with_event(Some(event));
    assert_eq!(repo.filter(&by_event).unwrap().len(), 1);
    assert_eq!(
        repo.filter(&by_event.with_entity(Some(Id::default())))
            .unwrap()
            .len(),
        0
    );
}

#[test]
fn save_experience_creates_it_once() {
    let mut app = app();
    let entity = add_entity(&mut app);
    let event = add_event(&mut app, 1, 2);
    let save = app.save_experience(entity, event);
    assert_eq!(
        save.execute(
            &mut app.experience_repo,
            &app.entity_repo,
            &app.event_repo
        ),
        Ok(())
    );
    let filter = ExperienceFilter::default().with_entity(Some(entity));
    assert_eq!(app.experience_repo.filter(&filter).unwrap().len(), 1);
    // Saving it again changes nothing.
    let save = app
        .save_experience(entity, event)
        .with_after(Some(vec![Profile::new(Id::default())]));
    assert_eq!(
        save.execute(
            &mut app.experience_repo,
            &app.entity_repo,
            &app.event_repo
        ),
        Ok(())
    );
    let kept = app.experience_repo.filter(&filter).unwrap();
    assert_eq!(kept.len(), 1);
    assert!(kept[0].after.is_empty());
}

#[test]
fn save_experience_needs_the_entity_and_the_event() {
    let mut app = app();
    let entity = add_entity(&mut app);
    let event = add_event(&mut app, 1, 2);
    let result = app.save_experience(Id::default(), event).execute(
        &mut app.experience_repo,
        &app.entity_repo,
        &app.event_repo,
    );
    assert_eq!(
        result,
        Err(Error::Entity(plotline::entity::Error::NotFound))
    );
    let result = app.save_experience(entity, Id::default()).execute(
        &mut app.experience_repo,
        &app.entity_repo,
        &app.event_repo,
    );
    assert_eq!(result, Err(Error::Event(plotline::event::Error::NotFound)));
}

#[test]
fn save_experience_checks_the_succession() {
    let mut app = app();
    let entity = add_entity(&mut app);
    let first = add_event(&mut app, 1, 2);
    let overlapping = add_event(&mut app, 2, 3);
    let later = add_event(&mut app, 5, 6);
    let save = |app: &mut App, event: Id, after: Option<Vec<Profile>>| {
        app.save_experience(entity, event).with_after(after).execute(
            &mut app.experience_repo,
            &app.entity_repo,
            &app.event_repo,
        )
    };
    assert_eq!(save(&mut app, first, Some(vec![])), Ok(()));
    assert_eq!(
        save(&mut app, overlapping, Some(vec![Profile::new(entity)])),
        Err(Error::Constraint(constraint::Error::SimultaneousEvents))
    );
    assert_eq!(
        save(&mut app, later, Some(vec![])),
        Err(Error::Constraint(constraint::Error::TerminalFollowsTerminal))
    );
    assert_eq!(save(&mut app, later, Some(vec![Profile::new(entity)])), Ok(()));
    let filter = ExperienceFilter::default().with_entity(Some(entity));
    assert_eq!(app.experience_repo.filter(&filter).unwrap().len(), 2);
}

#[test]
fn command_line_reads_the_experience_id_and_saves_it() {
    let mut app = app();
    let entity_id = add_entity(&mut app);
    let event_id = add_event(&mut app, 3, 4);
    let entity = entity_id.to_string();
    let event = event_id.to_string();
    let save = |after: Vec<String>, terminal: bool| {
        Some(ExperienceSubCommand::Save(ExperienceSaveArgs { after, terminal }))
    };
    let saved = app
        .execute(ExperienceCommand {
            experience: Some(vec![entity.clone(), event.clone()]),
            command: save(vec![Id::default().to_string()], false),
        })
        .ok()
        .unwrap();
    assert_eq!(saved.out, format!("{entity} {event}\n"));
    let filter = ExperienceFilter::default()
        .with_entity(Some(entity_id))
        .with_event(Some(event_id));
    let kept = app.experience_repo.filter(&filter).unwrap();
    assert_eq!(kept.len(), 1);
    assert_eq!(kept[0].entity, entity_id);
    assert_eq!(kept[0].after.len(), 1);

    let unknown = app.execute(ExperienceCommand {
        experience: Some(vec![Id::default().to_string(), event.clone()]),
        command: save(vec![], true),
    });
    assert!(matches!(
        unknown,
        Err(CliError::Experience(Error::Entity(
            plotline::entity::Error::NotFound
        )))
    ));
    assert!(matches!(
        app.execute(ExperienceCommand {
            experience: None,
            command: save(vec![], true),
        }),
        Err(CliError::MissingArgument(_))
    ));
    assert!(matches!(
        app.execute(ExperienceCommand {
            experience: Some(vec![entity.clone()]),
            command: save(vec![], true),
        }),
        Err(CliError::Id(_))
    ));
    assert!(matches!(
        app.execute(ExperienceCommand {
            experience: Some(vec![entity.clone(), event.clone()]),
            command: save(vec!["bad".to_string()], false),
        }),
        Err(CliError::Id(_))
    ));
}

#[test]
fn error_messages_name_the_failure() {
    assert_eq!(
        Error::RepeatedEntity.message(),
        "an entity cannot be after of the same experience more than once"
    );
    assert_eq!(
        Error::Constraint(constraint::Error::Custom("mine")).message(),
        "mine"
    );
    assert_eq!(
        Error::Constraint(constraint::Error::Stack(vec![
            constraint::Error::SimultaneousEvents
        ]))
        .message(),
        "[SimultaneousEvents]"
    );
    assert_eq!(
        CliError::MissingArgument("experience id").message(),
        "missing argument: experience id"
    );
}

#[test]
fn command_line_has_nothing_to_run_without_subcommand() {
    let mut app = app();
    let ids = vec![Id::default().to_string(), Id::default().to_string()];
    assert!(app
        .try_execute(ExperienceCommand {
            experience: Some(ids),
            command: None,
        })
        .is_none());
    let refused = app
        .try_execute(ExperienceCommand {
            experience: Some(vec!["bad".to_string()]),
            command: None,
        })
        .unwrap();
    assert!(matches!(refused, Err(CliError::Id(_))));
    let missing = app
        .try_execute(ExperienceCommand {
            experience: None,
            command: None,
        })
        .unwrap();
    assert!(matches!(missing, Err(CliError::MissingArgument(_))));
}
