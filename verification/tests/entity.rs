use plotline::cli::CliError;
use plotline::entity::application::{EntityApplication, FindEntity, SaveEntity};
use plotline::entity::cli::{EntityCommand, EntityRemoveArgs, EntitySaveArgs, EntitySubCommand};
use plotline::entity::fmt::{pad, EntityFmt};
use plotline::entity::{Entity, EntityFilter, EntityRepository, Error, InMemoryEntityRepository};
use plotline::id::Id;
use plotline::name::Name;

fn name(text: &str) -> Name {
    Name::try_from(text.to_string()).unwrap()
}

fn app() -> EntityApplication<InMemoryEntityRepository> {
    EntityApplication {
        entity_repo: InMemoryEntityRepository::new(),
    }
}

#[test]
fn entity_repository_gives_back_what_was_kept() {
    let mut repo = InMemoryEntityRepository::new();
    let entity = Entity::new(Id::default(), name("alice"));
    assert_eq!(repo.create(&entity), Ok(()));
    let found = repo.find(entity.id).unwrap();
    assert_eq!(found.id, entity.id);
    assert_eq!(found.name, entity.name);
    assert_eq!(repo.create(&entity), Err(Error::AlreadyExists));
    assert_eq!(repo.find(Id::default()).err(), Some(Error::NotFound));

    let renamed = Entity::new(entity.id, name("bob"));
    assert_eq!(repo.update(&renamed), Ok(()));
    assert_eq!(repo.find(entity.id).unwrap().name, name("bob"));
    assert_eq!(
        repo.update(&Entity::new(Id::default(), name("x"))),
        Err(Error::NotFound)
    );

    assert_eq!(repo.delete(entity.id), Ok(()));
    assert_eq!(repo.delete(entity.id), Err(Error::NotFound));
    assert!(repo.all().is_empty());
}

#[test]
fn filter_keeps_the_matching_entities() {
    let mut repo = InMemoryEntityRepository::new();
    let a = Entity::new(Id::default(), name("same"));
    let b = Entity::new(Id::default(), name("same"));
    let c = Entity::new(Id::default(), name("other"));
    for entity in [&a, &b, &c] {
        repo.create(entity).unwrap();
    }
    let same = repo
        .filter(&EntityFilter::default().with_name(Some(name("same"))))
        .unwrap();
    assert_eq!(same.len(), 2);
    let by_id = repo
        .filter(&EntityFilter::default().with_id(Some(c.id)))
        .unwrap();
    assert_eq!(by_id.len(), 1);
    assert_eq!(by_id[0].name, name("other"));
    assert_eq!(repo.filter(&EntityFilter::default()).unwrap().len(), 3);
    assert!(EntityFilter::default().with_id(Some(a.id)).filter(&a));
    assert!(!EntityFilter::default().with_id(Some(a.id)).filter(&b));
}

#[test]
fn find_entity_wants_exactly_one() {
    let mut app = app();
    let first = app
        .create_entity(name("twin"))
        .execute(&mut app.entity_repo)
        .unwrap();
    let query = |filter: EntityFilter, app: &EntityApplication<InMemoryEntityRepository>| {
        app.find_entity().with_filter(filter).execute(&app.entity_repo)
    };
    let found = query(EntityFilter::default().with_id(Some(first.id)), &app).unwrap();
    assert_eq!(found.id, first.id);
    app.create_entity(name("twin"))
        .execute(&mut app.entity_repo)
        .unwrap();
    assert_eq!(
        query(EntityFilter::default().with_name(Some(name("twin"))), &app).err(),
        Some(Error::MoreThanOne)
    );
    assert_eq!(
        query(EntityFilter::default().with_name(Some(name("none"))), &app).err(),
        Some(Error::NotFound)
    );
}

#[test]
fn save_entity_creates_or_renames() {
    let mut app = app();
    let id = Id::default();
    let saved = app
        .save_entity(id, name("first"))
        .execute(&mut app.entity_repo)
        .unwrap();
    assert_eq!(saved.id, id);
    let renamed = app
        .save_entity(id, name("second"))
        .execute(&mut app.entity_repo)
        .unwrap();
    assert_eq!(renamed.name, name("second"));
    assert_eq!(app.list().execute(&app.entity_repo).unwrap().len(), 1);
    assert_eq!(
        app.filter_entities().execute(&app.entity_repo).unwrap().len(),
        1
    );
    assert_eq!(
        app.remove_entity(id).execute(&mut app.entity_repo),
        Ok(())
    );
    assert_eq!(
        app.remove_entity(id).execute(&mut app.entity_repo),
        Err(Error::NotFound)
    );
}

#[test]
fn create_entity_refuses_a_taken_id() {
    let mut app = app();
    let id = Id::default();
    let created = app
        .create_entity(name("one"))
        .with_id(Some(id))
        .execute(&mut app.entity_repo)
        .unwrap();
    assert_eq!(created.id, id);
    assert_eq!(
        app.create_entity(name("two"))
            .with_id(Some(id))
            .execute(&mut app.entity_repo)
            .err(),
        Some(Error::AlreadyExists)
    );
}

#[test]
fn layouts_pad_their_fields() {
    assert_eq!(pad("ab", 4), "ab  ");
    assert_eq!(pad("abcdef", 4), "abcdef");
    assert_eq!(EntityFmt::headers(), format!("{:<15} {:<40}", "NAME", "UUID"));
    let id = Id::from_u128(1);
    let entity = Entity::new(id, name("alice"));
    assert_eq!(
        EntityFmt::row(&entity).to_string(),
        format!("{:<15} {:<40}\n", "alice", "00000000-0000-0000-0000-000000000001")
    );
    assert_eq!(
        EntityFmt::column(&entity).to_string(),
        format!(
            "{:<10} alice\n{:<10} 00000000-0000-0000-0000-000000000001\n",
            "NAME", "UUID"
        )
    );
}

#[test]
fn command_line_saves_lists_shows_and_removes() {
    let mut app = app();
    let id = "67e55044-10b1-426f-9247-bb680e5fe0c8".to_string();
    let saved = app
        .execute(EntityCommand {
            entity: Some(id.clone()),
            command: Some(EntitySubCommand::Save(EntitySaveArgs {
                name: "alice".to_string(),
            })),
        })
        .ok()
        .unwrap();
    assert_eq!(saved.out, format!("{id}\n"));
    assert_eq!(saved.err, "");

    let shown = app
        .execute(EntityCommand {
            entity: Some(id.clone()),
            command: None,
        })
        .ok()
        .unwrap();
    assert_eq!(
        shown.out,
        format!("{:<10} alice\n{:<10} {id}\n", "NAME", "UUID")
    );

    let listed = app
        .execute(EntityCommand {
            entity: None,
            command: None,
        })
        .ok()
        .unwrap();
    assert_eq!(
        listed.out,
        format!("{:<15} {:<40}\n{:<15} {:<40}\n", "NAME", "UUID", "alice", id)
    );

    let removed = app
        .execute(EntityCommand {
            entity: None,
            command: Some(EntitySubCommand::Remove(EntityRemoveArgs {
                ids: vec![id.clone(), "not an id".to_string(), id.clone()],
            })),
        })
        .ok()
        .unwrap();
    assert_eq!(removed.out, format!("{id}\n"));
    assert!(removed.err.starts_with("uuid: "));
    assert!(removed.err.ends_with("entity not found\n"));
    assert!(app.entity_repo.all().is_empty());
}

#[test]
fn command_line_refuses_bad_ids_and_names() {
    let mut app = app();
    let bad_id = app.execute(EntityCommand {
        entity: Some("nope".to_string()),
        command: None,
    });
    assert!(matches!(bad_id, Err(CliError::Id(_))));
    let bad_name = app.execute(EntityCommand {
        entity: None,
        command: Some(EntitySubCommand::Save(EntitySaveArgs {
            name: "two words".to_string(),
        })),
    });
    assert!(matches!(bad_name, Err(CliError::Name(_))));
    let missing = app.execute(EntityCommand {
        entity: Some(Id::default().to_string()),
        command: None,
    });
    assert!(matches!(missing, Err(CliError::Entity(Error::NotFound))));
    let not_there = app
        .execute(EntityCommand {
            entity: Some(Id::default().to_string()),
            command: Some(EntitySubCommand::Remove(EntityRemoveArgs { ids: vec![] })),
        })
        .ok()
        .unwrap();
    assert_eq!(not_there.out, "");
    assert_eq!(not_there.err, "entity not found\n");
}

#[test]
fn find_takes_exactly_one_of_what_the_filter_gave() {
    let entity = Entity::new(Id::default(), name("one"));
    assert_eq!(
        FindEntity::pick_one(Ok(vec![])).err(),
        Some(Error::NotFound)
    );
    assert_eq!(
        FindEntity::pick_one(Ok(vec![entity.clone(), entity.clone()])).err(),
        Some(Error::MoreThanOne)
    );
    assert_eq!(
        FindEntity::pick_one(Ok(vec![entity.clone()])).unwrap().id,
        entity.id
    );
    assert_eq!(
        FindEntity::pick_one(Err(Error::AlreadyExists)).err(),
        Some(Error::AlreadyExists)
    );
    assert_eq!(SaveEntity::after_find(Ok(entity)), Ok(true));
    assert_eq!(SaveEntity::after_find(Err(Error::NotFound)), Ok(false));
    assert_eq!(
        SaveEntity::after_find(Err(Error::MoreThanOne)),
        Err(Error::MoreThanOne)
    );
}

#[test]
fn removing_several_reports_each_failure() {
    let mut app = app();
    let kept = Id::default();
    app.entity_repo
        .create(&Entity::new(kept, name("kept")))
        .unwrap();
    let missing = Id::default();
    let removed = app
        .execute(EntityCommand {
            entity: None,
            command: Some(EntitySubCommand::Remove(EntityRemoveArgs {
                ids: vec![
                    missing.to_string(),
                    kept.to_string(),
                    "x".to_string(),
                ],
            })),
        })
        .ok()
        .unwrap();
    assert_eq!(removed.out, format!("{}\n", kept.to_string()));
    let lines: Vec<&str> = removed.err.lines().collect();
    assert_eq!(lines.len(), 2);
    assert_eq!(lines[0], "entity not found");
    assert!(lines[1].starts_with("uuid: "));
}
