use plotline::cli::CliError;
use plotline::event::cli::{EventCommand, EventSaveArgs, EventSubCommand};
use plotline::event::{Error, Event, EventApplication, EventRepository, InMemoryEventRepository};
use plotline::id::Id;
use plotline::name::Name;
use plotline::period::{self, Period};

fn name(text: &str) -> Name {
    Name::try_from(text.to_string()).unwrap()
}

fn app() -> EventApplication<InMemoryEventRepository<Period>> {
    EventApplication {
        event_repo: InMemoryEventRepository::new(),
    }
}

#[test]
fn event_repository_gives_back_what_was_kept() {
    let mut repo: InMemoryEventRepository<Period> = InMemoryEventRepository::new();
    let event = Event::new(Id::default(), name("battle"), Period::new(1, 2));
    assert_eq!(repo.create(&event), Ok(()));
    assert_eq!(repo.create(&event), Err(Error::AlreadyExists));
    let found = repo.find(event.id).unwrap();
    assert_eq!(found.interval, Period::new(1, 2));
    let moved = Event::new(event.id, name("battle"), Period::new(3, 4));
    assert_eq!(repo.update(&moved), Ok(()));
    assert_eq!(repo.find(event.id).unwrap().interval, Period::new(3, 4));
    assert_eq!(repo.find(Id::default()).err(), Some(Error::NotFound));
    assert_eq!(repo.all().len(), 1);
}

#[test]
fn save_event_needs_a_name_and_an_interval_to_create() {
    let mut app = app();
    let id = Id::default();
    assert_eq!(
        app.save_event(id).execute(&mut app.event_repo),
        Err(Error::EmptyName)
    );
    assert_eq!(
        app.save_event(id)
            .with_name(Some(name("party")))
            .execute(&mut app.event_repo),
        Err(Error::EmptyInterval)
    );
    assert_eq!(
        app.save_event(id)
            .with_name(Some(name("party")))
            .with_interval(Some(Period::new(5, 7)))
            .execute(&mut app.event_repo),
        Ok(())
    );
    assert_eq!(
        app.save_event(id)
            .with_interval(Some(Period::new(6, 9)))
            .execute(&mut app.event_repo),
        Ok(())
    );
    let kept = app.event_repo.find(id).unwrap();
    assert_eq!(kept.name, name("party"));
    assert_eq!(kept.interval, Period::new(6, 9));
}

#[test]
fn period_reads_one_bound_or_two() {
    assert_eq!(
        Period::try_from(vec!["3".to_string()]),
        Ok(Period::new(3, 3))
    );
    assert_eq!(
        Period::try_from(vec!["3".to_string(), "8".to_string()]),
        Ok(Period::new(3, 8))
    );
    assert_eq!(Period::try_from(vec![]), Err(period::Error::WrongCount));
    assert_eq!(
        Period::try_from(vec!["1".to_string(), "2".to_string(), "3".to_string()]),
        Err(period::Error::WrongCount)
    );
    assert!(matches!(
        Period::try_from(vec!["x".to_string()]),
        Err(period::Error::NotANumber(_))
    ));
    assert!(matches!(
        Period::try_from(vec!["1".to_string(), "-2".to_string()]),
        Err(period::Error::NotANumber(_))
    ));
}

#[test]
fn period_bounds_are_decimal_numbers_that_fit_in_u64() {
    assert_eq!(
        Period::try_from(vec!["+7".to_string(), "007".to_string()]),
        Ok(Period::new(7, 7))
    );
    assert_eq!(
        Period::try_from(vec!["18446744073709551615".to_string()]),
        Ok(Period::new(u64::MAX, u64::MAX))
    );
    for text in ["18446744073709551616", "+", "", " 1", "1_000", "++1"] {
        assert!(matches!(
            Period::try_from(vec![text.to_string()]),
            Err(period::Error::NotANumber(_))
        ));
    }
}

#[test]
fn command_line_saves_events() {
    let mut app = app();
    let id = "67e55044-10b1-426f-9247-bb680e5fe0c8".to_string();
    let saved = app
        .execute(EventCommand {
            event: Some(id.clone()),
            command: Some(EventSubCommand::Save(EventSaveArgs {
                name: Some("war".to_string()),
                interval: Some(vec!["10".to_string(), "20".to_string()]),
                entities: None,
            })),
        })
        .ok()
        .unwrap();
    assert_eq!(saved.out, format!("{id}\n"));
    let kept = app
        .event_repo
        .find(Id::try_from(id.clone()).unwrap())
        .unwrap();
    assert_eq!(kept.interval, Period::new(10, 20));
    assert_eq!(kept.name, name("war"));

    let nothing = app
        .execute(EventCommand {
            event: Some(id.clone()),
            command: None,
        })
        .ok()
        .unwrap();
    assert_eq!(nothing.out, "");
}

#[test]
fn event_command_line_refuses_what_is_not_valid() {
    let mut app = app();
    let save = |name: Option<&str>, interval: Option<Vec<&str>>| {
        EventCommand {
            event: None,
            command: Some(EventSubCommand::Save(EventSaveArgs {
                name: name.map(str::to_string),
                interval: interval.map(|bounds| bounds.into_iter().map(str::to_string).collect()),
                entities: None,
            })),
        }
    };
    assert!(matches!(
        app.execute(save(Some("two words"), None)),
        Err(CliError::Name(_))
    ));
    assert!(matches!(
        app.execute(save(Some("ok"), Some(vec!["a"]))),
        Err(CliError::Period(_))
    ));
    assert!(matches!(
        app.execute(save(Some("ok"), None)),
        Err(CliError::Event(Error::EmptyInterval))
    ));
    assert!(matches!(
        app.execute(EventCommand {
            event: Some("bad".to_string()),
            command: None
        }),
        Err(CliError::Id(_))
    ));
    assert!(app.event_repo.all().is_empty());
}
