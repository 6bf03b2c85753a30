use plotline::entity::Entity;
use plotline::event::Event;
use plotline::experience::constraint::ExperienceIsNotSimultaneous;
use plotline::experience::domain::{create, Constraint, ConstraintLink, ExperienceService};
use plotline::experience::{
    constraint, Error, Experience, ExperienceBuilder, ExperiencedEvent, Profile, Result,
};
use plotline::id::Id;
use plotline::name::Name;
use plotline::period::Period;

fn name(text: &str) -> Name {
    Name::try_from(text.to_string()).unwrap()
}

fn event(lo: u64, hi: u64) -> Event<Period> {
    Event::new(Id::default(), name("test"), Period::new(lo, hi))
}

fn transitive_experience() -> Experience {
    Experience {
        entity: Id::default(),
        event: Id::default(),
        after: vec![Profile::new(Id::default())],
    }
}

#[test]
fn experience_is_not_simultaneous() {
    struct Test<'a> {
        name: &'a str,
        event: Event<Period>,
        with: Vec<Event<Period>>,
        result: Result<()>,
    }

    let experience = transitive_experience();
    vec![
        Test {
            name: "experience without surroundings",
            event: event(1, 3),
            with: vec![],
            result: Ok(()),
        },
        Test {
            name: "experience with previous",
            event: event(1, 3),
            with: vec![event(0, 0)],
            result: Ok(()),
        },
        Test {
            name: "experience with previous overlapping",
            event: event(1, 3),
            with: vec![event(0, 1)],
            result: Err(Error::SimultaneousEvents),
        },
        Test {
            name: "experience with partial overlapping",
            event: event(1, 3),
            with: vec![event(2, 2)],
            result: Err(Error::SimultaneousEvents),
        },
        Test {
            name: "experience with total overlapping",
            event: event(1, 3),
            with: vec![event(1, 3)],
            result: Err(Error::SimultaneousEvents),
        },
        Test {
            name: "experience with next overlapping",
            event: event(1, 3),
            with: vec![event(3, 4)],
            result: Err(Error::SimultaneousEvents),
        },
        Test {
            name: "experience with next",
            event: event(1, 3),
            with: vec![event(4, 4)],
            result: Ok(()),
        },
    ]
    .into_iter()
    .for_each(|test| {
        let with: Vec<ExperiencedEvent<Period>> = test
            .with
            .iter()
            .map(|event| ExperiencedEvent {
                experience: &experience,
                event,
            })
            .collect();
        let constraint = ExperienceIsNotSimultaneous::new(&test.event);
        let result = with
            .iter()
            .try_fold(constraint, |constraint, experienced_event| {
                constraint.with(experienced_event)
            })
            .and_then(|constraint| constraint.result());

        assert_eq!(
            result, test.result,
            "{} got = {:?}, want = {:?}",
            test.name, result, test.result
        );
    });
}

#[test]
fn constraint_link_checks_the_previous_constraint_first() {
    let experience = transitive_experience();
    let first = event(1, 3);
    let second = event(10, 12);
    let other = event(2, 2);
    let with = vec![ExperiencedEvent {
        experience: &experience,
        event: &other,
    }];
    let link = ConstraintLink::new(ExperienceIsNotSimultaneous::new(&second))
        .chain(ExperienceIsNotSimultaneous::new(&first));
    let link = link.with(&with[0]).ok().unwrap();
    assert!(link.previous.is_some());
    assert_eq!(link.result(), Err(Error::SimultaneousEvents));

    let link = ConstraintLink::new(()).chain(ExperienceIsNotSimultaneous::new(&second));
    assert_eq!(link.with(&with[0]).ok().unwrap().result(), Ok(()));
}

fn entity() -> Entity {
    Entity::new(Id::default(), name("someone"))
}

#[test]
fn create_gives_the_experience_of_the_builder() {
    let entity = entity();
    let caused_by = event(5, 6);
    let other = Id::default();
    let created = create(
        ExperienceBuilder::new(&entity, &caused_by).with_after(Some(vec![Profile::new(other)])),
        &[],
    )
    .unwrap();
    assert_eq!(created.entity, entity.id);
    assert_eq!(created.event, caused_by.id);
    assert_eq!(created.after.len(), 1);
    assert_eq!(created.after[0].entity, other);
}

#[test]
fn create_refuses_repeated_entities() {
    let entity = entity();
    let caused_by = event(5, 6);
    let other = Id::default();
    let result = create(
        ExperienceBuilder::new(&entity, &caused_by)
            .with_after(Some(vec![Profile::new(other), Profile::new(other)])),
        &[],
    );
    assert!(matches!(result, Err(Error::RepeatedEntity)));
}

#[test]
fn create_takes_the_profile_after_the_previous_experience() {
    let entity = entity();
    let previous_event = event(1, 2);
    let previous = Experience {
        entity: Id::default(),
        event: previous_event.id,
        after: vec![Profile::new(entity.id), Profile::new(Id::default())],
    };
    let experienced = vec![ExperiencedEvent {
        experience: &previous,
        event: &previous_event,
    }];
    let caused_by = event(5, 6);
    let created = create(ExperienceBuilder::new(&entity, &caused_by), &experienced).unwrap();
    assert_eq!(created.after.len(), 1);
    assert_eq!(created.after[0].entity, entity.id);
}

#[test]
fn create_reports_the_first_rule_broken() {
    let entity = entity();
    let terminal = Experience {
        entity: entity.id,
        event: Id::default(),
        after: vec![],
    };
    let overlapping = event(4, 5);
    let later = event(9, 9);
    let caused_by = event(5, 6);

    let experienced = vec![ExperiencedEvent {
        experience: &terminal,
        event: &overlapping,
    }];
    let result = create(
        ExperienceBuilder::new(&entity, &caused_by).with_after(Some(vec![])),
        &experienced,
    );
    assert!(matches!(
        result,
        Err(Error::Constraint(constraint::Error::SimultaneousEvents))
    ));

    let experienced = vec![ExperiencedEvent {
        experience: &terminal,
        event: &later,
    }];
    let result = create(
        ExperienceBuilder::new(&entity, &caused_by).with_after(Some(vec![])),
        &experienced,
    );
    assert!(matches!(
        result,
        Err(Error::Constraint(constraint::Error::TerminalPrecedesTerminal))
    ));

    let earlier = event(1, 1);
    let someone_else = Experience {
        entity: Id::default(),
        event: earlier.id,
        after: vec![Profile::new(Id::default())],
    };
    let experienced = vec![ExperiencedEvent {
        experience: &someone_else,
        event: &earlier,
    }];
    let result = ExperienceService::create_experience(
        ExperienceBuilder::new(&entity, &caused_by).with_after(Some(vec![Profile::new(entity.id)])),
        &experienced,
    );
    assert!(matches!(
        result,
        Err(Error::Constraint(constraint::Error::NotInPreviousExperience))
    ));
}
