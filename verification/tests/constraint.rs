use plotline::entity::Entity;
use plotline::event::Event;
use plotline::experience::constraint::{
    Constraint, Error, ExperienceBelongsToOneOfPrevious, ExperienceIsNotSimultaneous,
    ExperienceKindFollowsPrevious, ExperienceKindPrecedesNext, InhibitableConstraint,
    LiFoConstraintChain, PoisonError, Result,
};
use plotline::experience::{Experience, ExperienceBuilder, ExperiencedEvent, Profile};
use plotline::id::Id;
use plotline::name::Name;
use plotline::period::Period;

fn name(text: &str) -> Name {
    Name::try_from(text.to_string()).unwrap()
}

fn entity_fixture() -> Entity {
    Entity::new(Id::default(), name("fixture"))
}

fn event_fixture(lo: u64, hi: u64) -> Event<Period> {
    Event::new(Id::default(), name("fixture"), Period::new(lo, hi))
}

fn transitive_experience() -> Experience {
    Experience {
        entity: Id::default(),
        event: Id::default(),
        after: vec![Profile::new(Id::default())],
    }
}

fn terminal_experience() -> Experience {
    Experience {
        entity: Id::default(),
        event: Id::default(),
        after: Vec::default(),
    }
}

fn transitive_experience_of(entity: Id) -> Experience {
    let mut initial = transitive_experience();
    initial
        .after
        .iter_mut()
        .for_each(|profile| profile.entity = entity);
    initial
}

/// Folds the constraint over the experienced events, one after the other,
/// and returns its veredict.
fn verdict<'a, C: Constraint<'a, Period>>(
    constraint: C,
    with: &'a [ExperiencedEvent<'a, Period>],
) -> Result<()> {
    with.iter()
        .try_fold(constraint, |constraint, experienced_event| {
            constraint.with(experienced_event)
        })
        .map_err(Into::into)
        .and_then(|constraint| constraint.result())
}

struct Case<'a> {
    name: &'a str,
    entity: Entity,
    after: Option<Vec<Profile>>,
    with: Vec<(Experience, Event<Period>)>,
    result: Result<()>,
}

fn run_belongs(case: Case) {
    let event = event_fixture(1, 1);
    let experience = ExperienceBuilder::new(&case.entity, &event)
        .with_after(case.after)
        .build()
        .unwrap();
    let experienced_event = ExperiencedEvent {
        experience: &experience,
        event: &event,
    };
    let with: Vec<ExperiencedEvent<Period>> = case
        .with
        .iter()
        .map(|(experience, event)| ExperiencedEvent { experience, event })
        .collect();
    let result = verdict(ExperienceBelongsToOneOfPrevious::new(&experienced_event), &with);
    assert_eq!(
        result, case.result,
        "{} got = {:?}, want {:?}",
        case.name, result, case.result
    );
}

fn run_precedes(case: Case) {
    let event = event_fixture(1, 1);
    let experience = ExperienceBuilder::new(&case.entity, &event)
        .with_after(case.after)
        .build()
        .unwrap();
    let experienced_event = ExperiencedEvent {
        experience: &experience,
        event: &event,
    };
    let with: Vec<ExperiencedEvent<Period>> = case
        .with
        .iter()
        .map(|(experience, event)| ExperiencedEvent { experience, event })
        .collect();
    let result = verdict(ExperienceKindPrecedesNext::new(&experienced_event), &with);
    assert_eq!(
        result, case.result,
        "{} got = {:?}, want {:?}",
        case.name, result, case.result
    );
}

#[test]
fn experience_belongs_to_one_of_previous_experience_belongs_to_one_of_previous() {
    let const_id = Id::default();
    let test_event = || Event::new(Id::default(), name("test"), Period::new(0, 0));

    vec![
        // transitive
        Case {
            name: "transitive without previous experience",
            entity: entity_fixture(),
            after: Some(vec![Profile::new(Id::default())]),
            with: vec![],
            result: Ok(()),
        },
        Case {
            name: "transitive belongs to non-terminal previous experience",
            entity: Entity::new(const_id, name("fixture")),
            after: Some(vec![Profile::new(const_id)]),
            with: vec![(transitive_experience_of(const_id), test_event())],
            result: Ok(()),
        },
        Case {
            name: "transitive does not belong to non-terminal previous experience",
            entity: entity_fixture(),
            after: Some(vec![Profile::new(Id::default())]),
            with: vec![(transitive_experience(), test_event())],
            result: Err(Error::NotInPreviousExperience),
        },
        Case {
            name: "transitive with terminal previous experience",
            entity: entity_fixture(),
            after: Some(vec![Profile::new(Id::default())]),
            with: vec![(terminal_experience(), event_fixture(0, 0))],
            result: Ok(()),
        },
        // terminal
        Case {
            name: "terminal without previous experience",
            entity: entity_fixture(),
            after: None,
            with: vec![],
            result: Ok(()),
        },
        Case {
            name: "terminal belongs to non-terminal previous experience",
            entity: Entity::new(const_id, name("fixture")),
            after: None,
            with: vec![(transitive_experience_of(const_id), test_event())],
            result: Ok(()),
        },
        Case {
            name: "terminal does not belong to non-terminal previous experience",
            entity: entity_fixture(),
            after: None,
            with: vec![(transitive_experience(), test_event())],
            result: Err(Error::NotInPreviousExperience),
        },
        Case {
            name: "terminal with terminal previous experience",
            entity: entity_fixture(),
            after: None,
            with: vec![(terminal_experience(), event_fixture(0, 0))],
            result: Ok(()),
        },
    ]
    .into_iter()
    .for_each(run_belongs);
}

#[test]
fn experience_kind_precedes_next_experience_kind_precedes_next() {
    vec![
        // transitive
        Case {
            name: "transitive without next experience",
            entity: entity_fixture(),
            after: Some(vec![Profile::new(Id::default())]),
            with: vec![],
            result: Ok(()),
        },
        Case {
            name: "transitive with transitive next experience",
            entity: entity_fixture(),
            after: Some(vec![Profile::new(Id::default())]),
            with: vec![(transitive_experience(), event_fixture(2, 2))],
            result: Ok(()),
        },
        Case {
            name: "transitive with terminal next experience",
            entity: entity_fixture(),
            after: Some(vec![Profile::new(Id::default())]),
            with: vec![(terminal_experience(), event_fixture(2, 2))],
            result: Ok(()),
        },
        // terminal
        Case {
            name: "terminal without next experience",
            entity: entity_fixture(),
            after: None,
            with: vec![],
            result: Ok(()),
        },
        Case {
            name: "terminal with transitive next experience",
            entity: entity_fixture(),
            after: None,
            with: vec![(transitive_experience(), event_fixture(2, 2))],
            result: Ok(()),
        },
        Case {
            name: "terminal with terminal next experience",
            entity: entity_fixture(),
            after: None,
            with: vec![(terminal_experience(), event_fixture(2, 2))],
            result: Err(Error::TerminalPrecedesTerminal),
        },
    ]
    .into_iter()
    .for_each(run_precedes);
}

#[test]
fn experience_kind_follows_previous_refuses_terminal_after_terminal() {
    let entity = entity_fixture();
    let event = event_fixture(5, 5);
    let terminal = ExperienceBuilder::new(&entity, &event).build().unwrap();
    let experienced_event = ExperiencedEvent {
        experience: &terminal,
        event: &event,
    };
    let previous = terminal_experience();
    let previous_event = event_fixture(1, 1);
    let with = vec![ExperiencedEvent {
        experience: &previous,
        event: &previous_event,
    }];
    assert_eq!(
        verdict(ExperienceKindFollowsPrevious::new(&experienced_event), &with),
        Err(Error::TerminalFollowsTerminal)
    );

    let transitive = transitive_experience();
    let with = vec![ExperiencedEvent {
        experience: &transitive,
        event: &previous_event,
    }];
    assert_eq!(
        verdict(ExperienceKindFollowsPrevious::new(&experienced_event), &with),
        Ok(())
    );
    // A terminal experience that comes after is no previous one.
    let later_event = event_fixture(7, 7);
    let with = vec![ExperiencedEvent {
        experience: &previous,
        event: &later_event,
    }];
    assert_eq!(
        verdict(ExperienceKindFollowsPrevious::new(&experienced_event), &with),
        Ok(())
    );
}

#[test]
fn experience_is_not_simultaneous_refuses_intersecting_events() {
    let entity = entity_fixture();
    let event = event_fixture(1, 3);
    let experience = ExperienceBuilder::new(&entity, &event).build().unwrap();
    let _ = ExperiencedEvent {
        experience: &experience,
        event: &event,
    };
    let other = transitive_experience();
    for (lo, hi, result) in [
        (0, 0, Ok(())),
        (0, 1, Err(Error::SimultaneousEvents)),
        (2, 2, Err(Error::SimultaneousEvents)),
        (3, 4, Err(Error::SimultaneousEvents)),
        (4, 4, Ok(())),
    ] {
        let other_event = event_fixture(lo, hi);
        let with = vec![ExperiencedEvent {
            experience: &other,
            event: &other_event,
        }];
        assert_eq!(
            verdict(ExperienceIsNotSimultaneous::new(&event), &with),
            result,
            "[{lo}, {hi}]"
        );
    }
}

/// A constraint that fails with the given error on every experienced event.
fn failing_chain<'a>(
    experienced_event: &'a ExperiencedEvent<'a, Period>,
) -> LiFoConstraintChain<
    LiFoConstraintChain<(), ExperienceIsNotSimultaneous<'a, Period>>,
    ExperienceKindPrecedesNext<'a, Period>,
> {
    LiFoConstraintChain::new(ExperienceIsNotSimultaneous::new(experienced_event.event))
        .chain(ExperienceKindPrecedesNext::new(experienced_event))
}

#[test]
fn chain_reports_the_last_constraint_first() {
    let entity = entity_fixture();
    let event = event_fixture(1, 3);
    let experience = ExperienceBuilder::new(&entity, &event).build().unwrap();
    let experienced_event = ExperiencedEvent {
        experience: &experience,
        event: &event,
    };
    let next = terminal_experience();
    let next_event = event_fixture(2, 5);
    let with = vec![ExperiencedEvent {
        experience: &next,
        event: &next_event,
    }];
    // Both constraints fail: the last chained one is reported.
    assert_eq!(
        verdict(failing_chain(&experienced_event), &with),
        Err(Error::TerminalPrecedesTerminal)
    );
    // Inhibiting it lets the head report its own failure.
    let chain = LiFoConstraintChain::new(ExperienceIsNotSimultaneous::new(&event)).chain(
        InhibitableConstraint::new(ExperienceKindPrecedesNext::new(&experienced_event))
            .with_inhibitor(Error::TerminalPrecedesTerminal),
    );
    assert_eq!(verdict(chain, &with), Err(Error::SimultaneousEvents));
}

#[test]
fn inhibitable_constraint_hides_its_inhibited_errors_only() {
    let entity = entity_fixture();
    let event = event_fixture(1, 3);
    let experience = ExperienceBuilder::new(&entity, &event).build().unwrap();
    let other = transitive_experience();
    let other_event = event_fixture(2, 2);
    let with = vec![ExperiencedEvent {
        experience: &other,
        event: &other_event,
    }];
    let _ = &experience;
    let inhibited = InhibitableConstraint::new(ExperienceIsNotSimultaneous::new(&event))
        .with_inhibitor(Error::SimultaneousEvents);
    assert_eq!(verdict(inhibited, &with), Ok(()));
    let not_inhibited = InhibitableConstraint::new(ExperienceIsNotSimultaneous::new(&event))
        .with_inhibitor(Error::TerminalFollowsTerminal)
        .with_inhibitor(Error::Custom("another"));
    assert_eq!(verdict(not_inhibited, &with), Err(Error::SimultaneousEvents));
    let nothing = InhibitableConstraint::new(ExperienceIsNotSimultaneous::new(&event));
    assert!(nothing.inhibitors.is_empty());
}

#[test]
fn errors_push_into_flat_stacks() {
    assert_eq!(
        Error::NotInPreviousExperience.push(Error::SimultaneousEvents),
        Error::Stack(vec![Error::NotInPreviousExperience, Error::SimultaneousEvents])
    );
    assert_eq!(
        Error::Stack(vec![Error::NotInPreviousExperience])
            .push(Error::Stack(vec![Error::SimultaneousEvents, Error::Custom("x")])),
        Error::Stack(vec![
            Error::NotInPreviousExperience,
            Error::SimultaneousEvents,
            Error::Custom("x")
        ])
    );
    assert_eq!(
        Error::Custom("a").push(Error::Stack(vec![Error::TerminalFollowsTerminal])),
        Error::Stack(vec![Error::Custom("a"), Error::TerminalFollowsTerminal])
    );
    assert_eq!(
        Error::Stack(vec![Error::TerminalPrecedesTerminal]).push(Error::SimultaneousEvents),
        Error::Stack(vec![Error::TerminalPrecedesTerminal, Error::SimultaneousEvents])
    );
}

#[test]
fn errors_compare_by_content() {
    assert!(Error::Custom("a").same_as(&Error::Custom("a")));
    assert!(!Error::Custom("a").same_as(&Error::Custom("b")));
    assert!(Error::Stack(vec![Error::SimultaneousEvents])
        .same_as(&Error::Stack(vec![Error::SimultaneousEvents])));
    assert!(!Error::Stack(vec![Error::SimultaneousEvents])
        .same_as(&Error::Stack(vec![Error::SimultaneousEvents, Error::SimultaneousEvents])));
    assert!(!Error::SimultaneousEvents.same_as(&Error::NotInPreviousExperience));
}

#[test]
fn poison_error_gives_back_its_guard() {
    let poison = PoisonError::new(7u8, Error::SimultaneousEvents);
    assert_eq!(poison.cause, Error::SimultaneousEvents);
    assert_eq!(poison.into_inner(), 7);
    let error: Error = PoisonError::new((), Error::Custom("why")).into();
    assert_eq!(error, Error::Custom("why"));
}

#[test]
fn chain_without_early_stop_stacks_errors() {
    let chain = LiFoConstraintChain::new(()).with_early(false);
    assert!(!chain.early);
    assert!(LiFoConstraintChain::new(()).early);
}

