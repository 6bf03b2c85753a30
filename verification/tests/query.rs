use plotline::entity::Entity;
use plotline::event::Event;
use plotline::experience::query::{
    is_earlier, SelectCloserExperiences, SelectNextExperience, SelectPreviousExperience,
};
use plotline::experience::{Experience, ExperienceBuilder, ExperiencedEvent};
use plotline::id::Id;
use plotline::name::Name;
use plotline::period::Period;

fn event(lo: u64, hi: u64) -> Event<Period> {
    Event::new(
        Id::default(),
        Name::try_from("e".to_string()).unwrap(),
        Period::new(lo, hi),
    )
}

fn experience(event: &Event<Period>) -> Experience {
    Experience {
        entity: Id::default(),
        event: event.id,
        after: vec![],
    }
}

#[test]
fn events_are_ordered_by_their_bounds() {
    assert!(is_earlier(&event(1, 5), &event(2, 3)));
    assert!(is_earlier(&event(1, 3), &event(1, 4)));
    assert!(!is_earlier(&event(1, 4), &event(1, 4)));
    assert!(!is_earlier(&event(2, 2), &event(1, 9)));
}

#[test]
fn select_previous_and_next_take_the_closest() {
    let now = event(10, 12);
    let events = [event(1, 2), event(5, 8), event(11, 11), event(20, 21), event(14, 15)];
    let experiences: Vec<Experience> = events.iter().map(experience).collect();
    let experienced: Vec<ExperiencedEvent<Period>> = experiences
        .iter()
        .zip(events.iter())
        .map(|(experience, event)| ExperiencedEvent { experience, event })
        .collect();

    let mut previous = SelectPreviousExperience::new(&now);
    let mut next = SelectNextExperience::new(&now);
    for experienced_event in &experienced {
        previous.add(experienced_event);
        next = next.with(experienced_event);
    }
    assert!(previous.is_some());
    assert_eq!(previous.value().unwrap().event.id, events[1].id);
    // An event that ends after the given one starts comes next, the
    // earliest first.
    assert_eq!(next.value().unwrap().event.id, events[2].id);
}

#[test]
fn closer_experiences_are_the_same_however_the_slices_come() {
    let entity = Entity::new(Id::default(), Name::try_from("x".to_string()).unwrap());
    let now = event(10, 12);
    let builder = ExperienceBuilder::new(&entity, &now);
    let events = [event(1, 2), event(5, 8), event(11, 11), event(20, 21), event(14, 15)];
    let experiences: Vec<Experience> = events.iter().map(experience).collect();
    let experienced: Vec<ExperiencedEvent<Period>> = experiences
        .iter()
        .zip(events.iter())
        .map(|(experience, event)| ExperiencedEvent { experience, event })
        .collect();

    let (before, after) = SelectCloserExperiences::from_builder(&builder)
        .with_iter(&experienced)
        .result();
    assert_eq!(before.unwrap().event.id, events[1].id);
    assert_eq!(after.unwrap().event.id, events[4].id);

    let (first, second) = experienced.split_at(2);
    let (split_before, split_after) = SelectCloserExperiences::from_builder(&builder)
        .with_iter(first)
        .with_iter(second)
        .result();
    assert_eq!(split_before.unwrap().event.id, events[1].id);
    assert_eq!(split_after.unwrap().event.id, events[4].id);

    let empty: Vec<ExperiencedEvent<Period>> = vec![];
    let (none_before, none_after) = SelectCloserExperiences::from_builder(&builder)
        .with_iter(&empty)
        .result();
    assert!(none_before.is_none() && none_after.is_none());
}

#[test]
fn a_series_of_adds_keeps_the_latest_previous() {
    let now = event(10, 12);
    let events = [event(5, 8), event(1, 2), event(11, 11), event(6, 9), event(6, 7)];
    let experiences: Vec<Experience> = events.iter().map(experience).collect();
    let experienced: Vec<ExperiencedEvent<Period>> = experiences
        .iter()
        .zip(events.iter())
        .map(|(experience, event)| ExperiencedEvent { experience, event })
        .collect();

    let mut previous = SelectPreviousExperience::new(&now);
    previous.add(&experienced[0]);
    previous.add(&experienced[1]);
    previous.add(&experienced[2]);
    assert_eq!(previous.previous.unwrap().event.id, events[0].id);
    previous.add(&experienced[3]);
    previous.add(&experienced[4]);
    assert_eq!(previous.value().unwrap().event.id, events[3].id);
}
