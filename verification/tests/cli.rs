use plotline::cli::CliError;
use plotline::experience::constraint;
use plotline::{entity, event, experience, id, name, period};

#[test]
fn every_command_error_has_its_message() {
    let cases: Vec<(CliError, &str)> = vec![
        (CliError::Entity(entity::Error::NotFound), "entity not found"),
        (CliError::Name(name::Error::NotAName), "invalid name"),
        (
            CliError::Id(id::Error::Uuid("bad length".to_string())),
            "uuid: bad length",
        ),
        (CliError::Event(event::Error::EmptyName), "an event name cannot be empty"),
        (
            CliError::Experience(experience::Error::NotFound),
            "experience not found",
        ),
        (CliError::Io("disk full".to_string()), "disk full"),
        (
            CliError::Period(period::Error::NotANumber("invalid digit".to_string())),
            "invalid digit",
        ),
        (
            CliError::Period(period::Error::WrongCount),
            "an interval takes one bound or two",
        ),
        (CliError::ParseIntError("too big".to_string()), "too big"),
        (CliError::MissingArgument("name"), "missing argument: name"),
    ];
    for (error, text) in cases {
        assert_eq!(error.message(), text);
    }
}

#[test]
fn wrapped_errors_pass_on_their_message() {
    assert_eq!(
        event::Error::Entity(entity::Error::AlreadyExists).message(),
        "entity already exists"
    );
    assert_eq!(
        event::Error::Id(id::Error::Uuid("x".to_string())).message(),
        "uuid: x"
    );
    assert_eq!(
        experience::Error::Entity(entity::Error::MoreThanOne).message(),
        "more than one entity matches"
    );
    assert_eq!(
        experience::Error::Event(event::Error::NotFound).message(),
        "event not found"
    );
    assert_eq!(
        experience::Error::Constraint(constraint::Error::SimultaneousEvents).message(),
        "an entity cannot experience simultaneous events"
    );
    assert_eq!(
        experience::Error::Constraint(constraint::Error::Custom("kind mismatch")).message(),
        "kind mismatch"
    );
    assert_eq!(
        CliError::Experience(experience::Error::Event(event::Error::Entity(
            entity::Error::NotFound
        )))
        .message(),
        "entity not found"
    );
}
