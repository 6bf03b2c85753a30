use plotline::name::{is_invalid_char, Error, Name};

#[test]
fn name_from_string() {
    struct Test<'a> {
        name: &'a str,
        entity_name: &'a str,
        must_fail: bool,
    }

    vec![
        Test {
            name: "An emty string is not a valid name",
            entity_name: "",
            must_fail: true,
        },
        Test {
            name: "An string with line feed is not a valid name",
            entity_name: "entity\nname",
            must_fail: true,
        },
        Test {
            name: "An string with carreiage return is not a valid name",
            entity_name: "entity\rname",
            must_fail: true,
        },
        Test {
            name: "An string with carreiage return plus line feed is not a valid name",
            entity_name: "entity\r\nname",
            must_fail: true,
        },
        Test {
            name: "A multi word single line string is not a valid name",
            entity_name: "abc 123#[]-_*&^",
            must_fail: true,
        },
        Test {
            name: "A single word string is a valid name",
            entity_name: "abc123#[]-_*&^",
            must_fail: false,
        },
    ]
    .into_iter()
    .for_each(|test| {
        let result = Name::try_from(test.entity_name.to_string());
        assert_eq!(result.is_err(), test.must_fail, "{}", test.name);

        match result {
            Ok(tag) => assert_eq!(tag.as_ref(), test.entity_name, "{}", test.name),
            Err(err) => assert!(matches!(err, Error::NotAName), "{}", test.name),
        }
    });
}

#[test]
fn invalid_chars_are_blanks_and_line_breaks() {
    assert!(is_invalid_char('\n'));
    assert!(is_invalid_char('\r'));
    assert!(is_invalid_char(' '));
    assert!(!is_invalid_char('a'));
    assert!(!is_invalid_char('\t'));
}

#[test]
fn names_compare_by_text() {
    let a = Name::try_from("alpha".to_string()).unwrap();
    let b = Name::try_from("alpha".to_string()).unwrap();
    let c = Name::try_from("beta".to_string()).unwrap();
    assert_eq!(a, b);
    assert_ne!(a, c);
    assert_eq!(a.to_string(), "alpha");
    assert_eq!(a.clone(), a);
    assert_eq!(Error::NotAName.message(), "invalid name");
}
