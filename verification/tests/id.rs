use plotline::id::{Error, Id};

#[test]
fn id_serde() {
    let want = Id::default();
    let yaml = serde_yaml::to_string(&want.to_string()).unwrap();
    let text: String = serde_yaml::from_str(&yaml).unwrap();
    let got = Id::try_from(text).unwrap();

    assert_eq!(got, want, "serde ends up with different values");
}

#[test]
fn id_text_is_the_hyphenated_uuid() {
    let id = Id::from_u128(0x67e5504410b1426f9247bb680e5fe0c8);
    assert_eq!(id.to_string(), "67e55044-10b1-426f-9247-bb680e5fe0c8");
    assert_eq!(id.as_u128(), 0x67e5504410b1426f9247bb680e5fe0c8);
}

#[test]
fn id_parses_back_its_text() {
    let id = Id::try_from("67e55044-10b1-426f-9247-bb680e5fe0c8".to_string()).unwrap();
    assert_eq!(id.as_u128(), 0x67e5504410b1426f9247bb680e5fe0c8);
    assert_eq!(Id::try_from(id.to_string()).unwrap(), id);
}

#[test]
fn id_refuses_what_is_not_a_uuid() {
    let result = Id::try_from("not an id".to_string());
    assert!(matches!(result, Err(Error::Uuid(_))));
    if let Err(error) = result {
        assert!(error.message().starts_with("uuid: "));
    }
}

#[test]
fn default_ids_are_random_version_four() {
    let a = Id::default();
    let b = Id::default();
    assert_ne!(a, b);
    assert_eq!((a.as_u128() >> 76) & 0xf, 4);
    assert_eq!((a.as_u128() >> 62) & 0x3, 2);
}
