use lazystream::{Cdn, OptError};

#[test]
fn canonical_tokens_parse() {
    assert_eq!(Cdn::from_str("akc"), Ok(Cdn::Akc));
    assert_eq!(Cdn::from_str("l3c"), Ok(Cdn::L3c));
}

#[test]
fn other_tokens_are_invalid_choices() {
    for s in ["AKC", "", "akc ", " akc", "L3C", "ak", "akcc", "l3", "xyz"] {
        assert_eq!(Cdn::from_str(s), Err(OptError::InvalidChoice), "{:?}", s);
    }
}

#[test]
fn tokens_round_trip() {
    for c in [Cdn::Akc, Cdn::L3c] {
        assert_eq!(Cdn::from_str(c.as_str()), Ok(c));
        let s: &str = c.into();
        assert_eq!(Cdn::from_str(s), Ok(c));
    }
}

#[test]
fn tokens_are_lowercase_names() {
    assert_eq!(Cdn::Akc.as_str(), "akc");
    assert_eq!(Cdn::L3c.as_str(), "l3c");
    let s: &str = Cdn::L3c.into();
    assert_eq!(s, "l3c");
}

#[test]
fn std_parse_and_default() {
    assert_eq!("l3c".parse::<Cdn>(), Ok(Cdn::L3c));
    assert_eq!("Akc".parse::<Cdn>(), Err(OptError::InvalidChoice));
    assert_eq!(Cdn::default(), Cdn::Akc);
}
