use lazystream::{
    parse_channel, resolve_mode, Cdn, Date, Opt, OptError, OutputType,
    DEFAULT_XMLTV_START_CHANNEL,
};

fn opt_with(playlist: Option<&str>, xmltv: Option<&str>) -> Opt {
    Opt::from_raw(
        None,
        None,
        playlist.map(|s| s.to_string()),
        xmltv.map(|s| s.to_string()),
        None,
    )
    .unwrap()
}

#[test]
fn omitted_fields_take_defaults() {
    let o = Opt::from_raw(None, None, None, None, None).unwrap();
    assert_eq!(o.date, None);
    assert_eq!(o.cdn, Cdn::Akc);
    assert_eq!(o.playlist_output, None);
    assert_eq!(o.xmltv_output, None);
    assert_eq!(o.xmltv_start_channel, 1000);
    assert_eq!(DEFAULT_XMLTV_START_CHANNEL, 1000);
}

#[test]
fn cdn_and_xmltv_example() {
    let o = Opt::from_raw(None, Some("l3c"), None, Some("guide.xml".to_string()), None).unwrap();
    let expected = Opt {
        date: None,
        cdn: Cdn::L3c,
        playlist_output: None,
        xmltv_output: Some("guide.xml".to_string()),
        xmltv_start_channel: 1000,
    };
    assert_eq!(o, expected);
    match resolve_mode(o) {
        OutputType::Playlist(p) => assert_eq!(p, expected),
        OutputType::Normal(_) => panic!("expected playlist mode"),
    }
}

#[test]
fn all_fields_given() {
    let o = Opt::from_raw(
        Some("2021-03-15"),
        Some("akc"),
        Some("games.m3u".to_string()),
        None,
        Some("2000"),
    )
    .unwrap();
    assert_eq!(o.date, Some(Date { year: 2021, month: 3, day: 15 }));
    assert_eq!(o.cdn, Cdn::Akc);
    assert_eq!(o.playlist_output, Some("games.m3u".to_string()));
    assert_eq!(o.xmltv_start_channel, 2000);
}

#[test]
fn each_field_error_kind() {
    assert_eq!(
        Opt::from_raw(Some("20230230"), None, None, None, None),
        Err(OptError::DateFormat)
    );
    assert_eq!(
        Opt::from_raw(None, Some("AKC"), None, None, None),
        Err(OptError::InvalidChoice)
    );
    assert_eq!(
        Opt::from_raw(None, None, None, None, Some("ten")),
        Err(OptError::NumberFormat)
    );
}

#[test]
fn first_invalid_field_wins() {
    assert_eq!(
        Opt::from_raw(Some("bad"), Some("bad"), None, None, Some("bad")),
        Err(OptError::DateFormat)
    );
    assert_eq!(
        Opt::from_raw(Some("20230101"), Some("bad"), None, None, Some("bad")),
        Err(OptError::InvalidChoice)
    );
}

#[test]
fn mode_matrix() {
    assert!(matches!(resolve_mode(opt_with(None, None)), OutputType::Normal(_)));
    assert!(matches!(resolve_mode(opt_with(Some("a.m3u"), None)), OutputType::Playlist(_)));
    assert!(matches!(resolve_mode(opt_with(None, Some("g.xml"))), OutputType::Playlist(_)));
    assert!(matches!(
        resolve_mode(opt_with(Some("a.m3u"), Some("g.xml"))),
        OutputType::Playlist(_)
    ));
}

#[test]
fn mode_keeps_the_settings() {
    match resolve_mode(opt_with(None, None)) {
        OutputType::Normal(o) => assert_eq!(o, opt_with(None, None)),
        OutputType::Playlist(_) => panic!("expected normal mode"),
    }
}

#[test]
fn channel_numbers() {
    assert_eq!(parse_channel("1000"), Ok(1000));
    assert_eq!(parse_channel("0"), Ok(0));
    assert_eq!(parse_channel("+7"), Ok(7));
    assert_eq!(parse_channel("007"), Ok(7));
    assert_eq!(parse_channel("4294967295"), Ok(u32::MAX));
}

#[test]
fn bad_channel_numbers() {
    for s in ["", "+", "-1", "4294967296", "99999999999", "12a", " 1", "1.5"] {
        assert_eq!(parse_channel(s), Err(OptError::NumberFormat), "{:?}", s);
    }
}

#[test]
fn channel_matches_std_parsing() {
    for s in ["1", "+1", "-0", "0042", "4294967295", "4294967296", "", "+", "x"] {
        assert_eq!(parse_channel(s).ok(), s.parse::<u32>().ok(), "{:?}", s);
    }
}
