use ruma_identifiers::{Error, RoomAliasId};

#[test]
fn valid_room_alias_id() {
    assert_eq!(
        RoomAliasId::try_from("#ruma:example.com")
            .expect("Failed to create RoomAliasId.")
            .as_ref(),
        "#ruma:example.com"
    );
}

#[test]
fn valid_room_alias_id_with_explicit_standard_port() {
    assert_eq!(
        RoomAliasId::try_from("#ruma:example.com:443")
            .expect("Failed to create RoomAliasId.")
            .as_ref(),
        "#ruma:example.com:443"
    );
}

#[test]
fn valid_room_alias_id_with_non_standard_port() {
    assert_eq!(
        RoomAliasId::try_from("#ruma:example.com:5000")
            .expect("Failed to create RoomAliasId.")
            .as_ref(),
        "#ruma:example.com:5000"
    );
}

#[test]
fn valid_room_alias_id_unicode() {
    assert_eq!(
        RoomAliasId::try_from("#老虎Â£я:example.com")
            .expect("Failed to create RoomAliasId.")
            .as_ref(),
        "#老虎Â£я:example.com"
    );
}

#[test]
fn missing_room_alias_id_sigil() {
    assert_eq!(
        RoomAliasId::try_from("39hvsi03hlne:example.com").unwrap_err(),
        Error::MissingSigil
    );
}

#[test]
fn missing_localpart() {
    assert_eq!(RoomAliasId::try_from("#:example.com").unwrap_err(), Error::InvalidLocalPart);
}

#[test]
fn missing_room_alias_id_delimiter() {
    assert_eq!(RoomAliasId::try_from("#ruma").unwrap_err(), Error::MissingDelimiter);
}

#[test]
fn invalid_room_alias_id_host() {
    assert_eq!(RoomAliasId::try_from("#ruma:/").unwrap_err(), Error::InvalidServerName);
}

#[test]
fn invalid_room_alias_id_port() {
    assert_eq!(
        RoomAliasId::try_from("#ruma:example.com:notaport").unwrap_err(),
        Error::InvalidServerName
    );
}

#[test]
fn alias_and_server_name_are_sliced_at_the_colon() {
    let id = RoomAliasId::try_from("#ruma:example.com").unwrap();
    assert_eq!(id.alias(), "ruma");
    assert_eq!(id.localpart(), "ruma");
    assert_eq!(id.server_name(), "example.com");
}

#[test]
fn server_name_keeps_its_port() {
    let id = RoomAliasId::try_from("#ruma:example.com:443").unwrap();
    assert_eq!(id.alias(), "ruma");
    assert_eq!(id.server_name(), "example.com:443");
    assert_eq!(ruma_identifiers::server_name::server_name_port(id.server_name()), Some(443));
}

#[test]
fn unicode_localpart_is_sliced_on_char_boundaries() {
    let id = RoomAliasId::try_from("#老虎Â£я:example.com").unwrap();
    assert_eq!(id.alias(), "老虎Â£я");
    assert_eq!(id.server_name(), "example.com");
}

#[test]
fn localpart_of_the_largest_size() {
    let ok = format!("#{}:example.com", "a".repeat(254));
    let id = RoomAliasId::try_from(ok.as_str()).unwrap();
    assert_eq!(id.as_str(), ok);
    assert_eq!(id.alias().len(), 254);
    let too_long = format!("#{}:example.com", "a".repeat(255));
    assert_eq!(RoomAliasId::try_from(too_long.as_str()).unwrap_err(), Error::InvalidLocalPart);
}

#[test]
fn multibyte_localpart_counts_bytes() {
    // 127 two-byte characters: the colon sits at byte 255.
    let ok = format!("#{}:example.com", "я".repeat(127));
    assert!(RoomAliasId::try_from(ok.as_str()).is_ok());
    let too_long = format!("#{}a:example.com", "я".repeat(127));
    assert_eq!(RoomAliasId::try_from(too_long.as_str()).unwrap_err(), Error::InvalidLocalPart);
}

#[test]
fn empty_string_has_no_sigil() {
    assert_eq!(RoomAliasId::try_from("").unwrap_err(), Error::MissingSigil);
    assert_eq!(RoomAliasId::try_from("!ruma:example.com").unwrap_err(), Error::MissingSigil);
}

#[test]
fn sigil_alone_has_no_delimiter() {
    assert_eq!(RoomAliasId::try_from("#").unwrap_err(), Error::MissingDelimiter);
    assert_eq!(RoomAliasId::try_from("#ruma.example.com").unwrap_err(), Error::MissingDelimiter);
}

#[test]
fn empty_server_name_is_invalid() {
    assert_eq!(RoomAliasId::try_from("#ruma:").unwrap_err(), Error::InvalidServerName);
}

#[test]
fn rendering_and_parsing_again_gives_an_equal_id() {
    let id = RoomAliasId::try_from("#Ruma:Example.com:8448").unwrap();
    let again = RoomAliasId::try_from(id.as_str()).unwrap();
    assert_eq!(again, id);
    assert_eq!(again.as_str(), "#Ruma:Example.com:8448");
    let copy = id.clone();
    assert_eq!(copy, id);
}

#[test]
fn case_differences_are_not_equal() {
    let a = RoomAliasId::try_from("#ruma:example.com").unwrap();
    let b = RoomAliasId::try_from("#Ruma:example.com").unwrap();
    assert_ne!(a, b);
}

#[test]
fn ordering_follows_the_text() {
    let a = RoomAliasId::try_from("#a:example.com").unwrap();
    let b = RoomAliasId::try_from("#b:example.com").unwrap();
    let longer = RoomAliasId::try_from("#a:example.com:80").unwrap();
    assert!(a < b);
    assert!(a < longer);
    assert!(longer < b);
}
