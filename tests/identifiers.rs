use ruma_identifiers::{Error, EventId, RoomId, UserId};

#[test]
fn each_kind_takes_its_own_sigil() {
    let room = RoomId::try_from("!n8f893n9:example.com").unwrap();
    assert_eq!(room.localpart(), "n8f893n9");
    assert_eq!(room.server_name(), "example.com");
    let user = UserId::try_from("@carl:example.com").unwrap();
    assert_eq!(user.localpart(), "carl");
    assert_eq!(user.as_str(), "@carl:example.com");
    let event = EventId::try_from("$h29iv0s8:example.com:8000").unwrap();
    assert_eq!(event.localpart(), "h29iv0s8");
    assert_eq!(event.server_name(), "example.com:8000");
}

#[test]
fn a_sigil_of_another_kind_is_missing_sigil() {
    assert_eq!(RoomId::try_from("#ruma:example.com").unwrap_err(), Error::MissingSigil);
    assert_eq!(UserId::try_from("!carl:example.com").unwrap_err(), Error::MissingSigil);
    assert_eq!(EventId::try_from("@carl:example.com").unwrap_err(), Error::MissingSigil);
}

#[test]
fn user_id_with_ip_literals() {
    let v4 = UserId::try_from("@carl:1.2.3.4:8448").unwrap();
    assert_eq!(v4.server_name(), "1.2.3.4:8448");
    let v6 = UserId::try_from("@carl:[::1]:8448").unwrap();
    assert_eq!(v6.localpart(), "carl");
    assert_eq!(v6.server_name(), "[::1]:8448");
}
