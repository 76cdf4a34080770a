use modit::proto::{
    check_decoded, check_encoded, Command, Descriptor, Event, ProtoError, Role, MAX_MESSAGE_LEN,
    PROTOCOL_VERSION,
};
use modit::uuids::{self, str_eq};

#[test]
fn str_eq_matches_str_equality() {
    assert!(str_eq("abc", "abc"));
    assert!(!str_eq("abc", "abd"));
    assert!(!str_eq("abc", "ab"));
    assert!(!str_eq("ab", "abc"));
    assert!(str_eq("", ""));
}

#[test]
fn the_uuids_are_distinct() {
    let all = [uuids::SERVICE, uuids::LED_WRITE, uuids::BUTTON_NOTIFY];
    for (i, a) in all.iter().enumerate() {
        for b in &all[..i] {
            assert_ne!(a, b, "two well-known UUIDs collide");
        }
    }
}

#[test]
fn every_role_is_listed_once() {
    let mut names: Vec<&str> = Role::ALL.iter().map(Role::name).collect();
    let listed = names.len();
    names.sort_unstable();
    names.dedup();
    assert_eq!(
        names.len(),
        listed,
        "Role::ALL lists a role twice: {names:?}"
    );
}

#[test]
fn a_module_built_against_another_version_is_incompatible() {
    let mut d = Descriptor {
        protocol: PROTOCOL_VERSION,
        role: Role::Button,
        inputs: 1,
        outputs: 1,
    };
    assert!(d.is_compatible());
    d.protocol = PROTOCOL_VERSION.wrapping_add(1);
    assert!(!d.is_compatible());
}

#[test]
fn role_names_are_the_ones_the_docs_use() {
    assert_eq!(Role::Button.name(), "Button");
    assert_eq!(Role::Coin.name(), "Coin");
}

#[test]
fn an_encoding_that_fits_is_accepted() {
    assert_eq!(check_encoded(Some(7)), Ok(7));
    assert_eq!(check_encoded(Some(MAX_MESSAGE_LEN)), Ok(MAX_MESSAGE_LEN));
}

#[test]
fn an_encoding_over_the_limit_is_too_long() {
    assert_eq!(
        check_encoded(Some(MAX_MESSAGE_LEN + 8)),
        Err(ProtoError::TooLong { len: 28 })
    );
    assert_eq!(
        ProtoError::TooLong { len: 28 }.message(),
        "message encodes to 28 bytes, over the 20-byte limit"
    );
}

#[test]
fn an_encoder_out_of_room_reports_a_short_buffer() {
    assert_eq!(check_encoded(None), Err(ProtoError::BufferTooSmall));
    assert_eq!(ProtoError::BufferTooSmall.message(), "encode buffer too small");
}

#[test]
fn a_refused_decode_is_malformed() {
    assert_eq!(check_decoded::<Command>(None), Err(ProtoError::Malformed));
    assert_eq!(
        check_decoded(Some(Event::Pressed { channel: 3 })),
        Ok(Event::Pressed { channel: 3 })
    );
    assert_eq!(ProtoError::Malformed.message(), "not a valid modit message");
}
