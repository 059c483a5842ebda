use device_registry::api::{claim, list, payload_errors, validate_payload, FieldError};
use device_registry::api::UserPostPayload;
use device_registry::registry::AlreadyClaimed;
use device_registry::Registry;

fn find_name<'a>(
    data: &'a [(String, device_registry::registry::UserSnapshot)],
    key: &str,
) -> Option<&'a str> {
    data.iter().find(|(k, _)| k == key).map(|(_, v)| v.name.as_str())
}

#[test]
fn test_claim_device_flow() {
    let mut users = Registry::new();

    // 1. Claim success
    let body = claim(
        &mut users,
        String::from("00:11:22:33:44:55"),
        String::from("test_device"),
        100,
    );
    assert!(body.status);
    assert_eq!(body.data, "ok");

    // 2. Duplicate claim
    let body = claim(
        &mut users,
        String::from("00:11:22:33:44:55"),
        String::from("test_device_2"),
        101,
    );
    assert!(!body.status);
    assert_eq!(body.data, "Device already claimed");

    // 3. Validation error (short name): the transport answers 400 and the
    // registry is never touched.
    let errs = payload_errors(&UserPostPayload {
        name: String::from("yo"),
        mac_address: String::from("00:11:22:33:44:55"),
    });
    assert!(!errs.is_empty());

    // 4. List users: the original name persists because duplicates are
    // rejected.
    let body = list(&users);
    assert!(body.status);
    assert!(body.timestamp.is_none());
    assert_eq!(find_name(&body.data, "00:11:22:33:44:55"), Some("test_device"));
}

#[test]
fn claim_unclaimed_succeeds_and_is_visible() {
    let mut users = Registry::new();
    let body = claim(&mut users, String::from("aa:bb:cc:dd:ee:ff"), String::from("printer"), 7);
    assert!(body.status);
    assert_eq!(body.timestamp, Some(7));
    let listed = list(&users);
    assert_eq!(listed.data.len(), 1);
    assert_eq!(listed.data[0].0, "aa:bb:cc:dd:ee:ff");
    assert_eq!(listed.data[0].1.name, "printer");
    assert_eq!(listed.data[0].1.time_active, 7);
}

#[test]
fn duplicate_claim_never_mutates_first_record() {
    let mut users = Registry::new();
    assert!(claim(&mut users, String::from("aa:bb:cc:dd:ee:ff"), String::from("first"), 3).status);
    let rejected = claim(&mut users, String::from("aa:bb:cc:dd:ee:ff"), String::from("second"), 9);
    assert!(!rejected.status);
    let listed = list(&users);
    assert_eq!(listed.data.len(), 1);
    assert_eq!(listed.data[0].1.name, "first");
    assert_eq!(listed.data[0].1.time_active, 3);
    assert_eq!(users.last_seen_of(&String::from("aa:bb:cc:dd:ee:ff")), Some(3));
}

#[test]
fn exactly_one_of_two_inserts_succeeds() {
    let mut users = Registry::new();
    let first = users.insert(String::from("11:22:33:44:55:66"), String::from("one"), 1);
    let second = users.insert(String::from("11:22:33:44:55:66"), String::from("two"), 1);
    assert_eq!(first, Ok(()));
    assert_eq!(second, Err(AlreadyClaimed));
    assert!(users.has_claim(&String::from("11:22:33:44:55:66")));
}

#[test]
fn validation_reports_each_short_field() {
    let both = payload_errors(&UserPostPayload {
        name: String::from("yo"),
        mac_address: String::from("short"),
    });
    assert!(both.contains(&FieldError::NameTooShort));
    assert!(both.contains(&FieldError::MacAddressTooShort));
    assert_eq!(both.len(), 2);

    let name_only = payload_errors(&UserPostPayload {
        name: String::from("yo"),
        mac_address: String::from("00:11:22:33:44:55"),
    });
    assert_eq!(name_only, vec![FieldError::NameTooShort]);

    let mac_only = payload_errors(&UserPostPayload {
        name: String::from("lamp"),
        mac_address: String::from("123456789"),
    });
    assert_eq!(mac_only, vec![FieldError::MacAddressTooShort]);

    assert_eq!(
        FieldError::NameTooShort.message(),
        "Name must be at least 3 characters"
    );
    assert_eq!(FieldError::MacAddressTooShort.message(), "Invalid MAC address length");
}

#[test]
fn validation_boundaries() {
    // Exactly the minimum lengths pass: 3-character name, 10-character key.
    let ok = validate_payload(UserPostPayload {
        name: String::from("abc"),
        mac_address: String::from("0123456789"),
    });
    assert!(ok.is_ok());

    let err = validate_payload(UserPostPayload {
        name: String::from("ab"),
        mac_address: String::from("0123456789"),
    });
    assert_eq!(err.err(), Some(vec![FieldError::NameTooShort]));
}

#[test]
fn rejected_payload_leaves_registry_untouched() {
    let users = Registry::new();
    let payload = UserPostPayload {
        name: String::from("yo"),
        mac_address: String::from("00:11:22:33:44:55"),
    };
    // The transport only claims for payloads that validated; a rejected
    // payload never reaches the registry.
    if validate_payload(payload).is_ok() {
        panic!("a two-character name must not validate");
    }
    let listed = list(&users);
    assert!(listed.data.is_empty());
    assert!(!users.has_claim(&String::from("00:11:22:33:44:55")));
}
