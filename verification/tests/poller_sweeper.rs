use device_registry::api::{claim, list};
use device_registry::poller::{observed_identifiers, refresh_from_probe};
use device_registry::sweeper::removal_message;
use device_registry::text::contains_sub;
use device_registry::Registry;

const MAC_A: &str = "00:11:22:33:44:55";
const MAC_B: &str = "66:77:88:99:aa:bb";

fn registry_with(entries: &[(&str, &str, u64)]) -> Registry {
    let mut reg = Registry::new();
    for (mac, name, now) in entries {
        let body = claim(&mut reg, String::from(*mac), String::from(*name), *now);
        assert!(body.status);
    }
    reg
}

#[test]
fn substring_containment() {
    assert!(contains_sub("? (192.168.1.7) at 00:11:22:33:44:55 [ether] on eth0", MAC_A));
    assert!(!contains_sub("? (192.168.1.7) at 66:77:88:99:aa:bb [ether] on eth0", MAC_A));
    assert!(contains_sub("abc", "abc"));
    assert!(contains_sub("abc", ""));
    assert!(contains_sub("", ""));
    assert!(!contains_sub("", "a"));
    assert!(contains_sub("aab", "ab"));
    assert!(!contains_sub("ab", "abc"));
}

#[test]
fn probe_refreshes_only_observed_identifiers() {
    let mut reg = registry_with(&[(MAC_A, "lamp", 10), (MAC_B, "printer", 10)]);
    let probe = format!("? (192.168.1.7) at {} [ether] on eth0\n", MAC_A);
    refresh_from_probe(&mut reg, &probe, 40);
    assert_eq!(reg.last_seen_of(&String::from(MAC_A)), Some(40));
    assert_eq!(reg.last_seen_of(&String::from(MAC_B)), Some(10));
    // The poller never adds or removes entries.
    assert_eq!(list(&reg).data.len(), 2);
}

#[test]
fn observed_identifiers_ignores_unregistered_ones() {
    let reg = registry_with(&[(MAC_A, "lamp", 10)]);
    let probe = format!("at {} and at {}", MAC_A, MAC_B);
    let ids = observed_identifiers(&reg, &probe);
    assert_eq!(ids, vec![String::from(MAC_A)]);
}

#[test]
fn refresh_is_monotonically_non_decreasing() {
    let mut reg = registry_with(&[(MAC_A, "lamp", 10)]);
    let ids = vec![String::from(MAC_A)];
    // An earlier clock reading never regresses the stored time.
    reg.refresh_seen(&ids, 5);
    assert_eq!(reg.last_seen_of(&String::from(MAC_A)), Some(10));
    reg.refresh_seen(&ids, 20);
    assert_eq!(reg.last_seen_of(&String::from(MAC_A)), Some(20));
    reg.refresh_seen(&ids, 20);
    assert_eq!(reg.last_seen_of(&String::from(MAC_A)), Some(20));
    // An identifier without a record is ignored.
    reg.refresh_seen(&vec![String::from(MAC_B)], 30);
    assert_eq!(reg.last_seen_of(&String::from(MAC_B)), None);
}

#[test]
fn sweep_removes_stale_and_keeps_fresh() {
    let mut reg = registry_with(&[(MAC_A, "lamp", 0), (MAC_B, "printer", 0)]);
    reg.refresh_seen(&vec![String::from(MAC_B)], 8);
    // At time 10 with a threshold of 5: the lamp was last seen 10 units
    // ago (stale), the printer 2 units ago (fresh).
    let removed = reg.evict_stale(5, 10);
    assert_eq!(removed, vec![String::from(MAC_A)]);
    assert!(!reg.has_claim(&String::from(MAC_A)));
    assert!(reg.has_claim(&String::from(MAC_B)));
}

#[test]
fn sweep_boundary_cases() {
    let mut reg = registry_with(&[(MAC_A, "lamp", 4), (MAC_B, "printer", 90)]);
    // Exactly at the threshold is not stale: 9 - 4 == 5.
    let removed = reg.evict_stale(5, 9);
    assert!(removed.is_empty());
    // A record whose last_seen lies in the future is never judged stale.
    let removed = reg.evict_stale(5, 50);
    assert!(!removed.contains(&String::from(MAC_B)));
    assert_eq!(removed, vec![String::from(MAC_A)]);
}

#[test]
fn claim_expires_after_threshold_with_notification() {
    // Threshold of one time-unit; claim, let two units pass unrefreshed,
    // then sweep: the claim is gone and one notification is emitted.
    let mut reg = registry_with(&[(MAC_A, "test_device", 0)]);
    let removed = reg.evict_stale(1, 2);
    assert_eq!(removed, vec![String::from(MAC_A)]);
    let note = removal_message(&removed[0]);
    assert_eq!(note, format!("user {}, has been removed", MAC_A));
    assert!(list(&reg).data.is_empty());
}
