use std::sync::Arc;

use device_registry::shared::SharedRegistry;

#[test]
fn concurrent_claims_exactly_one_succeeds() {
    let rt = tokio::runtime::Runtime::new().unwrap();
    rt.block_on(async {
        let shared = Arc::new(SharedRegistry::new());
        let mut handles = Vec::new();
        for i in 0..8 {
            let s = Arc::clone(&shared);
            handles.push(tokio::task::spawn_blocking(move || {
                s.claim(String::from("00:11:22:33:44:55"), format!("claimant_{}", i), 5).status
            }));
        }
        let mut successes = 0;
        for h in handles {
            if h.await.unwrap() {
                successes += 1;
            }
        }
        assert_eq!(successes, 1);
        assert_eq!(shared.list().data.len(), 1);
    });
}

#[test]
fn shared_claim_and_list() {
    let shared = SharedRegistry::new();
    let first = shared.claim(String::from("00:11:22:33:44:55"), String::from("lamp"), 12);
    assert!(first.status);
    assert_eq!(first.data, "ok");
    assert_eq!(first.timestamp, Some(12));

    let second = shared.claim(String::from("00:11:22:33:44:55"), String::from("other"), 13);
    assert!(!second.status);
    assert_eq!(second.data, "Device already claimed");

    let listed = shared.list();
    assert!(listed.status);
    assert!(listed.timestamp.is_none());
    assert_eq!(listed.data.len(), 1);
    assert_eq!(listed.data[0].0, "00:11:22:33:44:55");
    assert_eq!(listed.data[0].1.name, "lamp");
    assert_eq!(listed.data[0].1.time_active, 12);
}

#[test]
fn shared_refresh_and_sweep() {
    let shared = SharedRegistry::new();
    assert!(shared.claim(String::from("00:11:22:33:44:55"), String::from("lamp"), 0).status);
    assert!(shared.claim(String::from("66:77:88:99:aa:bb"), String::from("printer"), 0).status);

    // Only the observed device is refreshed; at time 10 with threshold 5
    // the unobserved one is stale and swept.
    shared.refresh_from_probe("? (192.168.1.9) at 66:77:88:99:aa:bb [ether] on eth0", 8);
    let removed = shared.evict_stale(5, 10);
    assert_eq!(removed, vec![String::from("00:11:22:33:44:55")]);

    let listed = shared.list();
    assert_eq!(listed.data.len(), 1);
    assert_eq!(listed.data[0].0, "66:77:88:99:aa:bb");
}
