use bloom_allowlist::error::GuardError;
use bloom_allowlist::filter::MembershipFilter;
use bloom_allowlist::guard::{AllowlistGuard, CheckStep};
use bloom_allowlist::models::AllowlistEntry;
use bloomfilter::Bloom;
use std::collections::HashSet;

/// An in-memory store that counts the calls made to it.
struct FakeStore {
    rows: Vec<String>,
    calls: usize,
}

impl FakeStore {
    fn new() -> FakeStore {
        FakeStore { rows: Vec::new(), calls: 0 }
    }

    fn load_all(&mut self) -> Vec<AllowlistEntry> {
        self.calls += 1;
        self.rows
            .iter()
            .enumerate()
            .map(|(i, w)| AllowlistEntry { id: i as i32 + 1, wallet_address: w.clone() })
            .collect()
    }

    fn contains(&mut self, key: &str) -> Result<bool, GuardError> {
        self.calls += 1;
        Ok(self.rows.iter().any(|w| w == key))
    }

    fn insert(&mut self, key: &str) -> Result<(), GuardError> {
        self.calls += 1;
        self.rows.push(key.to_string());
        Ok(())
    }
}

fn bitmap_bytes(items: usize, fp: f64) -> usize {
    Bloom::<String>::compute_bitmap_size(items, fp)
}

fn ready_guard(store: &mut FakeStore, bytes: usize, items: usize) -> AllowlistGuard {
    let mut guard = AllowlistGuard::new(bytes, items).unwrap();
    guard.begin_hydrate();
    let rows = store.load_all();
    let fresh = guard.hydrate(&rows);
    guard.install_filter(fresh);
    guard
}

fn check(guard: &AllowlistGuard, store: &mut FakeStore, key: &str) -> bool {
    match guard.check_access(key) {
        CheckStep::Rejected => false,
        CheckStep::LookupStore => AllowlistGuard::resolve_lookup(store.contains(key)),
    }
}

fn add(guard: &mut AllowlistGuard, store: &mut FakeStore, key: &str) -> Result<(), GuardError> {
    let stored = store.insert(key);
    guard.add_user(key, stored)
}

#[test]
fn end_to_end_scenario() {
    let mut store = FakeStore::new();
    let mut guard = ready_guard(&mut store, bitmap_bytes(100_000, 0.0001), 100_000);
    store.calls = 0;
    assert!(!check(&guard, &mut store, "0xABC"));
    assert_eq!(store.calls, 0);
    assert_eq!(add(&mut guard, &mut store, "0xABC"), Ok(()));
    store.calls = 0;
    assert!(check(&guard, &mut store, "0xABC"));
    assert_eq!(store.calls, 1);
    store.calls = 0;
    assert!(!check(&guard, &mut store, "0xDEF"));
    assert_eq!(store.calls, 0);
}

#[test]
fn never_inserted_key_is_rejected_without_store_call() {
    let mut store = FakeStore::new();
    let guard = ready_guard(&mut store, 1024, 100);
    store.calls = 0;
    for key in ["0x1", "0x2", "anything", ""] {
        assert_eq!(guard.check_access(key), CheckStep::Rejected);
        assert!(!check(&guard, &mut store, key));
    }
    assert_eq!(store.calls, 0);
}

#[test]
fn false_positive_is_resolved_by_store() {
    let mut store = FakeStore::new();
    let mut guard = ready_guard(&mut store, 1, 1);
    for i in 0..64 {
        add(&mut guard, &mut store, &format!("0xmember{}", i)).unwrap();
    }
    let inserted: HashSet<String> = store.rows.iter().cloned().collect();
    let colliding = (0..100_000)
        .map(|i| format!("0xabsent{}", i))
        .find(|k| !inserted.contains(k) && guard.check_access(k) == CheckStep::LookupStore)
        .expect("a one-byte filter with 64 members collides");
    store.calls = 0;
    assert!(!check(&guard, &mut store, &colliding));
    assert_eq!(store.calls, 1);
}

#[test]
fn hydration_admits_every_seeded_identifier() {
    let mut store = FakeStore::new();
    for i in 0..500 {
        store.rows.push(format!("0xseed{}", i));
    }
    let guard = ready_guard(&mut store, bitmap_bytes(1000, 0.001), 1000);
    let seeded = store.rows.clone();
    for key in &seeded {
        assert_eq!(guard.check_access(key), CheckStep::LookupStore);
        assert!(check(&guard, &mut store, key));
    }
}

#[test]
fn read_your_writes_amid_other_traffic() {
    let mut store = FakeStore::new();
    let mut guard = ready_guard(&mut store, bitmap_bytes(1000, 0.01), 1000);
    add(&mut guard, &mut store, "0xmine").unwrap();
    for i in 0..50 {
        add(&mut guard, &mut store, &format!("0xother{}", i)).unwrap();
        check(&guard, &mut store, &format!("0xprobe{}", i));
        assert!(check(&guard, &mut store, "0xmine"));
    }
}

#[test]
fn filter_insert_is_idempotent() {
    let mut filter = MembershipFilter::new(64, 10).unwrap();
    assert!(!filter.test("0xA"));
    filter.insert("0xA");
    assert!(filter.test("0xA"));
    filter.insert("0xA");
    assert!(filter.test("0xA"));
    assert!(filter.test("0xA"));
}

#[test]
fn filter_rejects_invalid_sizing() {
    assert!(matches!(MembershipFilter::new(0, 10), Err(GuardError::ConfigurationError)));
    assert!(matches!(MembershipFilter::new(10, 0), Err(GuardError::ConfigurationError)));
    assert!(matches!(MembershipFilter::new(usize::MAX, 10), Err(GuardError::ConfigurationError)));
    assert!(MembershipFilter::new(1, 1).is_ok());
    assert!(matches!(AllowlistGuard::new(0, 10), Err(GuardError::ConfigurationError)));
    assert!(matches!(AllowlistGuard::new(10, 0), Err(GuardError::ConfigurationError)));
}

#[test]
fn unhydrated_guard_sends_everything_to_store() {
    let guard = AllowlistGuard::new(64, 10).unwrap();
    assert_eq!(guard.check_access("0xA"), CheckStep::LookupStore);
    assert_eq!(guard.check_access(""), CheckStep::LookupStore);
}

#[test]
fn failed_lookup_denies_access() {
    assert!(!AllowlistGuard::resolve_lookup(Err(GuardError::StoreUnavailable)));
    assert!(!AllowlistGuard::resolve_lookup(Err(GuardError::StoreConstraintViolation)));
    assert!(!AllowlistGuard::resolve_lookup(Ok(false)));
    assert!(AllowlistGuard::resolve_lookup(Ok(true)));
}

#[test]
fn failed_store_insert_leaves_filter_unchanged() {
    let mut store = FakeStore::new();
    let mut guard = ready_guard(&mut store, 1024, 100);
    assert_eq!(
        guard.add_user("0xA", Err(GuardError::StoreConstraintViolation)),
        Err(GuardError::StoreConstraintViolation)
    );
    assert_eq!(guard.add_user("0xB", Err(GuardError::StoreUnavailable)), Err(GuardError::StoreUnavailable));
    assert_eq!(guard.check_access("0xA"), CheckStep::Rejected);
    assert_eq!(guard.check_access("0xB"), CheckStep::Rejected);
    assert_eq!(guard.add_user("0xA", Ok(())), Ok(()));
    assert_eq!(guard.check_access("0xA"), CheckStep::LookupStore);
}

#[test]
fn additions_during_hydration_survive_the_swap() {
    let mut store = FakeStore::new();
    store.rows.push("0xold".to_string());
    let mut guard = ready_guard(&mut store, 1024, 100);
    guard.begin_hydrate();
    let rows = store.load_all();
    add(&mut guard, &mut store, "0xnew").unwrap();
    let fresh = guard.hydrate(&rows);
    assert!(!fresh.test("0xnew"));
    guard.install_filter(fresh);
    assert_eq!(guard.check_access("0xold"), CheckStep::LookupStore);
    assert_eq!(guard.check_access("0xnew"), CheckStep::LookupStore);
    assert!(check(&guard, &mut store, "0xnew"));
}

#[test]
fn hydrate_replaces_the_filter() {
    let mut store = FakeStore::new();
    let mut guard = ready_guard(&mut store, 1024, 100);
    add(&mut guard, &mut store, "0xgone").unwrap();
    guard.begin_hydrate();
    let fresh = guard.hydrate(&vec![AllowlistEntry { id: 1, wallet_address: "0xkept".to_string() }]);
    guard.install_filter(fresh);
    assert_eq!(guard.check_access("0xkept"), CheckStep::LookupStore);
    assert_eq!(guard.check_access("0xgone"), CheckStep::Rejected);
}
