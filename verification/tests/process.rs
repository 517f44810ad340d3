use std::cell::RefCell;
use std::rc::Rc;

use vrc_log::cache::Cache;
use vrc_log::process::{
    ids_to_send, merge_results, process_avatars, process_with_cache, process_without_cache,
};
use vrc_log::provider::{Provider, ProviderError, ProviderKind};

const NOW: u64 = 1_700_000_000;

#[derive(Clone, Copy, PartialEq, Eq)]
enum MockBehavior {
    Accept,
    Duplicate,
    Fail,
}

struct MockProvider {
    kind: ProviderKind,
    sent: Rc<RefCell<Vec<String>>>,
    behavior: MockBehavior,
}

impl MockProvider {
    fn new(kind: ProviderKind, behavior: MockBehavior) -> (Self, Rc<RefCell<Vec<String>>>) {
        let sent = Rc::new(RefCell::new(Vec::new()));
        (
            MockProvider {
                kind,
                sent: sent.clone(),
                behavior,
            },
            sent,
        )
    }
}

impl Provider for MockProvider {
    fn kind(&self) -> ProviderKind {
        self.kind
    }

    fn check_avatar_id(&mut self, _avatar_id: &str) -> Result<bool, ProviderError> {
        Ok(true)
    }

    fn send_avatar_id(&mut self, avatar_id: &str) -> Result<bool, ProviderError> {
        self.sent.borrow_mut().push(avatar_id.to_string());
        match self.behavior {
            MockBehavior::Accept => Ok(true),
            MockBehavior::Duplicate => Ok(false),
            MockBehavior::Fail => Err(ProviderError::Transient),
        }
    }
}

#[test]
fn process_without_cache_sends_to_all_providers() {
    let (provider_a, sent_a) = MockProvider::new(ProviderKind::AVTRDB, MockBehavior::Accept);
    let (provider_b, sent_b) = MockProvider::new(ProviderKind::NSVR, MockBehavior::Accept);

    let providers = vec![provider_a, provider_b];
    let avatar_ids = vec!["avtr_1".to_string(), "avtr_2".to_string()];

    process_without_cache(providers, &avatar_ids);

    assert_eq!(sent_a.borrow().len(), 2);
    assert_eq!(sent_b.borrow().len(), 2);
}

#[test]
fn process_with_cache_skips_existing_provider_bits() {
    let (provider_a, sent_a) = MockProvider::new(ProviderKind::AVTRDB, MockBehavior::Accept);
    let (provider_b, sent_b) = MockProvider::new(ProviderKind::NSVR, MockBehavior::Accept);

    let providers = vec![provider_a, provider_b];
    let mut cache = Cache::new_in_memory().unwrap();

    // Pre-seed cache: this provider already handled the avatar.
    cache
        .store_avatar_ids_with_providers(
            &vec![("avtr_1".to_string(), ProviderKind::AVTRDB.bits())],
            NOW,
        )
        .unwrap();

    let avatar_ids = vec!["avtr_1".to_string()];
    process_with_cache(providers, &mut cache, &avatar_ids, NOW).unwrap();

    assert_eq!(sent_a.borrow().len(), 0, "AVTRDB must be skipped");
    assert_eq!(sent_b.borrow().len(), 1, "NSVR must be called");
}

#[test]
fn process_with_cache_updates_provider_bits_on_success() {
    let (provider, _sent) = MockProvider::new(ProviderKind::PAW, MockBehavior::Accept);
    let providers = vec![provider];

    let mut cache = Cache::new_in_memory().unwrap();
    let avatar_ids = vec!["avtr_42".to_string()];

    process_with_cache(providers, &mut cache, &avatar_ids, NOW).unwrap();

    let result = cache.check_all_ids(&vec!["avtr_42".to_string()], NOW).unwrap();
    let bits = result[0].1;
    assert!(bits & ProviderKind::PAW.bits() != 0);
}

#[test]
fn failed_provider_does_not_update_cache() {
    let (provider, sent) = MockProvider::new(ProviderKind::VRCDB, MockBehavior::Duplicate);
    let providers = vec![provider];

    let mut cache = Cache::new_in_memory().unwrap();
    let avatar_ids = vec!["avtr_fail".to_string()];

    process_with_cache(providers, &mut cache, &avatar_ids, NOW).unwrap();

    assert_eq!(sent.borrow().len(), 1, "Provider should still be called");

    let result = cache.check_all_ids(&vec!["avtr_fail".to_string()], NOW).unwrap();
    assert!(result[0].1 == 0, "Cache must not update on failure");
}

#[test]
fn provider_kind_bitmask_is_unique() {
    let kinds = ProviderKind::all_kinds();

    for (i, a) in kinds.iter().enumerate() {
        for b in kinds.iter().skip(i + 1) {
            assert_eq!(a.bits() & b.bits(), 0, "ProviderKind bits must not overlap");
        }
    }
}

#[test]
fn provider_bit_check_logic() {
    let bits = ProviderKind::AVTRDB.bits() | ProviderKind::NSVR.bits();

    assert!(bits & ProviderKind::AVTRDB.bits() != 0);
    assert!(bits & ProviderKind::NSVR.bits() != 0);
    assert!(bits & ProviderKind::PAW.bits() == 0);
}

#[test]
fn partial_failure_isolation() {
    // One provider accepts, its sibling always errors: only the first
    // provider's bit is persisted, and both were tried exactly once.
    let (ok_provider, ok_sent) = MockProvider::new(ProviderKind::AVTRDB, MockBehavior::Accept);
    let (bad_provider, bad_sent) = MockProvider::new(ProviderKind::NSVR, MockBehavior::Fail);

    let providers = vec![ok_provider, bad_provider];
    let mut cache = Cache::new_in_memory().unwrap();
    let avatar_ids = vec!["avtr_x".to_string()];

    process_with_cache(providers, &mut cache, &avatar_ids, NOW).unwrap();

    assert_eq!(ok_sent.borrow().len(), 1);
    assert_eq!(bad_sent.borrow().len(), 1);

    let result = cache.check_all_ids(&vec!["avtr_x".to_string()], NOW).unwrap();
    let bits = result[0].1;
    assert!(bits & ProviderKind::AVTRDB.bits() != 0);
    assert!(bits & ProviderKind::NSVR.bits() == 0);
}

#[test]
fn process_with_cache_reports_events() {
    let (provider, _sent) = MockProvider::new(ProviderKind::VRCWB, MockBehavior::Accept);
    let mut cache = Cache::new_in_memory().unwrap();
    let avatar_ids = vec!["avtr_a".to_string(), "avtr_b".to_string()];

    let report = process_with_cache(vec![provider], &mut cache, &avatar_ids, NOW).unwrap();

    assert_eq!(report.events.len(), 2);
    for (id, bit) in &report.events {
        assert!(avatar_ids.contains(id));
        assert_eq!(*bit, ProviderKind::VRCWB.bits());
    }
}

#[test]
fn ids_to_send_skips_covered_positions() {
    let bit = ProviderKind::PAW.bits();
    let base = vec![
        ("a".to_string(), 0u32),
        ("b".to_string(), bit),
        ("c".to_string(), ProviderKind::NSVR.bits()),
    ];
    let picks = ids_to_send(&base, bit);
    assert_eq!(picks, vec![0, 2]);
}

#[test]
fn merge_results_accumulates_and_filters() {
    let base = vec![("x".to_string(), 1u32), ("y".to_string(), 8u32)];
    let events = vec![
        ("x".to_string(), 2u32),
        ("x".to_string(), 4u32),
    ];
    let merged = merge_results(&base, &events);
    assert_eq!(merged, vec![("x".to_string(), 7u32)]);
}

#[test]
fn process_avatars_skips_and_records() {
    // First sighting: sent to the provider and recorded in the cache.
    let (provider, sent) = MockProvider::new(ProviderKind::NSVR, MockBehavior::Accept);
    let mut cache = Cache::new_in_memory().unwrap();
    let ids = vec!["avtr_seen".to_string()];

    let outcomes = process_avatars(vec![provider], &mut cache, &ids, NOW).unwrap();
    assert_eq!(outcomes.len(), 1);
    assert!(!outcomes[0].skipped);
    assert!(outcomes[0].recorded);
    assert_eq!(sent.borrow().len(), 1);

    // Second sighting while fresh: skipped, no send at all.
    let (provider, sent) = MockProvider::new(ProviderKind::NSVR, MockBehavior::Accept);
    let outcomes = process_avatars(vec![provider], &mut cache, &ids, NOW + 1).unwrap();
    assert!(outcomes[0].skipped);
    assert!(!outcomes[0].recorded);
    assert_eq!(sent.borrow().len(), 0);
}

#[test]
fn process_avatars_failed_send_is_not_recorded() {
    let (provider, sent) = MockProvider::new(ProviderKind::NSVR, MockBehavior::Fail);
    let mut cache = Cache::new_in_memory().unwrap();
    let ids = vec!["avtr_err".to_string()];

    let outcomes = process_avatars(vec![provider], &mut cache, &ids, NOW).unwrap();
    assert!(!outcomes[0].skipped);
    assert!(!outcomes[0].recorded, "a failed send must not reach the cache");
    assert_eq!(sent.borrow().len(), 1);

    // Not recorded, so the next sighting tries again.
    let (provider, sent) = MockProvider::new(ProviderKind::NSVR, MockBehavior::Accept);
    let outcomes = process_avatars(vec![provider], &mut cache, &ids, NOW).unwrap();
    assert!(!outcomes[0].skipped);
    assert!(outcomes[0].recorded);
    assert_eq!(sent.borrow().len(), 1);
}
