use vrc_log::cache::{Cache, CHUNK_SIZE, TTL_SECS};

const NOW: u64 = 1_700_000_000;

fn cache() -> Cache {
    Cache::new_in_memory().unwrap()
}

#[test]
fn creates_database_and_table() {
    let mut cache = cache();

    // Simple sanity check: storing should not fail
    cache
        .store_avatar_ids_with_providers(&vec![("avatar_1".to_string(), 1u32)], NOW)
        .unwrap();
}

#[test]
fn inserts_and_reads_avatar_ids() {
    let mut cache = cache();

    cache
        .store_avatar_ids_with_providers(
            &vec![("avatar_a".to_string(), 1u32), ("avatar_b".to_string(), 2u32)],
            NOW,
        )
        .unwrap();

    let result = cache
        .check_all_ids(&vec!["avatar_a".to_string(), "avatar_b".to_string()], NOW)
        .unwrap();

    assert_eq!(result.len(), 2);
    assert_eq!(result[0], ("avatar_a".to_string(), 1));
    assert_eq!(result[1], ("avatar_b".to_string(), 2));
}

#[test]
fn returns_none_for_missing_ids() {
    let cache = cache();

    let result = cache
        .check_all_ids(&vec!["missing_avatar".to_string()], NOW)
        .unwrap();

    assert_eq!(result[0], ("missing_avatar".to_string(), 0));
}

#[test]
fn updates_provider_bits_on_conflict() {
    let mut cache = cache();

    cache
        .store_avatar_ids_with_providers(&vec![("avatar_x".to_string(), 1u32)], NOW)
        .unwrap();

    cache
        .store_avatar_ids_with_providers(&vec![("avatar_x".to_string(), 42u32)], NOW)
        .unwrap();

    let result = cache.check_all_ids(&vec!["avatar_x".to_string()], NOW).unwrap();

    assert_eq!(result[0].1, 42);
}

#[test]
fn respects_chunking_limits() {
    let mut cache = cache();

    let entries: Vec<(String, u32)> = (0..(CHUNK_SIZE + 10))
        .map(|i| (format!("avatar_{i}"), i as u32))
        .collect();

    cache.store_avatar_ids_with_providers(&entries, NOW).unwrap();

    let ids: Vec<String> = entries.iter().map(|(id, _)| id.clone()).collect();
    let result = cache.check_all_ids(&ids, NOW).unwrap();

    assert_eq!(result.len(), entries.len());

    for (got, want) in result.iter().zip(entries.iter()) {
        assert_eq!(got, want);
    }
}

#[test]
fn ignores_entries_older_than_30_days() {
    let mut cache = cache();

    cache
        .store_avatar_ids_with_providers(&vec![("old_avatar".to_string(), 1u32)], NOW)
        .unwrap();

    // Still fresh one second before the window closes.
    let result = cache
        .check_all_ids(&vec!["old_avatar".to_string()], NOW + TTL_SECS - 1)
        .unwrap();
    assert_eq!(result[0].1, 1);

    // Aged past the freshness window: the row exists, but reads as 0.
    let result = cache
        .check_all_ids(&vec!["old_avatar".to_string()], NOW + TTL_SECS)
        .unwrap();
    assert_eq!(result[0].1, 0);
}

#[test]
fn empty_store_is_a_no_op() {
    let mut cache = cache();
    cache.store_avatar_ids_with_providers(&Vec::new(), NOW).unwrap();
    let result = cache.check_all_ids(&vec!["anything".to_string()], NOW).unwrap();
    assert_eq!(result[0].1, 0);
}

#[test]
fn check_and_send_avatar_id_roundtrip() {
    let mut cache = cache();
    let id = "avtr_solo".to_string();

    // Unknown identifier: should be processed.
    assert!(cache.check_avatar_id(&id, NOW).unwrap());

    cache.send_avatar_id(&id, NOW).unwrap();

    // Freshly recorded: skip it now.
    assert!(!cache.check_avatar_id(&id, NOW).unwrap());

    // A touch keeps existing provider bits and refreshes the stamp.
    cache
        .store_avatar_ids_with_providers(&vec![(id.clone(), 5u32)], NOW)
        .unwrap();
    cache.send_avatar_id(&id, NOW + 10).unwrap();
    let result = cache.check_all_ids(&vec![id.clone()], NOW + 10).unwrap();
    assert_eq!(result[0].1, 5);

    // Once stale, the identifier should be processed again.
    assert!(cache.check_avatar_id(&id, NOW + 10 + TTL_SECS).unwrap());
}

#[test]
fn migrates_legacy_schema_to_stale_rows() {
    // A legacy store: no stamp columns at all. Its rows must survive
    // setup but come out stale, never fresh.
    let uri = "file:legacy_schema_test?mode=memory&cache=shared";
    let raw = rusqlite::Connection::open(uri).unwrap();
    raw.execute_batch(
        "CREATE TABLE avatars (id TEXT PRIMARY KEY);
         INSERT INTO avatars (id) VALUES ('old_row');",
    )
    .unwrap();

    let mut cache = Cache::new_at_location(uri, NOW).unwrap();

    // The legacy row reads as stale, so it will be resubmitted once.
    let result = cache.check_all_ids(&vec!["old_row".to_string()], NOW).unwrap();
    assert_eq!(result[0].1, 0);

    // The row still exists and its stamp is now a stale integer.
    let count: i64 = raw
        .query_row("SELECT COUNT(*) FROM avatars", [], |r| r.get(0))
        .unwrap();
    assert_eq!(count, 1);
    let stamp_type: String = raw
        .query_row("SELECT typeof(updated_at) FROM avatars", [], |r| r.get(0))
        .unwrap();
    assert_eq!(stamp_type, "integer");

    // Setup is idempotent: a second run changes nothing.
    let created = cache.setup_database(NOW + 5).unwrap();
    assert!(!created);
    let result = cache.check_all_ids(&vec!["old_row".to_string()], NOW + 5).unwrap();
    assert_eq!(result[0].1, 0);
}

#[test]
fn text_stamps_are_restamped_stale() {
    // An older schema stored text datetimes in the stamp column; text
    // sorts above every integer, so without normalization such rows
    // would read fresh forever. Setup must stamp them stale instead,
    // keeping their bits.
    let uri = "file:legacy_text_test?mode=memory&cache=shared";
    let raw = rusqlite::Connection::open(uri).unwrap();
    raw.execute_batch(
        "CREATE TABLE avatars (
             id TEXT PRIMARY KEY,
             created_at DATETIME,
             updated_at DATETIME,
             provider_bits INT DEFAULT 0
         );
         INSERT INTO avatars (id, updated_at, provider_bits)
         VALUES ('text_row', '2024-01-01 00:00:00', 3);",
    )
    .unwrap();

    let cache = Cache::new_at_location(uri, NOW).unwrap();

    let result = cache.check_all_ids(&vec!["text_row".to_string()], NOW).unwrap();
    assert_eq!(result[0].1, 0, "a text-stamped row must read stale");

    let (stamp_type, bits): (String, u32) = raw
        .query_row(
            "SELECT typeof(updated_at), provider_bits FROM avatars WHERE id = 'text_row'",
            [],
            |r| Ok((r.get(0)?, r.get(1)?)),
        )
        .unwrap();
    assert_eq!(stamp_type, "integer");
    assert_eq!(bits, 3, "migration must keep the stored bits");
}
