use vrc_log::provider::{
    classify_send_status, paw_check_found, paw_send_unique, PawAvatarField, ProviderKind,
    Response, SendDecision, Status,
};
use vrc_log::settings::{rpc_user_usable, Attribution, DEVELOPER_ID};
use vrc_log::sqlite::Sqlite;
use vrc_log::vrchat::VRChat;
use vrc_log::settings::wizard_provider_choices;
use vrc_log::{
    avatar_link_text, next_color_index, parse_avatar_ids, should_forward_path, version_is_newer,
};

#[test]
fn classify_direct_submission_statuses() {
    assert_eq!(classify_send_status(ProviderKind::NSVR, 200), SendDecision::Duplicate);
    assert_eq!(classify_send_status(ProviderKind::NSVR, 404), SendDecision::Unique);
    assert_eq!(classify_send_status(ProviderKind::NSVR, 429), SendDecision::RetryAfter(60));
    assert_eq!(classify_send_status(ProviderKind::NSVR, 500), SendDecision::Reject(500));

    assert_eq!(classify_send_status(ProviderKind::VRCWB, 429), SendDecision::RetryAfter(60));
    assert_eq!(classify_send_status(ProviderKind::VRCDS, 429), SendDecision::Reject(429));

    // Server-side queueing reads as newly accepted for this service.
    assert_eq!(classify_send_status(ProviderKind::VRCDB, 500), SendDecision::Unique);
    assert_eq!(classify_send_status(ProviderKind::VRCDB, 404), SendDecision::Unique);

    assert_eq!(classify_send_status(ProviderKind::PAW, 200), SendDecision::Inspect);
    assert_eq!(classify_send_status(ProviderKind::PAW, 429), SendDecision::RetryAfter(10));
}

#[test]
fn paw_body_decisions() {
    assert!(paw_send_unique(PawAvatarField::Missing));
    assert!(paw_send_unique(PawAvatarField::Null));
    assert!(paw_send_unique(PawAvatarField::EmptyList));
    assert!(!paw_send_unique(PawAvatarField::Data));

    assert!(paw_check_found(true, 200, true));
    assert!(!paw_check_found(true, 200, false));
    assert!(!paw_check_found(false, 200, true));
    assert!(!paw_check_found(true, 404, true));
}

#[test]
fn ravenwood_accepts_only_201() {
    let accepted = Response {
        status: Status {
            message: "stored".to_string(),
            status: 201,
        },
    };
    let known = Response {
        status: Status {
            message: "exists".to_string(),
            status: 200,
        },
    };
    assert!(accepted.is_accepted());
    assert!(!known.is_accepted());
}

#[test]
fn attribution_user_ids() {
    let anonymous = Attribution::Anonymous(String::new());
    assert_eq!(anonymous.get_user_id(), DEVELOPER_ID);

    let manual = Attribution::DiscordID("12345".to_string());
    assert_eq!(manual.get_user_id(), "12345");

    let rpc = Attribution::DiscordRPC("67890".to_string());
    assert_eq!(rpc.get_user_id(), "67890");
}

#[test]
fn sqlite_provider_records_ids() {
    let mut store = Sqlite::new();
    let id = "avtr_local".to_string();

    assert!(store.check_id(&id));
    assert!(store.record_id(&id));
    assert!(!store.check_id(&id));
    assert!(!store.record_id(&id));
}

#[test]
fn vrchat_paths() {
    let config = VRChat {
        cache_directory: "/data/VRChat".to_string(),
    };
    assert_eq!(VRChat::get_path("/data/VRChat"), "/data/VRChat/config.json");
    assert_eq!(
        config.resolved_cache_directory(),
        "/data/VRChat/Cache-WindowsPlayer"
    );
}

#[test]
fn console_helpers() {
    assert_eq!(next_color_index(0), 1);
    assert_eq!(next_color_index(11), 0);
    assert_eq!(avatar_link_text("avtr_1"), "vrcx://avatar/avtr_1");
}

#[test]
fn watched_path_filter() {
    let log = "log".to_string();
    let bin = "bin".to_string();
    let amplitude = "amplitude.cache".to_string();
    let other = "output.bin".to_string();

    assert!(should_forward_path(Some(&log), None));
    assert!(!should_forward_path(Some(&bin), None));
    assert!(should_forward_path(None, Some(&amplitude)));
    assert!(!should_forward_path(None, Some(&other)));
    assert!(!should_forward_path(None, None));
}

#[test]
fn extracts_avatar_ids_from_log_line() {
    let line = b"2024.01.01 log avtr_12345678-abcd-ef01-2345-0123456789ab and \
                 avtr_aaaaaaaa-bbbb-cccc-dddd-eeeeeeeeeeee done"
        .to_vec();
    let found = parse_avatar_ids(&line);
    assert_eq!(found.len(), 2);
    assert_eq!(found[0], b"avtr_12345678-abcd-ef01-2345-0123456789ab".to_vec());
    assert_eq!(found[1], b"avtr_aaaaaaaa-bbbb-cccc-dddd-eeeeeeeeeeee".to_vec());
}

#[test]
fn rejects_malformed_avatar_ids() {
    // Wrong group length and an illegal character: no matches.
    let short = b"avtr_1234567-abcd-ef01-2345-0123456789ab".to_vec();
    assert!(parse_avatar_ids(&short).is_empty());

    let bad_char = b"avtr_1234567!-abcd-ef01-2345-0123456789ab".to_vec();
    assert!(parse_avatar_ids(&bad_char).is_empty());

    let empty = Vec::new();
    assert!(parse_avatar_ids(&empty).is_empty());
}

#[test]
fn wizard_choices_exclude_cache() {
    let choices = wizard_provider_choices();
    assert_eq!(choices.len(), 6);
    assert!(!choices.contains(&ProviderKind::CACHE));
}

#[test]
fn version_comparison_is_lexicographic() {
    let newer = |a: &str, b: &str| version_is_newer(&a.as_bytes().to_vec(), &b.as_bytes().to_vec());
    assert!(newer("0.9.2", "0.9.1"));
    assert!(!newer("0.9.1", "0.9.1"));
    assert!(!newer("0.9.0", "0.9.1"));
    assert!(newer("0.9.1.1", "0.9.1"));
    assert!(newer("1.0.0", ""));
    assert!(!newer("", "1.0.0"));
}

#[test]
fn rpc_placeholder_identity_is_rejected() {
    assert!(!rpc_user_usable(&"1045800378228281345".to_string()));
    assert!(rpc_user_usable(&"358558305997684739".to_string()));
}
