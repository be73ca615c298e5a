use arachne::ids::new_record_id;
use arachne::browser::{random_user_agent, user_agent_for};
use arachne::error::ArachneError;
use arachne::pipeline::dedup::{find_match_after_phone, find_match_start, MatchStep};
use arachne::storage::postgres::{plan_upsert, UpsertPlan};
use arachne::storage::redis::{rate_check, rate_check_at, rate_limit_allows, rate_limit_key, rate_member, new_rate_member};
use arachne::storage::rustfs::{bucket_creation_outcome, check_upload_status, BucketOutcome};

#[test]
fn phone_is_the_strongest_match_signal() {
    assert!(matches!(find_match_start(Some("+5511999991234")), MatchStep::ByPhone(p) if p == "+5511999991234"));
    assert!(matches!(find_match_start(Some("")), MatchStep::ByNameCity));
    assert!(matches!(find_match_start(None), MatchStep::ByNameCity));
    assert!(matches!(find_match_after_phone(Some(7)), MatchStep::Matched(7)));
    assert!(matches!(find_match_after_phone(None), MatchStep::ByNameCity));
}

#[test]
fn upsert_plan() {
    assert!(matches!(plan_upsert(Some(5)), UpsertPlan::Update(5)));
    assert_eq!(plan_upsert(Some(5)).outcome(), (5, false));
    let p = plan_upsert(None);
    assert!(matches!(p, UpsertPlan::Insert(_)));
    assert!(p.outcome().1);
    let (id, _) = p.outcome();
    assert_eq!((id >> 76) & 0xf, 4);
    assert_eq!((id >> 62) & 0x3, 2);
}

#[test]
fn new_rate_member_holds_a_v4_uuid() {
    let m = new_rate_member(1700000000);
    assert!(m.starts_with("1700000000:"));
    let id: Vec<char> = m["1700000000:".len()..].chars().collect();
    assert_eq!(id.len(), 36);
    assert_eq!(id[14], '4');
    assert!(matches!(id[19], '8' | '9' | 'a' | 'b'));
}

#[test]
fn rate_limit_rules() {
    assert_eq!(rate_limit_key("fatal_model"), "arachne:rate:fatal_model");
    assert!(rate_limit_allows(9, 10));
    assert!(!rate_limit_allows(10, 10));
    assert!(!rate_limit_allows(0, 0));
    let c = rate_check_at("s", 1_700_000_000);
    assert_eq!(c.stale_before, 1_699_999_940);
    let now = rate_check("s");
    assert_eq!(now.stale_before, now.now - 60);
    assert!(now.now > 1_600_000_000);
    assert_eq!(rate_member(-5, 255), "-5:00000000-0000-0000-0000-0000000000ff");
}

#[test]
fn bucket_and_upload_answers() {
    assert!(matches!(bucket_creation_outcome("b", None), Ok(BucketOutcome::Created)));
    assert!(matches!(bucket_creation_outcome("b", Some("S3 error: BucketAlreadyOwnedByYou")), Ok(BucketOutcome::AlreadyThere)));
    assert!(matches!(bucket_creation_outcome("b", Some("BucketAlreadyExists")), Ok(BucketOutcome::AlreadyThere)));
    match bucket_creation_outcome("photos", Some("AccessDenied")) {
        Err(ArachneError::S3(m)) => assert_eq!(m, "failed to create bucket 'photos': AccessDenied"),
        other => panic!("unexpected {:?}", other),
    }
    assert!(check_upload_status(200).is_ok());
    assert!(check_upload_status(299).is_ok());
    match check_upload_status(403) {
        Err(ArachneError::S3(m)) => assert_eq!(m, "upload returned HTTP 403"),
        other => panic!("unexpected {:?}", other),
    }
}

#[test]
fn user_agents() {
    assert!(user_agent_for(0).contains("Windows NT 10.0; Win64; x64) AppleWebKit"));
    assert_eq!(user_agent_for(5), user_agent_for(0));
    assert!(user_agent_for(4).contains("Firefox/126.0"));
    let ua = random_user_agent();
    assert!((0..5).any(|i| user_agent_for(i) == ua));
}

#[test]
fn new_record_id_is_version_four_rfc_variant() {
    for _ in 0..32 {
        let id = new_record_id();
        assert_eq!((id >> 76) & 0xf, 4);
        assert_eq!((id >> 62) & 0x3, 2);
    }
    assert_ne!(new_record_id(), new_record_id());
}
