use otp_engine::codes::{format_code, generate_password, is_code_exec};
use otp_engine::errors::OtpError;
use otp_engine::issuer::{compute_expiry, issue_code, request_password};
use otp_engine::record::OtpRecord;
use otp_engine::store::OtpStore;
use otp_engine::validator::validate_password;

fn record(subject: &str, code: &str, issued_at: u64, expires_at: u64, consumed: bool) -> OtpRecord {
    OtpRecord {
        subject: String::from(subject),
        code: String::from(code),
        issued_at,
        expires_at,
        consumed,
    }
}

#[test]
fn format_code_renders_fixed_width_decimal() {
    assert_eq!(format_code(482913), "482913");
    assert_eq!(format_code(7), "000007");
    assert_eq!(format_code(0), "000000");
    assert_eq!(format_code(999999), "999999");
    assert_eq!(format_code(30500), "030500");
}

#[test]
fn generated_codes_have_the_fixed_width_and_charset() {
    for _ in 0..20 {
        let code = generate_password();
        assert_eq!(code.len(), 6);
        assert!(code.chars().all(|c| c.is_ascii_digit()));
    }
}

#[test]
fn generated_codes_vary() {
    let first = generate_password();
    let mut saw_other = false;
    for _ in 0..32 {
        if generate_password() != first {
            saw_other = true;
        }
    }
    assert!(saw_other);
}

#[test]
fn is_code_exec_accepts_only_six_decimal_digits() {
    assert!(is_code_exec(&String::from("482913")));
    assert!(is_code_exec(&String::from("000000")));
    assert!(!is_code_exec(&String::from("48291")));
    assert!(!is_code_exec(&String::from("4829131")));
    assert!(!is_code_exec(&String::from("48291a")));
    assert!(!is_code_exec(&String::from("")));
    assert!(!is_code_exec(&String::from("\u{0661}23456")));
}

#[test]
fn compute_expiry_adds_the_ttl() {
    assert_eq!(compute_expiry(30, 1000), Ok(1030));
    assert_eq!(compute_expiry(0, 1000), Err(OtpError::InvalidArgument));
    assert_eq!(compute_expiry(u64::MAX, 10), Err(OtpError::InvalidArgument));
    assert_eq!(compute_expiry(u64::MAX, 0), Ok(u64::MAX));
}

#[test]
fn requested_code_validates_true_exactly_once() {
    let mut store = OtpStore::new();
    let subject = String::from("alice");
    let code = request_password(&mut store, &subject, 30, 1000).expect("issuance");
    assert_eq!(code.len(), 6);
    assert!(code.chars().all(|c| c.is_ascii_digit()));
    assert!(validate_password(&mut store, &subject, &code, 1000));
    assert!(!validate_password(&mut store, &subject, &code, 1000));
}

#[test]
fn scenario_request_then_validate_then_repeat() {
    let mut store = OtpStore::new();
    let subject = String::from("alice");
    let code = String::from("482913");
    assert_eq!(issue_code(&mut store, &subject, &code, 30, 1000), Ok(()));
    assert!(validate_password(&mut store, &subject, &code, 1000));
    assert!(!validate_password(&mut store, &subject, &code, 1000));
}

#[test]
fn code_expires_after_its_ttl() {
    let mut store = OtpStore::new();
    let subject = String::from("bob");
    let code = String::from("123456");
    assert_eq!(issue_code(&mut store, &subject, &code, 1, 1000), Ok(()));
    assert!(!validate_password(&mut store, &subject, &code, 1001));
    assert!(!validate_password(&mut store, &subject, &code, 5000));
}

#[test]
fn code_validates_within_its_ttl() {
    let mut store = OtpStore::new();
    let subject = String::from("bob");
    let code = String::from("123456");
    assert_eq!(issue_code(&mut store, &subject, &code, 1, 1000), Ok(()));
    assert!(validate_password(&mut store, &subject, &code, 1000));
}

#[test]
fn repeated_validations_win_exactly_once() {
    let mut store = OtpStore::new();
    let subject = String::from("carol");
    let code = request_password(&mut store, &subject, 60, 500).expect("issuance");
    let mut wins = 0;
    for _ in 0..8 {
        if validate_password(&mut store, &subject, &code, 510) {
            wins += 1;
        }
    }
    assert_eq!(wins, 1);
}

#[test]
fn unknown_code_validates_false() {
    let mut store = OtpStore::new();
    let subject = String::from("alice");
    assert!(!validate_password(&mut store, &subject, &String::from("000001"), 1000));
    let other = request_password(&mut store, &subject, 30, 1000).expect("issuance");
    let wrong = if other == "111111" { "222222" } else { "111111" };
    assert!(!validate_password(&mut store, &subject, &String::from(wrong), 1000));
    assert!(!validate_password(&mut store, &String::from("mallory"), &other, 1000));
}

#[test]
fn zero_ttl_is_rejected() {
    let mut store = OtpStore::new();
    let subject = String::from("alice");
    assert_eq!(
        request_password(&mut store, &subject, 0, 1000),
        Err(OtpError::InvalidArgument)
    );
    assert_eq!(
        issue_code(&mut store, &subject, &String::from("482913"), 0, 1000),
        Err(OtpError::InvalidArgument)
    );
}

#[test]
fn overflowing_expiry_is_rejected() {
    let mut store = OtpStore::new();
    let subject = String::from("alice");
    assert_eq!(
        request_password(&mut store, &subject, u64::MAX, 10),
        Err(OtpError::InvalidArgument)
    );
}

#[test]
fn malformed_code_is_rejected() {
    let mut store = OtpStore::new();
    let subject = String::from("alice");
    assert_eq!(
        issue_code(&mut store, &subject, &String::from("48291a"), 30, 1000),
        Err(OtpError::InvalidArgument)
    );
}

#[test]
fn colliding_issue_reports_resource_exhausted() {
    let mut store = OtpStore::new();
    let subject = String::from("alice");
    let code = String::from("482913");
    assert_eq!(issue_code(&mut store, &subject, &code, 30, 1000), Ok(()));
    assert_eq!(
        issue_code(&mut store, &subject, &code, 30, 1010),
        Err(OtpError::ResourceExhausted)
    );
}

#[test]
fn stale_record_is_overwritten_not_merged() {
    let mut store = OtpStore::new();
    let subject = String::from("alice");
    let code = String::from("482913");
    assert_eq!(issue_code(&mut store, &subject, &code, 10, 1000), Ok(()));
    // expired: the same key may be issued again
    assert_eq!(issue_code(&mut store, &subject, &code, 30, 2000), Ok(()));
    assert!(validate_password(&mut store, &subject, &code, 2010));
    // consumed: the same key may be issued again as well
    assert_eq!(issue_code(&mut store, &subject, &code, 30, 2020), Ok(()));
    assert!(validate_password(&mut store, &subject, &code, 2030));
    assert!(!validate_password(&mut store, &subject, &code, 2030));
}

#[test]
fn subjects_are_part_of_the_key() {
    let mut store = OtpStore::new();
    let code = String::from("482913");
    assert_eq!(issue_code(&mut store, &String::from("alice"), &code, 30, 1000), Ok(()));
    assert_eq!(issue_code(&mut store, &String::from("bob"), &code, 30, 1000), Ok(()));
    assert!(validate_password(&mut store, &String::from("alice"), &code, 1010));
    assert!(!validate_password(&mut store, &String::from("alice"), &code, 1010));
    assert!(validate_password(&mut store, &String::from("bob"), &code, 1010));
}

#[test]
fn empty_subject_flows_work() {
    let mut store = OtpStore::new();
    let subject = String::from("");
    let code = request_password(&mut store, &subject, 30, 1000).expect("issuance");
    assert!(validate_password(&mut store, &subject, &code, 1020));
    assert!(!validate_password(&mut store, &subject, &code, 1020));
}

#[test]
fn store_query_and_conditional_update() {
    let mut store = OtpStore::new();
    let subject = String::from("alice");
    let code = String::from("482913");
    assert!(!store.query_valid(&subject, &code, 1000));
    assert!(store.insert_fresh(record("alice", "482913", 1000, 1030, false), 1000));
    assert!(store.query_valid(&subject, &code, 1000));
    assert!(!store.query_valid(&subject, &code, 1030));
    assert!(store.compare_and_consume(&subject, &code));
    assert!(!store.compare_and_consume(&subject, &code));
    assert!(!store.query_valid(&subject, &code, 1000));
}

#[test]
fn insert_fresh_refuses_live_collisions() {
    let mut store = OtpStore::new();
    assert!(store.insert_fresh(record("alice", "482913", 1000, 1030, false), 1000));
    assert!(!store.insert_fresh(record("alice", "482913", 1010, 1040, false), 1010));
    // past the first record's expiration the key is free again
    assert!(store.insert_fresh(record("alice", "482913", 1030, 1060, false), 1030));
}

#[test]
fn record_payload_carries_key_and_expiration() {
    let rec = record("alice", "482913", 1000, 1030, false);
    let item = rec.to_item();
    assert_eq!(item.username, "alice");
    assert_eq!(item.password, "482913");
    assert_eq!(item.expiration_timestamp, 1030);
}

#[test]
fn record_filter_matches_expiry_and_consumption() {
    let live = record("alice", "482913", 1000, 1030, false);
    assert!(live.is_valid_now(1029));
    assert!(!live.is_valid_now(1030));
    let used = record("alice", "482913", 1000, 1030, true);
    assert!(!used.is_valid_now(1000));
}
