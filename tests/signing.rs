use der6y::cipher::{decode_ns, decrypt};
use der6y::datetime::{shift_date_time, shift_seconds};
use der6y::error::SignError;
use der6y::json::ObjectText;
use der6y::keys::rn_key;
use der6y::signing::{
    login_body_text, login_digest, oct_text, rem11, sign_login_request, sign_run_data,
    upload_digest, upload_start_time, UploadRunningInfo,
};

const LOGIN_PLAIN: &str = r#"{
  "entrance" : "1",
  "userName" : "username",
  "password" : "password",
  "signDigital" : "0d9769667cccfa5ffcf6ecf0c389a177b34cef97"
}"#;

const LOGIN_CIPHER: &str = "ns7Q243GuyndUvGnNrdoF048oXxrHUJ4MnWXUJD7xlnl6wUXjLJFKrOrVTitJZ2AQq5DzJJIF3eIYiw6KZT4ty7Y5uvNDvB6OioDVZ06xYVEQhBH4G7yjMgpdxx1tHdIjU1fsOiEqlz8uY4QJWo0Tby+9guDCHkdh7cLZcvoyXde/GCWjWaJEuFudgd2eHHH";

fn record() -> UploadRunningInfo {
    UploadRunningInfo {
        mileage: "1.3373537755208653".to_string(),
        gps_mileage: "1.3373537755208653".to_string(),
        effective_part: 1,
        sign_time: String::new(),
        keep_time: 294,
        device_type: "iPhone 13 Pro".to_string(),
        ave_pace: 219000,
        app_version: "3.10.0".to_string(),
        oct: String::new(),
        end_time: "2024-09-20 20:55:00".to_string(),
        limitations_goals_sex_info_id: "lim".to_string(),
        semester_id: "sem".to_string(),
        uneffective_reason: String::new(),
        run_type: "自由跑".to_string(),
        pace_number: 42,
        sign_digital: String::new(),
        total_mileage: "1.3373537755208653".to_string(),
        total_part: 1,
        calorie: 85,
        effective_mileage: "1.3373537755208653".to_string(),
        system_version: "16.0.2".to_string(),
        pace_range: "0.6".to_string(),
        scoring_type: 2,
        start_time: "2024-09-20 20:49:54".to_string(),
    }
}

const OCT_PLAIN: &str = r#"{
  "tp" : 1,
  "ep" : 1,
  "kt" : 294,
  "em" : 1.3373537755208653,
  "rt" : "自由跑",
  "uer" : "",
  "xq" : "sem",
  "dt" : "iPhone 13 Pro",
  "bf" : 0.6,
  "bs" : 42,
  "zlc" : 1.3373537755208653,
  "jf" : 2,
  "et" : "2024-09-20 20:55:00",
  "lid" : "lim",
  "kll" : 85,
  "app" : "3.10.0",
  "ap" : 219000,
  "lcs" : 1.3373537755208653,
  "st" : "2024-09-20 20:49:54",
  "sv" : "16.0.2"
}"#;

#[test]
fn login_digest_of_known_account() {
    assert_eq!(
        login_digest("username", "password"),
        "0d9769667cccfa5ffcf6ecf0c389a177b34cef97"
    );
}

#[test]
fn login_signing_gives_known_envelope() {
    let (digest, envelope) = sign_login_request("username", "password", 1000000000000).unwrap();
    assert_eq!(digest, "0d9769667cccfa5ffcf6ecf0c389a177b34cef97");
    assert_eq!(envelope, LOGIN_CIPHER);
    assert_eq!(decode_ns(&envelope, 1000000000000).unwrap(), LOGIN_PLAIN);
}

#[test]
fn login_body_escapes_values_and_spaces_every_separator() {
    let body = login_body_text("a\"b", "p: q", "d");
    assert_eq!(
        body,
        "{\n  \"entrance\": \"1\",\n  \"userName\": \"a\\\"b\",\n  \"password\": \"p: q\",\n  \"signDigital\": \"d\"\n}"
    );
    let (_, envelope) = sign_login_request("a\"b", "p: q", 1726836594123).unwrap();
    let plain = decode_ns(&envelope, 1726836594123).unwrap();
    assert!(plain.contains("\"password\" : \"p : q\""));
    assert!(plain.contains("\"userName\" : \"a\\\"b\""));
}

#[test]
fn login_signing_fails_on_short_timestamp() {
    assert_eq!(
        sign_login_request("username", "password", 1234),
        Err(SignError::KeyOutOfRange)
    );
}

#[test]
fn upload_digest_reproduces_known_signature() {
    let d = upload_digest("1.3373537755208653", "2024-09-20 20:49:54", 85, 219000, 294, 42);
    assert_eq!(d, "55237d619d2a7a374e4d874e3a0c5f5aafce346b");
}

#[test]
fn oct_text_lists_twenty_members_in_order() {
    let text = oct_text(&record());
    assert_eq!(text.replace(": ", " : "), OCT_PLAIN);
    assert_eq!(text.lines().count(), 22);
}

#[test]
fn signing_an_upload_fills_sign_time_and_blob() {
    let a1 = "0123456789abcdef";
    let a2 = "ABCDEFGHIJKLMNOP";
    let mut data = record();
    sign_run_data(&mut data, a1, a2).unwrap();
    // 294 % 11 == 8 seconds after the end time.
    assert_eq!(data.sign_time, "2024-09-20 20:55:08");
    let key = rn_key(a1, a2).unwrap();
    assert_eq!(decrypt(&data.oct, &key).unwrap(), OCT_PLAIN);
    assert_eq!(data.sign_digital, "55237d619d2a7a374e4d874e3a0c5f5aafce346b");
    assert_eq!(data.end_time, "2024-09-20 20:55:00");
    assert_eq!(data.keep_time, 294);
}

#[test]
fn signing_an_upload_with_short_identifiers_changes_nothing() {
    let mut data = record();
    assert_eq!(sign_run_data(&mut data, "short", "ABCDEFGHIJKLMNOP"), Err(SignError::KeyOutOfRange));
    assert_eq!(data.sign_time, "");
    assert_eq!(data.oct, "");
    assert_eq!(data.sign_digital, "");
}

#[test]
fn signing_an_upload_with_bad_end_time_fails() {
    let mut data = record();
    data.end_time = "2024/09/20 20:55".to_string();
    assert_eq!(
        sign_run_data(&mut data, "0123456789abcdef", "ABCDEFGHIJKLMNOP"),
        Err(SignError::Time)
    );
    assert_eq!(data.oct, "");
}

#[test]
fn sign_time_crosses_midnight() {
    let mut data = record();
    data.end_time = "2024-12-31 23:59:55".to_string();
    data.keep_time = 10;
    sign_run_data(&mut data, "0123456789abcdef", "ABCDEFGHIJKLMNOP").unwrap();
    assert_eq!(data.sign_time, "2025-01-01 00:00:05");
}

#[test]
fn start_time_is_duration_and_eight_seconds_before_end() {
    assert_eq!(
        upload_start_time("2024-09-20 21:00:00", 600).unwrap(),
        "2024-09-20 20:49:52"
    );
    assert_eq!(upload_start_time("not a time", 600), Err(SignError::Time));
    assert_eq!(upload_start_time("2024-09-20 21:00:00", i64::MAX), Err(SignError::Time));
}

#[test]
fn remainder_keeps_the_sign_of_the_duration() {
    assert_eq!(rem11(294), 8);
    assert_eq!(rem11(11), 0);
    assert_eq!(rem11(-3), -3);
    assert_eq!(rem11(-25), -3);
}

#[test]
fn date_times_shift_by_seconds() {
    assert_eq!(shift_date_time("2024-02-28 23:59:59", 1).unwrap(), "2024-02-29 00:00:00");
    assert_eq!(shift_date_time("2024-03-01 00:00:00", -1).unwrap(), "2024-02-29 23:59:59");
    assert_eq!(shift_date_time("2024-13-01 00:00:00", 1), None);
    assert_eq!(shift_seconds(i64::MAX, 1), None);
    assert_eq!(shift_seconds(10, -3), Some(7));
}

#[test]
fn object_text_lays_out_members_like_serde_json() {
    let mut obj = ObjectText::new();
    obj.push("a", "1");
    obj.push("b", "\"x\"");
    assert_eq!(obj.finish(), "{\n  \"a\": 1,\n  \"b\": \"x\"\n}");
    assert_eq!(ObjectText::new().finish(), "{}");
}

#[test]
fn login_body_escapes_control_characters() {
    let body = login_body_text("tab\there", "new\nline\u{1}\\", "\u{7f}é");
    assert!(body.contains("\"userName\": \"tab\\there\""));
    assert!(body.contains("\"password\": \"new\\nline\\u0001\\\\\""));
    assert!(body.contains("\"signDigital\": \"\u{7f}é\""));
}
