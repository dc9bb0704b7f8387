//! The two signing paths: the login envelope and the upload signature.
//!
//! Both encrypt a pretty-printed JSON object whose key/value separators are
//! written `" : "`; the backend compares that exact text.

use crate::cipher::{encrypt, encrypt_text};
use crate::datetime::{shift_date_time, shifted_text};
use crate::digest::{digest_text, hs};
use crate::error::SignError;
use crate::json::{json_string, json_string_of, member, pretty_object, space_separators, spaced, ObjectText};
use crate::keys::{decimal, dynamic_key, dynamic_key_result, push_decimal, rn_key, rn_key_result, signed_decimal, signed_decimal_text};
use vstd::prelude::*;

verus! {

/// The text digested to sign a login.
pub open spec fn login_digest_text(username: Seq<char>, password: Seq<char>) -> Seq<char> {
    username + password + seq!['1']
}

/// The login request body, before its separators are spaced.
pub open spec fn login_body(username: Seq<char>, password: Seq<char>, digest: Seq<char>) -> Seq<
    char,
> {
    pretty_object(
        seq![
            member("entrance"@, json_string_of("1"@)),
            member("userName"@, json_string_of(username)),
            member("password"@, json_string_of(password)),
            member("signDigital"@, json_string_of(digest)),
        ],
    )
}

/// Digests a login: the salted digest of username, password and `"1"`.
pub fn login_digest(username: &str, password: &str) -> (r: String)
    ensures
        r@ == digest_text(login_digest_text(username@, password@)),
{
    let mut text = String::from_str(username);
    text.append(password);
    text.append("1");
    proof {
        reveal_strlit("1");
        assert(text@ =~= login_digest_text(username@, password@));
    }
    hs(text.as_str())
}

/// Writes the login request body for a username, password and digest.
pub fn login_body_text(username: &str, password: &str, digest: &str) -> (r: String)
    ensures
        r@ == login_body(username@, password@, digest@),
{
    let mut obj = ObjectText::new();
    obj.push("entrance", json_string("1").as_str());
    obj.push("userName", json_string(username).as_str());
    obj.push("password", json_string(password).as_str());
    obj.push("signDigital", json_string(digest).as_str());
    let ghost ms = obj.members();
    let r = obj.finish();
    assert(ms =~= seq![
        member("entrance"@, json_string_of("1"@)),
        member("userName"@, json_string_of(username@)),
        member("password"@, json_string_of(password@)),
        member("signDigital"@, json_string_of(digest@)),
    ]);
    r
}

/// Signs a login at the millisecond timestamp `now_millis`: the login digest,
/// and the spaced request body encrypted under the time key of
/// `now_millis`.
///
/// It fails, with that key's error, exactly where the time key of
/// `now_millis` cannot be derived.
pub fn sign_login_request(username: &str, password: &str, now_millis: i64) -> (r: Result<
    (String, String),
    SignError,
>)
    ensures
        match dynamic_key_result(signed_decimal(now_millis as int)) {
            Ok(k) => match r {
                Ok((digest, envelope)) => {
                    &&& digest@ == digest_text(login_digest_text(username@, password@))
                    &&& envelope@ == encrypt_text(spaced(login_body(username@, password@, digest@)), k)
                },
                Err(_) => false,
            },
            Err(e) => r == Err::<(String, String), SignError>(e),
        },
{
    let digest = login_digest(username, password);
    let body = login_body_text(username, password, digest.as_str());
    let key = dynamic_key(signed_decimal_text(now_millis).as_str())?;
    let spaced_body = space_separators(body.as_str());
    let envelope = encrypt(spaced_body.as_str(), key.as_str());
    Ok((digest, envelope))
}

/// The fields of one activity upload that the signature covers, with the two
/// signature fields that signing fills in.
///
/// The decimal fields (`gps_mileage`, `effective_mileage`, `total_mileage`,
/// `pace_range`) are held as the JSON number text that stands for them on the
/// wire. `mileage` is the mileage as the digest writes it: its shortest
/// round-trip decimal text.
#[derive(Debug)]
pub struct UploadRunningInfo {
    pub mileage: String,
    pub gps_mileage: String,
    pub effective_part: u8,
    pub sign_time: String,
    pub keep_time: i64,
    pub device_type: String,
    pub ave_pace: i64,
    pub app_version: String,
    pub oct: String,
    pub end_time: String,
    pub limitations_goals_sex_info_id: String,
    pub semester_id: String,
    pub uneffective_reason: String,
    pub run_type: String,
    pub pace_number: i64,
    pub sign_digital: String,
    pub total_mileage: String,
    pub total_part: u8,
    pub calorie: i64,
    pub effective_mileage: String,
    pub system_version: String,
    pub pace_range: String,
    pub scoring_type: u8,
    pub start_time: String,
}

/// The twenty members of the signed summary of an upload, in their order on
/// the wire, under their short names.
pub open spec fn oct_members(d: UploadRunningInfo) -> Seq<Seq<char>> {
    seq![
        member("tp"@, decimal(d.total_part as nat)),
        member("ep"@, decimal(d.effective_part as nat)),
        member("kt"@, signed_decimal(d.keep_time as int)),
        member("em"@, d.effective_mileage@),
        member("rt"@, json_string_of(d.run_type@)),
        member("uer"@, json_string_of(d.uneffective_reason@)),
        member("xq"@, json_string_of(d.semester_id@)),
        member("dt"@, json_string_of(d.device_type@)),
        member("bf"@, d.pace_range@),
        member("bs"@, signed_decimal(d.pace_number as int)),
        member("zlc"@, d.total_mileage@),
        member("jf"@, decimal(d.scoring_type as nat)),
        member("et"@, json_string_of(d.end_time@)),
        member("lid"@, json_string_of(d.limitations_goals_sex_info_id@)),
        member("kll"@, signed_decimal(d.calorie as int)),
        member("app"@, json_string_of(d.app_version@)),
        member("ap"@, signed_decimal(d.ave_pace as int)),
        member("lcs"@, d.gps_mileage@),
        member("st"@, json_string_of(d.start_time@)),
        member("sv"@, json_string_of(d.system_version@)),
    ]
}

/// The signed summary of an upload, before its separators are spaced.
pub open spec fn oct_body(d: UploadRunningInfo) -> Seq<char> {
    pretty_object(oct_members(d))
}

/// Rust's remainder: the sign of the dividend, magnitude below the divisor.
pub open spec fn rem(a: int, m: int) -> int {
    if a >= 0 {
        a % m
    } else {
        -((-a) % m)
    }
}

/// The sign time of an upload: `keep_time % 11` seconds after its end time.
pub open spec fn sign_time_of(d: UploadRunningInfo) -> Option<Seq<char>> {
    shifted_text(d.end_time@, rem(d.keep_time as int, 11))
}

fn unsigned_text(n: u8) -> (r: String)
    ensures
        r@ == decimal(n as nat),
{
    let mut out = String::new();
    push_decimal(&mut out, n as u64);
    assert(out@ =~= decimal(n as nat));
    out
}

/// Writes the signed summary of an upload.
pub fn oct_text(d: &UploadRunningInfo) -> (r: String)
    ensures
        r@ == oct_body(*d),
{
    let mut obj = ObjectText::new();
    obj.push("tp", unsigned_text(d.total_part).as_str());
    obj.push("ep", unsigned_text(d.effective_part).as_str());
    obj.push("kt", signed_decimal_text(d.keep_time).as_str());
    obj.push("em", d.effective_mileage.as_str());
    obj.push("rt", json_string(d.run_type.as_str()).as_str());
    obj.push("uer", json_string(d.uneffective_reason.as_str()).as_str());
    obj.push("xq", json_string(d.semester_id.as_str()).as_str());
    obj.push("dt", json_string(d.device_type.as_str()).as_str());
    obj.push("bf", d.pace_range.as_str());
    obj.push("bs", signed_decimal_text(d.pace_number).as_str());
    obj.push("zlc", d.total_mileage.as_str());
    obj.push("jf", unsigned_text(d.scoring_type).as_str());
    obj.push("et", json_string(d.end_time.as_str()).as_str());
    obj.push("lid", json_string(d.limitations_goals_sex_info_id.as_str()).as_str());
    obj.push("kll", signed_decimal_text(d.calorie).as_str());
    obj.push("app", json_string(d.app_version.as_str()).as_str());
    obj.push("ap", signed_decimal_text(d.ave_pace).as_str());
    obj.push("lcs", d.gps_mileage.as_str());
    obj.push("st", json_string(d.start_time.as_str()).as_str());
    obj.push("sv", json_string(d.system_version.as_str()).as_str());
    let ghost ms = obj.members();
    let r = obj.finish();
    assert(ms =~= oct_members(*d));
    r
}

/// `a % 11` with the sign of `a`.
pub fn rem11(a: i64) -> (r: i64)
    ensures
        r == rem(a as int, 11),
{
    if a >= 0 {
        a % 11
    } else {
        let m: i128 = (-(a as i128)) % 11;
        -(m as i64)
    }
}

/// The digest of an upload: `upload_digest_text` over its mileage, start
/// time, calorie, average pace, duration and pace number.
pub open spec fn upload_digest_of(d: UploadRunningInfo) -> Seq<char> {
    digest_text(
        upload_digest_text(
            d.mileage@,
            d.start_time@,
            d.calorie as int,
            d.ave_pace as int,
            d.keep_time as int,
            d.pace_number as int,
        ),
    )
}

/// Signs an upload with the session identifiers `a1` and `a2`: sets
/// `sign_digital` to the upload's digest, `sign_time` to `keep_time % 11`
/// seconds after `end_time`, and `oct` to the spaced signed summary encrypted
/// under the session key. Other fields keep their values.
///
/// It fails, changing nothing, with the session key's error where that key
/// cannot be derived, else with `Time` exactly where the sign time cannot be
/// read or written.
pub fn sign_run_data(data: &mut UploadRunningInfo, a1: &str, a2: &str) -> (r: Result<(), SignError>)
    ensures
        match rn_key_result(a1@, a2@) {
            Err(k) => r == Err::<(), SignError>(k) && *final(data) == *old(data),
            Ok(key) => match sign_time_of(*old(data)) {
                None => r == Err::<(), SignError>(SignError::Time) && *final(data) == *old(data),
                Some(sign_time) => {
                    &&& r is Ok
                    &&& *final(data) == (UploadRunningInfo {
                        sign_time: final(data).sign_time,
                        oct: final(data).oct,
                        sign_digital: final(data).sign_digital,
                        ..*old(data)
                    })
                    &&& final(data).sign_time@ == sign_time
                    &&& final(data).oct@ == encrypt_text(spaced(oct_body(*old(data))), key)
                    &&& final(data).sign_digital@ == upload_digest_of(*old(data))
                },
            },
        },
{
    let key = rn_key(a1, a2)?;
    let delta = rem11(data.keep_time);
    let sign_time = match shift_date_time(data.end_time.as_str(), delta) {
        Some(t) => t,
        None => return Err(SignError::Time),
    };
    let digest = upload_digest(
        data.mileage.as_str(),
        data.start_time.as_str(),
        data.calorie,
        data.ave_pace,
        data.keep_time,
        data.pace_number,
    );
    let body = oct_text(data);
    let spaced_body = space_separators(body.as_str());
    let oct = encrypt(spaced_body.as_str(), key.as_str());
    data.sign_time = sign_time;
    data.oct = oct;
    data.sign_digital = digest;
    Ok(())
}

/// The text digested to sign an upload: mileage, `"1"`, start time, calorie,
/// average pace, duration, pace number, mileage again, `"1"`.
pub open spec fn upload_digest_text(
    mileage: Seq<char>,
    start_time: Seq<char>,
    calorie: int,
    ave_pace: int,
    keep_time: int,
    pace_number: int,
) -> Seq<char> {
    mileage + seq!['1'] + start_time + signed_decimal(calorie) + signed_decimal(ave_pace)
        + signed_decimal(keep_time) + signed_decimal(pace_number) + mileage + seq!['1']
}

/// Digests an upload. `mileage` is the decimal text of the mileage in its
/// shortest round-trip form, `start_time` the start time field.
pub fn upload_digest(
    mileage: &str,
    start_time: &str,
    calorie: i64,
    ave_pace: i64,
    keep_time: i64,
    pace_number: i64,
) -> (r: String)
    ensures
        r@ == digest_text(
            upload_digest_text(
                mileage@,
                start_time@,
                calorie as int,
                ave_pace as int,
                keep_time as int,
                pace_number as int,
            ),
        ),
{
    let mut text = String::from_str(mileage);
    text.append("1");
    text.append(start_time);
    text.append(signed_decimal_text(calorie).as_str());
    text.append(signed_decimal_text(ave_pace).as_str());
    text.append(signed_decimal_text(keep_time).as_str());
    text.append(signed_decimal_text(pace_number).as_str());
    text.append(mileage);
    text.append("1");
    proof {
        reveal_strlit("1");
        assert(text@ =~= upload_digest_text(
            mileage@,
            start_time@,
            calorie as int,
            ave_pace as int,
            keep_time as int,
            pace_number as int,
        ));
    }
    hs(text.as_str())
}

/// The start time of an activity that ended at `end_time` and lasted
/// `keep_time` seconds: `keep_time + 8` seconds before the end.
pub fn upload_start_time(end_time: &str, keep_time: i64) -> (r: Result<String, SignError>)
    ensures
        match r {
            Ok(t) => keep_time <= i64::MAX - 8 && shifted_text(end_time@, -(keep_time + 8)) == Some(
                t@,
            ),
            Err(e) => e == SignError::Time && (keep_time > i64::MAX - 8 || shifted_text(
                end_time@,
                -(keep_time + 8),
            ) is None),
        },
{
    if keep_time > i64::MAX - 8 {
        return Err(SignError::Time);
    }
    let back = -(keep_time + 8);
    match shift_date_time(end_time, back) {
        Some(t) => Ok(t),
        None => Err(SignError::Time),
    }
}

} // verus!
