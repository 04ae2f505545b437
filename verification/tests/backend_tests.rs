use tucha::{
    cloud_chat_name, collect_uploaded_files, download_step, is_cloud_chat, parse_api_id,
    parse_i32, password_check_decision, plan_downloads, session_file_name, sign_in_decision,
    str_contains, str_lt, u64_to_decimal, upload_metadata_text, APIKeys, Client, DownloadStep,
    MediaInfo, MessageInfo, ProcessError, SignInResponse, SignInStep, API,
};

fn msg(id: i32, text: &str, media: MediaInfo) -> MessageInfo {
    MessageInfo::new(id, text.to_string(), media)
}

#[test]
fn password_required_without_password_stops_at_once() {
    let step = sign_in_decision(&SignInResponse::PasswordRequired, "");
    assert_eq!(step, SignInStep::Fail(ProcessError::PasswordRequired));
}

#[test]
fn password_required_with_password_attempts_check() {
    let step = sign_in_decision(&SignInResponse::PasswordRequired, "hunter2");
    assert_eq!(step, SignInStep::CheckPassword);
}

#[test]
fn sign_in_classification_covers_every_answer() {
    assert_eq!(sign_in_decision(&SignInResponse::Accepted, ""), SignInStep::Complete);
    assert_eq!(
        sign_in_decision(&SignInResponse::SignUpRequired, ""),
        SignInStep::Fail(ProcessError::SignUpRequired)
    );
    assert_eq!(
        sign_in_decision(&SignInResponse::InvalidCode, ""),
        SignInStep::Fail(ProcessError::InvalidCode)
    );
    assert_eq!(
        sign_in_decision(&SignInResponse::InvalidPassword, ""),
        SignInStep::Fail(ProcessError::InvalidPassword)
    );
    assert_eq!(
        sign_in_decision(&SignInResponse::OtherError, ""),
        SignInStep::Fail(ProcessError::OtherSignInError)
    );
}

#[test]
fn password_check_outcome_classification() {
    assert_eq!(password_check_decision(true), SignInStep::Complete);
    assert_eq!(
        password_check_decision(false),
        SignInStep::Fail(ProcessError::OtherSignInError)
    );
}

#[test]
fn listing_keeps_exactly_the_valid_message() {
    let messages = vec![
        msg(1, "not json at all", MediaInfo::Document("junk.bin".to_string())),
        msg(2, "{\"version\":\"1\",\"path\":\"/a/two\"}", MediaInfo::NoMedia),
        msg(3, "{\"version\":\"1\",\"path\":\"/a/three\"}", MediaInfo::Document("three.txt".to_string())),
    ];
    let files = collect_uploaded_files(&messages);
    assert_eq!(files.len(), 1);
    assert_eq!(files[0].message_id, 3);
    assert_eq!(files[0].name, "three.txt".to_string());
    assert_eq!(files[0].metadata.version, "1".to_string());
    assert_eq!(files[0].metadata.path, "/a/three".to_string());
    assert_eq!(
        files[0].path.components(),
        vec!["a".to_string(), "three".to_string()]
    );
}

#[test]
fn listing_accepts_sticker_backed_documents() {
    let messages = vec![
        msg(9, "{\"version\":\"1\",\"path\":\"s\"}", MediaInfo::Sticker("s.webp".to_string())),
        msg(10, "{\"version\":\"1\",\"path\":\"p\"}", MediaInfo::OtherMedia),
    ];
    let files = collect_uploaded_files(&messages);
    assert_eq!(files.len(), 1);
    assert_eq!(files[0].message_id, 9);
}

#[test]
fn download_plan_stops_at_missing_message() {
    let messages = vec![
        Some(msg(1, "", MediaInfo::Document("a".to_string()))),
        None,
        Some(msg(2, "", MediaInfo::Document("b".to_string()))),
    ];
    let plan = plan_downloads(&messages).unwrap();
    assert_eq!(plan, vec![(1, "a".to_string())]);
}

#[test]
fn download_plan_skips_unrecognized_media() {
    let messages = vec![
        Some(msg(1, "", MediaInfo::OtherMedia)),
        Some(msg(2, "", MediaInfo::Sticker("s".to_string()))),
    ];
    let plan = plan_downloads(&messages).unwrap();
    assert_eq!(plan, vec![(2, "s".to_string())]);
}

#[test]
fn download_plan_aborts_on_message_without_media() {
    let messages = vec![
        Some(msg(1, "", MediaInfo::Document("a".to_string()))),
        Some(msg(2, "", MediaInfo::NoMedia)),
        Some(msg(3, "", MediaInfo::Document("c".to_string()))),
    ];
    let r = plan_downloads(&messages);
    assert!(matches!(r, Err(ProcessError::MessageNotContainsMedia)));
}

#[test]
fn download_step_per_slot_decisions() {
    assert_eq!(download_step(&None), DownloadStep::Stop);
    assert_eq!(
        download_step(&Some(msg(5, "", MediaInfo::Document("d.bin".to_string())))),
        DownloadStep::Fetch(5, "d.bin".to_string())
    );
    assert_eq!(
        download_step(&Some(msg(6, "", MediaInfo::Sticker("s.webp".to_string())))),
        DownloadStep::Fetch(6, "s.webp".to_string())
    );
    assert_eq!(
        download_step(&Some(msg(7, "", MediaInfo::OtherMedia))),
        DownloadStep::Skip
    );
    assert_eq!(
        download_step(&Some(msg(8, "", MediaInfo::NoMedia))),
        DownloadStep::Fail(ProcessError::MessageNotContainsMedia)
    );
}

#[test]
fn upload_metadata_text_is_the_placeholder_record() {
    assert_eq!(
        upload_metadata_text(),
        "{\"version\":\"1\",\"path\":\"\"}".to_string()
    );
}

#[test]
fn container_name_follows_the_convention() {
    assert_eq!(cloud_chat_name(12345), "TuchaCloud-12345".to_string());
    assert_eq!(cloud_chat_name(0), "TuchaCloud-0".to_string());
}

#[test]
fn container_is_recognized_inside_longer_names() {
    assert!(is_cloud_chat("my TuchaCloud-42 group", 42));
    assert!(!is_cloud_chat("my TuchaCloud-43 group", 42));
}

#[test]
fn session_file_follows_the_convention() {
    assert_eq!(session_file_name(98765), "sessions/98765.session".to_string());
}

#[test]
fn decimal_rendering() {
    assert_eq!(u64_to_decimal(0), "0".to_string());
    assert_eq!(u64_to_decimal(7), "7".to_string());
    assert_eq!(u64_to_decimal(10), "10".to_string());
    assert_eq!(u64_to_decimal(120), "120".to_string());
    assert_eq!(u64_to_decimal(18446744073709551615), "18446744073709551615".to_string());
}

#[test]
fn lexicographic_order_on_texts() {
    assert!(str_lt("alice", "bob"));
    assert!(!str_lt("bob", "alice"));
    assert!(str_lt("ab", "abc"));
    assert!(!str_lt("abc", "ab"));
    assert!(!str_lt("same", "same"));
}

#[test]
fn substring_search() {
    assert!(str_contains("hello world", "lo wo"));
    assert!(str_contains("hello", ""));
    assert!(!str_contains("hello", "world"));
    assert!(!str_contains("ab", "abc"));
}

#[test]
fn client_username_lookup() {
    let c = Client::new(Some("alice".to_string()), Some(7), true);
    assert_eq!(c.get_username().unwrap(), "alice".to_string());
    let partial = Client::new(None, None, false);
    assert!(matches!(
        partial.get_username(),
        Err(ProcessError::UsernameIsNone)
    ));
}

#[test]
fn api_id_parsing() {
    assert_eq!(parse_i32("0"), Some(0));
    assert_eq!(parse_i32("12345"), Some(12345));
    assert_eq!(parse_i32("+7"), Some(7));
    assert_eq!(parse_i32("-7"), Some(-7));
    assert_eq!(parse_i32("2147483647"), Some(2147483647));
    assert_eq!(parse_i32("-2147483648"), Some(-2147483648));
    assert_eq!(parse_i32("2147483648"), None);
    assert_eq!(parse_i32("-2147483649"), None);
    assert_eq!(parse_i32(""), None);
    assert_eq!(parse_i32("-"), None);
    assert_eq!(parse_i32("12a"), None);
    assert_eq!(parse_api_id("424242"), Ok(424242));
    assert!(matches!(
        parse_api_id("not a number"),
        Err(ProcessError::CannotParseAPIIDToInteger)
    ));
}

#[test]
fn credential_records_keep_their_fields() {
    let keys = APIKeys::new(4242, "SECRET-REDACTED".to_string());
    assert_eq!(keys.api_id, 4242);
    assert_eq!(keys.api_hash, "SECRET-REDACTED".to_string());
    let form = API::new();
    assert_eq!(form.api_id, "".to_string());
    assert_eq!(form.api_hash, "".to_string());
}
