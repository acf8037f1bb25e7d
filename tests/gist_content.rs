use gist_identity::gist_json::ParseError;
use gist_identity::oracle::{Call, Request};
use gist_identity::worker::{
    accept_response, check_fetched, check_if_valid, check_numbers_fit, parse_gist, FetchError,
    WorkerError,
};

fn request(account: u64) -> Request {
    Request { account, gist_id: [7u8; 32] }
}

#[test]
fn parses_first_file_and_owner_login() {
    let body = br#"{"id":"x","files":{"abc":{"size":1},"zzz":{}},"owner":{"id":1,"login":"octo"}}"#;
    let claim = parse_gist(&body.to_vec()).unwrap();
    assert_eq!(claim.filename, b"abc".to_vec());
    assert_eq!(claim.username, b"octo".to_vec());
}

#[test]
fn non_utf8_body_is_malformed() {
    assert_eq!(parse_gist(&vec![0xff, 0xfe, 0x7b]).err(), Some(ParseError::Malformed));
}

#[test]
fn invalid_json_is_malformed() {
    assert_eq!(parse_gist(&b"{\"files\": ".to_vec()).err(), Some(ParseError::Malformed));
}

#[test]
fn missing_files_is_missing_field() {
    let body = br#"{"owner":{"login":"octo"}}"#;
    assert_eq!(parse_gist(&body.to_vec()).err(), Some(ParseError::MissingField));
}

#[test]
fn empty_files_is_missing_field() {
    let body = br#"{"files":{},"owner":{"login":"octo"}}"#;
    assert_eq!(parse_gist(&body.to_vec()).err(), Some(ParseError::MissingField));
}

#[test]
fn files_not_an_object_is_malformed() {
    let body = br#"{"files":["abc"],"owner":{"login":"octo"}}"#;
    assert_eq!(parse_gist(&body.to_vec()).err(), Some(ParseError::Malformed));
}

#[test]
fn top_level_not_an_object_is_malformed() {
    assert_eq!(parse_gist(&b"[1,2]".to_vec()).err(), Some(ParseError::Malformed));
}

#[test]
fn missing_login_is_missing_field() {
    let body = br#"{"files":{"abc":{}},"owner":{"name":"octo"}}"#;
    assert_eq!(parse_gist(&body.to_vec()).err(), Some(ParseError::MissingField));
}

#[test]
fn non_string_login_is_malformed() {
    let body = br#"{"files":{"abc":{}},"owner":{"login":42}}"#;
    assert_eq!(parse_gist(&body.to_vec()).err(), Some(ParseError::Malformed));
}

#[test]
fn first_matching_key_wins() {
    let body = br#"{"files":{"abc":{}},"owner":{"login":"first"},"owner":{"login":"second"}}"#;
    assert_eq!(parse_gist(&body.to_vec()).unwrap().username, b"first".to_vec());
}

#[test]
fn characters_keep_their_low_byte() {
    let text = "{\"files\":{\"\\u0041b\":{}},\"owner\":{\"login\":\"\\u0100x\"}}";
    let value = lite_json::parse_json(text).unwrap();
    let obj = value.as_object().unwrap();
    let files = obj[0].1.as_object().unwrap();
    let key: Vec<char> = files[0].0.clone();
    assert!(key[0] as u32 > 0xff);
    let claim = parse_gist(&text.as_bytes().to_vec()).unwrap();
    assert_eq!(claim.filename, vec![(key[0] as u32 % 256) as u8, b'b']);
    let login: Vec<char> = obj[1].1.as_object().unwrap()[0].1.as_string().unwrap().to_vec();
    assert_eq!(claim.username, vec![(login[0] as u32 % 256) as u8, b'x']);
}

#[test]
fn filename_must_equal_account_encoding() {
    assert_eq!(check_if_valid(1, &vec![1, 0, 0, 0, 0, 0, 0, 0]), Ok(()));
    assert_eq!(
        check_if_valid(0x0102, &vec![2, 1, 0, 0, 0, 0, 0, 0]),
        Ok(())
    );
    assert_eq!(check_if_valid(1, &vec![1]), Err(WorkerError::ProofMismatch));
    assert_eq!(
        check_if_valid(1, &vec![0, 0, 0, 0, 0, 0, 0, 1]),
        Err(WorkerError::ProofMismatch)
    );
    assert_eq!(check_if_valid(u64::MAX, &vec![0xff; 8]), Ok(()));
}

#[test]
fn fetch_error_is_reported() {
    let r = check_fetched(&request(1), &Err(FetchError::BadStatus));
    assert_eq!(r, Err(WorkerError::Fetch(FetchError::BadStatus)));
}

#[test]
fn parse_error_is_reported() {
    let r = check_fetched(&request(1), &Ok(b"nope".to_vec()));
    assert_eq!(r, Err(WorkerError::Parse(ParseError::Malformed)));
}

#[test]
fn valid_gist_gives_response() {
    let account = u64::from_le_bytes(*b"carol_id");
    let body = br#"{"files":{"carol_id":{}},"owner":{"login":"carol"}}"#.to_vec();
    let r = check_fetched(&request(account), &Ok(body));
    assert_eq!(r, Ok(Call::RespondVerification(account, b"carol".to_vec())));
}

#[test]
fn only_success_status_gives_body() {
    assert_eq!(accept_response(200, b"{}".to_vec()), Ok(b"{}".to_vec()));
    assert_eq!(accept_response(404, b"{}".to_vec()), Err(FetchError::BadStatus));
    assert_eq!(accept_response(500, Vec::new()), Err(FetchError::BadStatus));
}

#[test]
fn oversized_integer_is_malformed() {
    let body = br#"{"id":123456789012345678901,"files":{"a":{}},"owner":{"login":"o"}}"#;
    assert_eq!(parse_gist(&body.to_vec()).err(), Some(ParseError::Malformed));
}

#[test]
fn oversized_exponent_is_malformed() {
    assert_eq!(parse_gist(&br#"{"a":1e9999999999}"#.to_vec()).err(), Some(ParseError::Malformed));
    assert_eq!(parse_gist(&br#"{"a":1E-1234567890}"#.to_vec()).err(), Some(ParseError::Malformed));
}

#[test]
fn numbers_at_the_limits_still_parse() {
    let body = br#"{"n":9999999999999999999.9999999999999999999e+999999999,"files":{"a":{}},"owner":{"login":"o"}}"#;
    let claim = parse_gist(&body.to_vec()).unwrap();
    assert_eq!(claim.filename, b"a".to_vec());
}

#[test]
fn long_digit_runs_inside_strings_are_fine() {
    let body = br#"{"files":{"12345678901234567890123":{}},"owner":{"login":"a\"99999999999999999999999"}}"#;
    let claim = parse_gist(&body.to_vec()).unwrap();
    assert_eq!(claim.filename, b"12345678901234567890123".to_vec());
    assert_eq!(claim.username, b"a\"99999999999999999999999".to_vec());
}

#[test]
fn number_scanner_counts_runs() {
    assert!(check_numbers_fit(b"[1234567890123456789]"));
    assert!(!check_numbers_fit(b"[12345678901234567890]"));
    assert!(check_numbers_fit(b"[1e123456789]"));
    assert!(!check_numbers_fit(b"[1e+1234567890]"));
    assert!(check_numbers_fit(b"[\"12345678901234567890\"]"));
    assert!(check_numbers_fit(b""));
}
