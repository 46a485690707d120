use freshrss_reader::decimal::decimal;
use freshrss_reader::freshrss::{
    auth_string, authorization_header, check_status, login_url, reading_list_url, take_read,
    FreshRssError, ReadEvent, ReadStep,
};
use freshrss_reader::utf8::{decode, Utf8Failure};

#[test]
fn login_url_puts_the_credentials_in_the_query() {
    let url = login_url("rss.example.org", "alice", "p4ss");
    assert_eq!(
        url,
        "https://rss.example.org/api/greader.php/accounts/ClientLogin?Email=alice&Passwd=p4ss"
    );
}

#[test]
fn login_url_with_empty_parts() {
    assert_eq!(login_url("", "", ""), "https:///api/greader.php/accounts/ClientLogin?Email=&Passwd=");
}

#[test]
fn reading_list_url_asks_for_five_json_entries() {
    assert_eq!(
        reading_list_url("rss.example.org"),
        "https://rss.example.org/api/greader.php/reader/api/0/stream/contents/reading-list?output=json&n=5"
    );
}

#[test]
fn authorization_header_carries_the_auth_string() {
    let (name, value) = authorization_header("GoogleLogin auth=alice/0123");
    assert_eq!(name, "Authorization");
    assert_eq!(value, "GoogleLogin auth=alice/0123");
}

#[test]
fn success_statuses_are_accepted() {
    assert_eq!(check_status(200), Ok(()));
    assert_eq!(check_status(204), Ok(()));
    assert_eq!(check_status(299), Ok(()));
}

#[test]
fn other_statuses_are_refused() {
    assert_eq!(check_status(199), Err(FreshRssError::UnexpectedResponseCode(199)));
    assert_eq!(check_status(300), Err(FreshRssError::UnexpectedResponseCode(300)));
    assert_eq!(check_status(0), Err(FreshRssError::UnexpectedResponseCode(0)));
    assert_eq!(check_status(u16::MAX), Err(FreshRssError::UnexpectedResponseCode(u16::MAX)));
}

#[test]
fn refused_status_message() {
    let e = check_status(404).unwrap_err();
    assert_eq!(e.message(), "Unexpected response code: 404");
    assert_eq!(FreshRssError::UnexpectedResponseCode(0).message(), "Unexpected response code: 0");
}

#[test]
fn auth_string_from_a_login_reply() {
    let reply = "SID=alice/8e6845e0\nLSID=null\nAuth=alice/8e6845e089457af25303abc6f53356eb60bdb5f8\n";
    assert_eq!(
        auth_string(reply),
        "GoogleLogin auth=alice/8e6845e089457af25303abc6f53356eb60bdb5f8"
    );
}

#[test]
fn auth_string_without_equal_sign_takes_everything() {
    assert_eq!(auth_string("token"), "GoogleLogin auth=token");
    assert_eq!(auth_string(""), "GoogleLogin auth=");
}

#[test]
fn auth_string_trims_every_trailing_line_feed_only() {
    assert_eq!(auth_string("Auth=tok\n\n\n"), "GoogleLogin auth=tok");
    assert_eq!(auth_string("Auth=tok \r\n"), "GoogleLogin auth=tok \r");
    assert_eq!(auth_string("Auth=a\nb\n"), "GoogleLogin auth=a\nb");
    assert_eq!(auth_string("\n\n"), "GoogleLogin auth=");
}

#[test]
fn auth_string_after_a_final_equal_sign_is_empty() {
    assert_eq!(auth_string("Auth="), "GoogleLogin auth=");
    assert_eq!(auth_string("a=b=c"), "GoogleLogin auth=c");
}

#[test]
fn auth_string_keeps_non_ascii_characters() {
    assert_eq!(auth_string("Auth=clé→ü\n"), "GoogleLogin auth=clé→ü");
}

#[test]
fn reads_build_the_body_in_order() {
    let mut body = String::new();
    assert_eq!(take_read(&mut body, ReadEvent::Received(b"{\"id\":")), Ok(ReadStep::Continue));
    assert_eq!(take_read(&mut body, ReadEvent::ReadFailed), Ok(ReadStep::Continue));
    assert_eq!(body, "{\"id\":");
    assert_eq!(take_read(&mut body, ReadEvent::Received("\"é\"}".as_bytes())), Ok(ReadStep::Continue));
    assert_eq!(take_read(&mut body, ReadEvent::Received(b"")), Ok(ReadStep::Finished));
    assert_eq!(body, "{\"id\":\"é\"}");
}

#[test]
fn a_chunk_that_is_not_utf8_is_an_error_and_leaves_the_body() {
    let mut body = String::from("kept");
    let r = take_read(&mut body, ReadEvent::Received(&[b'a', b'b', 0xff]));
    assert_eq!(
        r,
        Err(FreshRssError::InvalidUtf8(Utf8Failure { valid_up_to: 2, error_len: Some(1) }))
    );
    assert_eq!(r.unwrap_err().message(), "invalid utf-8 sequence of 1 bytes from index 2");
    assert_eq!(body, "kept");
}

#[test]
fn a_character_split_between_chunks_is_an_error() {
    let bytes = "é".as_bytes();
    let mut body = String::new();
    let r = take_read(&mut body, ReadEvent::Received(&bytes[..1]));
    assert_eq!(
        r,
        Err(FreshRssError::InvalidUtf8(Utf8Failure { valid_up_to: 0, error_len: None }))
    );
    assert_eq!(r.unwrap_err().message(), "incomplete utf-8 byte sequence from index 0");
    assert_eq!(body, "");
}

#[test]
fn decode_gives_the_characters_or_the_failure() {
    assert_eq!(decode("añ€😀".as_bytes()), Ok("añ€😀"));
    assert_eq!(decode(b""), Ok(""));
    assert_eq!(decode(&[0xc0, 0x80]), Err(Utf8Failure { valid_up_to: 0, error_len: Some(1) }));
    assert_eq!(decode(&[b'x', 0xe2, 0x82]), Err(Utf8Failure { valid_up_to: 1, error_len: None }));
}

#[test]
fn decimal_renders_like_format() {
    assert_eq!(decimal(0), "0");
    assert_eq!(decimal(7), "7");
    assert_eq!(decimal(10), "10");
    assert_eq!(decimal(404), "404");
    assert_eq!(decimal(u64::MAX), "18446744073709551615");
    for n in [1u64, 9, 99, 100, 12345, 1_000_000] {
        assert_eq!(decimal(n), format!("{}", n));
    }
}

#[test]
fn utf8_failures_tell_an_unexpected_byte_from_an_early_end() {
    assert_eq!(decode(&[0xf0, 0x9f, 0x98]), Err(Utf8Failure { valid_up_to: 0, error_len: None }));
    assert_eq!(decode(&[b'a', 0xe2, 0x28, 0xa1]), Err(Utf8Failure { valid_up_to: 1, error_len: Some(1) }));
    assert_eq!(decode(&[0xf0, 0x9f, 0x98, b'x', b'y']), Err(Utf8Failure { valid_up_to: 0, error_len: Some(3) }));
    let mut body = String::new();
    let r = take_read(&mut body, ReadEvent::Received(&[0xf0, 0x9f, 0x98, b'x']));
    assert_eq!(r.unwrap_err().message(), "invalid utf-8 sequence of 3 bytes from index 0");
}
