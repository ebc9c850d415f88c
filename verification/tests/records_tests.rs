use ws_config::Headers;
use ws_config::UserAgent;
use ws_config::UserAuthAgent;

const CANONICAL_UA: &str = "Mozilla/5.0 (Windows NT 10.0; Win64; x64) AppleWebKit/537.36 (KHTML, like Gecko) Chrome/142.0.0.0 Safari/537.36";

#[test]
fn default_ua_renders_canonical_line() {
    let ua = UserAuthAgent::new();
    assert_eq!(ua.render(), CANONICAL_UA);
    let ua2 = UserAuthAgent::default();
    assert_eq!(ua2.render(), CANONICAL_UA);
}

#[test]
fn ua_rendering_joins_tokens_with_five_separators() {
    let ua = UserAuthAgent {
        compatibility_token: String::from("a"),
        platform: String::from("b"),
        rendering_engine: String::from("c"),
        compatibility_tags: String::from("d"),
        browser_identity: String::from("e"),
        safari_compatibility: String::from("f"),
    };
    let rendered = ua.render();
    assert_eq!(rendered, "a b c d e f");
    assert_eq!(rendered.chars().filter(|c| *c == ' ').count(), 5);
    assert!(!rendered.ends_with(' '));
}

#[test]
fn default_headers_hold_the_eleven_documented_values() {
    let h = Headers::default();
    assert_eq!(h.host, "ws-api.oneme.ru");
    assert_eq!(h.accept_encoding, "gzip, deflate, br, zstd");
    assert_eq!(h.accept_language, "en-US,en;q=0.9");
    assert_eq!(h.connection, "Upgrade");
    assert_eq!(h.origin, "https://web.max.ru");
    assert_eq!(h.pragma, "no-cache");
    assert_eq!(
        h.sec_websocket_extension,
        "permessage-deflate; client_max_window_bits"
    );
    assert_eq!(h.sec_websocket_key, "MEBa2ZnucwlWNZrrLRbmIQ");
    assert_eq!(h.sec_websocket_version, "13");
    assert_eq!(h.upgrade, "websocket");
    assert_eq!(h.user_agent, CANONICAL_UA);
}

#[test]
fn headers_serialize_with_exact_key_casing() {
    let h = Headers {
        host: String::from("h"),
        accept_encoding: String::from("a"),
        accept_language: String::from("l"),
        connection: String::from("Upgrade"),
        origin: String::from("o"),
        pragma: String::from("no-cache"),
        sec_websocket_extension: String::from("e"),
        sec_websocket_key: String::from("k"),
        sec_websocket_version: String::from("13"),
        upgrade: String::from("websocket"),
        user_agent: String::from("ua"),
    };
    let expected = "{\"Host\":\"h\",\"Accept-Encoding\":\"a\",\"Accept-Language\":\"l\",\"Connection\":\"Upgrade\",\"Origin\":\"o\",\"Pragma\":\"no-cache\",\"Sec-Websocket-Extension\":\"e\",\"Sec-Websocket-Key\":\"k\",\"Sec-Websocket-Version\":\"13\",\"Upgrade\":\"websocket\",\"User-Agent\":\"ua\"}";
    assert_eq!(h.to_json(), expected);
}

fn sample_device(header_user_agent: Option<String>) -> UserAgent {
    UserAgent {
        app_version: String::from("1"),
        device_locale: String::from("en"),
        device_name: String::from("d"),
        device_type: String::from("web"),
        header_user_agent,
        locale: String::from("en"),
        os_version: String::from("0"),
        screen: String::from("1x1"),
        timezone: String::from("UTC"),
    }
}

#[test]
fn device_serialization_omits_absent_optional_field() {
    let d = sample_device(None);
    let json = d.to_json();
    assert!(!json.contains("headerUserAgent"));
    let expected = "{\"appVersion\":\"1\",\"deviceLocale\":\"en\",\"deviceName\":\"d\",\"deviceType\":\"web\",\"locale\":\"en\",\"osVersion\":\"0\",\"screen\":\"1x1\",\"timezone\":\"UTC\"}";
    assert_eq!(json, expected);
}

#[test]
fn device_serialization_keeps_present_optional_field() {
    let d = sample_device(Some(String::from("x")));
    let json = d.to_json();
    assert!(json.contains("\"headerUserAgent\":\"x\""));
    let expected = "{\"appVersion\":\"1\",\"deviceLocale\":\"en\",\"deviceName\":\"d\",\"deviceType\":\"web\",\"headerUserAgent\":\"x\",\"locale\":\"en\",\"osVersion\":\"0\",\"screen\":\"1x1\",\"timezone\":\"UTC\"}";
    assert_eq!(json, expected);
}

#[test]
fn serialization_escapes_values() {
    let mut h = Headers::default();
    h.host = String::from("a\"b\\c\nd\te\rf\u{8}g\u{c}h/i");
    let json = h.to_json();
    assert!(json.contains("\"Host\":\"a\\\"b\\\\c\\nd\\te\\rf\\bg\\fh/i\""));
}
