use ws_config::ConfigParser;

const MINIMAL: &str = "{\"headers\":{\"host\":\"h\",\"Accept-Encoding\":\"a\",\"Accept-Language\":\"l\",\"connection\":\"Upgrade\",\"origin\":\"o\",\"pragma\":\"no-cache\",\"Sec-Websocket-Extension\":\"e\",\"Sec-Websocket-Key\":\"k\",\"Sec-Websocket-Version\":\"13\",\"upgrade\":\"websocket\",\"User-Agent\":\"ua\"},\"maxAgent\":{\"appVersion\":\"1\",\"deviceLocale\":\"en\",\"deviceName\":\"d\",\"deviceType\":\"web\",\"locale\":\"en\",\"osVersion\":\"0\",\"screen\":\"1x1\",\"timezone\":\"UTC\"}}";

const HEADER_KEYS: [&str; 11] = [
    "host",
    "Accept-Encoding",
    "Accept-Language",
    "connection",
    "origin",
    "pragma",
    "Sec-Websocket-Extension",
    "Sec-Websocket-Key",
    "Sec-Websocket-Version",
    "upgrade",
    "User-Agent",
];

const DEVICE_KEYS: [&str; 8] = [
    "appVersion",
    "deviceLocale",
    "deviceName",
    "deviceType",
    "locale",
    "osVersion",
    "screen",
    "timezone",
];

fn headers_object_without(skipped: &str) -> String {
    let values = [
        "h", "a", "l", "Upgrade", "o", "no-cache", "e", "k", "13", "websocket", "ua",
    ];
    let mut out = String::from("{");
    let mut first = true;
    for (key, value) in HEADER_KEYS.iter().zip(values.iter()) {
        if *key == skipped {
            continue;
        }
        if !first {
            out.push(',');
        }
        first = false;
        out.push_str(&format!("\"{}\":\"{}\"", key, value));
    }
    out.push('}');
    out
}

fn device_object_without(skipped: &str) -> String {
    let values = ["1", "en", "d", "web", "en", "0", "1x1", "UTC"];
    let mut out = String::from("{");
    let mut first = true;
    for (key, value) in DEVICE_KEYS.iter().zip(values.iter()) {
        if *key == skipped {
            continue;
        }
        if !first {
            out.push(',');
        }
        first = false;
        out.push_str(&format!("\"{}\":\"{}\"", key, value));
    }
    out.push('}');
    out
}

fn config_text(headers: &str, device: &str) -> String {
    format!("{{\"headers\":{},\"maxAgent\":{}}}", headers, device)
}

#[test]
fn parses_minimal_valid_config() {
    let config = ConfigParser::parse_config_str(MINIMAL).unwrap();
    assert_eq!(config.headers.host, "h");
    assert_eq!(config.headers.accept_encoding, "a");
    assert_eq!(config.headers.accept_language, "l");
    assert_eq!(config.headers.connection, "Upgrade");
    assert_eq!(config.headers.origin, "o");
    assert_eq!(config.headers.pragma, "no-cache");
    assert_eq!(config.headers.sec_websocket_extension, "e");
    assert_eq!(config.headers.sec_websocket_key, "k");
    assert_eq!(config.headers.sec_websocket_version, "13");
    assert_eq!(config.headers.upgrade, "websocket");
    assert_eq!(config.headers.user_agent, "ua");
    assert_eq!(config.max_agent.app_version, "1");
    assert_eq!(config.max_agent.device_locale, "en");
    assert_eq!(config.max_agent.device_name, "d");
    assert_eq!(config.max_agent.device_type, "web");
    assert!(config.max_agent.header_user_agent.is_none());
    assert_eq!(config.max_agent.locale, "en");
    assert_eq!(config.max_agent.os_version, "0");
    assert_eq!(config.max_agent.screen, "1x1");
    assert_eq!(config.max_agent.timezone, "UTC");
}

#[test]
fn parses_present_optional_field() {
    let text = MINIMAL.replace(
        "\"appVersion\":\"1\"",
        "\"appVersion\":\"1\",\"headerUserAgent\":\"x\"",
    );
    let config = ConfigParser::parse_config_str(&text).unwrap();
    assert_eq!(config.max_agent.header_user_agent.as_deref(), Some("x"));
}

#[test]
fn rejects_missing_required_header_field() {
    let text = config_text(&headers_object_without("host"), &device_object_without(""));
    assert!(ConfigParser::parse_config_str(&text).is_err());
}

#[test]
fn rejects_each_missing_required_field() {
    for key in HEADER_KEYS.iter() {
        let text = config_text(&headers_object_without(key), &device_object_without(""));
        assert!(
            ConfigParser::parse_config_str(&text).is_err(),
            "accepted config without header key {}",
            key
        );
    }
    for key in DEVICE_KEYS.iter() {
        let text = config_text(&headers_object_without(""), &device_object_without(key));
        assert!(
            ConfigParser::parse_config_str(&text).is_err(),
            "accepted config without device key {}",
            key
        );
    }
}

#[test]
fn accepts_all_fields_in_any_order() {
    let headers = "{\"User-Agent\":\"ua\",\"upgrade\":\"websocket\",\"Sec-Websocket-Version\":\"13\",\"Sec-Websocket-Key\":\"k\",\"Sec-Websocket-Extension\":\"e\",\"pragma\":\"no-cache\",\"origin\":\"o\",\"connection\":\"Upgrade\",\"Accept-Language\":\"l\",\"Accept-Encoding\":\"a\",\"host\":\"h\"}";
    let device = "{\"timezone\":\"UTC\",\"screen\":\"1x1\",\"osVersion\":\"0\",\"locale\":\"en\",\"deviceType\":\"web\",\"deviceName\":\"d\",\"deviceLocale\":\"en\",\"appVersion\":\"1\"}";
    let text = format!("{{\"maxAgent\":{},\"headers\":{}}}", device, headers);
    let config = ConfigParser::parse_config_str(&text).unwrap();
    assert_eq!(config.headers.host, "h");
    assert_eq!(config.max_agent.app_version, "1");
}

#[test]
fn rejects_unknown_header_key() {
    let text = MINIMAL.replace("\"host\":\"h\"", "\"host\":\"h\",\"hosts\":\"h\"");
    assert!(ConfigParser::parse_config_str(&text).is_err());
}

#[test]
fn rejects_unknown_device_key() {
    let text = MINIMAL.replace(
        "\"appVersion\":\"1\"",
        "\"appVersion\":\"1\",\"appversion\":\"1\"",
    );
    assert!(ConfigParser::parse_config_str(&text).is_err());
}

#[test]
fn rejects_unknown_top_level_section() {
    let text = MINIMAL.replace("{\"headers\":", "{\"extra\":{},\"headers\":");
    assert!(ConfigParser::parse_config_str(&text).is_err());
}

#[test]
fn rejects_duplicate_keys() {
    let dup_header = MINIMAL.replace("\"host\":\"h\"", "\"host\":\"h\",\"host\":\"h2\"");
    assert!(ConfigParser::parse_config_str(&dup_header).is_err());
    let dup_device = MINIMAL.replace(
        "\"appVersion\":\"1\"",
        "\"appVersion\":\"1\",\"appVersion\":\"2\"",
    );
    assert!(ConfigParser::parse_config_str(&dup_device).is_err());
}

#[test]
fn rejects_missing_section() {
    let text = "{\"headers\":{\"host\":\"h\",\"Accept-Encoding\":\"a\",\"Accept-Language\":\"l\",\"connection\":\"Upgrade\",\"origin\":\"o\",\"pragma\":\"no-cache\",\"Sec-Websocket-Extension\":\"e\",\"Sec-Websocket-Key\":\"k\",\"Sec-Websocket-Version\":\"13\",\"upgrade\":\"websocket\",\"User-Agent\":\"ua\"}}";
    assert!(ConfigParser::parse_config_str(text).is_err());
}

#[test]
fn rejects_invalid_json() {
    assert!(ConfigParser::parse_config_str("not json").is_err());
    assert!(ConfigParser::parse_config_str("").is_err());
    assert!(ConfigParser::parse_config_str("{}").is_err());
    assert!(ConfigParser::parse_config_str("   ").is_err());
    let truncated = &MINIMAL[..MINIMAL.len() - 1];
    assert!(ConfigParser::parse_config_str(truncated).is_err());
    let trailing = format!("{} x", MINIMAL);
    assert!(ConfigParser::parse_config_str(&trailing).is_err());
}

#[test]
fn rejects_non_string_values() {
    let text = MINIMAL.replace("\"Sec-Websocket-Version\":\"13\"", "\"Sec-Websocket-Version\":13");
    assert!(ConfigParser::parse_config_str(&text).is_err());
}

#[test]
fn tolerates_insignificant_whitespace() {
    let spaced = MINIMAL
        .replace("{\"", "{ \n\t\"")
        .replace("\":\"", "\" : \"")
        .replace("\",\"", "\" ,\r\n \"");
    let config = ConfigParser::parse_config_str(&spaced).unwrap();
    assert_eq!(config.headers.host, "h");
    let wrapped = format!("  \n{}\t ", MINIMAL);
    assert!(ConfigParser::parse_config_str(&wrapped).is_ok());
}

#[test]
fn decodes_string_escapes() {
    let text = MINIMAL.replace(
        "\"host\":\"h\"",
        "\"host\":\"a\\\"b\\\\c\\nd\\te\\rf\\bg\\fh\\/i\"",
    );
    let config = ConfigParser::parse_config_str(&text).unwrap();
    assert_eq!(config.headers.host, "a\"b\\c\nd\te\rf\u{8}g\u{c}h/i");
}

#[test]
fn decodes_unicode_escapes() {
    let basic = MINIMAL.replace("\"host\":\"h\"", "\"host\":\"a\\u0041b\\u00e9\"");
    let config = ConfigParser::parse_config_str(&basic).unwrap();
    assert_eq!(config.headers.host, "aAb\u{e9}");

    let pair = MINIMAL.replace("\"host\":\"h\"", "\"host\":\"\\uD834\\uDD1E\"");
    let config = ConfigParser::parse_config_str(&pair).unwrap();
    assert_eq!(config.headers.host, "\u{1D11E}");
}

#[test]
fn rejects_malformed_escapes_and_control_characters() {
    let bad_escape = MINIMAL.replace("\"host\":\"h\"", "\"host\":\"a\\x41\"");
    assert!(ConfigParser::parse_config_str(&bad_escape).is_err());
    let bad_hex = MINIMAL.replace("\"host\":\"h\"", "\"host\":\"a\\u00G1\"");
    assert!(ConfigParser::parse_config_str(&bad_hex).is_err());
    let short_hex = MINIMAL.replace("\"host\":\"h\"", "\"host\":\"a\\u00\"");
    assert!(ConfigParser::parse_config_str(&short_hex).is_err());
    let lone_high_surrogate = MINIMAL.replace("\"host\":\"h\"", "\"host\":\"\\uD834x\"");
    assert!(ConfigParser::parse_config_str(&lone_high_surrogate).is_err());
    let lone_low_surrogate = MINIMAL.replace("\"host\":\"h\"", "\"host\":\"\\uDD1E\"");
    assert!(ConfigParser::parse_config_str(&lone_low_surrogate).is_err());
    let raw_control = MINIMAL.replace("\"host\":\"h\"", "\"host\":\"a\nb\"");
    assert!(ConfigParser::parse_config_str(&raw_control).is_err());
}
