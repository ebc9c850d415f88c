use ws_config::Headers;
use ws_config::UserAgent;

fn header_pairs() -> Vec<(String, String)> {
    vec![
        (String::from("host"), String::from("h")),
        (String::from("Accept-Encoding"), String::from("a")),
        (String::from("Accept-Language"), String::from("l")),
        (String::from("connection"), String::from("Upgrade")),
        (String::from("origin"), String::from("o")),
        (String::from("pragma"), String::from("no-cache")),
        (String::from("Sec-Websocket-Extension"), String::from("e")),
        (String::from("Sec-Websocket-Key"), String::from("k")),
        (String::from("Sec-Websocket-Version"), String::from("13")),
        (String::from("upgrade"), String::from("websocket")),
        (String::from("User-Agent"), String::from("ua")),
    ]
}

fn device_pairs() -> Vec<(String, String)> {
    vec![
        (String::from("appVersion"), String::from("1")),
        (String::from("deviceLocale"), String::from("en")),
        (String::from("deviceName"), String::from("d")),
        (String::from("deviceType"), String::from("web")),
        (String::from("locale"), String::from("en")),
        (String::from("osVersion"), String::from("0")),
        (String::from("screen"), String::from("1x1")),
        (String::from("timezone"), String::from("UTC")),
    ]
}

#[test]
fn headers_from_pairs_accepts_exactly_the_known_keys() {
    let h = Headers::from_pairs(&header_pairs()).unwrap();
    assert_eq!(h.host, "h");
    assert_eq!(h.user_agent, "ua");

    let mut missing = header_pairs();
    missing.remove(0);
    assert!(Headers::from_pairs(&missing).is_none());

    let mut extra = header_pairs();
    extra.push((String::from("Host"), String::from("h2")));
    assert!(Headers::from_pairs(&extra).is_none());

    let mut duplicated = header_pairs();
    duplicated.push((String::from("host"), String::from("h2")));
    assert!(Headers::from_pairs(&duplicated).is_none());
}

#[test]
fn device_from_pairs_handles_the_optional_key() {
    let d = UserAgent::from_pairs(&device_pairs()).unwrap();
    assert!(d.header_user_agent.is_none());
    assert_eq!(d.screen, "1x1");

    let mut with_optional = device_pairs();
    with_optional.push((String::from("headerUserAgent"), String::from("x")));
    let d = UserAgent::from_pairs(&with_optional).unwrap();
    assert_eq!(d.header_user_agent.as_deref(), Some("x"));

    let mut missing = device_pairs();
    missing.remove(7);
    assert!(UserAgent::from_pairs(&missing).is_none());

    let mut unknown = device_pairs();
    unknown.push((String::from("appversion"), String::from("2")));
    assert!(UserAgent::from_pairs(&unknown).is_none());
}
