use hasskey::config::{HomeAssistantConfig, Secret};
use hasskey::hass::{
    HomeAssistantClient,
    classify_delivery, events_endpoint, normalize, normalize_all, parse_base, Delivery,
    ClientError, EventData, EventValue, RawEvent, EV_KEY,
};

const KEY_A: u16 = 30;

fn key(code: u16, value: i32) -> RawEvent {
    RawEvent { event_type: EV_KEY, code, value }
}

#[test]
fn key_press_then_release() {
    let name = "kbd".to_string();
    assert_eq!(
        normalize(&name, &key(KEY_A, 1)),
        Some(EventData { device: "kbd".to_string(), key: KEY_A, value: EventValue::DOWN })
    );
    assert_eq!(
        normalize(&name, &key(KEY_A, 0)),
        Some(EventData { device: "kbd".to_string(), key: KEY_A, value: EventValue::UP })
    );
}

#[test]
fn other_event_types_are_dropped() {
    let name = "kbd".to_string();
    for event_type in [0u16, 2, 3, 4, 5, 0x11, 0x12, 0x14, 0x15, 0x16, 0x17, 0xffff] {
        assert_eq!(normalize(&name, &RawEvent { event_type, code: KEY_A, value: 1 }), None);
        assert_eq!(normalize(&name, &RawEvent { event_type, code: 0, value: 0 }), None);
    }
}

#[test]
fn unknown_key_state_is_dropped() {
    let name = "kbd".to_string();
    assert_eq!(normalize(&name, &key(KEY_A, 2)), None);
    assert_eq!(normalize(&name, &key(KEY_A, -1)), None);
    assert_eq!(normalize(&name, &key(KEY_A, i32::MAX)), None);
    assert_eq!(normalize(&name, &key(KEY_A, i32::MIN)), None);
}

#[test]
fn run_keeps_order_and_only_key_events() {
    let name = "pad".to_string();
    let raws = vec![
        RawEvent { event_type: 4, code: 4, value: 458756 },
        key(30, 1),
        RawEvent { event_type: 0, code: 0, value: 0 },
        key(30, 2),
        key(31, 1),
        RawEvent { event_type: 2, code: 0, value: -3 },
        key(30, 0),
        key(31, 0),
    ];
    let out = normalize_all(&name, &raws);
    let expect = vec![
        EventData { device: "pad".to_string(), key: 30, value: EventValue::DOWN },
        EventData { device: "pad".to_string(), key: 31, value: EventValue::DOWN },
        EventData { device: "pad".to_string(), key: 30, value: EventValue::UP },
        EventData { device: "pad".to_string(), key: 31, value: EventValue::UP },
    ];
    assert_eq!(out, expect);
    assert_eq!(normalize_all(&name, &Vec::new()), Vec::new());
}

#[test]
fn run_is_normalised_event_by_event() {
    let name = "pad".to_string();
    let first = vec![key(1, 1), RawEvent { event_type: 0, code: 0, value: 0 }];
    let second = vec![key(1, 0), key(2, 5), key(2, 1)];
    let mut both = first.clone();
    both.extend(second.iter().copied());
    let mut expect = normalize_all(&name, &first);
    expect.extend(normalize_all(&name, &second));
    assert_eq!(normalize_all(&name, &both), expect);
    assert_eq!(expect.len(), 3);
}

#[test]
fn event_value_words() {
    assert_eq!(EventValue::UP.as_str(), "UP");
    assert_eq!(EventValue::DOWN.as_str(), "DOWN");
}

#[test]
fn endpoint_below_base() {
    let base = parse_base("http://hass.local:8123").ok().unwrap();
    assert_eq!(base.as_str(), "http://hass.local:8123/");
    let endpoint = events_endpoint(&base).ok().unwrap();
    assert_eq!(endpoint.as_str(), "http://hass.local:8123/api/events/hasskey");
}

#[test]
fn endpoint_below_base_with_path() {
    let base = parse_base("https://example.org/home/").ok().unwrap();
    let endpoint = events_endpoint(&base).ok().unwrap();
    assert_eq!(endpoint.as_str(), "https://example.org/home/api/events/hasskey");
    let base = parse_base("https://example.org/home/page").ok().unwrap();
    let endpoint = events_endpoint(&base).ok().unwrap();
    assert_eq!(endpoint.as_str(), "https://example.org/home/api/events/hasskey");
}

#[test]
fn base_that_is_no_url_is_refused() {
    assert!(matches!(parse_base("not a url"), Err(ClientError::InvalidBase)));
    assert!(matches!(parse_base(""), Err(ClientError::InvalidBase)));
}

#[test]
fn base_that_cannot_carry_a_path_is_refused() {
    let base = parse_base("mailto:someone@example.org").ok().unwrap();
    assert!(matches!(events_endpoint(&base), Err(ClientError::InvalidUrl)));
}

#[test]
fn only_success_status_counts_as_delivered() {
    assert_eq!(classify_delivery(Some(200)), Delivery::Delivered);
    assert_eq!(classify_delivery(Some(204)), Delivery::Delivered);
    assert_eq!(classify_delivery(Some(299)), Delivery::Delivered);
    assert_eq!(classify_delivery(Some(199)), Delivery::Dropped);
    assert_eq!(classify_delivery(Some(300)), Delivery::Dropped);
    assert_eq!(classify_delivery(Some(401)), Delivery::Dropped);
    assert_eq!(classify_delivery(Some(500)), Delivery::Dropped);
    assert_eq!(classify_delivery(None), Delivery::Dropped);
}

#[test]
fn client_from_literal_credential() {
    let config = HomeAssistantConfig {
        url: "http://hass.local:8123".to_string(),
        token: Secret::Literal("abc".to_string()),
    };
    let client = HomeAssistantClient::new(&config, None).ok().unwrap();
    assert_eq!(client.url(), "http://hass.local:8123/api/events/hasskey");
    assert_eq!(client.token(), "abc");
}

#[test]
fn client_from_referenced_credential() {
    let config = HomeAssistantConfig {
        url: "http://hass.local:8123/".to_string(),
        token: Secret::Reference("/run/secrets/token".to_string()),
    };
    let client = HomeAssistantClient::new(&config, Some("from file".to_string())).ok().unwrap();
    assert_eq!(client.url(), "http://hass.local:8123/api/events/hasskey");
    assert_eq!(client.token(), "from file");
    assert!(matches!(
        HomeAssistantClient::new(&config, None),
        Err(ClientError::UnreadableSecret)
    ));
}

#[test]
fn client_reports_first_fault() {
    let no_url = HomeAssistantConfig {
        url: "hass".to_string(),
        token: Secret::Reference("/missing".to_string()),
    };
    assert!(matches!(HomeAssistantClient::new(&no_url, None), Err(ClientError::InvalidBase)));
    let no_path = HomeAssistantConfig {
        url: "mailto:someone@example.org".to_string(),
        token: Secret::Reference("/missing".to_string()),
    };
    assert!(matches!(HomeAssistantClient::new(&no_path, None), Err(ClientError::InvalidUrl)));
}
