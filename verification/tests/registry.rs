use hasskey::config::{verbosity_level, DeviceConfig, FilterEntry, GrabConfig, LogLevel, Secret};
use hasskey::hass::{classify_delivery, Delivery, EventData, EventValue, RawEvent, EV_KEY};
use hasskey::matcher::{Device, Property};
use hasskey::pattern::Pattern;
use hasskey::registry::{Action, Candidate, DeviceIdentity, Notification, Registry};

const KEY_A: u16 = 30;

fn identity(name: &str, devnode: &str) -> DeviceIdentity {
    DeviceIdentity { name: name.to_string(), devnode: devnode.to_string() }
}

fn key(code: u16, value: i32) -> RawEvent {
    RawEvent { event_type: EV_KEY, code, value }
}

fn event(device: &str, key: u16, value: EventValue) -> EventData {
    EventData { device: device.to_string(), key, value }
}

fn candidate(devnode: Option<&str>, props: Vec<(&str, &str)>) -> Candidate {
    Candidate {
        devnode: devnode.map(|d| d.to_string()),
        chain: vec![Device {
            properties: props
                .into_iter()
                .map(|(k, v)| Property { key: k.to_string(), value: v.as_bytes().to_vec() })
                .collect(),
        }],
    }
}

fn keyboard_config() -> Vec<DeviceConfig> {
    vec![DeviceConfig {
        name: "kbd".to_string(),
        filter: vec![FilterEntry {
            key: "ID_INPUT_KEYBOARD".to_string(),
            pattern: Some(Pattern::new("^1$").ok().unwrap()),
        }],
        grab: GrabConfig::Exclusive,
    }]
}

#[test]
fn enumeration_opens_only_the_matching_device() {
    let config = keyboard_config();
    let found = vec![
        candidate(Some("/dev/input/event0"), vec![("ID_INPUT_MOUSE", "1")]),
        candidate(Some("/dev/input/event1"), vec![("ID_INPUT_KEYBOARD", "1")]),
    ];
    let mut registry = Registry::new();
    for c in &found {
        if let Some(id) = registry.consider(c, &config) {
            assert!(registry.register(id));
        }
    }
    assert_eq!(registry.len(), 1);
    assert_eq!(registry.get(0), Some(&identity("kbd", "/dev/input/event1")));
    assert_eq!(registry.get(1), None);
    assert!(registry.is_active(&"/dev/input/event1".to_string()));
    assert!(!registry.is_active(&"/dev/input/event0".to_string()));
}

#[test]
fn press_and_release_reach_the_queue_in_order() {
    let mut registry = Registry::new();
    assert!(registry.register(identity("kbd", "/dev/input/event1")));
    let node = "/dev/input/event1".to_string();
    assert!(registry.accept(&node, &key(KEY_A, 1)));
    assert!(!registry.accept(&node, &RawEvent { event_type: 0, code: 0, value: 0 }));
    assert!(registry.accept(&node, &key(KEY_A, 0)));
    assert_eq!(registry.pending_len(), 2);
    assert_eq!(registry.next(), Some(event("kbd", KEY_A, EventValue::DOWN)));
    assert_eq!(registry.next(), Some(event("kbd", KEY_A, EventValue::UP)));
    assert_eq!(registry.next(), None);
    assert_eq!(registry.pending_len(), 0);
}

#[test]
fn registering_keeps_waiting_events() {
    let mut registry = Registry::new();
    assert!(registry.register(identity("kbd", "/dev/input/event1")));
    let node = "/dev/input/event1".to_string();
    assert!(registry.accept(&node, &key(1, 1)));
    assert!(registry.accept(&node, &key(2, 1)));
    assert!(registry.register(identity("pad", "/dev/input/event7")));
    assert!(!registry.register(identity("again", "/dev/input/event1")));
    assert_eq!(registry.pending_len(), 2);
    assert_eq!(registry.next(), Some(event("kbd", 1, EventValue::DOWN)));
    assert_eq!(registry.next(), Some(event("kbd", 2, EventValue::DOWN)));
    assert_eq!(registry.next(), None);
}

#[test]
fn second_add_for_open_node_makes_no_second_stream() {
    let config = keyboard_config();
    let mut registry = Registry::new();
    let add = Notification::Add(candidate(
        Some("/dev/input/event1"),
        vec![("ID_INPUT_KEYBOARD", "1")],
    ));
    match registry.decide(&add, &config) {
        Action::Open(id) => {
            assert_eq!(id, identity("kbd", "/dev/input/event1"));
            assert!(registry.register(id));
        }
        Action::Ignore => panic!("the keyboard was ignored"),
    }
    assert_eq!(registry.decide(&add, &config), Action::Ignore);
    assert!(!registry.register(identity("kbd", "/dev/input/event1")));
    assert!(!registry.register(identity("other", "/dev/input/event1")));
    assert_eq!(registry.len(), 1);
    assert_eq!(registry.get(0), Some(&identity("kbd", "/dev/input/event1")));
}

#[test]
fn removal_and_other_notifications_are_ignored() {
    let config = keyboard_config();
    let mut registry = Registry::new();
    assert!(registry.register(identity("kbd", "/dev/input/event1")));
    let remove = Notification::Remove(candidate(
        Some("/dev/input/event1"),
        vec![("ID_INPUT_KEYBOARD", "1")],
    ));
    assert_eq!(registry.decide(&remove, &config), Action::Ignore);
    assert_eq!(registry.decide(&Notification::Other, &config), Action::Ignore);
    assert_eq!(registry.len(), 1);
    assert!(registry.is_active(&"/dev/input/event1".to_string()));
}

#[test]
fn added_device_without_node_or_match_is_ignored() {
    let config = keyboard_config();
    let registry = Registry::new();
    let no_node = Notification::Add(candidate(None, vec![("ID_INPUT_KEYBOARD", "1")]));
    assert_eq!(registry.decide(&no_node, &config), Action::Ignore);
    let no_match =
        Notification::Add(candidate(Some("/dev/input/event2"), vec![("ID_INPUT_MOUSE", "1")]));
    assert_eq!(registry.decide(&no_match, &config), Action::Ignore);
}

#[test]
fn failed_read_prunes_only_that_stream() {
    let mut registry = Registry::new();
    assert!(registry.register(identity("kbd", "/dev/input/event1")));
    assert!(registry.register(identity("pad", "/dev/input/event2")));
    assert!(registry.register(identity("remote", "/dev/input/event3")));
    let gone = "/dev/input/event2".to_string();
    assert!(registry.accept(&gone, &key(5, 1)));
    assert!(registry.prune(&gone));
    assert!(!registry.prune(&gone));
    assert_eq!(registry.len(), 2);
    assert_eq!(registry.get(0), Some(&identity("kbd", "/dev/input/event1")));
    assert_eq!(registry.get(1), Some(&identity("remote", "/dev/input/event3")));
    assert_eq!(registry.position(&"/dev/input/event3".to_string()), Some(1));
    assert_eq!(registry.position(&gone), None);
    assert!(!registry.accept(&gone, &key(5, 0)));
    assert!(registry.accept(&"/dev/input/event3".to_string(), &key(9, 1)));
    assert_eq!(registry.next(), Some(event("pad", 5, EventValue::DOWN)));
    assert_eq!(registry.next(), Some(event("remote", 9, EventValue::DOWN)));
    assert_eq!(registry.next(), None);
    assert!(registry.register(identity("pad", "/dev/input/event2")));
    assert_eq!(registry.len(), 3);
}

#[test]
fn event_from_unknown_node_is_not_queued() {
    let mut registry = Registry::new();
    assert!(!registry.accept(&"/dev/input/event9".to_string(), &key(KEY_A, 1)));
    assert_eq!(registry.pending_len(), 0);
    assert_eq!(registry.next(), None);
}

#[test]
fn refused_delivery_drops_one_event_only() {
    let mut registry = Registry::new();
    assert!(registry.register(identity("kbd", "/dev/input/event1")));
    let node = "/dev/input/event1".to_string();
    assert!(registry.accept(&node, &key(KEY_A, 1)));
    assert!(registry.accept(&node, &key(KEY_A, 0)));
    let first = registry.next();
    assert_eq!(first, Some(event("kbd", KEY_A, EventValue::DOWN)));
    assert_eq!(classify_delivery(Some(401)), Delivery::Dropped);
    let second = registry.next();
    assert_eq!(second, Some(event("kbd", KEY_A, EventValue::UP)));
    assert_eq!(classify_delivery(Some(200)), Delivery::Delivered);
    assert_eq!(registry.len(), 1);
}

#[test]
fn literal_secret_needs_no_file() {
    let secret = Secret::Literal("token".to_string());
    assert_eq!(secret.path(), None);
    assert_eq!(secret.read(None), Some("token".to_string()));
    assert_eq!(secret.read(Some("other".to_string())), Some("token".to_string()));
}

#[test]
fn referenced_secret_is_what_the_file_holds() {
    let secret = Secret::Reference("/run/secrets/hass".to_string());
    assert_eq!(secret.path(), Some(&"/run/secrets/hass".to_string()));
    assert_eq!(secret.read(Some("from file".to_string())), Some("from file".to_string()));
    assert_eq!(secret.read(None), None);
}

#[test]
fn grab_is_exclusive_by_default() {
    assert_eq!(GrabConfig::default(), GrabConfig::Exclusive);
    assert_ne!(GrabConfig::default(), GrabConfig::Shared);
}

#[test]
fn verbosity_rises_with_each_flag() {
    assert_eq!(verbosity_level(0), LogLevel::Warn);
    assert_eq!(verbosity_level(1), LogLevel::Info);
    assert_eq!(verbosity_level(2), LogLevel::Debug);
    assert_eq!(verbosity_level(3), LogLevel::Trace);
    assert_eq!(verbosity_level(255), LogLevel::Trace);
}
