use droppa::presence::Presence;
use droppa::pump::{presence_step, presence_tick, DirtySignal};
use droppa::wire::names_payload;

#[test]
fn devices_connect_and_disconnect() {
    let mut presence = Presence::new();
    assert_eq!(presence.len(), 0);
    assert_eq!(presence.payload(), "[]");
    presence.connect("u-1".to_string(), "phone".to_string());
    presence.connect("u-2".to_string(), "laptop".to_string());
    presence.connect("u-3".to_string(), "tablet".to_string());
    assert_eq!(presence.len(), 3);
    assert_eq!(presence.name_of("u-2"), Some("laptop".to_string()));
    assert_eq!(presence.name_of("u-9"), None);
    assert_eq!(presence.list(), vec!["u-1".to_string(), "u-2".to_string(), "u-3".to_string()]);
    assert_eq!(presence.payload(), "[\"u-1\",\"u-2\",\"u-3\"]");
    presence.connect("u-2".to_string(), "desk".to_string());
    assert_eq!(presence.len(), 3);
    assert_eq!(presence.name_of("u-2"), Some("desk".to_string()));
    assert!(presence.disconnect("u-1"));
    assert!(!presence.disconnect("u-1"));
    assert_eq!(presence.list(), vec!["u-3".to_string(), "u-2".to_string()]);
    assert!(presence.disconnect("u-2"));
    assert!(presence.disconnect("u-3"));
    assert_eq!(presence.payload(), "[]");
}

#[test]
fn names_are_listed_as_json_strings() {
    let names = vec!["a\"b".to_string(), "".to_string(), "\u{e9}\n".to_string()];
    let payload = names_payload(&names);
    assert_eq!(payload, serde_json::to_string(&names).expect("strings are serialised"));
    assert_eq!(names_payload(&Vec::new()), "[]");
    assert_eq!(names_payload(&vec!["x".to_string()]), "[\"x\"]");
}

#[test]
fn the_presence_pump_publishes_when_woken() {
    let mut presence = Presence::new();
    presence.connect("u-1".to_string(), "phone".to_string());
    let mut signal: DirtySignal<()> = DirtySignal::new();
    let mut receiver = signal.install();
    let step = presence_tick(&mut receiver, &presence);
    assert_eq!(step.payload, None);
    assert_eq!(step.pause_ms, 150);
    assert!(signal.raise(()));
    let step = presence_tick(&mut receiver, &presence);
    assert_eq!(step.payload.as_deref(), Some("[\"u-1\"]"));
    assert_eq!(step.pause_ms, 100);
    assert_eq!(presence_step(false, &presence).payload, None);
    assert_eq!(presence_step(true, &presence).payload.as_deref(), Some("[\"u-1\"]"));
}
