use zrpc::codec::encode_instance;
use zrpc::common::ServiceInstance;
use std::collections::HashMap;

use zrpc::discovery::{translate_event, Change, EventKind};

const SERVICE: &str = "dev/test.rpc";

fn member_value(key: &str, endpoint: &str) -> String {
    encode_instance(&ServiceInstance {
        name: SERVICE.to_owned(),
        key: key.to_owned(),
        endpoint: endpoint.to_owned(),
    })
}

#[test]
fn seed_then_watch_delivers_in_order() {
    // Seeding: the store already holds k1.
    let seeded = translate_event(
        EventKind::Put,
        "k1".to_owned(),
        &member_value("k1", "10.0.0.1:50051"),
        SERVICE,
    );
    assert_eq!(
        seeded,
        Some(Change::Insert {
            key: "k1".to_owned(),
            uri: "http://10.0.0.1:50051".to_owned(),
        })
    );

    // A second instance appears.
    let second = translate_event(
        EventKind::Put,
        "k2".to_owned(),
        &member_value("k2", "10.0.0.2:50051"),
        SERVICE,
    );
    assert_eq!(
        second,
        Some(Change::Insert {
            key: "k2".to_owned(),
            uri: "http://10.0.0.2:50051".to_owned(),
        })
    );

    // k1 goes away: the removal carries the same key its insertion did.
    let gone = translate_event(EventKind::Delete, "k1".to_owned(), "", SERVICE);
    assert_eq!(gone, Some(Change::Remove { key: "k1".to_owned() }));
}

#[test]
fn foreign_instances_under_the_prefix_are_dropped() {
    let stray = encode_instance(&ServiceInstance {
        name: "other".to_owned(),
        key: "dev/test.rpc/bogus".to_owned(),
        endpoint: "10.0.0.9:50051".to_owned(),
    });
    let r = translate_event(EventKind::Put, "dev/test.rpc/bogus".to_owned(), &stray, SERVICE);
    assert_eq!(r, None);
}

#[test]
fn corrupt_values_are_dropped_and_the_loop_goes_on() {
    let bad = translate_event(EventKind::Put, "k1".to_owned(), "not-json", SERVICE);
    assert_eq!(bad, None);

    // The next, valid event is still translated.
    let good = translate_event(
        EventKind::Put,
        "k1".to_owned(),
        &member_value("k1", "10.0.0.1:50051"),
        SERVICE,
    );
    assert!(matches!(good, Some(Change::Insert { .. })));
}

#[test]
fn unparsable_endpoints_are_dropped() {
    let r = translate_event(
        EventKind::Put,
        "k1".to_owned(),
        &member_value("k1", "not a uri at all"),
        SERVICE,
    );
    assert_eq!(r, None);
}

#[test]
fn deletes_pass_the_raw_key_through() {
    let r = translate_event(EventKind::Delete, "anything".to_owned(), "not-json", SERVICE);
    assert_eq!(r, Some(Change::Remove { key: "anything".to_owned() }));
}

#[test]
fn the_member_map_tracks_the_store() {
    // Put k1, put k2, delete k1: the member map ends up holding k2 alone.
    let events = [
        (EventKind::Put, "k1", member_value("k1", "10.0.0.1:50051")),
        (EventKind::Put, "k2", member_value("k2", "10.0.0.2:50051")),
        (EventKind::Delete, "k1", String::new()),
    ];
    let mut members: HashMap<String, String> = HashMap::new();
    for (kind, key, value) in events {
        match translate_event(kind, key.to_owned(), &value, SERVICE) {
            Some(Change::Insert { key, uri }) => {
                members.insert(key, uri);
            }
            Some(Change::Remove { key }) => {
                members.remove(&key);
            }
            None => {}
        }
    }
    assert_eq!(members.len(), 1);
    assert_eq!(
        members.get("k2"),
        Some(&"http://10.0.0.2:50051".to_owned())
    );
}
