use zrpc::codec::{decode_instance, encode_instance};
use zrpc::common::ServiceInstance;

fn inst(name: &str, key: &str, endpoint: &str) -> ServiceInstance {
    ServiceInstance {
        name: name.to_owned(),
        key: key.to_owned(),
        endpoint: endpoint.to_owned(),
    }
}

#[test]
fn encode_is_the_canonical_object() {
    let i = inst("dev/test.rpc", "k1", "10.0.0.1:50051");
    assert_eq!(
        encode_instance(&i),
        "{\"name\":\"dev/test.rpc\",\"key\":\"k1\",\"endpoint\":\"10.0.0.1:50051\"}"
    );
}

#[test]
fn decode_recovers_the_encoded_instance() {
    let i = inst("dev/test.rpc", "dev/test.rpc/123/abc", "10.0.0.1:50051");
    let d = decode_instance(&encode_instance(&i)).expect("round trip");
    assert_eq!(d.name, i.name);
    assert_eq!(d.key, i.key);
    assert_eq!(d.endpoint, i.endpoint);
}

#[test]
fn decode_round_trips_escaped_fields() {
    let i = inst("a\"b", "c\\d", "e\"\\f");
    let encoded = encode_instance(&i);
    assert_eq!(
        encoded,
        "{\"name\":\"a\\\"b\",\"key\":\"c\\\\d\",\"endpoint\":\"e\\\"\\\\f\"}"
    );
    let d = decode_instance(&encoded).expect("round trip");
    assert_eq!(d.name, i.name);
    assert_eq!(d.key, i.key);
    assert_eq!(d.endpoint, i.endpoint);
}

#[test]
fn decode_round_trips_empty_fields() {
    let i = inst("", "", "");
    let d = decode_instance(&encode_instance(&i)).expect("round trip");
    assert_eq!(d.name, "");
    assert_eq!(d.key, "");
    assert_eq!(d.endpoint, "");
}

#[test]
fn decode_rejects_non_json() {
    assert!(decode_instance("not-json").is_none());
}

#[test]
fn decode_rejects_truncated_and_reordered_objects() {
    assert!(decode_instance("").is_none());
    assert!(decode_instance("{\"name\":\"a\",\"key\":\"b\"}").is_none());
    assert!(decode_instance("{\"name\":\"a\",\"key\":\"b\",\"endpoint\":\"c\"").is_none());
    assert!(decode_instance("{\"key\":\"b\",\"name\":\"a\",\"endpoint\":\"c\"}").is_none());
    assert!(decode_instance("{\"name\":\"a\",\"key\":\"b\",\"endpoint\":\"c\"}x").is_none());
    assert!(decode_instance("{\"name\":\"a\",\"key\":\"b\",\"endpoint\":\"c\\q\"}").is_none());
}
