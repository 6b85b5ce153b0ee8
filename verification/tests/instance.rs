use zrpc::client::Client;
use zrpc::common::ServiceInstance;
use zrpc::register::{EtcdConf, ServerConf};
use zrpc::server::Server;
use zrpc::strutil::{i64_to_string, split_commas};

#[test]
fn a_new_instance_advertises_under_its_name() {
    let i = ServiceInstance::new("dev", "test.rpc", "10.0.0.1:50051".to_owned());
    assert_eq!(i.name, "dev/test.rpc");
    assert_eq!(i.endpoint, "10.0.0.1:50051");
    // The name, slash-terminated, is a strict prefix of the key: a prefix
    // watch on the name sees every event for this instance.
    assert!(i.key.starts_with("dev/test.rpc/"));
    assert!(i.key.len() > "dev/test.rpc/".len());
}

#[test]
fn with_parts_builds_the_key_verbatim() {
    let i = ServiceInstance::with_parts(
        "dev",
        "test.rpc",
        "10.0.0.1:50051".to_owned(),
        1700000000,
        "f81d4fae-7dec-11d0-a765-00a0c91e6bf6".to_owned(),
    );
    assert_eq!(
        i.key,
        "dev/test.rpc/1700000000/f81d4fae-7dec-11d0-a765-00a0c91e6bf6"
    );
}

#[test]
fn two_instances_get_distinct_keys() {
    let a = ServiceInstance::new("dev", "test.rpc", "10.0.0.1:50051".to_owned());
    let b = ServiceInstance::new("dev", "test.rpc", "10.0.0.1:50051".to_owned());
    assert_ne!(a.key, b.key);
}

#[test]
fn from_conf_takes_model_name_and_endpoint() {
    let c = ServerConf {
        server_name: "test.rpc".to_owned(),
        model: "dev".to_owned(),
        endpoint: "127.0.0.1:50051".to_owned(),
        etcd_conf: EtcdConf { hosts: "127.0.0.1:2379".to_owned(), user: None, pass: None },
    };
    let i = ServiceInstance::from_conf(&c);
    assert_eq!(i.name, "dev/test.rpc");
    assert_eq!(i.endpoint, "127.0.0.1:50051");
    assert!(i.key.starts_with("dev/test.rpc/"));
}

#[test]
fn decimal_formatting_handles_signs_and_extremes() {
    assert_eq!(i64_to_string(0), "0");
    assert_eq!(i64_to_string(7), "7");
    assert_eq!(i64_to_string(1700000000), "1700000000");
    assert_eq!(i64_to_string(-42), "-42");
    assert_eq!(i64_to_string(i64::MAX), "9223372036854775807");
    assert_eq!(i64_to_string(i64::MIN), "-9223372036854775808");
}

#[test]
fn split_commas_matches_the_usual_split() {
    for s in ["", "a", "a,b", ",", "a,,b,", "x:1,y:2,z:3"] {
        let got = split_commas(s);
        let want: Vec<String> = s.split(',').map(str::to_owned).collect();
        assert_eq!(got, want, "splitting {s:?}");
    }
}

#[test]
fn clients_and_servers_hand_their_parts_back() {
    let client = Client::new("any discovery source", 4);
    let (d, cap) = client.into_parts();
    assert_eq!(d, "any discovery source");
    assert_eq!(cap, 4);

    let inst = ServiceInstance {
        name: "dev/test.rpc".to_owned(),
        key: "dev/test.rpc/1/a".to_owned(),
        endpoint: "127.0.0.1:50051".to_owned(),
    };
    let server = Server::new("any register source", inst);
    let (r, i) = server.into_parts();
    assert_eq!(r, "any register source");
    assert_eq!(i.name, "dev/test.rpc");
}
