use zrpc::codec::decode_instance;
use zrpc::common::ServiceInstance;
use zrpc::register::{
    keep_alive_interval_millis, observer_step, registration_entry, EtcdConf, KeepAliveEvent,
    ObserverAction, ServerConf,
};

fn conf() -> ServerConf {
    ServerConf {
        server_name: "test.rpc".to_owned(),
        model: "dev".to_owned(),
        endpoint: "127.0.0.1:50051".to_owned(),
        etcd_conf: EtcdConf {
            hosts: "127.0.0.1:2379,127.0.0.2:2379".to_owned(),
            user: None,
            pass: None,
        },
    }
}

#[test]
fn getters_hand_the_fields_back() {
    let c = conf();
    assert_eq!(c.get_server_name(), "test.rpc");
    assert_eq!(c.get_model(), "dev");
    assert_eq!(c.get_endpoint(), "127.0.0.1:50051");
    assert_eq!(c.get_etcd_conf().hosts, "127.0.0.1:2379,127.0.0.2:2379");
}

#[test]
fn host_list_splits_on_commas() {
    let c = conf();
    assert_eq!(
        c.get_etcd_conf().host_list(),
        vec!["127.0.0.1:2379".to_owned(), "127.0.0.2:2379".to_owned()]
    );
    let lone = EtcdConf { hosts: "h:1".to_owned(), user: None, pass: None };
    assert_eq!(lone.host_list(), vec!["h:1".to_owned()]);
    let empty = EtcdConf { hosts: String::new(), user: None, pass: None };
    assert_eq!(empty.host_list(), vec![String::new()]);
    let trailing = EtcdConf { hosts: "a,,b,".to_owned(), user: None, pass: None };
    assert_eq!(
        trailing.host_list(),
        vec!["a".to_owned(), String::new(), "b".to_owned(), String::new()]
    );
}

#[test]
fn the_refresh_interval_is_half_the_ttl() {
    assert_eq!(keep_alive_interval_millis(2), 1000);
    assert_eq!(keep_alive_interval_millis(10), 5000);
    assert_eq!(keep_alive_interval_millis(1), 500);
}

#[test]
fn the_observer_stops_on_expiry_and_stream_end() {
    assert_eq!(
        observer_step(&KeepAliveEvent::Ack { remaining_ttl: 0 }),
        ObserverAction::StopRegistration
    );
    assert_eq!(
        observer_step(&KeepAliveEvent::Ack { remaining_ttl: -3 }),
        ObserverAction::StopRegistration
    );
    assert_eq!(
        observer_step(&KeepAliveEvent::Ack { remaining_ttl: 2 }),
        ObserverAction::KeepWaiting
    );
    assert_eq!(
        observer_step(&KeepAliveEvent::StreamEnded),
        ObserverAction::StopRegistration
    );
}

#[test]
fn the_registration_entry_is_the_key_and_the_decodable_record() {
    let inst = ServiceInstance {
        name: "dev/test.rpc".to_owned(),
        key: "dev/test.rpc/1700000000/abc".to_owned(),
        endpoint: "127.0.0.1:50051".to_owned(),
    };
    let (key, value) = registration_entry(&inst);
    assert_eq!(key, inst.key);
    let back = decode_instance(&value).expect("the stored value decodes");
    assert_eq!(back.name, inst.name);
    assert_eq!(back.key, inst.key);
    assert_eq!(back.endpoint, inst.endpoint);
}
