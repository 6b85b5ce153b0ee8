//! The wire record a server publishes to the coordination store and a
//! client reads back: logical service name, globally unique key, and the
//! endpoint to connect to.

use vstd::prelude::*;

use crate::register::ServerConf;
use crate::strutil::{i64_to_string, spec_i64_dec};

verus! {

/// The record published under a lease and read back by discovery.
pub struct ServiceInstance {
    /// Logical service identity, `<model>/<server_name>`; also the watch prefix.
    pub name: String,
    /// Unique identity of this process's advertisement; also the store key.
    pub key: String,
    /// The `host:port` clients connect to.
    pub endpoint: String,
}

/// The mathematical value of a [`ServiceInstance`]: its three fields as
/// character sequences.
pub struct ServiceInstanceView {
    pub name: Seq<char>,
    pub key: Seq<char>,
    pub endpoint: Seq<char>,
}

impl View for ServiceInstance {
    type V = ServiceInstanceView;

    open spec fn view(&self) -> ServiceInstanceView {
        ServiceInstanceView { name: self.name@, key: self.key@, endpoint: self.endpoint@ }
    }
}

/// `name` followed by a slash is a prefix of `key`, with something after it:
/// a prefix watch on `name` sees every event for the key.
pub open spec fn key_under_name(key: Seq<char>, name: Seq<char>) -> bool {
    &&& key.len() > name.len() + 1
    &&& key.subrange(0, name.len() as int + 1) == name + seq!['/']
}

/// Relies on chrono's `Local::now().timestamp()`: the current time as whole
/// seconds since the Unix epoch. Nothing is assumed of its value.
#[verifier::external_body]
fn unix_now_seconds() -> i64 {
    chrono::Local::now().timestamp()
}

/// Relies on uuid's `Uuid::new_v4` and its `Display`: a random UUID printed
/// in the hyphenated form, which is exactly 36 characters.
#[verifier::external_body]
fn new_uuid_string() -> (r: String)
    ensures
        r@.len() == 36,
{
    uuid::Uuid::new_v4().to_string()
}

impl ServiceInstance {
    /// Builds the record for one fresh process of the service
    /// `<name_space>/<name>`: the key appends the current Unix time and a
    /// random UUID, so that every process advertises under its own key.
    pub fn new(name_space: &str, name: &str, endpoint: String) -> (r: ServiceInstance)
        ensures
            r@.name == name_space@ + seq!['/'] + name@,
            r@.endpoint == endpoint@,
            key_under_name(r@.key, r@.name),
    {
        let ts = unix_now_seconds();
        let uid = new_uuid_string();
        let ghost u = uid@;
        let r = Self::with_parts(name_space, name, endpoint, ts, uid);
        proof {
            lemma_key_structure_prefix(r@.name, r@.key, spec_i64_dec(ts as int), u);
        }
        r
    }

    /// Builds the record from the given timestamp and unique suffix.
    pub fn with_parts(name_space: &str, name: &str, endpoint: String, ts: i64, uid: String) -> (r:
        ServiceInstance)
        requires
            uid@.len() > 0,
        ensures
            r@.name == name_space@ + seq!['/'] + name@,
            r@.key == r@.name + seq!['/'] + spec_i64_dec(ts as int) + seq!['/'] + uid@,
            r@.endpoint == endpoint@,
    {
        let slash = slash_str();
        let mut full_name = String::new();
        full_name.append(name_space);
        full_name.append(slash);
        full_name.append(name);

        let ts_str = i64_to_string(ts);
        let mut key = full_name.clone();
        key.append(slash);
        key.append(ts_str.as_str());
        key.append(slash);
        key.append(uid.as_str());

        let r = ServiceInstance { name: full_name, key, endpoint };
        proof {
            assert(r@.name =~= name_space@ + seq!['/'] + name@);
            assert(r@.key =~= r@.name + seq!['/'] + spec_i64_dec(ts as int) + seq!['/'] + uid@);
        }
        r
    }

    /// Builds the record a server advertises, from its configuration:
    /// the service name is `<model>/<server_name>`.
    pub fn from_conf(conf: &ServerConf) -> (r: ServiceInstance)
        ensures
            r@.name == conf.model@ + seq!['/'] + conf.server_name@,
            r@.endpoint == conf.endpoint@,
            key_under_name(r@.key, r@.name),
    {
        Self::new(conf.get_model(), conf.get_server_name(), conf.get_endpoint().to_owned())
    }
}

fn slash_str() -> (r: &'static str)
    ensures
        r@ == seq!['/'],
{
    let r = "/";
    proof {
        reveal_strlit("/");
        assert(r@ =~= seq!['/']);
    }
    r
}

proof fn lemma_key_structure_prefix(name: Seq<char>, key: Seq<char>, mid: Seq<char>, uid: Seq<char>)
    requires
        key == name + seq!['/'] + mid + seq!['/'] + uid,
        uid.len() > 0,
    ensures
        key_under_name(key, name),
{
    assert(key.len() >= name.len() + 2 + mid.len() + uid.len());
    assert(key.subrange(0, name.len() as int + 1) =~= name + seq!['/']);
}

} // verus!
