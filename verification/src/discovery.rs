//! Discovery: translating the coordination store's membership events into
//! the insert/remove changes that drive a balanced channel. The store and
//! the channel live outside this crate; the loop around them feeds every
//! event through [`translate_event`] and delivers what comes back, in order.

use vstd::prelude::*;

use crate::codec::{decode_instance, lemma_decode_encode, spec_decode, spec_encode};
use crate::common::ServiceInstanceView;
use crate::register::EtcdConf;

verus! {

/// Connection settings and service namespace for a discovering client.
pub struct ClientConf {
    /// The namespace half of the service name.
    pub model: String,
    /// Where the coordination store lives.
    pub etcd_conf: EtcdConf,
}

/// The kind of a membership event read from the store.
#[derive(Clone, Copy, PartialEq, Eq, Structural)]
pub enum EventKind {
    /// A key was written.
    Put,
    /// A key disappeared.
    Delete,
}

/// A membership change handed to the balanced channel.
#[derive(Debug, PartialEq, Eq)]
pub enum Change {
    /// A new member: its store key and the URI to dial.
    Insert { key: String, uri: String },
    /// A member left: the same key its insertion carried.
    Remove { key: String },
}

/// The mathematical value of a [`Change`].
pub enum ChangeView {
    Insert { key: Seq<char>, uri: Seq<char> },
    Remove { key: Seq<char> },
}

impl View for Change {
    type V = ChangeView;

    open spec fn view(&self) -> ChangeView {
        match self {
            Change::Insert { key, uri } => ChangeView::Insert { key: key@, uri: uri@ },
            Change::Remove { key } => ChangeView::Remove { key: key@ },
        }
    }
}

/// The scheme prepended to a member's advertised endpoint.
pub open spec fn http_prefix() -> Seq<char> {
    seq!['h', 't', 't', 'p', ':', '/', '/']
}

/// Whether the transport accepts `s` as an endpoint URI. The answer is a
/// function of the characters alone; only the transport's parser knows it.
pub uninterp spec fn uri_parses(s: Seq<char>) -> bool;

/// Relies on tonic's `Endpoint` `FromStr`: parsing an endpoint URI is
/// deterministic in the string.
#[verifier::external_body]
fn endpoint_parses(uri: &str) -> (r: bool)
    ensures
        r == uri_parses(uri@),
{
    uri.parse::<tonic::transport::Endpoint>().is_ok()
}

/// What one store event means for the member set of service `service`:
///
/// * a `Put` whose value decodes to an instance of this very service, with
///   a URI the transport accepts, becomes an insertion under the decoded key;
/// * a `Put` that does not decode, names another service, or carries an
///   endpoint the transport refuses, is dropped;
/// * a `Delete` becomes a removal under the store key, verbatim.
pub open spec fn spec_translate(
    kind: EventKind,
    key: Seq<char>,
    value: Seq<char>,
    service: Seq<char>,
) -> Option<ChangeView> {
    match kind {
        EventKind::Put => match spec_decode(value) {
            None => None,
            Some(inst) => if inst.name != service {
                None
            } else {
                let uri = http_prefix() + inst.endpoint;
                if uri_parses(uri) {
                    Some(ChangeView::Insert { key: inst.key, uri })
                } else {
                    None
                }
            },
        },
        EventKind::Delete => Some(ChangeView::Remove { key }),
    }
}

/// The view of what a translation returned.
pub open spec fn change_opt_view(r: Option<Change>) -> Option<ChangeView> {
    match r {
        Some(c) => Some(c@),
        None => None,
    }
}

fn str_equal(a: &str, b: &str) -> (r: bool)
    ensures
        r == (a@ == b@),
{
    let sa = a.to_owned();
    let sb = b.to_owned();
    sa == sb
}

/// Translates one membership event for service `service_name`, exactly as
/// [`spec_translate`] says: the change to deliver, or nothing for events
/// that are corrupt, foreign, or unusable.
pub fn translate_event(kind: EventKind, key: String, value: &str, service_name: &str) -> (r: Option<
    Change,
>)
    ensures
        change_opt_view(r) == spec_translate(kind, key@, value@, service_name@),
{
    match kind {
        EventKind::Delete => Some(Change::Remove { key }),
        EventKind::Put => {
            let inst = match decode_instance(value) {
                Some(inst) => inst,
                None => {
                    return None;
                },
            };
            if !str_equal(inst.name.as_str(), service_name) {
                return None;
            }
            let scheme = http_scheme_str();
            let mut uri = scheme.to_owned();
            uri.append(inst.endpoint.as_str());
            if endpoint_parses(uri.as_str()) {
                Some(Change::Insert { key: inst.key, uri })
            } else {
                None
            }
        },
    }
}

fn http_scheme_str() -> (r: &'static str)
    ensures
        r@ == http_prefix(),
{
    let r = "http://";
    proof {
        reveal_strlit("http://");
        assert(r@ =~= http_prefix());
    }
    r
}

/// The name filter: every insertion a translation produces comes from a
/// value that decodes to an instance of the requested service, and carries
/// that instance's own key and endpoint URI. Foreign instances under a
/// shared prefix never reach the channel.
pub proof fn lemma_translate_name_filter(
    kind: EventKind,
    key: Seq<char>,
    value: Seq<char>,
    service: Seq<char>,
)
    ensures
        spec_translate(kind, key, value, service) matches Some(ChangeView::Insert { key: k, uri })
            ==> {
            &&& spec_decode(value) is Some
            &&& spec_decode(value).unwrap().name == service
            &&& k == spec_decode(value).unwrap().key
            &&& uri == http_prefix() + spec_decode(value).unwrap().endpoint
        },
{
}

/// One membership event, as the store reports it under the watch prefix.
pub struct EventView {
    pub kind: EventKind,
    pub key: Seq<char>,
    pub value: Seq<char>,
}

/// The store's contents after one event.
pub open spec fn store_apply(m: Map<Seq<char>, Seq<char>>, e: EventView) -> Map<
    Seq<char>,
    Seq<char>,
> {
    match e.kind {
        EventKind::Put => m.insert(e.key, e.value),
        EventKind::Delete => m.remove(e.key),
    }
}

/// The store's contents after a run of events.
pub open spec fn store_run(m: Map<Seq<char>, Seq<char>>, es: Seq<EventView>) -> Map<
    Seq<char>,
    Seq<char>,
>
    decreases es.len(),
{
    if es.len() == 0 {
        m
    } else {
        store_run(store_apply(m, es[0]), es.skip(1))
    }
}

/// The client's key-to-URI member map after one delivered change: inserts
/// and removals apply, dropped events change nothing.
pub open spec fn client_apply(m: Map<Seq<char>, Seq<char>>, c: Option<ChangeView>) -> Map<
    Seq<char>,
    Seq<char>,
> {
    match c {
        Some(ChangeView::Insert { key, uri }) => m.insert(key, uri),
        Some(ChangeView::Remove { key }) => m.remove(key),
        None => m,
    }
}

/// The client's member map after every event of a run has been translated
/// and its change, if any, delivered in order.
pub open spec fn client_run(
    m: Map<Seq<char>, Seq<char>>,
    es: Seq<EventView>,
    service: Seq<char>,
) -> Map<Seq<char>, Seq<char>>
    decreases es.len(),
{
    if es.len() == 0 {
        m
    } else {
        client_run(
            client_apply(m, spec_translate(es[0].kind, es[0].key, es[0].value, service)),
            es.skip(1),
            service,
        )
    }
}

/// The URI a stored key/value pair contributes to `service`'s member set:
/// only a value that decodes to an instance of this service, stored under
/// the instance's own key, with an endpoint the transport accepts.
pub open spec fn entry_uri(service: Seq<char>, k: Seq<char>, v: Seq<char>) -> Option<Seq<char>> {
    match spec_decode(v) {
        Some(inst) => if inst.name == service && inst.key == k && uri_parses(
            http_prefix() + inst.endpoint,
        ) {
            Some(http_prefix() + inst.endpoint)
        } else {
            None
        },
        None => None,
    }
}

/// The member set service `service` actually has in store contents `m`.
pub open spec fn member_view(m: Map<Seq<char>, Seq<char>>, service: Seq<char>) -> Map<
    Seq<char>,
    Seq<char>,
> {
    Map::new(
        |k: Seq<char>| m.contains_key(k) && entry_uri(service, k, m[k]) is Some,
        |k: Seq<char>| entry_uri(service, k, m[k]).unwrap(),
    )
}

/// What a correctly running registration guarantees of one event against
/// store contents `m`: a value registering this service is stored under the
/// instance's own key, and a live member entry is only ever overwritten by
/// another member entry.
pub open spec fn event_ok(m: Map<Seq<char>, Seq<char>>, e: EventView, service: Seq<char>) -> bool {
    e.kind matches EventKind::Put ==> {
        &&& (spec_decode(e.value) matches Some(inst) ==> (inst.name == service ==> inst.key
            == e.key))
        &&& (entry_uri(service, e.key, e.value) is None && m.contains_key(e.key) ==> entry_uri(
            service,
            e.key,
            m[e.key],
        ) is None)
    }
}

/// [`event_ok`] for every event of a run, each against the store contents
/// the events before it left behind.
pub open spec fn events_ok(
    m: Map<Seq<char>, Seq<char>>,
    es: Seq<EventView>,
    service: Seq<char>,
) -> bool
    decreases es.len(),
{
    if es.len() == 0 {
        true
    } else {
        event_ok(m, es[0], service) && events_ok(store_apply(m, es[0]), es.skip(1), service)
    }
}

proof fn lemma_member_step(
    store: Map<Seq<char>, Seq<char>>,
    client: Map<Seq<char>, Seq<char>>,
    e: EventView,
    service: Seq<char>,
)
    requires
        client == member_view(store, service),
        event_ok(store, e, service),
    ensures
        client_apply(client, spec_translate(e.kind, e.key, e.value, service)) == member_view(
            store_apply(store, e),
            service,
        ),
{
    match e.kind {
        EventKind::Delete => {
            assert(client.remove(e.key) =~= member_view(store.remove(e.key), service));
        },
        EventKind::Put => {
            match entry_uri(service, e.key, e.value) {
                Some(u) => {
                    assert(client.insert(e.key, u) =~= member_view(
                        store.insert(e.key, e.value),
                        service,
                    ));
                },
                None => {
                    assert(spec_translate(e.kind, e.key, e.value, service) is None);
                    assert(client =~= member_view(store.insert(e.key, e.value), service));
                },
            }
        },
    }
}

proof fn lemma_member_run(
    store: Map<Seq<char>, Seq<char>>,
    client: Map<Seq<char>, Seq<char>>,
    es: Seq<EventView>,
    service: Seq<char>,
)
    requires
        client == member_view(store, service),
        events_ok(store, es, service),
    ensures
        client_run(client, es, service) == member_view(store_run(store, es), service),
    decreases es.len(),
{
    if es.len() != 0 {
        lemma_member_step(store, client, es[0], service);
        lemma_member_run(
            store_apply(store, es[0]),
            client_apply(client, spec_translate(es[0].kind, es[0].key, es[0].value, service)),
            es.skip(1),
            service,
        );
    }
}

/// Convergence of the client's view: starting from an empty store and an
/// empty member map, after any run of events in which registrations write
/// each instance under its own key and never bury a live member entry under
/// a foreign one, the member map built from the delivered inserts and
/// removals equals the member set actually in the store. In particular a
/// `Remove` undoes an `Insert` exactly when the underlying key was deleted.
pub proof fn lemma_member_convergence(es: Seq<EventView>, service: Seq<char>)
    requires
        events_ok(Map::<Seq<char>, Seq<char>>::empty(), es, service),
    ensures
        client_run(Map::<Seq<char>, Seq<char>>::empty(), es, service) == member_view(
            store_run(Map::<Seq<char>, Seq<char>>::empty(), es),
            service,
        ),
{
    assert(Map::<Seq<char>, Seq<char>>::empty() =~= member_view(
        Map::<Seq<char>, Seq<char>>::empty(),
        service,
    ));
    lemma_member_run(
        Map::<Seq<char>, Seq<char>>::empty(),
        Map::<Seq<char>, Seq<char>>::empty(),
        es,
        service,
    );
}

/// The changes a run of events produces for `service`, in store order:
/// each event's translation, dropped events contributing nothing.
pub open spec fn translate_run(es: Seq<EventView>, service: Seq<char>) -> Seq<ChangeView>
    decreases es.len(),
{
    if es.len() == 0 {
        Seq::<ChangeView>::empty()
    } else {
        (match spec_translate(es[0].kind, es[0].key, es[0].value, service) {
            Some(c) => seq![c],
            None => Seq::<ChangeView>::empty(),
        }) + translate_run(es.skip(1), service)
    }
}

/// Seed-then-watch, after the seeding: a put of a fresh instance's record
/// followed by a delete of an earlier key reaches the sink as exactly that
/// instance's insertion and then the earlier key's removal, in that order —
/// provided the transport accepts the new instance's endpoint URI. (An
/// endpoint the transport refuses never produces the insertion; dropping it
/// is the translator's contract.)
pub proof fn lemma_put_then_delete_in_order(v: ServiceInstanceView, gone: Seq<char>, dv: Seq<char>)
    requires
        uri_parses(http_prefix() + v.endpoint),
    ensures
        translate_run(
            seq![
                EventView { kind: EventKind::Put, key: v.key, value: spec_encode(v) },
                EventView { kind: EventKind::Delete, key: gone, value: dv },
            ],
            v.name,
        ) == seq![
            ChangeView::Insert { key: v.key, uri: http_prefix() + v.endpoint },
            ChangeView::Remove { key: gone },
        ],
{
    lemma_decode_encode(v);
    let es = seq![
        EventView { kind: EventKind::Put, key: v.key, value: spec_encode(v) },
        EventView { kind: EventKind::Delete, key: gone, value: dv },
    ];
    let tail = seq![EventView { kind: EventKind::Delete, key: gone, value: dv }];
    assert(tail.skip(1) =~= Seq::<EventView>::empty());
    assert(translate_run(Seq::<EventView>::empty(), v.name) == Seq::<ChangeView>::empty());
    assert(spec_translate(tail[0].kind, tail[0].key, tail[0].value, v.name) == Some(
        ChangeView::Remove { key: gone },
    ));
    assert(translate_run(tail, v.name) =~= seq![ChangeView::Remove { key: gone }]);
    assert(es.skip(1) =~= tail);
    assert(spec_translate(es[0].kind, es[0].key, es[0].value, v.name) == Some(
        ChangeView::Insert { key: v.key, uri: http_prefix() + v.endpoint },
    ));
    assert(translate_run(es, v.name) =~= seq![
        ChangeView::Insert { key: v.key, uri: http_prefix() + v.endpoint },
        ChangeView::Remove { key: gone },
    ]);
}

/// What registration writes is a live member entry of its own service: the
/// stored value decodes back to the instance, under the instance's own key,
/// provided the transport accepts its endpoint URI.
pub proof fn lemma_registration_entry_is_member(v: ServiceInstanceView)
    requires
        uri_parses(http_prefix() + v.endpoint),
    ensures
        entry_uri(v.name, v.key, spec_encode(v)) == Some(http_prefix() + v.endpoint),
{
    lemma_decode_encode(v);
}

/// The put a registration makes — its own key, its encoded record — meets
/// the convergence law's premise for its own service, whatever the store
/// already holds, provided the transport accepts its endpoint URI.
pub proof fn lemma_registration_event_ok(m: Map<Seq<char>, Seq<char>>, v: ServiceInstanceView)
    requires
        uri_parses(http_prefix() + v.endpoint),
    ensures
        event_ok(m, EventView { kind: EventKind::Put, key: v.key, value: spec_encode(v) }, v.name),
{
    lemma_decode_encode(v);
}

} // verus!
