use vstd::prelude::*;

verus! {

use crate::encodings::protobuf::{proto_encoding, proto_record_parse, ProtobufEncoder};
use crate::encodings::EncodeError;
use crate::index::NameIndex;
use crate::interfaces::zenoh::{
    canon_key,
    canonize_key,
    CongestionControl,
    HandlerChannel,
    Priority,
    ZenohQuerierConfig,
};
use crate::message::Record;
use vstd::string::StringExecFns;
use vstd::utf8::{encode_utf8, valid_utf8};

/// Failures of the endpoint registry and of the request path.
#[derive(Debug)]
pub enum EndpointManagerError {
    EnvVarError(String),
    ZenohError(String),
    SerdeError(String),
    UnknownEndpointType(String),
    EndpointNotAvailable(String),
}

/// One endpoint declaration from configuration: a requester or a provider
/// role.
#[derive(Debug)]
pub enum EndpointDecl {
    Req {
        endpoint_name: String,
        endpoint_key: String,
        requester_message_type: String,
        provider_message_type: String,
        congestion_control: Option<CongestionControl>,
        priority: Option<Priority>,
        express: Option<bool>,
    },
    Prv {
        endpoint_name: String,
        endpoint_key: String,
        requester_message_type: String,
        provider_message_type: String,
        handler: Option<HandlerChannel>,
    },
}

/// A live requester handle: the canonized selector key and the resolved send
/// settings. Requests default to blocking on congestion: they are low-volume
/// and high-value.
#[derive(Debug)]
pub struct RequesterHandle {
    pub name: String,
    pub key: String,
    pub priority: Priority,
    pub express: bool,
    pub congestion_control: CongestionControl,
}

/// A live provider handle: the canonized key it serves and announces
/// liveliness on, and its query channel policy.
#[derive(Debug)]
pub struct ProviderHandle {
    pub name: String,
    pub key: String,
    pub handler: HandlerChannel,
}

/// What an endpoint key resolves to.
#[derive(Debug)]
pub enum EndpointType {
    Requester(RequesterHandle),
    Provider(ProviderHandle),
}

pub open spec fn edecl_name(d: EndpointDecl) -> Seq<char> {
    match d {
        EndpointDecl::Req { endpoint_name, .. } => endpoint_name@,
        EndpointDecl::Prv { endpoint_name, .. } => endpoint_name@,
    }
}

pub open spec fn edecl_key(d: EndpointDecl) -> Seq<char> {
    match d {
        EndpointDecl::Req { endpoint_key, .. } => endpoint_key@,
        EndpointDecl::Prv { endpoint_key, .. } => endpoint_key@,
    }
}

/// The handle a declaration resolves to: the declared role, the canonized
/// key, and absent settings replaced by the documented defaults.
pub open spec fn ehandle_matches(h: EndpointType, d: EndpointDecl) -> bool {
    match d {
        EndpointDecl::Req {
            endpoint_name,
            endpoint_key,
            congestion_control,
            priority,
            express,
            ..
        } => match h {
            EndpointType::Requester(rh) => {
                &&& rh.name@ == endpoint_name@
                &&& canon_key(endpoint_key@) == Some(rh.key@)
                &&& rh.priority == (match priority {
                    Some(p) => p,
                    None => Priority::Data,
                })
                &&& rh.express == (match express {
                    Some(e) => e,
                    None => true,
                })
                &&& rh.congestion_control == (match congestion_control {
                    Some(c) => c,
                    None => CongestionControl::Block,
                })
            },
            _ => false,
        },
        EndpointDecl::Prv { endpoint_name, endpoint_key, handler, .. } => match h {
            EndpointType::Provider(ph) => {
                &&& ph.name@ == endpoint_name@
                &&& canon_key(endpoint_key@) == Some(ph.key@)
                &&& ph.handler == (match handler {
                    Some(hh) => hh,
                    None => HandlerChannel::Fifo { capacity: 100 },
                })
            },
            _ => false,
        },
    }
}

/// The last declaration whose key is `key`.
pub open spec fn find_endpoint_by_key(decls: Seq<EndpointDecl>, key: Seq<char>) -> Option<
    EndpointDecl,
>
    decreases decls.len(),
{
    if decls.len() == 0 {
        None
    } else if edecl_key(decls.last()) == key {
        Some(decls.last())
    } else {
        find_endpoint_by_key(decls.drop_last(), key)
    }
}

/// The last declaration whose logical name is `name`.
pub open spec fn find_endpoint_by_name(decls: Seq<EndpointDecl>, name: Seq<char>) -> Option<
    EndpointDecl,
>
    decreases decls.len(),
{
    if decls.len() == 0 {
        None
    } else if edecl_name(decls.last()) == name {
        Some(decls.last())
    } else {
        find_endpoint_by_name(decls.drop_last(), name)
    }
}

pub open spec fn ekey_for_name(decls: Seq<EndpointDecl>, name: Seq<char>) -> Option<Seq<char>> {
    match find_endpoint_by_name(decls, name) {
        Some(d) => Some(edecl_key(d)),
        None => None,
    }
}

/// Every declared endpoint key has a canonical form.
pub open spec fn all_keys_canon(decls: Seq<EndpointDecl>) -> bool
    decreases decls.len(),
{
    if decls.len() == 0 {
        true
    } else {
        (canon_key(edecl_key(decls[0])) is Some) && all_keys_canon(decls.drop_first())
    }
}

proof fn lemma_all_keys_canon_take(decls: Seq<EndpointDecl>, i: int)
    requires
        0 <= i < decls.len(),
        all_keys_canon(decls.take(i)),
        canon_key(edecl_key(decls[i])) is None,
    ensures
        !all_keys_canon(decls),
    decreases i,
{
    if i == 0 {
        assert(decls.take(1)[0] == decls[0]);
    } else {
        assert(decls.take(i).drop_first() =~= decls.drop_first().take(i - 1));
        assert(decls.take(i)[0] == decls[0]);
        if canon_key(edecl_key(decls[0])) is Some {
            lemma_all_keys_canon_take(decls.drop_first(), i - 1);
        }
    }
}

proof fn lemma_all_keys_canon_step(decls: Seq<EndpointDecl>, i: int)
    requires
        0 <= i < decls.len(),
        all_keys_canon(decls.take(i)),
        canon_key(edecl_key(decls[i])) is Some,
    ensures
        all_keys_canon(decls.take(i + 1)),
    decreases i,
{
    if i == 0 {
        assert(decls.take(1)[0] == decls[0]);
        assert(decls.take(1).drop_first() =~= Seq::<EndpointDecl>::empty());
        assert(all_keys_canon(Seq::<EndpointDecl>::empty()));
    } else {
        assert(decls.take(i)[0] == decls[0]);
        assert(decls.take(i).drop_first() =~= decls.drop_first().take(i - 1));
        assert(decls.take(i + 1).drop_first() =~= decls.drop_first().take(i));
        assert(decls.drop_first()[i - 1] == decls[i]);
        lemma_all_keys_canon_step(decls.drop_first(), i - 1);
        assert(decls.take(i + 1)[0] == decls[0]);
    }
}

/// The endpoint registry for the two-sided request/reply role, built once at
/// initialization and read thereafter.
pub struct EndpointManager {
    endpoints: NameIndex<EndpointType>,
    endpoint_names: NameIndex<String>,
}

impl EndpointManager {
    pub closed spec fn spec_endpoint(&self, key: Seq<char>) -> Option<EndpointType> {
        self.endpoints.spec_get(key)
    }

    pub closed spec fn spec_name_key(&self, name: Seq<char>) -> Option<String> {
        self.endpoint_names.spec_get(name)
    }

    pub closed spec fn wf(&self) -> bool {
        self.endpoints.wf() && self.endpoint_names.wf()
    }

    /// Builds the registry from the declaration list; later declarations
    /// shadow earlier ones with the same key or name. Fatal exactly when some
    /// declared key has no canonical form.
    pub fn initialize(decls: &Vec<EndpointDecl>) -> (r: Result<
        EndpointManager,
        EndpointManagerError,
    >)
        ensures
            match r {
                Ok(m) => {
                    &&& m.wf()
                    &&& all_keys_canon(decls@)
                    &&& forall|k: Seq<char>|
                        match #[trigger] m.spec_endpoint(k) {
                            Some(h) => match find_endpoint_by_key(decls@, k) {
                                Some(d) => ehandle_matches(h, d),
                                None => false,
                            },
                            None => find_endpoint_by_key(decls@, k) is None,
                        }
                    &&& forall|nm: Seq<char>|
                        match #[trigger] m.spec_name_key(nm) {
                            Some(key) => ekey_for_name(decls@, nm) == Some(key@),
                            None => ekey_for_name(decls@, nm) is None,
                        }
                },
                Err(e) => !all_keys_canon(decls@) && e is ZenohError,
            },
    {
        let mut endpoints: NameIndex<EndpointType> = NameIndex::new();
        let mut endpoint_names: NameIndex<String> = NameIndex::new();
        let n: usize = decls.len();
        let mut i: usize = 0;
        proof {
            assert(decls@.take(0) =~= Seq::<EndpointDecl>::empty());
        }
        while i < n
            invariant
                n == decls@.len(),
                0 <= i <= n,
                endpoints.wf(),
                endpoint_names.wf(),
                all_keys_canon(decls@.take(i as int)),
                forall|k: Seq<char>|
                    match #[trigger] endpoints.spec_get(k) {
                        Some(h) => match find_endpoint_by_key(decls@.take(i as int), k) {
                            Some(d) => ehandle_matches(h, d),
                            None => false,
                        },
                        None => find_endpoint_by_key(decls@.take(i as int), k) is None,
                    },
                forall|nm: Seq<char>|
                    match #[trigger] endpoint_names.spec_get(nm) {
                        Some(key) => ekey_for_name(decls@.take(i as int), nm) == Some(key@),
                        None => ekey_for_name(decls@.take(i as int), nm) is None,
                    },
            decreases n - i,
        {
            let ghost prefix = decls@.take(i as int);
            let ghost next_prefix = decls@.take(i as int + 1);
            proof {
                assert(next_prefix.drop_last() =~= prefix);
                assert(next_prefix.last() == decls@[i as int]);
            }
            let (name, key, handle) = match &decls[i] {
                EndpointDecl::Req {
                    endpoint_name,
                    endpoint_key,
                    congestion_control,
                    priority,
                    express,
                    ..
                } => {
                    let canon = match canonize_key(endpoint_key.as_str()) {
                        Some(c) => c,
                        None => {
                            proof {
                                lemma_all_keys_canon_take(decls@, i as int);
                            }
                            return Err(EndpointManagerError::ZenohError(endpoint_key.clone()));
                        },
                    };
                    let handle = EndpointType::Requester(
                        RequesterHandle {
                            name: endpoint_name.clone(),
                            key: canon,
                            priority: match priority {
                                Some(p) => *p,
                                None => Priority::Data,
                            },
                            express: match express {
                                Some(e) => *e,
                                None => true,
                            },
                            congestion_control: match congestion_control {
                                Some(c) => *c,
                                None => CongestionControl::Block,
                            },
                        },
                    );
                    (endpoint_name.clone(), endpoint_key.clone(), handle)
                },
                EndpointDecl::Prv { endpoint_name, endpoint_key, handler, .. } => {
                    let canon = match canonize_key(endpoint_key.as_str()) {
                        Some(c) => c,
                        None => {
                            proof {
                                lemma_all_keys_canon_take(decls@, i as int);
                            }
                            return Err(EndpointManagerError::ZenohError(endpoint_key.clone()));
                        },
                    };
                    let handle = EndpointType::Provider(
                        ProviderHandle {
                            name: endpoint_name.clone(),
                            key: canon,
                            handler: match handler {
                                Some(h) => *h,
                                None => HandlerChannel::Fifo { capacity: 100 },
                            },
                        },
                    );
                    (endpoint_name.clone(), endpoint_key.clone(), handle)
                },
            };
            proof {
                assert(ehandle_matches(handle, decls@[i as int]));
                assert(name@ == edecl_name(decls@[i as int]));
                assert(key@ == edecl_key(decls@[i as int]));
                lemma_all_keys_canon_step(decls@, i as int);
            }
            endpoints.insert(key.clone(), handle);
            endpoint_names.insert(name, key);
            i = i + 1;
        }
        proof {
            assert(decls@.take(n as int) =~= decls@);
        }
        Ok(EndpointManager { endpoints, endpoint_names })
    }

    /// The endpoint key recorded for a logical endpoint name.
    pub fn resolve_endpoint_name(&self, name: &str) -> (r: Option<String>)
        ensures
            r == self.spec_name_key(name@),
    {
        match self.endpoint_names.get(name) {
            Some(key) => Some(key.clone()),
            None => None,
        }
    }

    /// The typed requester for an endpoint key: present exactly when the key
    /// resolved to a requester handle, carrying that handle's settings.
    pub fn get_requester(&self, key: &str) -> (r: Option<TypedRequester>)
        ensures
            match r {
                Some(rq) => match self.spec_endpoint(key@) {
                    Some(EndpointType::Requester(h)) => rq.name@ == h.name@ && rq.key@ == h.key@
                        && rq.priority == h.priority && rq.express == h.express
                        && rq.congestion_control == h.congestion_control,
                    _ => false,
                },
                None => !(self.spec_endpoint(key@) matches Some(EndpointType::Requester(_))),
            },
    {
        match self.endpoints.get(key) {
            Some(EndpointType::Requester(h)) => Some(
                TypedRequester {
                    name: h.name.clone(),
                    key: h.key.clone(),
                    priority: h.priority,
                    express: h.express,
                    congestion_control: h.congestion_control,
                },
            ),
            _ => None,
        }
    }

    /// The typed provider for an endpoint key: present exactly when the key
    /// resolved to a provider handle.
    pub fn get_provider(&self, key: &str) -> (r: Option<TypedProvider>)
        ensures
            match r {
                Some(p) => match self.spec_endpoint(key@) {
                    Some(EndpointType::Provider(h)) => p.name@ == h.name@ && p.key@ == h.key@
                        && p.handler == h.handler,
                    _ => false,
                },
                None => !(self.spec_endpoint(key@) matches Some(EndpointType::Provider(_))),
            },
    {
        match self.endpoints.get(key) {
            Some(EndpointType::Provider(h)) => Some(
                TypedProvider { name: h.name.clone(), key: h.key.clone(), handler: h.handler },
            ),
            _ => None,
        }
    }
}

/// The endpoint key recorded for a logical endpoint name.
pub fn resolve_endpoint_name(manager: &EndpointManager, name: &str) -> (r: Option<String>)
    ensures
        r == manager.spec_name_key(name@),
{
    manager.resolve_endpoint_name(name)
}

/// The typed requester for an endpoint key.
pub fn get_requester(manager: &EndpointManager, key: &str) -> (r: Option<TypedRequester>)
    ensures
        r is Some <==> (manager.spec_endpoint(key@) matches Some(EndpointType::Requester(_))),
{
    manager.get_requester(key)
}

/// The typed provider for an endpoint key.
pub fn get_provider(manager: &EndpointManager, key: &str) -> (r: Option<TypedProvider>)
    ensures
        r is Some <==> (manager.spec_endpoint(key@) matches Some(EndpointType::Provider(_))),
{
    manager.get_provider(key)
}

// ---------------------------------------------------------------------------
// Law: a registry built from valid declarations answers every declared
// endpoint key with the declared role, and answers nothing for undeclared
// keys.
// ---------------------------------------------------------------------------

/// Law: lookups answer declared endpoint names. After initialization,
/// resolving a declared logical name yields exactly the key of the name's
/// last declaration, and an undeclared name yields nothing. When no later
/// declaration reuses that key, the key in turn resolves to a handle of the
/// declared role with its resolved settings. A later declaration reusing the
/// key keeps one handle per key and shadows the earlier role — the one
/// excluded case.
pub proof fn lemma_endpoint_lookup_by_declared_name(
    decls: Seq<EndpointDecl>,
    m: EndpointManager,
    name: Seq<char>,
)
    requires
        forall|k: Seq<char>|
            match #[trigger] m.spec_endpoint(k) {
                Some(h) => match find_endpoint_by_key(decls, k) {
                    Some(d) => ehandle_matches(h, d),
                    None => false,
                },
                None => find_endpoint_by_key(decls, k) is None,
            },
        forall|nm: Seq<char>|
            match #[trigger] m.spec_name_key(nm) {
                Some(key) => ekey_for_name(decls, nm) == Some(key@),
                None => ekey_for_name(decls, nm) is None,
            },
    ensures
        (m.spec_name_key(name) is Some) <==> (find_endpoint_by_name(decls, name) is Some),
        (match find_endpoint_by_name(decls, name) {
            Some(d) => {
                &&& (match m.spec_name_key(name) {
                    Some(key) => key@ == edecl_key(d),
                    None => false,
                })
                &&& (find_endpoint_by_key(decls, edecl_key(d)) == Some(d) ==> (match m
                    .spec_endpoint(edecl_key(d)) {
                    Some(h) => ehandle_matches(h, d),
                    None => false,
                }))
            },
            None => m.spec_name_key(name) is None,
        }),
{
    assert(m.spec_name_key(name) is Some ==> ekey_for_name(decls, name) is Some);
}

/// Law: after initialization succeeds, looking a declared endpoint key up
/// yields a handle of exactly the declared role with its resolved settings;
/// an undeclared key yields nothing.
pub proof fn lemma_endpoints_answer_declared(
    decls: Seq<EndpointDecl>,
    m: EndpointManager,
    key: Seq<char>,
)
    requires
        forall|k: Seq<char>|
            match #[trigger] m.spec_endpoint(k) {
                Some(h) => match find_endpoint_by_key(decls, k) {
                    Some(d) => ehandle_matches(h, d),
                    None => false,
                },
                None => find_endpoint_by_key(decls, k) is None,
            },
    ensures
        (m.spec_endpoint(key) is Some) <==> (find_endpoint_by_key(decls, key) is Some),
        (match (m.spec_endpoint(key), find_endpoint_by_key(decls, key)) {
            (Some(h), Some(d)) => ehandle_matches(h, d),
            (None, None) => true,
            _ => false,
        }),
{
}

// ---------------------------------------------------------------------------
// Typed request/provide wrappers: the decision core of the request path. The
// caller performs the waiting (liveliness history, the reply itself, a
// timeout) and hands the observed outcome in; every decision about it is made
// and verified here.
// ---------------------------------------------------------------------------

/// What the transport observed on a liveliness subscription: a marker was
/// put, or the most recent marker was deleted.
#[derive(Clone, Copy, Debug, PartialEq, Eq, Structural)]
pub enum SampleKind {
    Put,
    Delete,
}

/// What came back for an issued request: a reply payload, no reply within
/// the allowed time, or a transport failure.
#[derive(Debug)]
pub enum ReplyOutcome {
    Replied(Vec<u8>),
    TimedOut,
    TransportError(String),
}

/// Typed requester wrapper: the canonized selector and resolved QoS.
pub struct TypedRequester {
    pub name: String,
    pub key: String,
    pub priority: Priority,
    pub express: bool,
    pub congestion_control: CongestionControl,
}

impl TypedRequester {
    /// Fail-fast availability gate, applied before a request is sent: the
    /// call may proceed exactly when the most recent liveliness marker is a
    /// live announcement. No marker at all, or a retraction, is an
    /// availability error naming the endpoint, not a timeout-length wait.
    pub fn check_liveliness(&self, latest: Option<SampleKind>) -> (r: Result<
        (),
        EndpointManagerError,
    >)
        ensures
            r is Ok <==> latest == Some(SampleKind::Put),
            match r {
                Ok(_) => true,
                Err(e) => match e {
                    EndpointManagerError::EndpointNotAvailable(n) => n@ == self.name@,
                    _ => false,
                },
            },
    {
        match latest {
            Some(SampleKind::Put) => Ok(()),
            _ => Err(EndpointManagerError::EndpointNotAvailable(self.name.clone())),
        }
    }

    /// The wire payload the request sends: the record's binary encoding.
    pub fn encode_request(&self, message: &Record) -> (r: Result<Vec<u8>, EncodeError>)
        ensures
            match r {
                Ok(out) => out@ == proto_encoding(message.id, encode_utf8(message.name@)),
                Err(_) => encode_utf8(message.name@).len() > u32::MAX,
            },
    {
        let bytes = message.name.as_str().as_bytes();
        if bytes.len() > 0xFFFF_FFFFusize {
            return Err(EncodeError(String::from_str("request payload too long")));
        }
        let codec = ProtobufEncoder::new();
        codec.encode(message)
    }

    /// Exactly one reply is consumed per call. A decoded reply is the
    /// result; an absent reply within the allowed time, or a transport
    /// failure, surfaces as the endpoint being unavailable; a reply that does
    /// not decode is a decode error.
    pub fn accept_reply(&self, outcome: ReplyOutcome) -> (r: Result<Record, EndpointManagerError>)
        ensures
            match outcome {
                ReplyOutcome::Replied(bytes) => match r {
                    Ok(rec) => proto_record_parse(bytes@) == Some(
                        (rec.id, encode_utf8(rec.name@)),
                    ),
                    Err(e) => e is SerdeError && match proto_record_parse(bytes@) {
                        Some((id, name)) => !valid_utf8(name),
                        None => true,
                    },
                },
                ReplyOutcome::TimedOut => match r {
                    Ok(_) => false,
                    Err(e) => e matches EndpointManagerError::EndpointNotAvailable(n) && n@
                        == self.name@,
                },
                ReplyOutcome::TransportError(_) => match r {
                    Ok(_) => false,
                    Err(e) => e is ZenohError,
                },
            },
    {
        match outcome {
            ReplyOutcome::Replied(bytes) => {
                let codec = ProtobufEncoder::new();
                match codec.decode(bytes.as_slice()) {
                    Ok(rec) => Ok(rec),
                    Err(e) => Err(EndpointManagerError::SerdeError(e.0)),
                }
            },
            ReplyOutcome::TimedOut => Err(
                EndpointManagerError::EndpointNotAvailable(self.name.clone()),
            ),
            ReplyOutcome::TransportError(s) => Err(EndpointManagerError::ZenohError(s)),
        }
    }
}

/// Replies favor correctness over throughput: a fixed high-priority,
/// express, non-dropping profile, distinct from the configurable publish
/// QoS.
pub fn reply_qos() -> (r: ZenohQuerierConfig)
    ensures
        r.priority == Priority::RealTime,
        r.express,
        r.congestion_control == CongestionControl::Block,
{
    ZenohQuerierConfig {
        congestion_control: CongestionControl::Block,
        priority: Priority::RealTime,
        express: true,
    }
}

/// Typed provider wrapper: the canonized key it serves and announces
/// liveliness on.
pub struct TypedProvider {
    pub name: String,
    pub key: String,
    pub handler: HandlerChannel,
}

impl TypedProvider {
    /// Serves one inbound query: decode, apply the handler, encode its
    /// answer. A query that does not decode, or an answer too large to
    /// encode, yields nothing — the serving loop reports it and goes on, so
    /// one bad query never stops the provider.
    pub fn serve_query<F: Fn(Record) -> Record>(&self, query: &Vec<u8>, callback: &F) -> (r:
        Option<Vec<u8>>)
        requires
            forall|rec: Record| #[trigger] call_requires(*callback, (rec,)),
        ensures
            match r {
                Some(reply) => exists|req: Record, res: Record|
                    {
                        &&& proto_record_parse(query@) == Some(
                            (req.id, encode_utf8(req.name@)),
                        )
                        &&& #[trigger] call_ensures(*callback, (req,), res)
                        &&& reply@ == proto_encoding(res.id, encode_utf8(res.name@))
                    },
                None => (match proto_record_parse(query@) {
                    Some((id, name)) => !valid_utf8(name),
                    None => true,
                }) || exists|req: Record, res: Record|
                    {
                        &&& proto_record_parse(query@) == Some(
                            (req.id, encode_utf8(req.name@)),
                        )
                        &&& #[trigger] call_ensures(*callback, (req,), res)
                        &&& encode_utf8(res.name@).len() > u32::MAX
                    },
            },
    {
        let codec = ProtobufEncoder::new();
        let request = match codec.decode(query.as_slice()) {
            Ok(req) => req,
            Err(_) => {
                return None;
            },
        };
        let response = callback(request);
        let bytes = response.name.as_str().as_bytes();
        if bytes.len() > 0xFFFF_FFFFusize {
            return None;
        }
        match codec.encode(&response) {
            Ok(reply) => Some(reply),
            Err(_) => None,
        }
    }
}

} // verus!
