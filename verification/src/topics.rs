use vstd::prelude::*;

verus! {

use crate::channels::{fifo_arrival, ring_arrival, FifoBuffer, RingBuffer};
use crate::encodings::protobuf::{proto_encoding, proto_record_parse, ProtobufEncoder};
use crate::encodings::EncodeError;
use crate::index::NameIndex;
use crate::interfaces::zenoh::{
    key_expr_valid,
    valid_key_expr,
    CongestionControl,
    HandlerChannel,
    Priority,
    Reliability,
};
use crate::message::Record;
use vstd::string::StringExecFns;
use vstd::utf8::{encode_utf8, valid_utf8};

/// Failures of the topic registry; transport-level causes are carried as
/// text.
#[derive(Debug)]
pub enum TopicManagerError {
    EnvVarError(String),
    ZenohError(String),
    SerdeError(String),
    UnknownTopicType(String),
}

/// One topic declaration from configuration: a publish or a subscribe role,
/// each with its optional per-endpoint overrides.
#[derive(Debug)]
pub enum TopicDecl {
    Pub {
        topic_name: String,
        topic_key: String,
        message_type: String,
        congestion_control: Option<CongestionControl>,
        priority: Option<Priority>,
        express: Option<bool>,
        reliability: Option<Reliability>,
    },
    Sub {
        topic_name: String,
        topic_key: String,
        message_type: String,
        handler: Option<HandlerChannel>,
    },
}

/// A live publish handle: the routing key with its resolved send settings.
#[derive(Debug)]
pub struct PublisherHandle {
    pub key: String,
    pub message_type: String,
    pub priority: Priority,
    pub express: bool,
    pub reliability: Reliability,
    pub congestion_control: CongestionControl,
}

/// A live subscribe handle: the routing key with its resolved delivery
/// channel policy.
#[derive(Debug)]
pub struct SubscriberHandle {
    pub key: String,
    pub message_type: String,
    pub handler: HandlerChannel,
}

/// What a routing key resolves to.
#[derive(Debug)]
pub enum TopicType {
    Publisher(PublisherHandle),
    Subscriber(SubscriberHandle),
}

pub open spec fn decl_name(d: TopicDecl) -> Seq<char> {
    match d {
        TopicDecl::Pub { topic_name, .. } => topic_name@,
        TopicDecl::Sub { topic_name, .. } => topic_name@,
    }
}

pub open spec fn decl_key(d: TopicDecl) -> Seq<char> {
    match d {
        TopicDecl::Pub { topic_key, .. } => topic_key@,
        TopicDecl::Sub { topic_key, .. } => topic_key@,
    }
}

/// The handle a declaration resolves to, with absent settings replaced by the
/// documented defaults: data priority, express sends, reliable delivery,
/// drop on congestion, and an ordered channel of capacity 100.
pub open spec fn decl_handle(d: TopicDecl) -> TopicType {
    match d {
        TopicDecl::Pub {
            topic_key,
            message_type,
            congestion_control,
            priority,
            express,
            reliability,
            ..
        } => TopicType::Publisher(
            PublisherHandle {
                key: topic_key,
                message_type,
                priority: match priority {
                    Some(p) => p,
                    None => Priority::Data,
                },
                express: match express {
                    Some(e) => e,
                    None => true,
                },
                reliability: match reliability {
                    Some(rl) => rl,
                    None => Reliability::Reliable,
                },
                congestion_control: match congestion_control {
                    Some(c) => c,
                    None => CongestionControl::Drop,
                },
            },
        ),
        TopicDecl::Sub { topic_key, message_type, handler, .. } => TopicType::Subscriber(
            SubscriberHandle {
                key: topic_key,
                message_type,
                handler: match handler {
                    Some(h) => h,
                    None => HandlerChannel::Fifo { capacity: 100 },
                },
            },
        ),
    }
}

/// The last declaration whose routing key is `key`; a later declaration
/// shadows an earlier one under the same key.
pub open spec fn find_decl_by_key(decls: Seq<TopicDecl>, key: Seq<char>) -> Option<TopicDecl>
    decreases decls.len(),
{
    if decls.len() == 0 {
        None
    } else if decl_key(decls.last()) == key {
        Some(decls.last())
    } else {
        find_decl_by_key(decls.drop_last(), key)
    }
}

/// The last declaration whose logical name is `name`.
pub open spec fn find_decl_by_name(decls: Seq<TopicDecl>, name: Seq<char>) -> Option<TopicDecl>
    decreases decls.len(),
{
    if decls.len() == 0 {
        None
    } else if decl_name(decls.last()) == name {
        Some(decls.last())
    } else {
        find_decl_by_name(decls.drop_last(), name)
    }
}

pub open spec fn handle_for_key(decls: Seq<TopicDecl>, key: Seq<char>) -> Option<TopicType> {
    match find_decl_by_key(decls, key) {
        Some(d) => Some(decl_handle(d)),
        None => None,
    }
}

pub open spec fn key_for_name(decls: Seq<TopicDecl>, name: Seq<char>) -> Option<Seq<char>> {
    match find_decl_by_name(decls, name) {
        Some(d) => Some(decl_key(d)),
        None => None,
    }
}

/// Every declared routing key is one the transport accepts.
pub open spec fn all_keys_valid(decls: Seq<TopicDecl>) -> bool
    decreases decls.len(),
{
    if decls.len() == 0 {
        true
    } else {
        valid_key_expr(decl_key(decls[0])) && all_keys_valid(decls.drop_first())
    }
}

proof fn lemma_all_keys_valid_take(decls: Seq<TopicDecl>, i: int)
    requires
        0 <= i < decls.len(),
        all_keys_valid(decls.take(i)),
        !valid_key_expr(decl_key(decls[i])),
    ensures
        !all_keys_valid(decls),
    decreases i,
{
    if i == 0 {
        assert(decls.take(1)[0] == decls[0]);
    } else {
        assert(decls.take(i).drop_first() =~= decls.drop_first().take(i - 1));
        assert(decls.take(i)[0] == decls[0]);
        if valid_key_expr(decl_key(decls[0])) {
            lemma_all_keys_valid_take(decls.drop_first(), i - 1);
        }
    }
}

proof fn lemma_all_keys_valid_whole(decls: Seq<TopicDecl>, i: int)
    requires
        0 <= i <= decls.len(),
        i == decls.len(),
        all_keys_valid(decls.take(i)),
    ensures
        all_keys_valid(decls),
{
    assert(decls.take(i) =~= decls);
}

/// The topic registry: the routing-key index of live handles and the logical
/// name index, both built once at initialization and read thereafter.
pub struct TopicManager {
    topics: NameIndex<TopicType>,
    topic_names: NameIndex<String>,
}

impl TopicManager {
    pub closed spec fn spec_topic(&self, key: Seq<char>) -> Option<TopicType> {
        self.topics.spec_get(key)
    }

    pub closed spec fn spec_name_key(&self, name: Seq<char>) -> Option<String> {
        self.topic_names.spec_get(name)
    }

    pub closed spec fn wf(&self) -> bool {
        self.topics.wf() && self.topic_names.wf()
    }

    /// Builds the registry from the declaration list. Every declaration is
    /// resolved (later ones shadow earlier ones with the same key or name);
    /// the result is fatal exactly when some declared key is not a key the
    /// transport accepts.
    pub fn initialize(decls: &Vec<TopicDecl>) -> (r: Result<TopicManager, TopicManagerError>)
        ensures
            match r {
                Ok(m) => {
                    &&& m.wf()
                    &&& all_keys_valid(decls@)
                    &&& forall|k: Seq<char>| m.spec_topic(k) == handle_for_key(decls@, k)
                    &&& forall|nm: Seq<char>|
                        match #[trigger] m.spec_name_key(nm) {
                            Some(key) => key_for_name(decls@, nm) == Some(key@),
                            None => key_for_name(decls@, nm) is None,
                        }
                },
                Err(e) => !all_keys_valid(decls@) && e is ZenohError,
            },
    {
        let mut topics: NameIndex<TopicType> = NameIndex::new();
        let mut topic_names: NameIndex<String> = NameIndex::new();
        let n: usize = decls.len();
        let mut i: usize = 0;
        proof {
            assert(decls@.take(0) =~= Seq::<TopicDecl>::empty());
        }
        while i < n
            invariant
                n == decls@.len(),
                0 <= i <= n,
                topics.wf(),
                topic_names.wf(),
                all_keys_valid(decls@.take(i as int)),
                forall|k: Seq<char>| topics.spec_get(k) == handle_for_key(
                    decls@.take(i as int),
                    k,
                ),
                forall|nm: Seq<char>|
                    match #[trigger] topic_names.spec_get(nm) {
                        Some(key) => key_for_name(decls@.take(i as int), nm) == Some(key@),
                        None => key_for_name(decls@.take(i as int), nm) is None,
                    },
            decreases n - i,
        {
            let ghost prefix = decls@.take(i as int);
            let ghost next_prefix = decls@.take(i as int + 1);
            proof {
                assert(next_prefix.drop_last() =~= prefix);
                assert(next_prefix.last() == decls@[i as int]);
            }
            let (name, key, handle) = match &decls[i] {
                TopicDecl::Pub {
                    topic_name,
                    topic_key,
                    message_type,
                    congestion_control,
                    priority,
                    express,
                    reliability,
                } => {
                    let handle = TopicType::Publisher(
                        PublisherHandle {
                            key: topic_key.clone(),
                            message_type: message_type.clone(),
                            priority: match priority {
                                Some(p) => *p,
                                None => Priority::Data,
                            },
                            express: match express {
                                Some(e) => *e,
                                None => true,
                            },
                            reliability: match reliability {
                                Some(rl) => *rl,
                                None => Reliability::Reliable,
                            },
                            congestion_control: match congestion_control {
                                Some(c) => *c,
                                None => CongestionControl::Drop,
                            },
                        },
                    );
                    (topic_name.clone(), topic_key.clone(), handle)
                },
                TopicDecl::Sub { topic_name, topic_key, message_type, handler } => {
                    let handle = TopicType::Subscriber(
                        SubscriberHandle {
                            key: topic_key.clone(),
                            message_type: message_type.clone(),
                            handler: match handler {
                                Some(h) => *h,
                                None => HandlerChannel::Fifo { capacity: 100 },
                            },
                        },
                    );
                    (topic_name.clone(), topic_key.clone(), handle)
                },
            };
            proof {
                assert(handle == decl_handle(decls@[i as int]));
                assert(name@ == decl_name(decls@[i as int]));
                assert(key@ == decl_key(decls@[i as int]));
            }
            if !key_expr_valid(key.as_str()) {
                proof {
                    lemma_all_keys_valid_take(decls@, i as int);
                }
                return Err(TopicManagerError::ZenohError(key));
            }
            topics.insert(key.clone(), handle);
            topic_names.insert(name, key);
            proof {
                assert(all_keys_valid(next_prefix)) by {
                    lemma_all_keys_valid_step(decls@, i as int);
                }
                assert forall|k: Seq<char>| topics.spec_get(k) == handle_for_key(
                    next_prefix,
                    k,
                ) by {}
            }
            i = i + 1;
        }
        proof {
            lemma_all_keys_valid_whole(decls@, n as int);
            assert(decls@.take(n as int) =~= decls@);
        }
        Ok(TopicManager { topics, topic_names })
    }

    /// The routing key recorded for a logical topic name.
    pub fn resolve_topic_name(&self, name: &str) -> (r: Option<String>)
        ensures
            r == self.spec_name_key(name@),
    {
        match self.topic_names.get(name) {
            Some(key) => Some(key.clone()),
            None => None,
        }
    }

    /// The typed publish wrapper for a routing key: present exactly when the
    /// key resolved to a publish handle, carrying that handle's settings.
    pub fn get_publisher(&self, key: &str) -> (r: Option<TypedPublisher>)
        ensures
            match r {
                Some(p) => match self.spec_topic(key@) {
                    Some(TopicType::Publisher(h)) => p.key@ == h.key@ && p.message_type@
                        == h.message_type@ && p.priority == h.priority && p.express == h.express
                        && p.reliability == h.reliability && p.congestion_control
                        == h.congestion_control,
                    _ => false,
                },
                None => !(self.spec_topic(key@) matches Some(TopicType::Publisher(_))),
            },
    {
        match self.topics.get(key) {
            Some(TopicType::Publisher(h)) => Some(
                TypedPublisher {
                    key: h.key.clone(),
                    message_type: h.message_type.clone(),
                    priority: h.priority,
                    express: h.express,
                    reliability: h.reliability,
                    congestion_control: h.congestion_control,
                },
            ),
            _ => None,
        }
    }

    /// The typed subscribe wrapper for a routing key: present exactly when
    /// the key resolved to a subscribe handle; its delivery channel starts
    /// empty with the declared policy.
    pub fn get_subscriber(&self, key: &str) -> (r: Option<TypedSubscriber>)
        ensures
            match r {
                Some(s) => match self.spec_topic(key@) {
                    Some(TopicType::Subscriber(h)) => s.wf() && s.spec_key() == h.key@
                        && s.spec_message_type() == h.message_type@ && s.spec_policy() == h.handler
                        && s.spec_is_ring() == (h.handler is Ring) && s.spec_channel_capacity() == (
                        match h.handler {
                            HandlerChannel::Fifo { capacity } => capacity as nat,
                            HandlerChannel::Ring { capacity } => capacity as nat,
                        }) && s.queue() == Seq::<Vec<u8>>::empty(),
                    _ => false,
                },
                None => !(self.spec_topic(key@) matches Some(TopicType::Subscriber(_))),
            },
    {
        match self.topics.get(key) {
            Some(TopicType::Subscriber(h)) => {
                let channel = match h.handler {
                    HandlerChannel::Fifo { capacity } => SubscriberChannel::Fifo(
                        FifoBuffer::new(capacity as usize),
                    ),
                    HandlerChannel::Ring { capacity } => SubscriberChannel::Ring(
                        RingBuffer::new(capacity as usize),
                    ),
                };
                Some(
                    TypedSubscriber {
                        key: h.key.clone(),
                        message_type: h.message_type.clone(),
                        handler: h.handler,
                        channel,
                    },
                )
            },
            _ => None,
        }
    }
}

/// The routing key recorded for a logical topic name.
pub fn resolve_topic_name(manager: &TopicManager, name: &str) -> (r: Option<String>)
    ensures
        r == manager.spec_name_key(name@),
{
    manager.resolve_topic_name(name)
}

/// The typed publish wrapper for a routing key.
pub fn get_publisher(manager: &TopicManager, key: &str) -> (r: Option<TypedPublisher>)
    ensures
        r is Some <==> (manager.spec_topic(key@) matches Some(TopicType::Publisher(_))),
{
    manager.get_publisher(key)
}

/// The typed subscribe wrapper for a routing key.
pub fn get_subscriber(manager: &TopicManager, key: &str) -> (r: Option<TypedSubscriber>)
    ensures
        r is Some <==> (manager.spec_topic(key@) matches Some(TopicType::Subscriber(_))),
{
    manager.get_subscriber(key)
}

proof fn lemma_all_keys_valid_step(decls: Seq<TopicDecl>, i: int)
    requires
        0 <= i < decls.len(),
        all_keys_valid(decls.take(i)),
        valid_key_expr(decl_key(decls[i])),
    ensures
        all_keys_valid(decls.take(i + 1)),
    decreases i,
{
    if i == 0 {
        assert(decls.take(1)[0] == decls[0]);
        assert(decls.take(1).drop_first() =~= Seq::<TopicDecl>::empty());
        assert(all_keys_valid(Seq::<TopicDecl>::empty()));
    } else {
        assert(decls.take(i)[0] == decls[0]);
        assert(decls.take(i).drop_first() =~= decls.drop_first().take(i - 1));
        assert(decls.take(i + 1).drop_first() =~= decls.drop_first().take(i));
        assert(decls.drop_first()[i - 1] == decls[i]);
        lemma_all_keys_valid_step(decls.drop_first(), i - 1);
        assert(decls.take(i + 1)[0] == decls[0]);
    }
}

// ---------------------------------------------------------------------------
// Typed wrappers. The publisher turns records into wire payloads for its key;
// the subscriber owns the bounded delivery channel that arriving payloads
// enter and decodes them on the way out.
// ---------------------------------------------------------------------------

/// Delivery metadata observed alongside a message.
#[derive(Debug)]
pub struct Metadata {
    pub topic_name: String,
    pub message_type_decoded: String,
    pub bytes_transmitted: usize,
}

pub struct MessageWithMetadata<T> {
    pub message: T,
    pub metadata: Metadata,
}

/// Typed publish wrapper: a thin handle carrying the key and resolved QoS;
/// it encodes records into the wire payloads the transport sends.
pub struct TypedPublisher {
    pub key: String,
    pub message_type: String,
    pub priority: Priority,
    pub express: bool,
    pub reliability: Reliability,
    pub congestion_control: CongestionControl,
}

impl TypedPublisher {
    /// The wire payload publishing `message` sends: its binary encoding.
    /// Fire-and-forget; nothing is awaited beyond the send itself.
    pub fn encode_payload(&self, message: &Record) -> (r: Result<Vec<u8>, EncodeError>)
        ensures
            match r {
                Ok(out) => out@ == proto_encoding(message.id, encode_utf8(message.name@)),
                Err(_) => encode_utf8(message.name@).len() > u32::MAX,
            },
    {
        let bytes = message.name.as_str().as_bytes();
        if bytes.len() > 0xFFFF_FFFFusize {
            return Err(EncodeError(String::from_str("payload name too long")));
        }
        let codec = ProtobufEncoder::new();
        codec.encode(message)
    }
}

/// The delivery channel of one subscription, shaped by its declared policy.
pub enum SubscriberChannel {
    Fifo(FifoBuffer<Vec<u8>>),
    Ring(RingBuffer<Vec<u8>>),
}

/// Why a pull on a subscription returned nothing.
#[derive(Debug)]
pub enum ReceiveError {
    Empty,
    Decode(EncodeError),
}

/// Typed subscribe wrapper: the key, the declared policy, and the bounded
/// channel that arriving payloads enter.
pub struct TypedSubscriber {
    pub key: String,
    pub message_type: String,
    pub handler: HandlerChannel,
    channel: SubscriberChannel,
}

impl TypedSubscriber {
    /// The payloads retained and not yet delivered, oldest first.
    pub closed spec fn queue(&self) -> Seq<Vec<u8>> {
        match self.channel {
            SubscriberChannel::Fifo(b) => b@,
            SubscriberChannel::Ring(b) => b@,
        }
    }

    pub closed spec fn spec_channel_capacity(&self) -> nat {
        match self.channel {
            SubscriberChannel::Fifo(b) => b.spec_capacity(),
            SubscriberChannel::Ring(b) => b.spec_capacity(),
        }
    }

    pub closed spec fn spec_is_ring(&self) -> bool {
        self.channel is Ring
    }

    pub closed spec fn spec_key(&self) -> Seq<char> {
        self.key@
    }

    pub closed spec fn spec_message_type(&self) -> Seq<char> {
        self.message_type@
    }

    pub closed spec fn spec_policy(&self) -> HandlerChannel {
        self.handler
    }

    pub closed spec fn channel_wf(&self) -> bool {
        match self.channel {
            SubscriberChannel::Fifo(b) => b.wf() && self.handler == (HandlerChannel::Fifo {
                capacity: b.spec_capacity() as u32,
            }) && b.spec_capacity() <= u32::MAX,
            SubscriberChannel::Ring(b) => b.wf() && self.handler == (HandlerChannel::Ring {
                capacity: b.spec_capacity() as u32,
            }) && b.spec_capacity() <= u32::MAX,
        }
    }

    pub open spec fn wf(&self) -> bool {
        self.channel_wf()
    }

    /// How many payloads are retained and not yet delivered.
    pub fn pending_len(&self) -> (r: usize)
        ensures
            r == self.queue().len(),
    {
        match &self.channel {
            SubscriberChannel::Fifo(b) => b.len(),
            SubscriberChannel::Ring(b) => b.len(),
        }
    }

    /// One payload arriving from the transport enters the delivery channel
    /// under the declared policy: an ordered channel drops it when full, a
    /// ring displaces its oldest retained payload.
    pub fn deliver(&mut self, payload: Vec<u8>)
        requires
            old(self).wf(),
        ensures
            final(self).wf(),
            final(self).spec_key() == old(self).spec_key(),
            final(self).spec_message_type() == old(self).spec_message_type(),
            final(self).spec_policy() == old(self).spec_policy(),
            final(self).spec_is_ring() == old(self).spec_is_ring(),
            final(self).spec_channel_capacity() == old(self).spec_channel_capacity(),
            final(self).queue() == if old(self).spec_is_ring() {
                ring_arrival(old(self).queue(), payload, old(self).spec_channel_capacity())
            } else {
                fifo_arrival(old(self).queue(), payload, old(self).spec_channel_capacity())
            },
    {
        match &mut self.channel {
            SubscriberChannel::Fifo(b) => {
                b.push(payload);
            },
            SubscriberChannel::Ring(b) => {
                b.push(payload);
            },
        }
    }

    /// Pulls the oldest retained payload and decodes it. A malformed payload
    /// is reported and discarded: the channel advances either way, so the
    /// subscription survives the failure and the next pull sees the next
    /// payload.
    pub fn receive(&mut self) -> (r: Result<Record, ReceiveError>)
        requires
            old(self).wf(),
        ensures
            final(self).wf(),
            final(self).spec_key() == old(self).spec_key(),
            final(self).spec_message_type() == old(self).spec_message_type(),
            final(self).spec_policy() == old(self).spec_policy(),
            final(self).spec_is_ring() == old(self).spec_is_ring(),
            final(self).spec_channel_capacity() == old(self).spec_channel_capacity(),
            match r {
                Ok(rec) => {
                    &&& old(self).queue().len() > 0
                    &&& final(self).queue() == old(self).queue().drop_first()
                    &&& proto_record_parse(old(self).queue()[0]@) == Some(
                        (rec.id, encode_utf8(rec.name@)),
                    )
                },
                Err(ReceiveError::Empty) => old(self).queue().len() == 0 && final(self).queue()
                    == old(self).queue(),
                Err(ReceiveError::Decode(_)) => {
                    &&& old(self).queue().len() > 0
                    &&& final(self).queue() == old(self).queue().drop_first()
                    &&& match proto_record_parse(old(self).queue()[0]@) {
                        Some((id, name)) => !valid_utf8(name),
                        None => true,
                    }
                },
            },
    {
        let popped = match &mut self.channel {
            SubscriberChannel::Fifo(b) => b.pop(),
            SubscriberChannel::Ring(b) => b.pop(),
        };
        let payload = match popped {
            Some(p) => p,
            None => {
                return Err(ReceiveError::Empty);
            },
        };
        let codec = ProtobufEncoder::new();
        match codec.decode(payload.as_slice()) {
            Ok(rec) => Ok(rec),
            Err(e) => Err(ReceiveError::Decode(e)),
        }
    }

    /// Like [`Self::receive`], with the envelope attached: the routing key,
    /// the declared message type, and the payload's byte length.
    pub fn receive_with_metadata(&mut self) -> (r: Result<MessageWithMetadata<Record>, ReceiveError>)
        requires
            old(self).wf(),
        ensures
            final(self).wf(),
            final(self).spec_key() == old(self).spec_key(),
            final(self).spec_message_type() == old(self).spec_message_type(),
            final(self).spec_policy() == old(self).spec_policy(),
            final(self).spec_is_ring() == old(self).spec_is_ring(),
            final(self).spec_channel_capacity() == old(self).spec_channel_capacity(),
            match r {
                Ok(m) => {
                    &&& old(self).queue().len() > 0
                    &&& final(self).queue() == old(self).queue().drop_first()
                    &&& proto_record_parse(old(self).queue()[0]@) == Some(
                        (m.message.id, encode_utf8(m.message.name@)),
                    )
                    &&& m.metadata.topic_name@ == old(self).spec_key()
                    &&& m.metadata.message_type_decoded@ == old(self).spec_message_type()
                    &&& m.metadata.bytes_transmitted == old(self).queue()[0]@.len()
                },
                Err(ReceiveError::Empty) => old(self).queue().len() == 0 && final(self).queue()
                    == old(self).queue(),
                Err(ReceiveError::Decode(_)) => {
                    &&& old(self).queue().len() > 0
                    &&& final(self).queue() == old(self).queue().drop_first()
                    &&& match proto_record_parse(old(self).queue()[0]@) {
                        Some((id, name)) => !valid_utf8(name),
                        None => true,
                    }
                },
            },
    {
        let popped = match &mut self.channel {
            SubscriberChannel::Fifo(b) => b.pop(),
            SubscriberChannel::Ring(b) => b.pop(),
        };
        let payload = match popped {
            Some(p) => p,
            None => {
                return Err(ReceiveError::Empty);
            },
        };
        let bytes_transmitted = payload.len();
        let codec = ProtobufEncoder::new();
        match codec.decode(payload.as_slice()) {
            Ok(message) => Ok(
                MessageWithMetadata {
                    message,
                    metadata: Metadata {
                        topic_name: self.key.clone(),
                        message_type_decoded: self.message_type.clone(),
                        bytes_transmitted,
                    },
                },
            ),
            Err(e) => Err(ReceiveError::Decode(e)),
        }
    }

    /// Drains the retained payloads through `callback`, one call per payload
    /// that decodes; malformed payloads are counted and skipped, never ending
    /// the subscription. Returns exactly how many payloads were malformed.
    pub fn subscribe_drain<F: FnMut(Record)>(&mut self, callback: &mut F) -> (failures: usize)
        requires
            old(self).wf(),
            forall|rec: Record| #[trigger] call_requires(*old(callback), (rec,)),
        ensures
            final(self).wf(),
            final(self).spec_key() == old(self).spec_key(),
            final(self).spec_message_type() == old(self).spec_message_type(),
            final(self).spec_policy() == old(self).spec_policy(),
            final(self).spec_is_ring() == old(self).spec_is_ring(),
            final(self).spec_channel_capacity() == old(self).spec_channel_capacity(),
            final(self).queue().len() == 0,
            failures == failure_count(old(self).queue()),
    {
        let mut failures: usize = 0;
        let initial_len: usize = self.pending_len();
        loop
            invariant
                self.wf(),
                self.spec_key() == old(self).spec_key(),
                self.spec_message_type() == old(self).spec_message_type(),
                self.spec_policy() == old(self).spec_policy(),
                self.spec_is_ring() == old(self).spec_is_ring(),
                self.spec_channel_capacity() == old(self).spec_channel_capacity(),
                initial_len == old(self).queue().len(),
                failures + self.queue().len() <= initial_len,
                failures + failure_count(self.queue()) == failure_count(old(self).queue()),
                forall|rec: Record| #[trigger] call_requires(*callback, (rec,)),
            decreases self.queue().len(),
        {
            let ghost pre = self.queue();
            let next = self.receive();
            match next {
                Ok(rec) => {
                    proof {
                        vstd::utf8::encode_utf8_valid_utf8(rec.name@);
                        assert(payload_decodes(pre[0]));
                        assert(failure_count(pre) == failure_count(pre.drop_first()));
                    }
                    callback(rec);
                },
                Err(ReceiveError::Decode(_)) => {
                    proof {
                        assert(!payload_decodes(pre[0]));
                        assert(failure_count(pre) == 1 + failure_count(pre.drop_first()));
                    }
                    failures = failures + 1;
                },
                Err(ReceiveError::Empty) => {
                    proof {
                        assert(failure_count(pre) == 0);
                    }
                    return failures;
                },
            }
        }
    }
}

/// A payload the subscription can hand to its caller: it parses as a record
/// whose name bytes are text.
pub open spec fn payload_decodes(p: Vec<u8>) -> bool {
    match proto_record_parse(p@) {
        Some((id, name)) => valid_utf8(name),
        None => false,
    }
}

/// How many of the retained payloads the subscription cannot hand out.
pub open spec fn failure_count(queue: Seq<Vec<u8>>) -> nat
    decreases queue.len(),
{
    if queue.len() == 0 {
        0
    } else {
        (if payload_decodes(queue[0]) {
            0nat
        } else {
            1nat
        }) + failure_count(queue.drop_first())
    }
}

// ---------------------------------------------------------------------------
// Law: a registry built from valid declarations answers every declared name,
// with the declared role, and answers nothing for undeclared names.
// ---------------------------------------------------------------------------

/// Law: one malformed payload does not end a subscription. Pulling it
/// advances the channel past it (the pull contract discards it either way),
/// so a valid payload queued behind it is exactly the next one delivered.
pub proof fn lemma_decode_failure_is_isolated(queue: Seq<Vec<u8>>, id: u32, name: Seq<u8>)
    requires
        queue.len() >= 2,
        proto_record_parse(queue[0]@) is None,
        queue[1]@ == proto_encoding(id, name),
        name.len() <= u32::MAX,
    ensures
        proto_record_parse(queue.drop_first()[0]@) == Some((id, name)),
{
    crate::encodings::protobuf::lemma_proto_round_trip(id, name);
}

/// Law: lookups answer declared names. After initialization, resolving a
/// declared logical name yields exactly the key of the name's last
/// declaration, and an undeclared name yields nothing. When no later
/// declaration reuses that key, the key in turn resolves to that
/// declaration's handle with its resolved settings, so the role matches the
/// declaration. A later declaration reusing the key keeps one handle per
/// key and shadows the earlier role — the one excluded case.
pub proof fn lemma_lookup_by_declared_name(decls: Seq<TopicDecl>, m: TopicManager, name: Seq<char>)
    requires
        forall|k: Seq<char>| m.spec_topic(k) == handle_for_key(decls, k),
        forall|nm: Seq<char>|
            match #[trigger] m.spec_name_key(nm) {
                Some(key) => key_for_name(decls, nm) == Some(key@),
                None => key_for_name(decls, nm) is None,
            },
    ensures
        (m.spec_name_key(name) is Some) <==> (find_decl_by_name(decls, name) is Some),
        (match find_decl_by_name(decls, name) {
            Some(d) => {
                &&& (match m.spec_name_key(name) {
                    Some(key) => key@ == decl_key(d),
                    None => false,
                })
                &&& (find_decl_by_key(decls, decl_key(d)) == Some(d) ==> m.spec_topic(decl_key(d))
                    == Some(decl_handle(d)))
            },
            None => m.spec_name_key(name) is None,
        }),
{
    assert(m.spec_name_key(name) is Some ==> key_for_name(decls, name) is Some);
}

/// Law: after initialization succeeds, looking a declared routing key up
/// yields a handle of exactly the declared role with the declared, resolved
/// settings; an undeclared key yields nothing.
pub proof fn lemma_registry_answers_declared(
    decls: Seq<TopicDecl>,
    m: TopicManager,
    key: Seq<char>,
)
    requires
        forall|k: Seq<char>| m.spec_topic(k) == handle_for_key(decls, k),
    ensures
        (m.spec_topic(key) is Some) <==> (find_decl_by_key(decls, key) is Some),
        (match find_decl_by_key(decls, key) {
            Some(d) => m.spec_topic(key) == Some(decl_handle(d)),
            None => m.spec_topic(key) is None,
        }),
{
}

} // verus!
