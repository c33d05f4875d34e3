use vstd::prelude::*;

verus! {

use crate::config::ConfigValue;
use crate::index::NameIndex;
use crate::models::{
    ApplicationEnvConfig,
    BoundRequester,
    BoundSubscriber,
    InterfaceConfig,
    ProviderEndpointConfig,
    PublisherTopicConfig,
};
use vstd::string::{StrSliceExecFns, StringExecFns};

// ---------------------------------------------------------------------------
// Quality-of-service model: closed enumerations with the documented defaults,
// each carried by a handle and mapped to the transport's native vocabulary at
// the transport boundary.
// ---------------------------------------------------------------------------

/// Send priority, seven ordered levels; the middle data level is the default.
#[derive(Clone, Copy, Debug, PartialEq, Eq, Structural, Hash)]
pub enum Priority {
    RealTime,
    InteractiveHigh,
    InteractiveLow,
    DataHigh,
    Data,
    DataLow,
    Background,
}

impl Default for Priority {
    fn default() -> (r: Priority)
        ensures
            r == Priority::Data,
    {
        Priority::Data
    }
}

/// Delivery reliability; reliable is the default.
#[derive(Clone, Copy, Debug, PartialEq, Eq, Structural, Hash)]
pub enum Reliability {
    BestEffort,
    Reliable,
}

impl Default for Reliability {
    fn default() -> (r: Reliability)
        ensures
            r == Reliability::Reliable,
    {
        Reliability::Reliable
    }
}

/// What a congested send does; topic data defaults to dropping.
#[derive(Clone, Copy, Debug, PartialEq, Eq, Structural, Hash)]
pub enum CongestionControl {
    Drop,
    Block,
}

impl Default for CongestionControl {
    fn default() -> (r: CongestionControl)
        ensures
            r == CongestionControl::Drop,
    {
        CongestionControl::Drop
    }
}

/// Bounded delivery-channel policy: ordered with newest-dropped, or a ring
/// that overwrites the oldest entry.
#[derive(Clone, Copy, Debug, PartialEq, Eq, Structural, Hash)]
pub enum HandlerChannel {
    Fifo { capacity: u32 },
    Ring { capacity: u32 },
}

#[derive(Clone, Copy, Debug, PartialEq, Eq, Structural, Hash)]
pub struct ZenohSubscriberConfig {
    pub handler: HandlerChannel,
}

#[derive(Clone, Copy, Debug, PartialEq, Eq, Structural, Hash)]
pub struct ZenohPublisherConfig {
    pub congestion_control: CongestionControl,
    pub priority: Priority,
    pub express: bool,
    pub reliability: Reliability,
}

#[derive(Clone, Copy, Debug, PartialEq, Eq, Structural, Hash)]
pub struct ZenohQuerierConfig {
    pub congestion_control: CongestionControl,
    pub priority: Priority,
    pub express: bool,
}

#[derive(Clone, Copy, Debug, PartialEq, Eq, Structural, Hash)]
pub struct ZenohQueryableConfig {
    pub handler: HandlerChannel,
}

// ---------------------------------------------------------------------------
// Decoding the weakly-typed per-endpoint settings into the typed model. The
// names follow the configuration schema's upper-case spelling.
// ---------------------------------------------------------------------------

pub open spec fn priority_of_name(s: Seq<char>) -> Option<Priority> {
    if s == "REAL_TIME"@ {
        Some(Priority::RealTime)
    } else if s == "INTERACTIVE_HIGH"@ {
        Some(Priority::InteractiveHigh)
    } else if s == "INTERACTIVE_LOW"@ {
        Some(Priority::InteractiveLow)
    } else if s == "DATA_HIGH"@ {
        Some(Priority::DataHigh)
    } else if s == "DATA"@ {
        Some(Priority::Data)
    } else if s == "DATA_LOW"@ {
        Some(Priority::DataLow)
    } else if s == "BACKGROUND"@ {
        Some(Priority::Background)
    } else {
        None
    }
}

pub open spec fn reliability_of_name(s: Seq<char>) -> Option<Reliability> {
    if s == "BEST_EFFORT"@ {
        Some(Reliability::BestEffort)
    } else if s == "RELIABLE"@ {
        Some(Reliability::Reliable)
    } else {
        None
    }
}

pub open spec fn congestion_of_name(s: Seq<char>) -> Option<CongestionControl> {
    if s == "DROP"@ {
        Some(CongestionControl::Drop)
    } else if s == "BLOCK"@ {
        Some(CongestionControl::Block)
    } else {
        None
    }
}

pub fn parse_priority(s: &String) -> (r: Option<Priority>)
    ensures
        r == priority_of_name(s@),
{
    proof {
        reveal_strlit("REAL_TIME");
        reveal_strlit("INTERACTIVE_HIGH");
        reveal_strlit("INTERACTIVE_LOW");
        reveal_strlit("DATA_HIGH");
        reveal_strlit("DATA");
        reveal_strlit("DATA_LOW");
        reveal_strlit("BACKGROUND");
    }
    if *s == String::from_str("REAL_TIME") {
        Some(Priority::RealTime)
    } else if *s == String::from_str("INTERACTIVE_HIGH") {
        Some(Priority::InteractiveHigh)
    } else if *s == String::from_str("INTERACTIVE_LOW") {
        Some(Priority::InteractiveLow)
    } else if *s == String::from_str("DATA_HIGH") {
        Some(Priority::DataHigh)
    } else if *s == String::from_str("DATA") {
        Some(Priority::Data)
    } else if *s == String::from_str("DATA_LOW") {
        Some(Priority::DataLow)
    } else if *s == String::from_str("BACKGROUND") {
        Some(Priority::Background)
    } else {
        None
    }
}

pub fn parse_reliability(s: &String) -> (r: Option<Reliability>)
    ensures
        r == reliability_of_name(s@),
{
    proof {
        reveal_strlit("BEST_EFFORT");
        reveal_strlit("RELIABLE");
    }
    if *s == String::from_str("BEST_EFFORT") {
        Some(Reliability::BestEffort)
    } else if *s == String::from_str("RELIABLE") {
        Some(Reliability::Reliable)
    } else {
        None
    }
}

pub fn parse_congestion(s: &String) -> (r: Option<CongestionControl>)
    ensures
        r == congestion_of_name(s@),
{
    proof {
        reveal_strlit("DROP");
        reveal_strlit("BLOCK");
    }
    if *s == String::from_str("DROP") {
        Some(CongestionControl::Drop)
    } else if *s == String::from_str("BLOCK") {
        Some(CongestionControl::Block)
    } else {
        None
    }
}

/// A bounded-channel description inside a configuration value: an object with
/// the channel kind and an integral capacity that fits `u32`.
pub open spec fn handler_of_value(v: ConfigValue) -> Option<HandlerChannel> {
    match v {
        ConfigValue::Object(entries) => match (
            crate::index::find_entry(entries@, "handler_type"@),
            crate::index::find_entry(entries@, "capacity"@),
        ) {
            (Some(ConfigValue::Str(t)), Some(ConfigValue::Int(c))) => {
                if 0 <= c <= u32::MAX {
                    if t@ == "FIFO"@ {
                        Some(HandlerChannel::Fifo { capacity: c as u32 })
                    } else if t@ == "RING"@ {
                        Some(HandlerChannel::Ring { capacity: c as u32 })
                    } else {
                        None
                    }
                } else {
                    None
                }
            },
            _ => None,
        },
        _ => None,
    }
}

pub fn parse_handler(v: &ConfigValue) -> (r: Option<HandlerChannel>)
    ensures
        r == handler_of_value(*v),
{
    proof {
        reveal_strlit("FIFO");
        reveal_strlit("RING");
    }
    match v {
        ConfigValue::Object(entries) => {
            let t = crate::config::object_get(entries, "handler_type");
            let c = crate::config::object_get(entries, "capacity");
            match (t, c) {
                (Some(ConfigValue::Str(name)), Some(ConfigValue::Int(cap))) => {
                    if *cap >= 0 && *cap <= 0xFFFF_FFFFi64 {
                        if *name == String::from_str("FIFO") {
                            Some(HandlerChannel::Fifo { capacity: *cap as u32 })
                        } else if *name == String::from_str("RING") {
                            Some(HandlerChannel::Ring { capacity: *cap as u32 })
                        } else {
                            None
                        }
                    } else {
                        None
                    }
                },
                _ => None,
            }
        },
        _ => None,
    }
}

/// What the per-endpoint settings of a publisher must hold: all four QoS
/// fields present, with recognized spellings.
pub open spec fn publisher_config_of(map: NameIndex<ConfigValue>) -> Option<ZenohPublisherConfig> {
    match (
        map.spec_get("congestion_control"@),
        map.spec_get("priority"@),
        map.spec_get("express"@),
        map.spec_get("reliability"@),
    ) {
        (
            Some(ConfigValue::Str(c)),
            Some(ConfigValue::Str(p)),
            Some(ConfigValue::Bool(e)),
            Some(ConfigValue::Str(rl)),
        ) => match (congestion_of_name(c@), priority_of_name(p@), reliability_of_name(rl@)) {
            (Some(cc), Some(pp), Some(rr)) => Some(
                ZenohPublisherConfig {
                    congestion_control: cc,
                    priority: pp,
                    express: e,
                    reliability: rr,
                },
            ),
            _ => None,
        },
        _ => None,
    }
}

pub open spec fn querier_config_of(map: NameIndex<ConfigValue>) -> Option<ZenohQuerierConfig> {
    match (map.spec_get("congestion_control"@), map.spec_get("priority"@), map.spec_get("express"@)) {
        (Some(ConfigValue::Str(c)), Some(ConfigValue::Str(p)), Some(ConfigValue::Bool(e))) => match (
            congestion_of_name(c@),
            priority_of_name(p@),
        ) {
            (Some(cc), Some(pp)) => Some(
                ZenohQuerierConfig { congestion_control: cc, priority: pp, express: e },
            ),
            _ => None,
        },
        _ => None,
    }
}

pub open spec fn subscriber_config_of(map: NameIndex<ConfigValue>) -> Option<
    ZenohSubscriberConfig,
> {
    match map.spec_get("handler"@) {
        Some(v) => match handler_of_value(v) {
            Some(h) => Some(ZenohSubscriberConfig { handler: h }),
            None => None,
        },
        None => None,
    }
}

pub open spec fn queryable_config_of(map: NameIndex<ConfigValue>) -> Option<ZenohQueryableConfig> {
    match map.spec_get("handler"@) {
        Some(v) => match handler_of_value(v) {
            Some(h) => Some(ZenohQueryableConfig { handler: h }),
            None => None,
        },
        None => None,
    }
}

/// Failures of this interface layer; transport-level causes are carried as
/// text.
#[derive(Debug)]
pub enum ZenohInterfaceError {
    PubTopicNotFound(String),
    SubTopicNotFound(String),
    ReqEndpointNotFound(String),
    PrvEndpointNotFound(String),
    Config(String),
    Decode(String),
    Transport(String),
}

pub fn decode_publisher_config(map: &NameIndex<ConfigValue>) -> (r: Result<
    ZenohPublisherConfig,
    ZenohInterfaceError,
>)
    ensures
        match r {
            Ok(c) => publisher_config_of(*map) == Some(c),
            Err(e) => publisher_config_of(*map) is None && e is Decode,
        },
{
    let cc = match map.get("congestion_control") {
        Some(ConfigValue::Str(c)) => match parse_congestion(c) {
            Some(cc) => cc,
            None => {
                return Err(
                    ZenohInterfaceError::Decode(
                        String::from_str("unknown congestion_control value"),
                    ),
                );
            },
        },
        _ => {
            return Err(ZenohInterfaceError::Decode(String::from_str("missing congestion_control")));
        },
    };
    let pp = match map.get("priority") {
        Some(ConfigValue::Str(p)) => match parse_priority(p) {
            Some(pp) => pp,
            None => {
                return Err(ZenohInterfaceError::Decode(String::from_str("unknown priority value")));
            },
        },
        _ => {
            return Err(ZenohInterfaceError::Decode(String::from_str("missing priority")));
        },
    };
    let ee = match map.get("express") {
        Some(ConfigValue::Bool(e)) => *e,
        _ => {
            return Err(ZenohInterfaceError::Decode(String::from_str("missing express")));
        },
    };
    let rr = match map.get("reliability") {
        Some(ConfigValue::Str(rl)) => match parse_reliability(rl) {
            Some(rr) => rr,
            None => {
                return Err(
                    ZenohInterfaceError::Decode(String::from_str("unknown reliability value")),
                );
            },
        },
        _ => {
            return Err(ZenohInterfaceError::Decode(String::from_str("missing reliability")));
        },
    };
    Ok(ZenohPublisherConfig { congestion_control: cc, priority: pp, express: ee, reliability: rr })
}

pub fn decode_querier_config(map: &NameIndex<ConfigValue>) -> (r: Result<
    ZenohQuerierConfig,
    ZenohInterfaceError,
>)
    ensures
        match r {
            Ok(c) => querier_config_of(*map) == Some(c),
            Err(e) => querier_config_of(*map) is None && e is Decode,
        },
{
    let cc = match map.get("congestion_control") {
        Some(ConfigValue::Str(c)) => match parse_congestion(c) {
            Some(cc) => cc,
            None => {
                return Err(
                    ZenohInterfaceError::Decode(
                        String::from_str("unknown congestion_control value"),
                    ),
                );
            },
        },
        _ => {
            return Err(ZenohInterfaceError::Decode(String::from_str("missing congestion_control")));
        },
    };
    let pp = match map.get("priority") {
        Some(ConfigValue::Str(p)) => match parse_priority(p) {
            Some(pp) => pp,
            None => {
                return Err(ZenohInterfaceError::Decode(String::from_str("unknown priority value")));
            },
        },
        _ => {
            return Err(ZenohInterfaceError::Decode(String::from_str("missing priority")));
        },
    };
    let ee = match map.get("express") {
        Some(ConfigValue::Bool(e)) => *e,
        _ => {
            return Err(ZenohInterfaceError::Decode(String::from_str("missing express")));
        },
    };
    Ok(ZenohQuerierConfig { congestion_control: cc, priority: pp, express: ee })
}

pub fn decode_subscriber_config(map: &NameIndex<ConfigValue>) -> (r: Result<
    ZenohSubscriberConfig,
    ZenohInterfaceError,
>)
    ensures
        match r {
            Ok(c) => subscriber_config_of(*map) == Some(c),
            Err(e) => subscriber_config_of(*map) is None && e is Decode,
        },
{
    match map.get("handler") {
        Some(v) => match parse_handler(v) {
            Some(h) => Ok(ZenohSubscriberConfig { handler: h }),
            None => Err(ZenohInterfaceError::Decode(String::from_str("malformed handler"))),
        },
        None => Err(ZenohInterfaceError::Decode(String::from_str("missing handler"))),
    }
}

pub fn decode_queryable_config(map: &NameIndex<ConfigValue>) -> (r: Result<
    ZenohQueryableConfig,
    ZenohInterfaceError,
>)
    ensures
        match r {
            Ok(c) => queryable_config_of(*map) == Some(c),
            Err(e) => queryable_config_of(*map) is None && e is Decode,
        },
{
    match map.get("handler") {
        Some(v) => match parse_handler(v) {
            Some(h) => Ok(ZenohQueryableConfig { handler: h }),
            None => Err(ZenohInterfaceError::Decode(String::from_str("malformed handler"))),
        },
        None => Err(ZenohInterfaceError::Decode(String::from_str("missing handler"))),
    }
}

// ---------------------------------------------------------------------------
// The interface object: the parsed configuration plus the interface's name,
// answering lookups by logical endpoint name. Opening the session and
// declaring live transport handles is the caller's (I/O) side.
// ---------------------------------------------------------------------------

pub struct ZenohInterface {
    config: ApplicationEnvConfig,
    name: String,
}

impl ZenohInterface {
    pub closed spec fn spec_config(&self) -> ApplicationEnvConfig {
        self.config
    }

    pub closed spec fn spec_name(&self) -> Seq<char> {
        self.name@
    }

    pub open spec fn spec_interface(&self) -> Option<InterfaceConfig> {
        self.spec_config().interfaces.spec_get(self.spec_name())
    }

    pub open spec fn spec_publisher_config(&self, topic: Seq<char>) -> Option<
        PublisherTopicConfig,
    > {
        match self.spec_interface() {
            Some(iface) => iface.publishers.spec_get(topic),
            None => None,
        }
    }

    pub open spec fn spec_subscriber_config(&self, topic: Seq<char>) -> Option<BoundSubscriber> {
        match self.spec_interface() {
            Some(iface) => iface.subscribers.spec_get(topic),
            None => None,
        }
    }

    pub open spec fn spec_requester_config(&self, endpoint: Seq<char>) -> Option<BoundRequester> {
        match self.spec_interface() {
            Some(iface) => iface.requesters.spec_get(endpoint),
            None => None,
        }
    }

    pub open spec fn spec_provider_config(&self, endpoint: Seq<char>) -> Option<
        ProviderEndpointConfig,
    > {
        match self.spec_interface() {
            Some(iface) => iface.providers.spec_get(endpoint),
            None => None,
        }
    }

    pub fn new(config: ApplicationEnvConfig, name: &str) -> (r: ZenohInterface)
        ensures
            r.spec_config() == config,
            r.spec_name() == name@,
    {
        ZenohInterface { config, name: String::from_str(name) }
    }

    pub fn get_publisher_config<'a>(&'a self, topic_name: &str) -> (r: Option<
        &'a PublisherTopicConfig,
    >)
        ensures
            match r {
                Some(c) => self.spec_publisher_config(topic_name@) == Some(*c),
                None => self.spec_publisher_config(topic_name@) is None,
            },
    {
        match self.config.interfaces.get(self.name.as_str()) {
            Some(iface) => iface.publishers.get(topic_name),
            None => None,
        }
    }

    pub fn get_subscriber_config<'a>(&'a self, topic_name: &str) -> (r: Option<&'a BoundSubscriber>)
        ensures
            match r {
                Some(c) => self.spec_subscriber_config(topic_name@) == Some(*c),
                None => self.spec_subscriber_config(topic_name@) is None,
            },
    {
        match self.config.interfaces.get(self.name.as_str()) {
            Some(iface) => iface.subscribers.get(topic_name),
            None => None,
        }
    }

    pub fn get_requester_config<'a>(&'a self, endpoint_name: &str) -> (r: Option<
        &'a BoundRequester,
    >)
        ensures
            match r {
                Some(c) => self.spec_requester_config(endpoint_name@) == Some(*c),
                None => self.spec_requester_config(endpoint_name@) is None,
            },
    {
        match self.config.interfaces.get(self.name.as_str()) {
            Some(iface) => iface.requesters.get(endpoint_name),
            None => None,
        }
    }

    pub fn get_provider_config<'a>(&'a self, endpoint_name: &str) -> (r: Option<
        &'a ProviderEndpointConfig,
    >)
        ensures
            match r {
                Some(c) => self.spec_provider_config(endpoint_name@) == Some(*c),
                None => self.spec_provider_config(endpoint_name@) is None,
            },
    {
        match self.config.interfaces.get(self.name.as_str()) {
            Some(iface) => iface.providers.get(endpoint_name),
            None => None,
        }
    }

    /// The transport addresses this interface should connect to: one
    /// `tcp/<ip>:<port>` entry for each distinct subscriber access point,
    /// without repetition and in ascending text order.
    pub fn connect_endpoints(&self) -> (r: Vec<String>)
        ensures
            r@.map_values(|s: String| s@) == match self.spec_interface() {
                Some(iface) => sort_views(dedup_first(subscriber_endpoint_views(iface))),
                None => Seq::<Seq<char>>::empty(),
            },
    {
        let mut out: Vec<String> = Vec::new();
        let iface = match self.config.interfaces.get(self.name.as_str()) {
            Some(iface) => iface,
            None => {
                proof {
                    assert(out@.map_values(|s: String| s@) =~= Seq::<Seq<char>>::empty());
                }
                return out;
            },
        };
        let pairs = iface.subscribers.pairs();
        let ghost eps = subscriber_endpoint_views(*iface);
        let n: usize = pairs.len();
        let mut i: usize = 0;
        proof {
            assert(eps.take(0) =~= Seq::<Seq<char>>::empty());
            assert(out@.map_values(|s: String| s@) =~= dedup_first(eps.take(0)));
        }
        while i < n
            invariant
                n == pairs@.len(),
                pairs@ == iface.subscribers.entries_seq(),
                eps == subscriber_endpoint_views(*iface),
                0 <= i <= n,
                out@.map_values(|s: String| s@) == dedup_first(eps.take(i as int)),
            decreases n - i,
        {
            let ghost pre_views = out@.map_values(|s: String| s@);
            let s = endpoint_string(&pairs[i].1.access_point);
            proof {
                assert(eps[i as int] == endpoint_str_spec(pairs@[i as int].1));
                assert(s@ == eps[i as int]);
                assert(eps.take(i as int + 1).drop_last() =~= eps.take(i as int));
                assert(eps.take(i as int + 1).last() == eps[i as int]);
            }
            let present = contains_string(&out, &s);
            if !present {
                out.push(s);
                proof {
                    assert(out@.map_values(|s: String| s@) =~= pre_views.push(eps[i as int]));
                }
            }
            i = i + 1;
        }
        proof {
            assert(eps.take(n as int) =~= eps);
        }
        let ghost deduped_views = out@.map_values(|s: String| s@);
        let mut sorted: Vec<String> = Vec::new();
        let m: usize = out.len();
        let mut j: usize = 0;
        proof {
            assert(deduped_views.take(0) =~= Seq::<Seq<char>>::empty());
            assert(sorted@.map_values(|s: String| s@) =~= sort_views(deduped_views.take(0)));
        }
        while j < m
            invariant
                m == out@.len(),
                deduped_views == out@.map_values(|s: String| s@),
                0 <= j <= m,
                sorted@.map_values(|s: String| s@) == sort_views(deduped_views.take(j as int)),
            decreases m - j,
        {
            proof {
                assert(deduped_views.take(j as int + 1).drop_last() =~= deduped_views.take(
                    j as int,
                ));
                assert(deduped_views.take(j as int + 1).last() == deduped_views[j as int]);
            }
            insert_in_order(&mut sorted, out[j].clone());
            j = j + 1;
        }
        proof {
            assert(deduped_views.take(m as int) =~= deduped_views);
        }
        sorted
    }
}

/// The endpoint text of each subscriber declaration, in declaration order.
pub open spec fn subscriber_endpoint_views(iface: InterfaceConfig) -> Seq<Seq<char>> {
    iface.subscribers.entries_seq().map_values(|p: (String, BoundSubscriber)| endpoint_str_spec(p.1))
}

/// Membership among the collected endpoint texts.
pub open spec fn contains_view(views: Seq<Seq<char>>, x: Seq<char>) -> bool
    decreases views.len(),
{
    if views.len() == 0 {
        false
    } else {
        views[0] == x || contains_view(views.drop_first(), x)
    }
}

/// First-occurrence deduplication: each text is kept the first time it is
/// seen and dropped on every later occurrence.
pub open spec fn dedup_first(views: Seq<Seq<char>>) -> Seq<Seq<char>>
    decreases views.len(),
{
    if views.len() == 0 {
        Seq::empty()
    } else {
        let rest = dedup_first(views.drop_last());
        if contains_view(rest, views.last()) {
            rest
        } else {
            rest.push(views.last())
        }
    }
}

/// Text order by code point; for valid text this is the order the standard
/// library's string comparison uses.
pub open spec fn lex_le(a: Seq<char>, b: Seq<char>) -> bool
    decreases a.len(),
{
    if a.len() == 0 {
        true
    } else if b.len() == 0 {
        false
    } else if (a[0] as u32) < (b[0] as u32) {
        true
    } else if (a[0] as u32) > (b[0] as u32) {
        false
    } else {
        lex_le(a.drop_first(), b.drop_first())
    }
}

/// Insertion into an ascending list: the newcomer lands before the first
/// entry it does not exceed.
pub open spec fn insert_sorted(views: Seq<Seq<char>>, x: Seq<char>) -> Seq<Seq<char>>
    decreases views.len(),
{
    if views.len() == 0 {
        seq![x]
    } else if lex_le(x, views[0]) {
        seq![x] + views
    } else {
        seq![views[0]] + insert_sorted(views.drop_first(), x)
    }
}

/// Insertion sort of the collected texts into ascending order.
pub open spec fn sort_views(views: Seq<Seq<char>>) -> Seq<Seq<char>>
    decreases views.len(),
{
    if views.len() == 0 {
        Seq::empty()
    } else {
        insert_sorted(sort_views(views.drop_last()), views.last())
    }
}

fn str_le_from(a: &str, alen: usize, b: &str, blen: usize, i: usize) -> (r: bool)
    requires
        alen == a@.len(),
        blen == b@.len(),
        i <= alen,
        i <= blen,
    ensures
        r == lex_le(a@.skip(i as int), b@.skip(i as int)),
    decreases alen - i,
{
    proof {
        if i < alen {
            assert(a@.skip(i as int)[0] == a@[i as int]);
        }
        if i < blen {
            assert(b@.skip(i as int)[0] == b@[i as int]);
        }
    }
    if i >= alen {
        true
    } else if i >= blen {
        false
    } else {
        let ca = a.get_char(i);
        let cb = b.get_char(i);
        if (ca as u32) < (cb as u32) {
            true
        } else if (ca as u32) > (cb as u32) {
            false
        } else {
            proof {
                assert(a@.skip(i as int).drop_first() =~= a@.skip(i as int + 1));
                assert(b@.skip(i as int).drop_first() =~= b@.skip(i as int + 1));
            }
            str_le_from(a, alen, b, blen, i + 1)
        }
    }
}

/// Whether `a` sorts at or before `b` in text order.
pub fn str_le(a: &String, b: &String) -> (r: bool)
    ensures
        r == lex_le(a@, b@),
{
    let alen: usize = a.as_str().unicode_len();
    let blen: usize = b.as_str().unicode_len();
    let r = str_le_from(a.as_str(), alen, b.as_str(), blen, 0);
    proof {
        assert(a@.skip(0) =~= a@);
        assert(b@.skip(0) =~= b@);
    }
    r
}

proof fn lemma_insert_sorted_position(views: Seq<Seq<char>>, x: Seq<char>, j: int)
    requires
        0 <= j <= views.len(),
        forall|k: int| 0 <= k < j ==> !lex_le(x, #[trigger] views[k]),
        j < views.len() ==> lex_le(x, views[j]),
    ensures
        insert_sorted(views, x) == views.take(j) + seq![x] + views.skip(j),
    decreases j,
{
    if j == 0 {
        if views.len() == 0 {
            assert(insert_sorted(views, x) =~= views.take(0) + seq![x] + views.skip(0));
        } else {
            assert(views.take(0) =~= Seq::<Seq<char>>::empty());
            assert(views.skip(0) =~= views);
            assert(insert_sorted(views, x) =~= views.take(0) + seq![x] + views.skip(0));
        }
    } else {
        assert(!lex_le(x, views[0]));
        assert forall|k: int| 0 <= k < j - 1 implies !lex_le(
            x,
            #[trigger] views.drop_first()[k],
        ) by {
            assert(views.drop_first()[k] == views[k + 1]);
        }
        if j - 1 < views.drop_first().len() {
            assert(views.drop_first()[j - 1] == views[j]);
        }
        lemma_insert_sorted_position(views.drop_first(), x, j - 1);
        assert(insert_sorted(views, x) =~= views.take(j) + seq![x] + views.skip(j)) by {
            assert(insert_sorted(views, x) == seq![views[0]] + insert_sorted(
                views.drop_first(),
                x,
            ));
            assert forall|k: int|
                0 <= k < views.len() + 1 implies (seq![views[0]] + (views.drop_first().take(j - 1)
                + seq![x] + views.drop_first().skip(j - 1)))[k] == (views.take(j) + seq![x]
                + views.skip(j))[k] by {
                if k > 0 && k < j {
                    assert(views.drop_first()[k - 1] == views[k]);
                } else if k > j {
                    assert(views.drop_first()[k - 2] == views[k - 1]);
                }
            }
        }
    }
}

/// Places `s` at its position in an ascending list.
fn insert_in_order(out: &mut Vec<String>, s: String)
    ensures
        final(out)@.map_values(|t: String| t@) == insert_sorted(
            old(out)@.map_values(|t: String| t@),
            s@,
        ),
{
    let ghost views = out@.map_values(|t: String| t@);
    let n: usize = out.len();
    let mut j: usize = 0;
    while j < n && !str_le(&s, &out[j])
        invariant
            views == out@.map_values(|t: String| t@),
            n == out@.len(),
            0 <= j <= n,
            forall|k: int| 0 <= k < j ==> !lex_le(s@, #[trigger] views[k]),
        decreases n - j,
    {
        j = j + 1;
    }
    proof {
        lemma_insert_sorted_position(views, s@, j as int);
    }
    out.insert(j, s);
    proof {
        assert(final(out)@.map_values(|t: String| t@) =~= views.take(j as int) + seq![s@]
            + views.skip(j as int));
    }
}

/// The connect-address text for one access point.
pub open spec fn endpoint_str_spec(b: BoundSubscriber) -> Seq<char> {
    "tcp/"@ + b.access_point.vpn_ip@ + ":"@ + dec_chars(b.access_point.vpn_port as nat)
}

/// Decimal digits of `n` as characters, most significant first.
pub open spec fn dec_chars(n: nat) -> Seq<char>
    decreases n,
{
    if n < 10 {
        seq![digit_char(n as int)]
    } else {
        dec_chars(n / 10).push(digit_char((n % 10) as int))
    }
}

pub open spec fn digit_char(d: int) -> char {
    if d == 0 {
        '0'
    } else if d == 1 {
        '1'
    } else if d == 2 {
        '2'
    } else if d == 3 {
        '3'
    } else if d == 4 {
        '4'
    } else if d == 5 {
        '5'
    } else if d == 6 {
        '6'
    } else if d == 7 {
        '7'
    } else if d == 8 {
        '8'
    } else {
        '9'
    }
}

fn append_digit(out: &mut String, d: u64)
    requires
        d < 10,
    ensures
        final(out)@ == old(out)@ + seq![digit_char(d as int)],
{
    proof {
        reveal_strlit("0");
        reveal_strlit("1");
        reveal_strlit("2");
        reveal_strlit("3");
        reveal_strlit("4");
        reveal_strlit("5");
        reveal_strlit("6");
        reveal_strlit("7");
        reveal_strlit("8");
        reveal_strlit("9");
    }
    if d == 0 {
        out.append("0");
    } else if d == 1 {
        out.append("1");
    } else if d == 2 {
        out.append("2");
    } else if d == 3 {
        out.append("3");
    } else if d == 4 {
        out.append("4");
    } else if d == 5 {
        out.append("5");
    } else if d == 6 {
        out.append("6");
    } else if d == 7 {
        out.append("7");
    } else if d == 8 {
        out.append("8");
    } else {
        out.append("9");
    }
    proof {
        assert(final(out)@ =~= old(out)@ + seq![digit_char(d as int)]);
    }
}

/// Appends the decimal spelling of `n`.
pub fn push_decimal_str(n: u64, out: &mut String)
    ensures
        final(out)@ == old(out)@ + dec_chars(n as nat),
    decreases n,
{
    if n < 10 {
        append_digit(out, n);
    } else {
        push_decimal_str(n / 10, out);
        append_digit(out, n % 10);
    }
    proof {
        assert(final(out)@ =~= old(out)@ + dec_chars(n as nat));
    }
}

/// Formats one access point as its connect address.
pub fn endpoint_string(ap: &crate::models::AccessPoint) -> (r: String)
    ensures
        r@ == "tcp/"@ + ap.vpn_ip@ + ":"@ + dec_chars(ap.vpn_port as nat),
{
    let mut out = String::from_str("tcp/");
    out.append(ap.vpn_ip.as_str());
    out.append(":");
    push_decimal_str(ap.vpn_port as u64, &mut out);
    proof {
        assert(out@ =~= "tcp/"@ + ap.vpn_ip@ + ":"@ + dec_chars(ap.vpn_port as nat));
    }
    out
}

proof fn lemma_contains_view_skip(views: Seq<Seq<char>>, i: int, x: Seq<char>)
    requires
        0 <= i <= views.len(),
        forall|j: int| 0 <= j < i ==> views[j] != x,
    ensures
        contains_view(views.skip(i), x) == contains_view(views, x),
    decreases i,
{
    if i > 0 {
        assert(views.drop_first() =~= views.skip(1));
        assert forall|j: int| 0 <= j < i - 1 implies views.drop_first()[j] != x by {
            assert(views.drop_first()[j] == views[j + 1]);
        }
        lemma_contains_view_skip(views.drop_first(), i - 1, x);
        assert(views.drop_first().skip(i - 1) =~= views.skip(i));
    } else {
        assert(views.skip(0) =~= views);
    }
}

proof fn lemma_contains_view_absent(views: Seq<Seq<char>>, x: Seq<char>)
    requires
        forall|j: int| 0 <= j < views.len() ==> views[j] != x,
    ensures
        !contains_view(views, x),
    decreases views.len(),
{
    if views.len() > 0 {
        lemma_contains_view_absent(views.drop_first(), x);
    }
}

fn contains_string(v: &Vec<String>, s: &String) -> (r: bool)
    ensures
        r == contains_view(v@.map_values(|t: String| t@), s@),
{
    let ghost views = v@.map_values(|t: String| t@);
    let n: usize = v.len();
    let mut i: usize = 0;
    while i < n
        invariant
            views == v@.map_values(|t: String| t@),
            n == v@.len(),
            0 <= i <= n,
            forall|j: int| 0 <= j < i ==> views[j] != s@,
        decreases n - i,
    {
        if v[i] == *s {
            proof {
                lemma_contains_view_skip(views, i as int, s@);
                assert(views.skip(i as int)[0] == views[i as int]);
            }
            return true;
        }
        i = i + 1;
    }
    proof {
        lemma_contains_view_absent(views, s@);
    }
    false
}

/// The well-known port this process listens on when no other process holds
/// it.
pub const DEFAULT_LISTEN_PORT: u16 = 7447;

/// The listen addresses for the session: the well-known endpoint when the
/// port is free, none when another process already holds it.
pub fn listen_endpoints(port_in_use: bool) -> (r: Vec<String>)
    ensures
        port_in_use ==> r@.len() == 0,
        !port_in_use ==> r@.len() == 1 && r@[0]@ == "tcp/0.0.0.0:7447"@,
{
    let mut out: Vec<String> = Vec::new();
    if !port_in_use {
        out.push(String::from_str("tcp/0.0.0.0:7447"));
    }
    out
}

/// Whether the transport accepts `s` as a key expression as written.
pub uninterp spec fn valid_key_expr(s: Seq<char>) -> bool;

/// Canonical form of a routing key, when one exists.
pub uninterp spec fn canon_key(s: Seq<char>) -> Option<Seq<char>>;

/// Relies on zenoh's KeyExpr::new, which accepts a string exactly when it is
/// a valid, already-canon key expression; acceptance depends on the string
/// alone.
#[verifier::external_body]
pub fn key_expr_valid(s: &str) -> (r: bool)
    ensures
        r == valid_key_expr(s@),
{
    zenoh::key_expr::KeyExpr::new(s).is_ok()
}

/// Relies on zenoh's KeyExpr::autocanonize, which rewrites a string to its
/// canon form and then accepts or rejects it; the outcome depends on the
/// string alone.
#[verifier::external_body]
pub fn canonize_key(s: &str) -> (r: Option<String>)
    ensures
        match r {
            Some(k) => canon_key(s@) == Some(k@),
            None => canon_key(s@) is None,
        },
{
    match zenoh::key_expr::KeyExpr::autocanonize(s.to_string()) {
        Ok(k) => Some(k.as_str().to_string()),
        Err(_) => None,
    }
}

} // verus!
