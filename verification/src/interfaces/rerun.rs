use sha2::Digest;
use vstd::prelude::*;

verus! {

use crate::config::ConfigValue;
use crate::index::NameIndex;
use vstd::string::{StrSliceExecFns, StringExecFns};
use vstd::utf8::encode_utf8;

/// Which end of the recorded history a server replays first.
#[derive(Clone, Copy, Debug, PartialEq, Eq, Structural)]
pub enum PlaybackBehavior {
    OldestFirst,
    NewestFirst,
}

impl Default for PlaybackBehavior {
    fn default() -> (r: PlaybackBehavior)
        ensures
            r == PlaybackBehavior::OldestFirst,
    {
        PlaybackBehavior::OldestFirst
    }
}

/// Settings of a recording server: an optional memory cap and the playback
/// order.
#[derive(Clone, Copy, Debug, PartialEq, Eq, Structural)]
pub struct RerunGRpcServerConfig {
    pub max_bytes: Option<u64>,
    pub playback_behavior: PlaybackBehavior,
}

/// Failures of the recording interface layer.
#[derive(Debug)]
pub enum RerunGRpcInterfaceError {
    ClientServiceNotFound(String),
    ServerServiceNotFound(String),
    Config(String),
    SerdeJson(String),
    Rerun(String),
}

/// What the per-server settings must hold: an optional non-negative byte cap
/// and an optional playback order, each falling back to its default.
pub open spec fn server_config_of(map: NameIndex<ConfigValue>) -> Option<RerunGRpcServerConfig> {
    let mb = match map.spec_get("max_bytes"@) {
        None => Some(None::<u64>),
        Some(ConfigValue::Int(v)) => if v >= 0 {
            Some(Some(v as u64))
        } else {
            None
        },
        Some(_) => None,
    };
    let pb = match map.spec_get("playback_behavior"@) {
        None => Some(PlaybackBehavior::OldestFirst),
        Some(ConfigValue::Str(s)) => if s@ == "OldestFirst"@ {
            Some(PlaybackBehavior::OldestFirst)
        } else if s@ == "NewestFirst"@ {
            Some(PlaybackBehavior::NewestFirst)
        } else {
            None
        },
        Some(_) => None,
    };
    match (mb, pb) {
        (Some(m), Some(p)) => Some(RerunGRpcServerConfig { max_bytes: m, playback_behavior: p }),
        _ => None,
    }
}

pub fn decode_server_config(map: &NameIndex<ConfigValue>) -> (r: Result<
    RerunGRpcServerConfig,
    RerunGRpcInterfaceError,
>)
    ensures
        match r {
            Ok(c) => server_config_of(*map) == Some(c),
            Err(e) => server_config_of(*map) is None && e is SerdeJson,
        },
{
    proof {
        reveal_strlit("OldestFirst");
        reveal_strlit("NewestFirst");
    }
    let max_bytes: Option<u64> = match map.get("max_bytes") {
        None => None,
        Some(ConfigValue::Int(v)) => {
            if *v >= 0 {
                Some(*v as u64)
            } else {
                return Err(
                    RerunGRpcInterfaceError::SerdeJson(String::from_str("negative max_bytes")),
                );
            }
        },
        Some(_) => {
            return Err(RerunGRpcInterfaceError::SerdeJson(String::from_str("malformed max_bytes")));
        },
    };
    let playback_behavior: PlaybackBehavior = match map.get("playback_behavior") {
        None => PlaybackBehavior::OldestFirst,
        Some(ConfigValue::Str(s)) => {
            if *s == String::from_str("OldestFirst") {
                PlaybackBehavior::OldestFirst
            } else if *s == String::from_str("NewestFirst") {
                PlaybackBehavior::NewestFirst
            } else {
                return Err(
                    RerunGRpcInterfaceError::SerdeJson(
                        String::from_str("unknown playback_behavior"),
                    ),
                );
            }
        },
        Some(_) => {
            return Err(
                RerunGRpcInterfaceError::SerdeJson(String::from_str("malformed playback_behavior")),
            );
        },
    };
    Ok(RerunGRpcServerConfig { max_bytes, playback_behavior })
}

/// The digest of the recording-id derivation.
pub uninterp spec fn sha256_of(data: Seq<u8>) -> Seq<u8>;

/// Relies on sha2's Sha256::digest: the 32-byte digest depends on the input
/// bytes alone.
#[verifier::external_body]
fn sha256_digest(data: &[u8]) -> (r: Vec<u8>)
    ensures
        r@ == sha256_of(data@),
        r@.len() == 32,
{
    sha2::Sha256::digest(data).to_vec()
}

/// The first 16 digest bytes with the version nibble forced to 4 and the
/// variant bits forced to the standard form.
pub open spec fn uuid_v4_bytes(d: Seq<u8>) -> Seq<u8> {
    Seq::new(
        16,
        |i: int|
            if i == 6 {
                (d[6] & 0x0F) | 0x40
            } else if i == 8 {
                (d[8] & 0x3F) | 0x80
            } else {
                d[i]
            },
    )
}

/// A stable recording id derived from the system id alone: the same text
/// always yields the same id, shaped as a version-4 identifier.
pub fn deterministic_uuid_v4_from_string(s: &str) -> (r: Vec<u8>)
    ensures
        r@ == uuid_v4_bytes(sha256_of(encode_utf8(s@))),
        r@.len() == 16,
{
    let digest = sha256_digest(s.as_bytes());
    let ghost d = digest@;
    let mut out: Vec<u8> = Vec::new();
    let mut i: usize = 0;
    while i < 16
        invariant
            digest@ == d,
            d.len() == 32,
            0 <= i <= 16,
            out@.len() == i,
            forall|j: int| 0 <= j < i ==> out@[j] == uuid_v4_bytes(d)[j],
    decreases 16 - i,
    {
        let b = digest[i];
        let v: u8 = if i == 6 {
            (b & 0x0F) | 0x40
        } else if i == 8 {
            (b & 0x3F) | 0x80
        } else {
            b
        };
        out.push(v);
        i = i + 1;
    }
    proof {
        assert(out@ =~= uuid_v4_bytes(d));
    }
    out
}

} // verus!
