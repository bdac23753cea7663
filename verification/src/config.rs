//! Desired-state configuration for the pipeline and its sources, and the
//! configuration fingerprint used for idempotent change detection.

use vstd::prelude::*;

verus! {

/// Process-wide settings derived from the environment by the caller.
pub struct Config {
    pub display: bool,
}

impl Config {
    /// The caller decides whether a display is available (for example from
    /// the environment) and passes the result in.
    pub fn new(display: bool) -> (c: Config)
        ensures
            c.display == display,
    {
        Config { display }
    }
}

/// The kind of one desired source: a generated test pattern, a static URI,
/// or an authenticated RTSP stream.
#[derive(Debug)]
pub enum SourceKind {
    Test,
    Uri { uri: String, username: Option<String>, password: Option<String> },
    Rtsp { uri: String, username: Option<String>, password: Option<String> },
}

/// One desired source: its unique small-integer id and its kind.
#[derive(Debug)]
pub struct SourceConfig {
    pub id: u8,
    pub kind: SourceKind,
}

/// One desired processing stage between the sources and the sinks.
#[derive(Debug)]
pub enum FilterConfig {
    NvInfer { config_path: String },
    Tracker { lib_path: Option<String>, config_path: Option<String> },
}

/// Connection settings for the message-broker sink.
#[derive(Debug)]
pub struct MsgBrokerSinkConfig {
    pub topic: String,
    pub server: String,
    pub port: u32,
}

/// Which sinks the graph should feed.
#[derive(Debug)]
pub struct SinksConfig {
    pub display: bool,
    pub rtsp: bool,
    pub msg_broker: Option<MsgBrokerSinkConfig>,
}

/// The whole desired state: sources, filters and sinks.
#[derive(Debug)]
pub struct PipelineConfig {
    pub sources: Vec<SourceConfig>,
    pub filters: Vec<FilterConfig>,
    pub sinks: SinksConfig,
}

/// Offset basis of the 64-bit FNV-1a hash.
pub const FNV_OFFSET_BASIS: u64 = 0xcbf2_9ce4_8422_2325;

/// Prime of the 64-bit FNV-1a hash.
pub const FNV_PRIME: u64 = 0x0000_0100_0000_01b3;

/// One FNV-1a round: fold the next byte into the running hash.
pub open spec fn fnv1a_step(h: u64, b: u8) -> u64 {
    vstd::wrapping::u64_specs::wrapping_mul(h ^ (b as u64), FNV_PRIME)
}

/// The 64-bit FNV-1a hash of a byte sequence.
pub open spec fn fnv1a(bytes: Seq<u8>) -> u64
    decreases bytes.len(),
{
    if bytes.len() == 0 {
        FNV_OFFSET_BASIS
    } else {
        fnv1a_step(fnv1a(bytes.drop_last()), bytes.last())
    }
}

/// The bytes an optional string field contributes to the fingerprint:
/// a presence byte, then the string's UTF-8 bytes and a terminator.
pub open spec fn spec_opt_string_bytes(o: Option<String>) -> Seq<u8> {
    match o {
        Option::Some(s) => seq![1u8] + vstd::utf8::encode_utf8(s@) + seq![0u8],
        Option::None => seq![0u8],
    }
}

/// The bytes a source kind contributes to the fingerprint: a variant tag,
/// then each field in order.
pub open spec fn spec_kind_bytes(k: SourceKind) -> Seq<u8> {
    match k {
        SourceKind::Test => seq![0u8],
        SourceKind::Uri { uri, username, password } => seq![1u8]
            + vstd::utf8::encode_utf8(uri@) + seq![0u8]
            + spec_opt_string_bytes(username) + spec_opt_string_bytes(password),
        SourceKind::Rtsp { uri, username, password } => seq![2u8]
            + vstd::utf8::encode_utf8(uri@) + seq![0u8]
            + spec_opt_string_bytes(username) + spec_opt_string_bytes(password),
    }
}

/// The canonical byte encoding of a source configuration that the
/// fingerprint hashes: the id, then the kind.
pub open spec fn spec_config_bytes(c: SourceConfig) -> Seq<u8> {
    seq![c.id] + spec_kind_bytes(c.kind)
}

/// The configuration fingerprint: a stable hash over all fields, used by the
/// reconciler to detect that a desired source is unchanged.  Equal
/// configurations always have equal fingerprints; like any hash, distinct
/// configurations may collide.
pub open spec fn spec_fingerprint(c: SourceConfig) -> u64 {
    fnv1a(spec_config_bytes(c))
}

/// Append a slice of bytes to a buffer.
fn push_bytes(buf: &mut Vec<u8>, s: &[u8])
    ensures
        final(buf)@ == old(buf)@ + s@,
{
    let mut i: usize = 0;
    while i < s.len()
        invariant
            i <= s@.len(),
            buf@ == old(buf)@ + s@.take(i as int),
        decreases s@.len() - i,
    {
        buf.push(s[i]);
        proof {
            assert(s@.take(i + 1) =~= s@.take(i as int).push(s@[i as int]));
        }
        i = i + 1;
    }
    proof {
        assert(s@.take(s@.len() as int) =~= s@);
    }
}

/// Append a string field's fingerprint bytes: its UTF-8 bytes, then a
/// terminator byte.
fn push_str_field(buf: &mut Vec<u8>, s: &str)
    ensures
        final(buf)@ == old(buf)@ + vstd::utf8::encode_utf8(s@) + seq![0u8],
{
    push_bytes(buf, s.as_bytes());
    buf.push(0u8);
}

/// Append an optional string field's fingerprint bytes.
fn push_opt_str_field(buf: &mut Vec<u8>, o: &Option<String>)
    ensures
        final(buf)@ == old(buf)@ + spec_opt_string_bytes(*o),
{
    match o {
        Option::Some(s) => {
            buf.push(1u8);
            push_str_field(buf, s.as_str());
        }
        Option::None => {
            buf.push(0u8);
        }
    }
}

impl SourceConfig {
    /// The configuration fingerprint of this source, computed as the FNV-1a
    /// hash of a canonical byte encoding of all fields.
    pub fn get_hash(&self) -> (h: u64)
        ensures
            h == spec_fingerprint(*self),
    {
        let mut buf: Vec<u8> = Vec::new();
        buf.push(self.id);
        match &self.kind {
            SourceKind::Test => {
                buf.push(0u8);
            }
            SourceKind::Uri { uri, username, password } => {
                buf.push(1u8);
                push_str_field(&mut buf, uri.as_str());
                push_opt_str_field(&mut buf, username);
                push_opt_str_field(&mut buf, password);
            }
            SourceKind::Rtsp { uri, username, password } => {
                buf.push(2u8);
                push_str_field(&mut buf, uri.as_str());
                push_opt_str_field(&mut buf, username);
                push_opt_str_field(&mut buf, password);
            }
        }
        proof {
            assert(buf@ =~= spec_config_bytes(*self));
        }
        fnv1a_hash(&buf)
    }
}

/// The 64-bit FNV-1a hash of a byte buffer.
fn fnv1a_hash(bytes: &Vec<u8>) -> (h: u64)
    ensures
        h == fnv1a(bytes@),
{
    let mut h: u64 = FNV_OFFSET_BASIS;
    let mut i: usize = 0;
    while i < bytes.len()
        invariant
            i <= bytes@.len(),
            h == fnv1a(bytes@.take(i as int)),
        decreases bytes@.len() - i,
    {
        h = (h ^ (bytes[i] as u64)).wrapping_mul(FNV_PRIME);
        proof {
            assert(bytes@.take(i + 1).drop_last() =~= bytes@.take(i as int));
            assert(bytes@.take(i + 1).last() == bytes@[i as int]);
        }
        i = i + 1;
    }
    proof {
        assert(bytes@.take(bytes@.len() as int) =~= bytes@);
    }
    h
}

} // verus!
