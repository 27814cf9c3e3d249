//! How the overlay is set up: its tunables, and what identifies a message
//! to it.
use vstd::prelude::*;
use vstd::utf8::encode_utf8;
use vstd::utf8::encode_utf8_decode_utf8;
use crate::peer::PeerId;
use crate::wire::field;
use crate::wire::i64_bits;
use crate::wire::le_bytes;
use crate::wire::le_value;
use crate::wire::lemma_le_bytes_len;
use crate::wire::lemma_le_value_of_bytes;
use crate::wire::lemma_pow256_values;
use crate::wire::lemma_take_field;
use crate::wire::pow256;
use crate::wire::put_field;
use crate::wire::put_u64;
use crate::wire::take_field;
use crate::wire::twos;

verus! {

/// The tunables of the overlay and of the connections under it.
#[derive(Debug, PartialEq, Eq)]
pub struct OverlaySettings {
    /// Seconds between two heartbeats of the gossip.
    pub heartbeat_secs: u64,
    /// Seconds after which a connection without use is closed.
    pub idle_timeout_secs: u64,
    /// Whether every payload has to be signed by its publisher.
    pub strict_validation: bool,
    /// The protocol version that the node tells its peers.
    pub protocol_version: String,
}

impl Default for OverlaySettings {
    /// A heartbeat every ten seconds, sixty seconds of idle time, signed
    /// payloads only.
    fn default() -> (settings: OverlaySettings)
        ensures
            settings.heartbeat_secs == 10,
            settings.idle_timeout_secs == 60,
            settings.strict_validation,
            settings.protocol_version@ == "/retoro/0.0.1"@,
    {
        OverlaySettings {
            heartbeat_secs: 10,
            idle_timeout_secs: 60,
            strict_validation: true,
            protocol_version: "/retoro/0.0.1".to_owned(),
        }
    }
}

/// What the overlay tells two deliveries apart by.
pub struct Delivered {
    /// When the payload was seen, in microseconds since the epoch.
    pub seen_at: i64,
    /// The payload.
    pub data: Seq<u8>,
    /// The topic it was published on.
    pub topic: Seq<char>,
    /// The peer that published it, where it is known.
    pub source: Option<Seq<u8>>,
}

impl Delivered {
    /// Each part is short enough for its length to be written in eight
    /// bytes.
    pub open spec fn fits(self) -> bool {
        &&& self.data.len() < pow256(8)
        &&& encode_utf8(self.topic).len() < pow256(8)
        &&& self.source matches Some(peer) ==> peer.len() < pow256(8)
    }
}

/// The bytes whose hash identifies a delivery: the time in eight bytes, the
/// payload and the topic as fields, then a zero, or a one and the source as
/// a field.
pub open spec fn message_key(d: Delivered) -> Seq<u8> {
    le_bytes(twos(d.seen_at as int), 8) + field(d.data) + field(encode_utf8(d.topic)) + (match d.source {
        Some(peer) => seq![1u8] + field(peer),
        None => seq![0u8],
    })
}

/// Two deliveries with the same key are the same in time, payload, topic
/// and source: no two distinct messages share a key.
pub proof fn lemma_message_key_injective(a: Delivered, b: Delivered)
    requires
        a.fits(),
        b.fits(),
        message_key(a) == message_key(b),
    ensures
        a == b,
{
    lemma_key_parts(a);
    lemma_key_parts(b);
    encode_utf8_decode_utf8(a.topic);
    encode_utf8_decode_utf8(b.topic);
}

/// How the parts of a delivery are found again in its key.
proof fn lemma_key_parts(d: Delivered)
    requires
        d.fits(),
    ensures
        ({
            let key = message_key(d);
            let after_time = key.subrange(8, key.len() as int);
            &&& key.len() >= 8
            &&& le_value(key.subrange(0, 8)) == twos(d.seen_at as int)
            &&& take_field(after_time) is Some
            &&& take_field(after_time).unwrap().0 == d.data
            &&& take_field(take_field(after_time).unwrap().1) is Some
            &&& take_field(take_field(after_time).unwrap().1).unwrap().0 == encode_utf8(d.topic)
            &&& ({
                let last = take_field(take_field(after_time).unwrap().1).unwrap().1;
                match d.source {
                    Some(peer) => last.len() > 0 && last[0] == 1 && take_field(
                        last.subrange(1, last.len() as int),
                    ) == Some((peer, Seq::<u8>::empty())),
                    None => last == seq![0u8],
                }
            })
        }),
{
    let key = message_key(d);
    let time = le_bytes(twos(d.seen_at as int), 8);
    let last = match d.source {
        Some(peer) => seq![1u8] + field(peer),
        None => seq![0u8],
    };
    let after_data = field(encode_utf8(d.topic)) + last;
    let after_time = field(d.data) + after_data;
    lemma_pow256_values();
    lemma_le_bytes_len(twos(d.seen_at as int), 8);
    lemma_le_value_of_bytes(twos(d.seen_at as int), 8);
    assert(key =~= time + after_time);
    assert(key.subrange(0, 8) =~= time);
    assert(key.subrange(8, key.len() as int) =~= after_time);
    lemma_take_field(d.data, after_data);
    lemma_take_field(encode_utf8(d.topic), last);
    match d.source {
        Some(peer) => {
            lemma_take_field(peer, Seq::empty());
            assert(last.subrange(1, last.len() as int) =~= field(peer) + Seq::<u8>::empty());
        },
        None => {},
    }
}

/// The bytes whose hash identifies a delivery.
pub fn message_key_of(seen_at: i64, data: &[u8], topic: &str, source: Option<&PeerId>) -> (key:
    Vec<u8>)
    ensures
        key@ == message_key(
            Delivered {
                seen_at,
                data: data@,
                topic: topic@,
                source: match source {
                    Some(peer) => Some(peer@),
                    None => None,
                },
            },
        ),
{
    let mut key: Vec<u8> = Vec::new();
    put_u64(&mut key, i64_bits(seen_at));
    put_field(&mut key, data);
    put_field(&mut key, topic.as_bytes());
    match source {
        Some(peer) => {
            key.push(1u8);
            put_field(&mut key, peer.as_bytes());
        },
        None => {
            key.push(0u8);
        },
    }
    proof {
        let d = Delivered {
            seen_at,
            data: data@,
            topic: topic@,
            source: match source {
                Some(peer) => Some(peer@),
                None => None,
            },
        };
        assert(key@ =~= message_key(d));
    }
    key
}

} // verus!
