//! Messages and their wire representation.
//!
//! A message travels as a compact binary record of five parts, in this
//! order: the id as a field of sixteen bytes, the author's name as a field
//! of UTF-8, the author's peer identifier as a field of bytes, the content as
//! a field of UTF-8, and the timestamp as eight bytes. Bytes that follow the
//! record are ignored when it is read.
use vstd::prelude::*;
use vstd::slice::slice_subrange;
use vstd::slice::slice_to_vec;
use vstd::utf8::decode_utf8;
use vstd::utf8::decode_utf8_encode_utf8;
use vstd::utf8::encode_utf8;
use vstd::utf8::encode_utf8_decode_utf8;
use vstd::utf8::encode_utf8_valid_utf8;
use vstd::utf8::valid_utf8;
use crate::peer::is_peer_id;
use crate::peer::PeerId;
use crate::wire::be_bytes;
use crate::wire::be_value;
use crate::wire::field;
use crate::wire::field_bounds;
use crate::wire::get_u128_be;
use crate::wire::get_u64;
use crate::wire::i64_bits;
use crate::wire::i64_from_bits;
use crate::wire::le_bytes;
use crate::wire::le_value;
use crate::wire::lemma_be_bytes_of_value;
use crate::wire::lemma_be_round_trip;
use crate::wire::lemma_field_of_taken;
use crate::wire::lemma_le_bytes_len;
use crate::wire::lemma_le_bytes_of_value;
use crate::wire::lemma_le_value_of_bytes;
use crate::wire::lemma_pow256_values;
use crate::wire::lemma_take_field;
use crate::wire::pow256;
use crate::wire::put_field;
use crate::wire::put_u128_be;
use crate::wire::put_u64;
use crate::wire::take_field;
use crate::wire::twos;
use crate::wire::untwos;

verus! {

/// Whether `id` is a random identifier as the standard lays it out: the
/// four bits of the version say four, and the two bits of the variant say
/// one and zero. The other hundred and twenty-two bits are free.
pub open spec fn is_random_id(id: u128) -> bool {
    id & 0xf000_c000_0000_0000_0000u128 == 0x4000_8000_0000_0000_0000u128
}

/// Calls `uuid::Uuid::new_v4` and `Uuid::as_u128`: a random identifier.
/// Whatever the randomness, the call sets the version to four and the
/// variant to that of the standard.
#[verifier::external_body]
pub(crate) fn fresh_id() -> (id: u128)
    ensures
        is_random_id(id),
{
    uuid::Uuid::new_v4().as_u128()
}

/// Calls `chrono::Utc::now` and `DateTime::timestamp_millis`: the wall
/// clock, in milliseconds since the epoch. Nothing holds of it on every
/// call. The call takes no argument; chrono gives up only on a machine
/// whose clock stands before the epoch.
#[verifier::external_body]
pub(crate) fn now_millis() -> (now: i64) {
    chrono::Utc::now().timestamp_millis()
}

/// Calls `String::from_utf8`: the text that `bytes` encode, where they are
/// UTF-8.
#[verifier::external_body]
fn text_of_utf8(bytes: Vec<u8>) -> (text: Option<String>)
    ensures
        text is Some <==> valid_utf8(bytes@),
        text matches Some(t) ==> t@ == decode_utf8(bytes@),
{
    match String::from_utf8(bytes) {
        Ok(text) => Some(text),
        Err(_) => None,
    }
}

/// Appends a peer identifier as a field of its bytes.
pub fn serialize_peer_id(peer_id: &PeerId, out: &mut Vec<u8>)
    ensures
        final(out)@ == old(out)@ + field(peer_id@),
        is_peer_id(peer_id@),
{
    put_field(out, peer_id.as_bytes());
}

/// The peer identifier that `bytes` spell, where they spell one.
pub fn deserialize_peer_id(bytes: &[u8]) -> (peer_id: Option<PeerId>)
    ensures
        peer_id is Some <==> is_peer_id(bytes@),
        peer_id matches Some(p) ==> p@ == bytes@,
{
    PeerId::from_bytes(slice_to_vec(bytes))
}

/// An authored, timestamped text message.
#[derive(Debug, PartialEq, Eq)]
pub struct Message {
    pub id: u128,
    author_name: String,
    author_id: PeerId,
    content: String,
    timestamp: i64,
}

/// A [`Message`] as mathematics.
pub struct MessageView {
    pub id: u128,
    pub author_name: Seq<char>,
    pub author_id: Seq<u8>,
    pub content: Seq<char>,
    pub timestamp: i64,
}

impl MessageView {
    /// What holds of every message that can be built: its author is a peer
    /// identifier, and each part is short enough for its length to be
    /// written in eight bytes.
    pub open spec fn wf(self) -> bool {
        &&& is_peer_id(self.author_id)
        &&& encode_utf8(self.author_name).len() < pow256(8)
        &&& self.author_id.len() < pow256(8)
        &&& encode_utf8(self.content).len() < pow256(8)
    }
}

impl View for Message {
    type V = MessageView;

    closed spec fn view(&self) -> MessageView {
        MessageView {
            id: self.id,
            author_name: self.author_name@,
            author_id: self.author_id@,
            content: self.content@,
            timestamp: self.timestamp,
        }
    }
}

/// The five parts of a record, as the bytes that stand on the wire.
pub struct Record {
    pub id: Seq<u8>,
    pub author_name: Seq<u8>,
    pub author_id: Seq<u8>,
    pub content: Seq<u8>,
    pub timestamp: Seq<u8>,
}

impl Record {
    /// Each field is short enough for its length to be written in eight
    /// bytes, and the timestamp has eight.
    pub open spec fn fits(self) -> bool {
        &&& self.id.len() < pow256(8)
        &&& self.author_name.len() < pow256(8)
        &&& self.author_id.len() < pow256(8)
        &&& self.content.len() < pow256(8)
        &&& self.timestamp.len() == 8
    }
}

/// The parts laid out one after the other.
pub open spec fn framing(r: Record) -> Seq<u8> {
    field(r.id) + field(r.author_name) + field(r.author_id) + field(r.content) + r.timestamp
}

/// The parts that `bytes` begin with, where they begin with a whole record.
pub open spec fn unframing(bytes: Seq<u8>) -> Option<Record> {
    match take_field(bytes) {
        None => None,
        Some((id, after_id)) => match take_field(after_id) {
            None => None,
            Some((author_name, after_name)) => match take_field(after_name) {
                None => None,
                Some((author_id, after_author)) => match take_field(after_author) {
                    None => None,
                    Some((content, after_content)) => if after_content.len() < 8 {
                        None
                    } else {
                        Some(
                            Record {
                                id,
                                author_name,
                                author_id,
                                content,
                                timestamp: after_content.subrange(0, 8),
                            },
                        )
                    },
                },
            },
        },
    }
}

/// The parts of a message.
pub open spec fn record_of(m: MessageView) -> Record {
    Record {
        id: be_bytes(m.id as nat, 16),
        author_name: encode_utf8(m.author_name),
        author_id: m.author_id,
        content: encode_utf8(m.content),
        timestamp: le_bytes(twos(m.timestamp as int), 8),
    }
}

/// The message that the parts spell, where they spell one: the id has
/// sixteen bytes, name and content are UTF-8, and the author is a peer
/// identifier.
pub open spec fn message_of(r: Record) -> Option<MessageView> {
    if r.id.len() == 16 && valid_utf8(r.author_name) && is_peer_id(r.author_id) && valid_utf8(
        r.content,
    ) {
        Some(
            MessageView {
                id: be_value(r.id) as u128,
                author_name: decode_utf8(r.author_name),
                author_id: r.author_id,
                content: decode_utf8(r.content),
                timestamp: untwos(le_value(r.timestamp)) as i64,
            },
        )
    } else {
        None
    }
}

/// The bytes that carry a message.
pub open spec fn encoding(m: MessageView) -> Seq<u8> {
    framing(record_of(m))
}

/// The message that `bytes` carry, if they carry one.
pub open spec fn decoding(bytes: Seq<u8>) -> Option<MessageView> {
    match unframing(bytes) {
        Some(r) => message_of(r),
        None => None,
    }
}

/// Parts that were laid out are found again, whatever follows them.
pub proof fn lemma_unframing_of_framing(r: Record, tail: Seq<u8>)
    requires
        r.fits(),
    ensures
        unframing(framing(r) + tail) == Some(r),
{
    let bytes = framing(r) + tail;
    let after_content = r.timestamp + tail;
    let after_author = field(r.content) + after_content;
    let after_name = field(r.author_id) + after_author;
    let after_id = field(r.author_name) + after_name;
    assert(bytes =~= field(r.id) + after_id);
    lemma_take_field(r.id, after_id);
    lemma_take_field(r.author_name, after_name);
    lemma_take_field(r.author_id, after_author);
    lemma_take_field(r.content, after_content);
    assert(after_content.subrange(0, 8) =~= r.timestamp);
}

/// Parts that were found lie at the front of the bytes they were found in.
pub proof fn lemma_framing_of_unframing(bytes: Seq<u8>)
    requires
        unframing(bytes) is Some,
    ensures
        unframing(bytes).unwrap().fits(),
        exists|tail: Seq<u8>| bytes == framing(unframing(bytes).unwrap()) + tail,
{
    let r = unframing(bytes).unwrap();
    let after_id = take_field(bytes).unwrap().1;
    let after_name = take_field(after_id).unwrap().1;
    let after_author = take_field(after_name).unwrap().1;
    let after_content = take_field(after_author).unwrap().1;
    lemma_field_of_taken(bytes);
    lemma_field_of_taken(after_id);
    lemma_field_of_taken(after_name);
    lemma_field_of_taken(after_author);
    let tail = after_content.subrange(8, after_content.len() as int);
    assert(after_content =~= r.timestamp + tail);
    assert(bytes =~= framing(r) + tail);
}

/// The parts of a message spell that message.
pub proof fn lemma_message_of_record(m: MessageView)
    requires
        m.wf(),
    ensures
        record_of(m).fits(),
        message_of(record_of(m)) == Some(m),
{
    lemma_pow256_values();
    lemma_be_round_trip(m.id as nat, 16);
    encode_utf8_valid_utf8(m.author_name);
    encode_utf8_valid_utf8(m.content);
    encode_utf8_decode_utf8(m.author_name);
    encode_utf8_decode_utf8(m.content);
    lemma_le_bytes_len(twos(m.timestamp as int), 8);
    lemma_le_value_of_bytes(twos(m.timestamp as int), 8);
}

/// Parts that spell a message are the parts of that message.
pub proof fn lemma_record_of_message(r: Record)
    requires
        r.fits(),
        message_of(r) is Some,
    ensures
        message_of(r).unwrap().wf(),
        record_of(message_of(r).unwrap()) == r,
{
    lemma_pow256_values();
    lemma_be_bytes_of_value(r.id);
    decode_utf8_encode_utf8(r.author_name);
    decode_utf8_encode_utf8(r.content);
    lemma_le_bytes_of_value(r.timestamp);
}

/// Round trip: the bytes of a message carry that message, field for field,
/// whatever follows them.
pub proof fn lemma_decoding_of_encoding(m: MessageView, tail: Seq<u8>)
    requires
        m.wf(),
    ensures
        decoding(encoding(m)) == Some(m),
        decoding(encoding(m) + tail) == Some(m),
{
    lemma_message_of_record(m);
    lemma_unframing_of_framing(record_of(m), tail);
    lemma_unframing_of_framing(record_of(m), Seq::empty());
    assert(encoding(m) + Seq::<u8>::empty() =~= encoding(m));
}

/// Bytes that carry a message begin with the bytes of that message, and the
/// message is one that can be built.
pub proof fn lemma_encoding_of_decoding(bytes: Seq<u8>)
    requires
        decoding(bytes) is Some,
    ensures
        decoding(bytes).unwrap().wf(),
        exists|tail: Seq<u8>| bytes == encoding(decoding(bytes).unwrap()) + tail,
{
    let r = unframing(bytes).unwrap();
    assert(decoding(bytes) == message_of(r));
    lemma_framing_of_unframing(bytes);
    lemma_record_of_message(r);
    let m = message_of(r).unwrap();
    let tail = choose|tail: Seq<u8>| bytes == framing(r) + tail;
    assert(encoding(m) == framing(r));
    assert(bytes == encoding(m) + tail);
}

/// Two messages with the same bytes are the same message.
pub proof fn lemma_encoding_injective(a: MessageView, b: MessageView)
    requires
        a.wf(),
        b.wf(),
        encoding(a) == encoding(b),
    ensures
        a == b,
{
    lemma_decoding_of_encoding(a, Seq::empty());
    lemma_decoding_of_encoding(b, Seq::empty());
}

impl Clone for Message {
    fn clone(&self) -> (copy: Self)
        ensures
            copy@ == self@,
    {
        Message {
            id: self.id,
            author_name: self.author_name.clone(),
            author_id: self.author_id.clone(),
            content: self.content.clone(),
            timestamp: self.timestamp,
        }
    }
}

impl Message {
    /// A message by `author_name`, whose peer is `author_id`, with a new
    /// random id, laid out as the standard lays out a random identifier, and
    /// the wall clock's time.
    pub fn new(author_name: String, author_id: PeerId, content: String) -> (m: Message)
        ensures
            is_random_id(m@.id),
            m@.author_name == author_name@,
            m@.author_id == author_id@,
            m@.content == content@,
            m@.wf(),
    {
        Message::stamped(fresh_id(), author_name, author_id, content, now_millis())
    }

    /// The message with exactly these parts.
    pub fn stamped(
        id: u128,
        author_name: String,
        author_id: PeerId,
        content: String,
        timestamp: i64,
    ) -> (m: Message)
        ensures
            m@ == (MessageView {
                id,
                author_name: author_name@,
                author_id: author_id@,
                content: content@,
                timestamp,
            }),
            m@.wf(),
    {
        let m = Message { id, author_name, author_id, content, timestamp };
        m.note_wf();
        m
    }

    /// Notes that the parts are short enough: each length is one that the
    /// machine can hold.
    fn note_wf(&self)
        ensures
            self@.wf(),
    {
        let name: &[u8] = self.author_name.as_str().as_bytes();
        let author: &[u8] = self.author_id.as_bytes();
        let content: &[u8] = self.content.as_str().as_bytes();
        proof {
            lemma_pow256_values();
            vstd::slice::axiom_spec_len(name);
            vstd::slice::axiom_spec_len(author);
            vstd::slice::axiom_spec_len(content);
        }
    }

    pub fn id(&self) -> (id: u128)
        ensures
            id == self@.id,
    {
        self.id
    }

    pub fn author_name(&self) -> (name: &str)
        ensures
            name@ == self@.author_name,
    {
        self.author_name.as_str()
    }

    pub fn author_id(&self) -> (id: &PeerId)
        ensures
            id@ == self@.author_id,
    {
        &self.author_id
    }

    pub fn content(&self) -> (content: &str)
        ensures
            content@ == self@.content,
    {
        self.content.as_str()
    }

    pub fn timestamp(&self) -> (timestamp: i64)
        ensures
            timestamp == self@.timestamp,
    {
        self.timestamp
    }

    /// The bytes that carry the message. Read back, they give the message
    /// again, field for field.
    pub fn encode(&self) -> (bytes: Vec<u8>)
        ensures
            bytes@ == encoding(self@),
            decoding(bytes@) == Some(self@),
            self@.wf(),
    {
        self.note_wf();
        let mut id: Vec<u8> = Vec::new();
        put_u128_be(&mut id, self.id);
        let mut out: Vec<u8> = Vec::new();
        put_field(&mut out, id.as_slice());
        put_field(&mut out, self.author_name.as_str().as_bytes());
        serialize_peer_id(&self.author_id, &mut out);
        put_field(&mut out, self.content.as_str().as_bytes());
        put_u64(&mut out, i64_bits(self.timestamp));
        proof {
            assert(id@ =~= be_bytes(self.id as nat, 16));
            assert(out@ =~= encoding(self@));
            lemma_decoding_of_encoding(self@, Seq::empty());
        }
        out
    }

    /// The message that `bytes` carry: `Some` exactly where they begin with
    /// a whole record whose id has sixteen bytes, whose name and content are
    /// UTF-8 and whose author is a peer identifier.
    pub fn decode(bytes: &[u8]) -> (m: Option<Message>)
        ensures
            match decoding(bytes@) {
                Some(v) => m matches Some(got) && got@ == v && v.wf(),
                None => m is None,
            },
    {
        let len: usize = bytes.len();
        proof {
            assert(bytes@.subrange(0, len as int) =~= bytes@);
            if decoding(bytes@) is Some {
                lemma_encoding_of_decoding(bytes@);
            }
        }
        let (id_start, id_end) = match field_bounds(bytes, 0) {
            Some(bounds) => bounds,
            None => { return None; },
        };
        let (name_start, name_end) = match field_bounds(bytes, id_end) {
            Some(bounds) => bounds,
            None => { return None; },
        };
        let (author_start, author_end) = match field_bounds(bytes, name_end) {
            Some(bounds) => bounds,
            None => { return None; },
        };
        let (content_start, content_end) = match field_bounds(bytes, author_end) {
            Some(bounds) => bounds,
            None => { return None; },
        };
        if len - content_end < 8 {
            return None;
        }
        proof {
            assert(bytes@.subrange(content_end as int, len as int).subrange(0, 8) =~= bytes@.subrange(
                content_end as int,
                content_end + 8,
            ));
        }
        if id_end - id_start != 16 {
            return None;
        }
        let id: u128 = get_u128_be(bytes, id_start);
        let author_name = match text_of_utf8(
            slice_to_vec(slice_subrange(bytes, name_start, name_end)),
        ) {
            Some(text) => text,
            None => { return None; },
        };
        let author_id = match deserialize_peer_id(
            slice_subrange(bytes, author_start, author_end),
        ) {
            Some(id) => id,
            None => { return None; },
        };
        let content = match text_of_utf8(
            slice_to_vec(slice_subrange(bytes, content_start, content_end)),
        ) {
            Some(text) => text,
            None => { return None; },
        };
        let timestamp: i64 = i64_from_bits(get_u64(bytes, content_end));
        Some(Message { id, author_name, author_id, content, timestamp })
    }
}

} // verus!
