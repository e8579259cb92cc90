//! The codec contract, and the canonical length-prefixed encoding of a
//! message: three runs (topic, id, payload), each a 4-byte little-endian
//! length followed by that many bytes.
use vstd::prelude::*;
use vstd::utf8::*;
use crate::bytes::{append_range, get_u32_le, le_at, le_bytes, lemma_le_round_trip, put_u32_le};
use crate::error::MessengerError;
use crate::message::{Message, MessageView, string_from_utf8};

verus! {

/// A run: the little-endian length of `b`, then `b`.
pub open spec fn run(b: Seq<u8>) -> Seq<u8> {
    le_bytes(b.len() as u32) + b
}

/// Whether the length of `b` fits a 4-byte prefix.
pub open spec fn fits_run(b: Seq<u8>) -> bool {
    b.len() <= u32::MAX
}

/// Whether the canonical encoding can hold `m`.
pub open spec fn encodable(m: MessageView) -> bool {
    fits_run(encode_utf8(m.topic)) && fits_run(encode_utf8(m.id)) && fits_run(m.payload)
}

/// The canonical encoding of `m`.
pub open spec fn encode_message(m: MessageView) -> Seq<u8> {
    run(encode_utf8(m.topic)) + run(encode_utf8(m.id)) + run(m.payload)
}

/// Where the run that starts at `pos` ends, if its prefix and body fit in `b`.
pub open spec fn run_end(b: Seq<u8>, pos: int) -> Option<int> {
    if 0 <= pos && pos + 4 <= b.len() && pos + 4 + le_at(b, pos) <= b.len() {
        Some(pos + 4 + le_at(b, pos))
    } else {
        None
    }
}

/// The message that `b` encodes, if any: three runs whose first two hold
/// valid UTF-8. Bytes after the third run are not read.
pub open spec fn decode_message(b: Seq<u8>) -> Option<MessageView> {
    match run_end(b, 0) {
        None => None,
        Some(e1) => match run_end(b, e1) {
            None => None,
            Some(e2) => match run_end(b, e2) {
                None => None,
                Some(e3) => {
                    let t = b.subrange(4, e1);
                    let i = b.subrange(e1 + 4, e2);
                    if valid_utf8(t) && valid_utf8(i) {
                        Some(
                            MessageView {
                                topic: decode_utf8(t),
                                id: decode_utf8(i),
                                payload: b.subrange(e2 + 4, e3),
                            },
                        )
                    } else {
                        None
                    }
                },
            },
        },
    }
}

/// A run of `x` placed at `pos` is read back as `x`.
proof fn lemma_run_at(b: Seq<u8>, pos: int, x: Seq<u8>)
    requires
        0 <= pos,
        fits_run(x),
        pos + 4 + x.len() <= b.len(),
        b.subrange(pos, pos + 4 + x.len() as int) == run(x),
    ensures
        run_end(b, pos) == Some(pos + 4 + x.len() as int),
        b.subrange(pos + 4, pos + 4 + x.len() as int) == x,
{
    let r = run(x);
    let l = le_bytes(x.len() as u32);
    lemma_le_round_trip(x.len() as u32);
    assert(r[0] == l[0] && r[1] == l[1] && r[2] == l[2] && r[3] == l[3]);
    assert(b[pos] == r[0] && b[pos + 1] == r[1] && b[pos + 2] == r[2] && b[pos + 3] == r[3]);
    assert(le_at(b, pos) == le_at(l, 0));
    assert(b.subrange(pos + 4, pos + 4 + x.len() as int) =~= r.subrange(4, 4 + x.len() as int));
    assert(r.subrange(4, 4 + x.len() as int) =~= x);
}

/// Three runs are read back as the runs' contents.
proof fn lemma_decode_runs(t: Seq<u8>, i: Seq<u8>, p: Seq<u8>)
    requires
        fits_run(t),
        fits_run(i),
        fits_run(p),
        valid_utf8(t),
        valid_utf8(i),
    ensures
        decode_message(run(t) + run(i) + run(p)) == Some(
            MessageView { topic: decode_utf8(t), id: decode_utf8(i), payload: p },
        ),
{
    let b = run(t) + run(i) + run(p);
    let e1: int = 4 + t.len() as int;
    let e2: int = e1 + 4 + i.len() as int;
    let e3: int = e2 + 4 + p.len() as int;
    assert(b.subrange(0, e1) =~= run(t));
    assert(b.subrange(e1, e2) =~= run(i));
    assert(b.subrange(e2, e3) =~= run(p));
    lemma_run_at(b, 0, t);
    lemma_run_at(b, e1, i);
    lemma_run_at(b, e2, p);
}

/// Decoding the canonical encoding of a message gives the message back.
pub proof fn lemma_decode_encode(m: MessageView)
    requires
        encodable(m),
    ensures
        decode_message(encode_message(m)) == Some(m),
{
    encode_utf8_valid_utf8(m.topic);
    encode_utf8_valid_utf8(m.id);
    encode_utf8_decode_utf8(m.topic);
    encode_utf8_decode_utf8(m.id);
    lemma_decode_runs(encode_utf8(m.topic), encode_utf8(m.id), m.payload);
}

/// Appends a run holding `bytes`.
fn put_run(out: &mut Vec<u8>, bytes: &[u8])
    requires
        fits_run(bytes@),
    ensures
        final(out)@ == old(out)@ + run(bytes@),
{
    put_u32_le(out, bytes.len() as u32);
    append_range(out, bytes, 0, bytes.len());
    assert(bytes@.subrange(0, bytes@.len() as int) =~= bytes@);
    assert(final(out)@ =~= old(out)@ + run(bytes@));
}

/// Reads the length prefix at `pos` and returns where that run ends.
fn read_run_end(data: &[u8], pos: usize) -> (r: Option<usize>)
    requires
        pos <= data@.len(),
    ensures
        r matches Some(e) ==> run_end(data@, pos as int) == Some(e as int),
        r is None ==> run_end(data@, pos as int) is None,
{
    let n = data.len();
    if n - pos < 4 {
        return None;
    }
    let len = get_u32_le(data, pos) as usize;
    if len > n - pos - 4 {
        None
    } else {
        Some(pos + 4 + len)
    }
}

fn incomplete() -> (e: MessengerError)
    ensures
        e is Deserialization,
{
    MessengerError::Deserialization("incomplete data".to_string())
}

fn not_text() -> (e: MessengerError)
    ensures
        e is Deserialization,
{
    MessengerError::Deserialization("topic or id is not valid UTF-8".to_string())
}

/// Reads `data[start..end]` as UTF-8 text.
fn read_text(data: &[u8], start: usize, end: usize) -> (r: Option<String>)
    requires
        start <= end <= data@.len(),
    ensures
        r is Some <==> valid_utf8(data@.subrange(start as int, end as int)),
        r matches Some(s) ==> s@ == decode_utf8(data@.subrange(start as int, end as int)),
{
    let mut bytes: Vec<u8> = Vec::new();
    append_range(&mut bytes, data, start, end);
    assert(bytes@ =~= data@.subrange(start as int, end as int));
    let r = string_from_utf8(bytes);
    proof {
        if r is Some {
            encode_utf8_decode_utf8(r->Some_0@);
        }
    }
    r
}

/// A value with a byte encoding of its own.
pub trait Serializable: Sized {
    fn serialize(&self) -> Result<Vec<u8>, MessengerError>;

    fn deserialize(data: &[u8]) -> Result<Self, MessengerError>;
}

impl Serializable for Message {
    /// The canonical encoding; fails when a field is longer than a 4-byte
    /// length can state.
    fn serialize(&self) -> (r: Result<Vec<u8>, MessengerError>)
        ensures
            encodable(self@) ==> r is Ok && r->Ok_0@ == encode_message(self@),
            !encodable(self@) ==> r is Err && r->Err_0 is Serialization,
    {
        let topic = self.topic.as_str().as_bytes();
        let id = self.id.as_str().as_bytes();
        let payload = self.payload.as_slice();
        if topic.len() as u64 > 0xffff_ffffu64 || id.len() as u64 > 0xffff_ffffu64 || payload.len() as u64
            > 0xffff_ffffu64 {
            return Err(MessengerError::Serialization("a field is longer than a 4-byte length can state".to_string()));
        }
        let mut out: Vec<u8> = Vec::new();
        put_run(&mut out, topic);
        put_run(&mut out, id);
        put_run(&mut out, payload);
        assert(out@ =~= encode_message(self@));
        Ok(out)
    }

    /// Decodes the canonical encoding; fails when a declared length overruns
    /// the input or the topic or id is not UTF-8.
    fn deserialize(data: &[u8]) -> (r: Result<Message, MessengerError>)
        ensures
            r is Ok <==> decode_message(data@) is Some,
            r matches Ok(m) ==> m@ == decode_message(data@)->Some_0,
            r matches Err(e) ==> e is Deserialization,
    {
        let e1 = match read_run_end(data, 0) {
            Some(e) => e,
            None => return Err(incomplete()),
        };
        let topic = match read_text(data, 4, e1) {
            Some(s) => s,
            None => return Err(not_text()),
        };
        let e2 = match read_run_end(data, e1) {
            Some(e) => e,
            None => return Err(incomplete()),
        };
        let id = match read_text(data, e1 + 4, e2) {
            Some(s) => s,
            None => return Err(not_text()),
        };
        let e3 = match read_run_end(data, e2) {
            Some(e) => e,
            None => return Err(incomplete()),
        };
        let mut payload: Vec<u8> = Vec::new();
        append_range(&mut payload, data, e2 + 4, e3);
        assert(payload@ =~= data@.subrange(e2 + 4, e3 as int));
        Ok(Message { topic, id, payload })
    }
}

impl Serializable for Vec<u8> {
    /// Raw bytes are their own encoding.
    fn serialize(&self) -> (r: Result<Vec<u8>, MessengerError>)
        ensures
            r matches Ok(b) && b@ == self@,
    {
        let mut out: Vec<u8> = Vec::new();
        append_range(&mut out, self.as_slice(), 0, self.len());
        assert(out@ =~= self@);
        Ok(out)
    }

    fn deserialize(data: &[u8]) -> (r: Result<Vec<u8>, MessengerError>)
        ensures
            r matches Ok(b) && b@ == data@,
    {
        let mut out: Vec<u8> = Vec::new();
        append_range(&mut out, data, 0, data.len());
        assert(out@ =~= data@);
        Ok(out)
    }
}

/// A codec that transports use to turn messages into bytes and back.
pub trait Serializer {
    /// The bytes this codec produces for `m`, or `None` where it cannot encode `m`.
    spec fn spec_encode(&self, m: MessageView) -> Option<Seq<u8>>;

    /// Encodes `msg`; fails exactly where the codec cannot encode it.
    fn serialize(&self, msg: &Message) -> (r: Result<Vec<u8>, MessengerError>)
        ensures
            self.spec_encode(msg@) matches Some(b) ==> (r matches Ok(v) && v@ == b),
            self.spec_encode(msg@) is None ==> (r matches Err(e) && e is Serialization),
    ;

    /// Decodes `data`; bytes that this codec produced for a message decode to
    /// that message.
    fn deserialize(&self, data: &[u8]) -> (r: Result<Message, MessengerError>)
        ensures
            forall|m: MessageView| #[trigger]
                self.spec_encode(m) == Some(data@) ==> (r matches Ok(x) && x@ == m),
            r matches Err(e) ==> e is Deserialization,
    ;
}

/// Whatever came back from decoding `bytes` with `codec`: the message it
/// encodes, where it is one, and otherwise a decoding error if anything fails.
pub open spec fn decoded_by<S: Serializer>(codec: S, bytes: Seq<u8>, r: Result<Message, MessengerError>) -> bool {
    &&& forall|m: MessageView| #[trigger] codec.spec_encode(m) == Some(bytes) ==> (r matches Ok(x) && x@ == m)
    &&& r matches Err(e) ==> e is Deserialization
}

/// The canonical length-prefixed codec.
pub struct BinarySerializer;

impl Serializer for BinarySerializer {
    open spec fn spec_encode(&self, m: MessageView) -> Option<Seq<u8>> {
        if encodable(m) {
            Some(encode_message(m))
        } else {
            None
        }
    }

    fn serialize(&self, msg: &Message) -> (r: Result<Vec<u8>, MessengerError>) {
        msg.serialize()
    }

    fn deserialize(&self, data: &[u8]) -> (r: Result<Message, MessengerError>)
        ensures
            r is Ok <==> decode_message(data@) is Some,
            r matches Ok(m) ==> m@ == decode_message(data@)->Some_0,
    {
        let r = Message::deserialize(data);
        proof {
            assert forall|m: MessageView| #[trigger]
                self.spec_encode(m) == Some(data@) implies (r matches Ok(x) && x@ == m) by {
                lemma_decode_encode(m);
            }
        }
        r
    }
}

} // verus!
