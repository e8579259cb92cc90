//! The message value and its identifiers.
use rand::seq::SliceRandom;
use vstd::prelude::*;
use vstd::utf8::*;

verus! {

/// A message: a topic, an identifier and an opaque payload.
#[derive(Debug, Clone)]
pub struct Message {
    /// Categorises the message for its recipients.
    pub topic: String,
    /// Identifies this message.
    pub id: String,
    /// The content.
    pub payload: Vec<u8>,
}

/// What a message holds, as mathematical values.
pub struct MessageView {
    pub topic: Seq<char>,
    pub id: Seq<char>,
    pub payload: Seq<u8>,
}

impl View for Message {
    type V = MessageView;

    open spec fn view(&self) -> MessageView {
        MessageView { topic: self.topic@, id: self.id@, payload: self.payload@ }
    }
}

impl PartialEq for Message {
    /// Two messages are equal when all three fields are equal.
    fn eq(&self, other: &Message) -> (r: bool) {
        self.topic == other.topic && self.id == other.id && bytes_equal(&self.payload, &other.payload)
    }
}

impl vstd::std_specs::cmp::PartialEqSpecImpl for Message {
    open spec fn obeys_eq_spec() -> bool {
        true
    }

    open spec fn eq_spec(&self, other: &Message) -> bool {
        self@ == other@
    }
}

/// Whether two byte vectors hold the same bytes.
pub fn bytes_equal(a: &Vec<u8>, b: &Vec<u8>) -> (r: bool)
    ensures
        r == (a@ == b@),
{
    if a.len() != b.len() {
        return false;
    }
    let mut i: usize = 0;
    while i < a.len()
        invariant
            a@.len() == b@.len(),
            i <= a@.len(),
            a@.subrange(0, i as int) == b@.subrange(0, i as int),
        decreases a@.len() - i,
    {
        if a[i] != b[i] {
            assert(a@.subrange(0, a@.len() as int)[i as int] != b@.subrange(0, a@.len() as int)[i as int]);
            assert(a@.subrange(0, a@.len() as int) =~= a@);
            assert(b@.subrange(0, b@.len() as int) =~= b@);
            return false;
        }
        assert(a@.subrange(0, i + 1) =~= a@.subrange(0, i as int).push(a@[i as int]));
        assert(b@.subrange(0, i + 1) =~= b@.subrange(0, i as int).push(b@[i as int]));
        i = i + 1;
    }
    assert(a@.subrange(0, a@.len() as int) =~= a@);
    assert(b@.subrange(0, b@.len() as int) =~= b@);
    true
}

/// Number of characters in an identifier.
pub const UID_LEN: usize = 19;

/// A byte that may stand in an identifier group: `A`-`Z` or `0`-`9`.
pub open spec fn is_uid_byte(b: u8) -> bool {
    (0x41 <= b <= 0x5a) || (0x30 <= b <= 0x39)
}

/// Nineteen bytes: four groups of four identifier bytes joined by hyphens.
pub open spec fn is_uid_bytes(b: Seq<u8>) -> bool {
    &&& b.len() == UID_LEN
    &&& forall|i: int|
        0 <= i < UID_LEN ==> if i % 5 == 4 {
            #[trigger] b[i] == 0x2d
        } else {
            is_uid_byte(b[i])
        }
}

/// An identifier as characters: its UTF-8 bytes form an identifier.
pub open spec fn is_uid(s: Seq<char>) -> bool {
    is_uid_bytes(encode_utf8(s))
}

/// Relies on rand's `SliceRandom::choose` with the thread-local generator: on a
/// non-empty slice it returns one of its elements.
#[verifier::external_body]
fn random_choice(items: &[u8]) -> (r: u8)
    requires
        items@.len() > 0,
    ensures
        items@.contains(r),
{
    *items.choose(&mut rand::thread_rng()).unwrap()
}

/// Relies on `String::from_utf8`: it accepts exactly the valid UTF-8 byte
/// vectors, and the string it returns is made of those bytes.
#[verifier::external_body]
pub(crate) fn string_from_utf8(bytes: Vec<u8>) -> (r: Option<String>)
    ensures
        r is Some <==> valid_utf8(bytes@),
        r matches Some(s) ==> encode_utf8(s@) == bytes@,
{
    String::from_utf8(bytes).ok()
}

/// ASCII bytes are their own UTF-8 encoding.
proof fn lemma_ascii_valid_utf8(b: Seq<u8>)
    requires
        forall|i: int| 0 <= i < b.len() ==> #[trigger] b[i] < 0x80,
    ensures
        valid_utf8(b),
{
    let chars = Seq::new(b.len(), |i: int| b[i] as char);
    assert(is_ascii_chars(chars));
    is_ascii_chars_encode_utf8(chars);
    assert(encode_utf8(chars) =~= b);
    encode_utf8_valid_utf8(chars);
}

/// Generates a random identifier: four groups of four upper-case letters or
/// digits, joined by hyphens.
pub fn generate_zark_uid() -> (r: String)
    ensures
        is_uid(r@),
{
    let mut alphabet: Vec<u8> = Vec::new();
    let mut c: u8 = 0x41;
    while c <= 0x5a
        invariant
            0x41 <= c <= 0x5b,
            alphabet@.len() > 0 || c == 0x41,
            forall|k: int| 0 <= k < alphabet@.len() ==> is_uid_byte(#[trigger] alphabet@[k]),
        decreases 0x5b - c,
    {
        alphabet.push(c);
        c = c + 1;
    }
    let mut d: u8 = 0x30;
    while d <= 0x39
        invariant
            0x30 <= d <= 0x3a,
            alphabet@.len() > 0,
            forall|k: int| 0 <= k < alphabet@.len() ==> is_uid_byte(#[trigger] alphabet@[k]),
        decreases 0x3a - d,
    {
        alphabet.push(d);
        d = d + 1;
    }
    let mut uid: Vec<u8> = Vec::new();
    let mut i: usize = 0;
    while i < UID_LEN
        invariant
            i <= UID_LEN,
            uid@.len() == i,
            alphabet@.len() > 0,
            forall|k: int| 0 <= k < alphabet@.len() ==> is_uid_byte(#[trigger] alphabet@[k]),
            forall|k: int|
                0 <= k < i ==> if k % 5 == 4 {
                    #[trigger] uid@[k] == 0x2d
                } else {
                    is_uid_byte(uid@[k])
                },
        decreases UID_LEN - i,
    {
        if i % 5 == 4 {
            uid.push(0x2d);
        } else {
            let b = random_choice(alphabet.as_slice());
            uid.push(b);
        }
        i = i + 1;
    }
    proof {
        assert forall|k: int| 0 <= k < uid@.len() implies #[trigger] uid@[k] < 0x80 by {
            if k % 5 == 4 {
            } else {
            }
        }
        lemma_ascii_valid_utf8(uid@);
    }
    match string_from_utf8(uid) {
        Some(s) => s,
        None => {
            proof {
                assert(false);
            }
            String::new()
        },
    }
}

impl Message {
    /// Builds a message on `topic` with a freshly generated identifier.
    pub fn new(topic: String, payload: Vec<u8>) -> (r: Message)
        ensures
            r.topic@ == topic@,
            r.payload@ == payload@,
            is_uid(r.id@),
    {
        Message { topic, id: generate_zark_uid(), payload }
    }
}

} // verus!
