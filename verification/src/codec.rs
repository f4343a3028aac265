use crate::error::Error;
use crate::message::{MessageView, SecretMessage};
use vstd::bytes::{
    lemma_auto_spec_u16_to_from_le_bytes, lemma_auto_spec_u64_to_from_le_bytes,
    spec_u16_from_le_bytes, spec_u16_to_le_bytes, spec_u64_from_le_bytes, spec_u64_to_le_bytes,
    u16_from_le_bytes, u16_to_le_bytes, u64_from_le_bytes, u64_to_le_bytes,
};
use vstd::prelude::*;
use vstd::slice::{slice_subrange, slice_to_vec};
use vstd::utf8::{encode_utf8, encode_utf8_decode_utf8, encode_utf8_valid_utf8, valid_utf8};

verus! {

/// The most bytes that the stored form of a message may take.
pub const MAX_SIZE: usize = 1024;

/// The text of the error that [`SecretMessage::to_bytes`] returns.
pub open spec fn too_large_text() -> Seq<char> {
    "The message does not fit into 1024 bytes"@
}

/// The text of the error that [`SecretMessage::from_bytes`] returns.
pub open spec fn corrupt_text() -> Seq<char> {
    "The stored bytes are not a message"@
}

/// A length below 65536 as two bytes, the low one first.
pub open spec fn length_bytes(n: nat) -> Seq<u8> {
    spec_u16_to_le_bytes(n as u16)
}

/// A text as the length of its UTF-8 form followed by that form.
pub open spec fn text_bytes(s: Seq<char>) -> Seq<u8> {
    length_bytes(encode_utf8(s).len()) + encode_utf8(s)
}

/// An optional time as a tag byte, followed by the time where there is one.
pub open spec fn optional_bytes(t: Option<u64>) -> Seq<u8> {
    match t {
        None => seq![0u8],
        Some(v) => seq![1u8] + spec_u64_to_le_bytes(v),
    }
}

/// The stored form of a message: identifier, creation time, update time, content, key.
pub open spec fn encoding(m: MessageView) -> Seq<u8> {
    spec_u64_to_le_bytes(m.id) + spec_u64_to_le_bytes(m.created_at) + optional_bytes(m.updated_at)
        + text_bytes(m.encrypted_message) + text_bytes(m.secret_key)
}

/// How many bytes [`encoding`] takes.
pub open spec fn encoded_len(m: MessageView) -> nat {
    (16 + (if m.updated_at is Some { 9nat } else { 1nat }) + 2 + encode_utf8(
        m.encrypted_message,
    ).len() + 2 + encode_utf8(m.secret_key).len()) as nat
}

/// Whether the stored form of the message stays within [`MAX_SIZE`].
pub open spec fn fits(m: MessageView) -> bool {
    encoded_len(m) <= MAX_SIZE
}

/// The message that the bytes are the stored form of, if there is one.
pub open spec fn decoding(bytes: Seq<u8>) -> Option<MessageView> {
    if exists|m: MessageView| fits(m) && encoding(m) == bytes {
        Some(choose|m: MessageView| fits(m) && encoding(m) == bytes)
    } else {
        None
    }
}

/// Whether `chunk` stands in `bytes` from position `at` on.
spec fn holds_at(bytes: Seq<u8>, at: int, chunk: Seq<u8>) -> bool {
    &&& 0 <= at
    &&& at + chunk.len() <= bytes.len()
    &&& bytes.subrange(at, at + chunk.len()) == chunk
}

/// Where the content starts in the stored form of `m`.
spec fn content_at(m: MessageView) -> int {
    if m.updated_at is Some {
        25
    } else {
        17
    }
}

/// Where the key starts in the stored form of `m`.
spec fn key_at(m: MessageView) -> int {
    content_at(m) + 2 + encode_utf8(m.encrypted_message).len()
}

proof fn lemma_layout(m: MessageView)
    ensures
        encoding(m).len() == encoded_len(m),
        encoding(m).subrange(0, 8) == spec_u64_to_le_bytes(m.id),
        encoding(m).subrange(8, 16) == spec_u64_to_le_bytes(m.created_at),
        encoding(m)[16] == (if m.updated_at is Some { 1u8 } else { 0u8 }),
        m.updated_at matches Some(t) ==> encoding(m).subrange(17, 25) == spec_u64_to_le_bytes(t),
        holds_at(encoding(m), content_at(m), text_bytes(m.encrypted_message)),
        holds_at(encoding(m), key_at(m), text_bytes(m.secret_key)),
        key_at(m) + 2 + encode_utf8(m.secret_key).len() == encoding(m).len(),
{
    lemma_auto_spec_u64_to_from_le_bytes();
    lemma_auto_spec_u16_to_from_le_bytes();
    let e = encoding(m);
    let head = spec_u64_to_le_bytes(m.id) + spec_u64_to_le_bytes(m.created_at) + optional_bytes(
        m.updated_at,
    );
    let content = text_bytes(m.encrypted_message);
    let key = text_bytes(m.secret_key);
    assert(head.len() == content_at(m));
    assert(e == head + content + key);
    assert(e.subrange(0, 8) =~= spec_u64_to_le_bytes(m.id));
    assert(e.subrange(8, 16) =~= spec_u64_to_le_bytes(m.created_at));
    if let Some(t) = m.updated_at {
        assert(e.subrange(17, 25) =~= spec_u64_to_le_bytes(t));
    }
    assert(e.subrange(content_at(m), content_at(m) + content.len()) =~= content);
    assert(e.subrange(key_at(m), key_at(m) + key.len()) =~= key);
}

proof fn lemma_text_unique(bytes: Seq<u8>, at: int, a: Seq<char>, b: Seq<char>)
    requires
        encode_utf8(a).len() < 65536,
        encode_utf8(b).len() < 65536,
        holds_at(bytes, at, text_bytes(a)),
        holds_at(bytes, at, text_bytes(b)),
    ensures
        a == b,
{
    lemma_auto_spec_u16_to_from_le_bytes();
    let na = encode_utf8(a).len();
    let nb = encode_utf8(b).len();
    let ta = text_bytes(a);
    let tb = text_bytes(b);
    assert(ta.subrange(0, 2) =~= length_bytes(na));
    assert(tb.subrange(0, 2) =~= length_bytes(nb));
    assert(bytes.subrange(at, at + 2) =~= ta.subrange(0, 2));
    assert(bytes.subrange(at, at + 2) =~= tb.subrange(0, 2));
    assert(spec_u16_from_le_bytes(length_bytes(na)) == na as u16);
    assert(spec_u16_from_le_bytes(length_bytes(nb)) == nb as u16);
    assert(na == nb);
    assert(ta.subrange(2, 2 + na as int) =~= encode_utf8(a));
    assert(tb.subrange(2, 2 + nb as int) =~= encode_utf8(b));
    assert(encode_utf8(a) == encode_utf8(b));
    encode_utf8_decode_utf8(a);
    encode_utf8_decode_utf8(b);
}

/// Two messages with the same stored form are the same message.
pub proof fn encoding_is_injective(a: MessageView, b: MessageView)
    requires
        fits(a),
        fits(b),
        encoding(a) == encoding(b),
    ensures
        a == b,
{
    lemma_auto_spec_u64_to_from_le_bytes();
    lemma_layout(a);
    lemma_layout(b);
    let e = encoding(a);
    assert(spec_u64_from_le_bytes(spec_u64_to_le_bytes(a.id)) == a.id);
    assert(spec_u64_from_le_bytes(spec_u64_to_le_bytes(b.id)) == b.id);
    assert(a.id == b.id);
    assert(spec_u64_from_le_bytes(spec_u64_to_le_bytes(a.created_at)) == a.created_at);
    assert(spec_u64_from_le_bytes(spec_u64_to_le_bytes(b.created_at)) == b.created_at);
    assert(a.created_at == b.created_at);
    assert(a.updated_at is Some <==> b.updated_at is Some);
    if let Some(t) = a.updated_at {
        let u = b.updated_at->Some_0;
        assert(spec_u64_from_le_bytes(spec_u64_to_le_bytes(t)) == t);
        assert(spec_u64_from_le_bytes(spec_u64_to_le_bytes(u)) == u);
        assert(t == u);
    }
    assert(a.updated_at == b.updated_at);
    lemma_text_unique(e, content_at(a), a.encrypted_message, b.encrypted_message);
    lemma_text_unique(e, key_at(a), a.secret_key, b.secret_key);
}

/// Decoding the stored form of a message that fits gives the message back, equal in every
/// field, an absent update time told from a present one.
pub proof fn decoding_inverts_encoding(m: MessageView)
    requires
        fits(m),
    ensures
        decoding(encoding(m)) == Some(m),
{
    let found = choose|x: MessageView| fits(x) && encoding(x) == encoding(m);
    encoding_is_injective(found, m);
}

/// The bytes that decode to a message are its stored form, and no others.
pub proof fn decoding_is_inverse(bytes: Seq<u8>, m: MessageView)
    ensures
        decoding(bytes) == Some(m) <==> fits(m) && encoding(m) == bytes,
{
    if fits(m) && encoding(m) == bytes {
        decoding_inverts_encoding(m);
    }
}


/// `String::from_utf8` of std: the bytes become a string exactly when they are valid UTF-8,
/// and the string's UTF-8 form is then those bytes.
#[verifier::external_body]
fn string_from_utf8(bytes: Vec<u8>) -> (r: Option<String>)
    ensures
        r is Some <==> valid_utf8(bytes@),
        r matches Some(s) ==> encode_utf8(s@) == bytes@,
{
    String::from_utf8(bytes).ok()
}

fn too_large() -> (e: Error)
    ensures
        e matches Error::InvalidInput { msg } && msg@ == too_large_text(),
{
    Error::InvalidInput { msg: "The message does not fit into 1024 bytes".to_string() }
}

fn corrupt() -> (e: Error)
    ensures
        e matches Error::CorruptData { msg } && msg@ == corrupt_text(),
{
    Error::CorruptData { msg: "The stored bytes are not a message".to_string() }
}

fn append_bytes(out: &mut Vec<u8>, chunk: &[u8])
    ensures
        final(out)@ == old(out)@ + chunk@,
{
    let mut i: usize = 0;
    while i < chunk.len()
        invariant
            i <= chunk@.len(),
            out@ == old(out)@ + chunk@.subrange(0, i as int),
        decreases chunk@.len() - i,
    {
        out.push(chunk[i]);
        i += 1;
        assert(out@ =~= old(out)@ + chunk@.subrange(0, i as int));
    }
    assert(chunk@.subrange(0, i as int) =~= chunk@);
}

fn append_text(out: &mut Vec<u8>, text: &[u8])
    requires
        text@.len() < 65536,
    ensures
        final(out)@ == old(out)@ + length_bytes(text@.len()) + text@,
{
    let prefix = u16_to_le_bytes(text.len() as u16);
    append_bytes(out, prefix.as_slice());
    append_bytes(out, text);
}

/// Reads a length-prefixed text that starts at `at`, if one stands there.
fn read_text(bytes: &[u8], at: usize) -> (r: Option<(String, usize)>)
    requires
        at <= bytes@.len() <= MAX_SIZE,
    ensures
        match r {
            Some((s, next)) => {
                &&& next == at + 2 + encode_utf8(s@).len()
                &&& next <= bytes@.len()
                &&& holds_at(bytes@, at as int, text_bytes(s@))
            },
            None => forall|s: Seq<char>|
                encode_utf8(s).len() < 65536 ==> !holds_at(bytes@, at as int, #[trigger] text_bytes(s)),
        },
{
    proof {
        lemma_auto_spec_u16_to_from_le_bytes();
    }
    let len = bytes.len();
    if len - at < 2 {
        return None;
    }
    let n = u16_from_le_bytes(slice_subrange(bytes, at, at + 2)) as usize;
    assert forall|s: Seq<char>|
        encode_utf8(s).len() < 65536 && holds_at(
            bytes@,
            at as int,
            #[trigger] text_bytes(s),
        ) implies encode_utf8(s).len() == n && bytes@.subrange(at + 2, at + 2 + n)
        == encode_utf8(s) by {
        let t = text_bytes(s);
        let k = encode_utf8(s).len();
        assert(t.subrange(0, 2) =~= length_bytes(k));
        assert(bytes@.subrange(at as int, at + 2) =~= t.subrange(0, 2));
        assert(spec_u16_from_le_bytes(length_bytes(k)) == k as u16);
        assert(bytes@.subrange(at + 2, at + 2 + n) =~= t.subrange(2, 2 + k as int));
        assert(t.subrange(2, 2 + k as int) =~= encode_utf8(s));
    }
    if len - at - 2 < n {
        return None;
    }
    let chunk = slice_to_vec(slice_subrange(bytes, at + 2, at + 2 + n));
    let ghost raw = chunk@;
    match string_from_utf8(chunk) {
        None => {
            proof {
                assert forall|s: Seq<char>| encode_utf8(s).len() < 65536 implies !holds_at(
                    bytes@,
                    at as int,
                    #[trigger] text_bytes(s),
                ) by {
                    encode_utf8_valid_utf8(s);
                }
            }
            None
        },
        Some(s) => {
            proof {
                let sub = bytes@.subrange(at as int, at + 2);
                assert(spec_u16_to_le_bytes(spec_u16_from_le_bytes(sub)) == sub);
                assert(bytes@.subrange(at as int, at + 2 + n) =~= sub + raw);
            }
            Some((s, at + 2 + n))
        },
    }
}

impl SecretMessage {
    /// The stored form of the message, or `InvalidInput` where it would take more than
    /// [`MAX_SIZE`] bytes.
    pub fn to_bytes(&self) -> (r: Result<Vec<u8>, Error>)
        ensures
            match r {
                Ok(bytes) => fits(self@) && bytes@ == encoding(self@) && bytes@.len()
                    == encoded_len(self@),
                Err(Error::InvalidInput { msg }) => !fits(self@) && msg@ == too_large_text(),
                Err(_) => false,
            },
    {
        let content = self.encrypted_message.as_str().as_bytes();
        let key = self.secret_key.as_str().as_bytes();
        let fixed: usize = if self.updated_at.is_some() {
            29
        } else {
            21
        };
        if content.len() > MAX_SIZE - fixed || key.len() > MAX_SIZE - fixed - content.len() {
            return Err(too_large());
        }
        let mut out: Vec<u8> = Vec::new();
        let id = u64_to_le_bytes(self.id);
        append_bytes(&mut out, id.as_slice());
        let created_at = u64_to_le_bytes(self.created_at);
        append_bytes(&mut out, created_at.as_slice());
        match self.updated_at {
            None => {
                out.push(0u8);
                assert(out@ =~= spec_u64_to_le_bytes(self.id) + spec_u64_to_le_bytes(
                    self.created_at,
                ) + optional_bytes(self.updated_at));
            },
            Some(t) => {
                out.push(1u8);
                let updated_at = u64_to_le_bytes(t);
                append_bytes(&mut out, updated_at.as_slice());
                assert(out@ =~= spec_u64_to_le_bytes(self.id) + spec_u64_to_le_bytes(
                    self.created_at,
                ) + optional_bytes(self.updated_at));
            },
        }
        append_text(&mut out, content);
        append_text(&mut out, key);
        assert(out@ =~= encoding(self@));
        proof {
            lemma_layout(self@);
        }
        Ok(out)
    }

    /// The message that `bytes` are the stored form of, or `CorruptData` where they are the
    /// stored form of none.
    pub fn from_bytes(bytes: &[u8]) -> (r: Result<SecretMessage, Error>)
        ensures
            match r {
                Ok(m) => decoding(bytes@) == Some(m@),
                Err(Error::CorruptData { msg }) => decoding(bytes@) is None && msg@
                    == corrupt_text(),
                Err(_) => false,
            },
    {
        proof {
            lemma_auto_spec_u64_to_from_le_bytes();
            assert forall|m: MessageView| fits(m) && encoding(m) == bytes@ implies {
                &&& 21 <= bytes@.len() <= MAX_SIZE
                &&& bytes@.subrange(0, 8) == spec_u64_to_le_bytes(m.id)
                &&& bytes@.subrange(8, 16) == spec_u64_to_le_bytes(m.created_at)
                &&& bytes@[16] == (if m.updated_at is Some { 1u8 } else { 0u8 })
                &&& m.updated_at is Some ==> bytes@.len() >= 29
                &&& holds_at(bytes@, content_at(m), text_bytes(m.encrypted_message))
                &&& holds_at(bytes@, key_at(m), text_bytes(m.secret_key))
                &&& key_at(m) + 2 + encode_utf8(m.secret_key).len() == bytes@.len()
            } by {
                lemma_layout(m);
            }
        }
        let len = bytes.len();
        if len > MAX_SIZE || len < 21 {
            return Err(corrupt());
        }
        let id = u64_from_le_bytes(slice_subrange(bytes, 0, 8));
        let created_at = u64_from_le_bytes(slice_subrange(bytes, 8, 16));
        let tag = bytes[16];
        let mut updated_at: Option<u64> = None;
        let mut at: usize = 17;
        if tag == 1 {
            if len < 29 {
                return Err(corrupt());
            }
            updated_at = Some(u64_from_le_bytes(slice_subrange(bytes, 17, 25)));
            at = 25;
        } else if tag != 0 {
            return Err(corrupt());
        }
        let (encrypted_message, next) = match read_text(bytes, at) {
            Some(found) => found,
            None => {
                return Err(corrupt());
            },
        };
        proof {
            assert forall|m: MessageView| fits(m) && encoding(m) == bytes@ implies key_at(m)
                == next by {
                lemma_text_unique(bytes@, at as int, m.encrypted_message, encrypted_message@);
            }
        }
        let (secret_key, end) = match read_text(bytes, next) {
            Some(found) => found,
            None => {
                return Err(corrupt());
            },
        };
        proof {
            assert forall|m: MessageView| fits(m) && encoding(m) == bytes@ implies end
                == len by {
                lemma_text_unique(bytes@, next as int, m.secret_key, secret_key@);
            }
        }
        if end != len {
            return Err(corrupt());
        }
        let message = SecretMessage { id, encrypted_message, created_at, updated_at, secret_key };
        proof {
            let m = message@;
            let b = bytes@;
            lemma_auto_spec_u16_to_from_le_bytes();
            assert(spec_u64_to_le_bytes(spec_u64_from_le_bytes(b.subrange(0, 8))) == b.subrange(
                0,
                8,
            ));
            assert(spec_u64_to_le_bytes(spec_u64_from_le_bytes(b.subrange(8, 16))) == b.subrange(
                8,
                16,
            ));
            if tag == 1 {
                assert(spec_u64_to_le_bytes(spec_u64_from_le_bytes(b.subrange(17, 25)))
                    == b.subrange(17, 25));
                assert(b.subrange(16, 25) =~= seq![1u8] + b.subrange(17, 25));
            } else {
                assert(b.subrange(16, 17) =~= seq![0u8]);
            }
            assert(b.subrange(16, at as int) == optional_bytes(updated_at));
            assert(b.subrange(at as int, next as int) == text_bytes(m.encrypted_message));
            assert(b.subrange(next as int, end as int) == text_bytes(m.secret_key));
            assert(b =~= b.subrange(0, 8) + b.subrange(8, 16) + b.subrange(16, at as int)
                + b.subrange(at as int, next as int) + b.subrange(next as int, end as int));
            assert(encoding(m) == b);
            decoding_inverts_encoding(m);
        }
        Ok(message)
    }
}

} // verus!
