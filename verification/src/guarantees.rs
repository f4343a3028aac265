use crate::access::admin_role;
use crate::codec::{decoding_inverts_encoding, encoding, fits};
use crate::error::ErrorKind;
use crate::message::{MessageView, PayloadView};
use crate::policy::{strong_secret_key, validation_error};
use crate::service::{after_create, create_refusal, created_message, read_outcome};
use crate::store::{StoreState, Stored};
use vstd::prelude::*;

verus! {

/// The store after one create for each request in turn, each of them successful.
pub open spec fn after_creates(s: StoreState, requests: Seq<(PayloadView, u64)>) -> StoreState
    decreases requests.len(),
{
    if requests.len() == 0 {
        s
    } else {
        after_create(after_creates(s, requests.drop_last()), requests.last().0, requests.last().1)
    }
}

/// A message that was just created reads back: under its identifier stands the message
/// with the payload's content and key, the time of creation and no time of update, and a
/// reader who presents the key gets the content.
pub proof fn created_message_reads_back(s: StoreState, p: PayloadView, now: u64)
    requires
        validation_error(p) is None,
    ensures
        after_create(s, p, now).message_at(s.next_id) == Stored::Message(
            created_message(s, p, now),
        ),
        created_message(s, p, now).id == s.next_id,
        created_message(s, p, now).encrypted_message == p.encrypted_message,
        created_message(s, p, now).created_at == now,
        created_message(s, p, now).updated_at is None,
        read_outcome(after_create(s, p, now), s.next_id, Some(p.secret_key), None) == Ok::<
            Seq<char>,
            ErrorKind,
        >(p.encrypted_message),
        read_outcome(after_create(s, p, now), s.next_id, None, None) == Ok::<
            Seq<char>,
            ErrorKind,
        >(p.encrypted_message),
{
    let m = created_message(s, p, now);
    assert(fits(m));
    decoding_inverts_encoding(m);
}

/// Successive creates that succeed get successive identifiers: after any number of them
/// the counter has advanced by that number, so the identifiers rise by one each, with no
/// repeat and no gap.
pub proof fn identifiers_are_consecutive(s: StoreState, requests: Seq<(PayloadView, u64)>, i: int)
    requires
        s.next_id + requests.len() <= u64::MAX,
        0 <= i <= requests.len(),
    ensures
        after_creates(s, requests.take(i)).next_id == s.next_id + i,
        i < requests.len() ==> created_message(
            after_creates(s, requests.take(i)),
            requests[i].0,
            requests[i].1,
        ).id == s.next_id + i,
    decreases i,
{
    if i > 0 {
        identifiers_are_consecutive(s, requests, i - 1);
        assert(requests.take(i).drop_last() =~= requests.take(i - 1));
    }
}

/// A read of an identifier under which nothing is stored is `NotFound`, whatever key the
/// reader presents.
pub proof fn unknown_identifier_is_not_found(s: StoreState, id: u64, credential: Option<Seq<char>>)
    requires
        !s.records.contains_key(id),
    ensures
        read_outcome(s, id, credential, None) == Err::<Seq<char>, ErrorKind>(ErrorKind::NotFound),
{
}

/// In a store whose identifiers all came from the counter, a read of an identifier that the
/// counter has not issued yet is `NotFound`.
pub proof fn unissued_identifier_is_not_found(
    s: StoreState,
    id: u64,
    credential: Option<Seq<char>>,
)
    requires
        s.ids_issued(),
        id >= s.next_id,
    ensures
        read_outcome(s, id, credential, None) == Err::<Seq<char>, ErrorKind>(ErrorKind::NotFound),
{
}

/// A reader who presents another key than the stored one is refused as `Unauthorized`.
pub proof fn wrong_key_is_refused(s: StoreState, m: MessageView, key: Seq<char>)
    requires
        fits(m),
        s.records.contains_key(m.id),
        s.records[m.id] == encoding(m),
        key != m.secret_key,
    ensures
        read_outcome(s, m.id, Some(key), None) == Err::<Seq<char>, ErrorKind>(
            ErrorKind::Unauthorized,
        ),
{
    decoding_inverts_encoding(m);
}

/// A payload whose key breaks the policy is refused as `InvalidInput`.
pub proof fn weak_key_is_refused(p: PayloadView)
    requires
        !strong_secret_key(p.secret_key),
    ensures
        create_refusal(p, None) == Some(ErrorKind::InvalidInput),
{
}

/// A caller whose role set lacks the admin role is refused as `Unauthorized`, whatever the
/// payload of a create and whatever the identifier and key of a read.
pub proof fn missing_role_is_refused(
    s: StoreState,
    p: PayloadView,
    id: u64,
    credential: Option<Seq<char>>,
    roles: Set<Seq<char>>,
)
    requires
        !roles.contains(admin_role()),
    ensures
        create_refusal(p, Some(roles)) == Some(ErrorKind::Unauthorized),
        read_outcome(s, id, credential, Some(roles)) == Err::<Seq<char>, ErrorKind>(
            ErrorKind::Unauthorized,
        ),
{
}

/// A new store is consistent: it holds nothing.
pub proof fn new_store_is_consistent()
    ensures
        StoreState::new().consistent(),
{
}

/// A create keeps a consistent store consistent. The new message gets an identifier above
/// every one in use, so it takes the place of none, and what was stored stays as it was.
pub proof fn create_keeps_consistent(s: StoreState, p: PayloadView, now: u64)
    requires
        s.consistent(),
        validation_error(p) is None,
        s.next_id < u64::MAX,
    ensures
        after_create(s, p, now).consistent(),
        forall|id: u64| s.records.contains_key(id) ==> id < created_message(s, p, now).id,
        forall|id: u64|
            s.records.contains_key(id) ==> after_create(s, p, now).records.contains_key(id)
                && after_create(s, p, now).records[id] == s.records[id],
{
    let m = created_message(s, p, now);
    let after = after_create(s, p, now);
    decoding_inverts_encoding(m);
    assert forall|id: u64| #[trigger] after.records.contains_key(id) implies {
        &&& id < after.next_id
        &&& after.message_at(id) matches Stored::Message(found)
        &&& found.id == id
        &&& found.updated_at is None
    } by {
        if id != m.id {
            assert(s.records.contains_key(id));
        }
    }
}

/// A create keeps a store in which every identifier came from the counter that way, puts
/// the new message under an identifier that was free, and leaves what was stored as it was.
pub proof fn create_overwrites_nothing(s: StoreState, p: PayloadView, now: u64)
    requires
        s.ids_issued(),
        s.next_id < u64::MAX,
    ensures
        after_create(s, p, now).ids_issued(),
        !s.records.contains_key(s.next_id),
        forall|id: u64|
            s.records.contains_key(id) ==> after_create(s, p, now).records.contains_key(id)
                && after_create(s, p, now).records[id] == s.records[id],
{
}

} // verus!
