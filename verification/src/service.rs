use crate::access::{access_gate, access_granted, claimed_roles, missing_role_text};
use crate::codec::corrupt_text;
use crate::error::{not_found_text, Error, ErrorKind};
use crate::guarantees::create_keeps_consistent;
use crate::message::{MessageView, PayloadView, SecretMessage, SecretMessagePayload};
use crate::policy::{validate, validation_error};
use crate::store::{MessageStore, StoreState, Stored, _get_message, do_insert};
use vstd::prelude::*;

verus! {

/// The text of the error for a reader who presents the wrong secret key.
pub open spec fn wrong_key_text() -> Seq<char> {
    "Unauthorized: Invalid secret key."@
}

/// What a read returns: the access gate first, then the lookup, then the secret key, which
/// is compared only where the reader presents one.
pub open spec fn read_outcome(
    s: StoreState,
    id: u64,
    credential: Option<Seq<char>>,
    roles: Option<Set<Seq<char>>>,
) -> Result<Seq<char>, ErrorKind> {
    if !access_granted(roles) {
        Err(ErrorKind::Unauthorized)
    } else {
        match s.message_at(id) {
            Stored::Garbage => Err(ErrorKind::CorruptData),
            Stored::Nothing => Err(ErrorKind::NotFound),
            Stored::Message(m) => if credential matches Some(key) && key != m.secret_key {
                Err(ErrorKind::Unauthorized)
            } else {
                Ok(m.encrypted_message)
            },
        }
    }
}

/// Why a create is refused before it touches the store, if it is: the access gate first,
/// then the validation gate.
pub open spec fn create_refusal(p: PayloadView, roles: Option<Set<Seq<char>>>) -> Option<
    ErrorKind,
> {
    if !access_granted(roles) {
        Some(ErrorKind::Unauthorized)
    } else if validation_error(p) is Some {
        Some(ErrorKind::InvalidInput)
    } else {
        None
    }
}

/// The message that a create makes of a payload: the next identifier, the content and key
/// of the payload, the time of creation, and no time of update.
pub open spec fn created_message(s: StoreState, p: PayloadView, now: u64) -> MessageView {
    MessageView {
        id: s.next_id,
        encrypted_message: p.encrypted_message,
        created_at: now,
        updated_at: None,
        secret_key: p.secret_key,
    }
}

/// The store after a create that succeeded.
pub open spec fn after_create(s: StoreState, p: PayloadView, now: u64) -> StoreState {
    s.with_next_issued().with_message(created_message(s, p, now))
}

/// What a call returned, without the text of an error.
pub open spec fn read_result(r: Result<String, Error>) -> Result<Seq<char>, ErrorKind> {
    match r {
        Ok(content) => Ok(content@),
        Err(e) => Err(e.spec_kind()),
    }
}

/// Reads the content of the message stored under `id`.
///
/// A call with a role set is the privileged form and passes the access gate only with the
/// admin role. Where a secret key is presented it must be the stored one.
pub fn read(
    store: &MessageStore,
    id: u64,
    credential: Option<&String>,
    caller_roles: Option<&Vec<String>>,
) -> (r: Result<String, Error>)
    ensures
        read_result(r) == read_outcome(
            store@,
            id,
            match credential {
                Some(key) => Some(key@),
                None => None,
            },
            claimed_roles(caller_roles),
        ),
        r matches Err(Error::Unauthorized { msg }) ==> msg@ == (if access_granted(
            claimed_roles(caller_roles),
        ) {
            wrong_key_text()
        } else {
            missing_role_text()
        }),
        r matches Err(Error::CorruptData { msg }) ==> msg@ == corrupt_text(),
        r matches Err(Error::NotFound { msg }) ==> msg@ == not_found_text(id),
{
    access_gate(caller_roles)?;
    let message = match _get_message(store, &id)? {
        Some(message) => message,
        None => {
            return Err(Error::not_found(id));
        },
    };
    match credential {
        Some(key) => {
            if message.secret_key != *key {
                return Err(
                    Error::Unauthorized { msg: "Unauthorized: Invalid secret key.".to_string() },
                );
            }
        },
        None => {},
    }
    Ok(message.encrypted_message)
}

/// Whether a create ended in an error of the kind.
pub open spec fn refused_as(r: Result<SecretMessage, Error>, kind: ErrorKind) -> bool {
    match r {
        Ok(_) => false,
        Err(e) => e.spec_kind() == kind,
    }
}

/// Creates a message from the payload and stores it under the next identifier.
///
/// The access gate comes first, then the validation gate; a call that either refuses
/// changes nothing. After them the call succeeds unless the counter stands at `u64::MAX`,
/// where no identifier is left and again nothing changes. A store that was consistent
/// stays so.
pub fn create(
    store: &mut MessageStore,
    payload: SecretMessagePayload,
    caller_roles: Option<&Vec<String>>,
    now: u64,
) -> (r: Result<SecretMessage, Error>)
    ensures
        match create_refusal(payload@, claimed_roles(caller_roles)) {
            Some(kind) => refused_as(r, kind) && final(store)@ == old(store)@,
            None => match r {
                Ok(m) => {
                    &&& old(store)@.next_id < u64::MAX
                    &&& m@ == created_message(old(store)@, payload@, now)
                    &&& final(store)@ == after_create(old(store)@, payload@, now)
                },
                Err(e) => {
                    &&& e is CounterIncrementFailed
                    &&& old(store)@.next_id == u64::MAX
                    &&& final(store)@ == old(store)@
                },
            },
        },
        r matches Err(Error::Unauthorized { msg }) ==> msg@ == missing_role_text(),
        r matches Err(Error::InvalidInput { msg }) ==> validation_error(payload@) == Some(msg@),
        old(store)@.consistent() ==> final(store)@.consistent(),
        final(store).regions() == old(store).regions(),
{
    let ghost before = store@;
    let ghost asked = payload@;
    access_gate(caller_roles)?;
    validate(&payload)?;
    let id = store.next_id()?;
    let message = SecretMessage {
        id,
        encrypted_message: payload.encrypted_message,
        created_at: now,
        updated_at: None,
        secret_key: payload.secret_key,
    };
    do_insert(store, &message)?;
    proof {
        if before.consistent() {
            create_keeps_consistent(before, asked, now);
        }
    }
    Ok(message)
}

/// Reads the content of the message stored under `id`, for a reader who presents its secret
/// key.
pub fn get_message(store: &MessageStore, id: u64, secret_key: String) -> (r: Result<
    String,
    Error,
>)
    ensures
        read_result(r) == read_outcome(store@, id, Some(secret_key@), None),
        r matches Err(Error::Unauthorized { msg }) ==> msg@ == wrong_key_text(),
        r matches Err(Error::CorruptData { msg }) ==> msg@ == corrupt_text(),
        r matches Err(Error::NotFound { msg }) ==> msg@ == not_found_text(id),
{
    read(store, id, Some(&secret_key), None)
}

/// Creates a message from the payload at the time `now` and stores it under the next
/// identifier. The call succeeds where the payload passes the validation gate and the
/// counter stands below `u64::MAX`.
pub fn add_message(store: &mut MessageStore, message: SecretMessagePayload, now: u64) -> (r:
    Result<SecretMessage, Error>)
    ensures
        match validation_error(message@) {
            Some(text) => {
                &&& r matches Err(Error::InvalidInput { msg })
                &&& msg@ == text
                &&& final(store)@ == old(store)@
            },
            None => match r {
                Ok(m) => {
                    &&& old(store)@.next_id < u64::MAX
                    &&& m@ == created_message(old(store)@, message@, now)
                    &&& final(store)@ == after_create(old(store)@, message@, now)
                },
                Err(e) => {
                    &&& e is CounterIncrementFailed
                    &&& old(store)@.next_id == u64::MAX
                    &&& final(store)@ == old(store)@
                },
            },
        },
        old(store)@.consistent() ==> final(store)@.consistent(),
        final(store).regions() == old(store).regions(),
{
    create(store, message, None, now)
}

} // verus!
