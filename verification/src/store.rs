use crate::codec::{corrupt_text, decoding, encoding, fits, too_large_text};
use crate::error::Error;
use crate::message::{MessageView, SecretMessage};
use crate::stable::{
    counter_get, counter_region, counter_reopened, counter_set, counter_value, new_parts,
    records_contents, records_get, records_insert, records_region, records_reopened, Counter,
    Records,
};
use vstd::prelude::*;

verus! {

/// The tag of the region that holds the identifier counter.
pub const COUNTER_REGION: u8 = 0;

/// The tag of the region that holds the records.
pub const RECORDS_REGION: u8 = 1;

/// The identifier of the first message of a new store.
pub const FIRST_ID: u64 = 0;

/// The persisted state: an identifier counter and the stored messages, each in a region of
/// its own.
pub struct MessageStore {
    counter: Counter,
    records: Records,
}

/// What a [`MessageStore`] holds, as mathematical values.
pub struct StoreState {
    /// The identifier that the next created message gets.
    pub next_id: u64,
    /// The bytes stored under each identifier.
    pub records: Map<u64, Seq<u8>>,
}

impl View for MessageStore {
    type V = StoreState;

    closed spec fn view(&self) -> StoreState {
        StoreState {
            next_id: counter_value(self.counter),
            records: records_contents(self.records),
        }
    }
}

/// What stands under an identifier.
pub enum Stored {
    /// Nothing is stored there.
    Nothing,
    /// The stored form of this message.
    Message(MessageView),
    /// Bytes that are the stored form of no message.
    Garbage,
}

impl StoreState {
    /// What stands under the identifier.
    pub open spec fn message_at(self, id: u64) -> Stored {
        if !self.records.contains_key(id) {
            Stored::Nothing
        } else {
            match decoding(self.records[id]) {
                Some(m) => Stored::Message(m),
                None => Stored::Garbage,
            }
        }
    }

    /// The store after the message has been put under its identifier.
    pub open spec fn with_message(self, m: MessageView) -> StoreState {
        StoreState { next_id: self.next_id, records: self.records.insert(m.id, encoding(m)) }
    }

    /// A store that has issued no identifier and holds no message.
    pub open spec fn new() -> StoreState {
        StoreState { next_id: FIRST_ID, records: Map::empty() }
    }

    /// Whether every identifier in use was issued by the counter.
    pub open spec fn ids_issued(self) -> bool {
        forall|id: u64| self.records.contains_key(id) ==> id < self.next_id
    }

    /// Whether the store is as creates alone leave it: every identifier in use was issued
    /// by the counter, and under it stands a message that carries that identifier and was
    /// never updated.
    pub open spec fn consistent(self) -> bool {
        forall|id: u64| #[trigger]
            self.records.contains_key(id) ==> {
                &&& id < self.next_id
                &&& self.message_at(id) matches Stored::Message(m)
                &&& m.id == id
                &&& m.updated_at is None
            }
    }

    /// The store after one identifier has been issued.
    pub open spec fn with_next_issued(self) -> StoreState {
        StoreState { next_id: (self.next_id + 1) as u64, records: self.records }
    }
}

/// What the counter's write means for the caller: the value that was replaced is the issued
/// identifier, and a write that failed is `CounterIncrementFailed`.
pub fn issued_identifier(written: Option<u64>) -> (r: Result<u64, Error>)
    ensures
        match written {
            Some(previous) => r == Ok::<u64, Error>(previous),
            None => r == Err::<u64, Error>(Error::CounterIncrementFailed),
        },
{
    match written {
        Some(previous) => Ok(previous),
        None => Err(Error::CounterIncrementFailed),
    }
}

impl MessageStore {
    /// A new store in a memory of its own: the counter at [`FIRST_ID`] in region
    /// [`COUNTER_REGION`], no records in region [`RECORDS_REGION`].
    pub fn init() -> (r: Option<MessageStore>)
        ensures
            r matches Some(store) && store@ == StoreState::new() && store.regions() == (
                COUNTER_REGION,
                RECORDS_REGION,
            ),
    {
        let parts = new_parts(COUNTER_REGION, RECORDS_REGION, FIRST_ID);
        MessageStore::from_parts(parts.counter, parts.records)
    }

    /// The store as it is found again after a restart: the counter and the records are
    /// given up and opened anew from the memory that they were written to. It holds what
    /// the store held, in the same regions.
    pub fn reopen(self) -> (r: Option<MessageStore>)
        ensures
            r matches Some(store) && store@ == self@ && store.regions() == self.regions(),
    {
        let counter = counter_reopened(self.counter, FIRST_ID);
        let records = records_reopened(self.records);
        MessageStore::from_parts(counter, records)
    }

    /// The tags of the regions that the counter and the records live in.
    pub closed spec fn regions(&self) -> (u8, u8) {
        (counter_region(self.counter), records_region(self.records))
    }

    /// The store made of a counter and a map that were opened: it holds what they hold and
    /// lives where they live. Without a counter there is no store.
    pub fn from_parts(counter: Option<Counter>, records: Records) -> (r: Option<MessageStore>)
        ensures
            match counter {
                Some(c) => {
                    &&& r matches Some(store)
                    &&& store@ == (StoreState {
                        next_id: counter_value(c),
                        records: records_contents(records),
                    })
                    &&& store.regions() == (counter_region(c), records_region(records))
                },
                None => r is None,
            },
    {
        match counter {
            Some(counter) => Some(MessageStore { counter, records }),
            None => None,
        }
    }

    /// The identifier that the next created message gets.
    pub fn peek_next_id(&self) -> (id: u64)
        ensures
            id == self@.next_id,
    {
        counter_get(&self.counter)
    }

    /// Issues the next identifier: persists the counter's value plus one and returns the
    /// value. At `u64::MAX` no identifier is left: nothing changes and the result is
    /// `CounterIncrementFailed`.
    pub fn next_id(&mut self) -> (r: Result<u64, Error>)
        ensures
            match r {
                Ok(id) => {
                    &&& id == old(self)@.next_id
                    &&& id < u64::MAX
                    &&& final(self)@ == old(self)@.with_next_issued()
                },
                Err(e) => {
                    &&& e is CounterIncrementFailed
                    &&& old(self)@.next_id == u64::MAX
                    &&& final(self)@ == old(self)@
                },
            },
            final(self).regions() == old(self).regions(),
    {
        let current = counter_get(&self.counter);
        if current == u64::MAX {
            return Err(Error::CounterIncrementFailed);
        }
        let written = counter_set(&mut self.counter, current + 1);
        issued_identifier(written)
    }
}

/// Stores the message under its identifier, in place of what was stored there. A message
/// whose stored form would exceed the size bound is refused as `InvalidInput`, and nothing
/// changes.
pub fn do_insert(store: &mut MessageStore, message: &SecretMessage) -> (r: Result<(), Error>)
    ensures
        match r {
            Ok(()) => fits(message@) && final(store)@ == old(store)@.with_message(message@),
            Err(Error::InvalidInput { msg }) => !fits(message@) && msg@ == too_large_text()
                && final(store)@ == old(store)@,
            Err(_) => false,
        },
        final(store).regions() == old(store).regions(),
{
    let bytes = message.to_bytes()?;
    records_insert(&mut store.records, message.id, bytes.as_slice());
    Ok(())
}

/// A copy of the message stored under the identifier, if one is. Stored bytes that are no
/// message give `CorruptData`.
pub fn _get_message(store: &MessageStore, id: &u64) -> (r: Result<Option<SecretMessage>, Error>)
    ensures
        match r {
            Ok(None) => store@.message_at(*id) == Stored::Nothing,
            Ok(Some(m)) => store@.message_at(*id) == Stored::Message(m@),
            Err(Error::CorruptData { msg }) => store@.message_at(*id) == Stored::Garbage && msg@
                == corrupt_text(),
            Err(_) => false,
        },
{
    match records_get(&store.records, *id) {
        None => Ok(None),
        Some(bytes) => {
            let message = SecretMessage::from_bytes(bytes.as_slice())?;
            Ok(Some(message))
        },
    }
}

} // verus!
