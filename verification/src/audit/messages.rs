//! The request that hands audit entries to the management service, and how
//! entries are read from and written to their messages.

use crate::address::Ipv4Addr;
use crate::audit::entry::{Entry, EntryBuilder, EntryView};
use crate::wire;
use vstd::prelude::*;

verus! {

/// The number of bytes of an IPv4 address in a message.
pub const IPV4_LENGTH: usize = 4;

/// Why a message is no audit entry.
#[derive(Clone, Copy, Debug, PartialEq, Eq, Structural)]
pub enum MessageError {
    /// The address has `length` bytes, not four.
    InvalidIpLength { length: usize },
}

/// The entry that a message stands for, or why it stands for none.
pub open spec fn entry_of(message: wire::Entry) -> Result<EntryView, MessageError> {
    if message.ip@.len() != 4 {
        Err(MessageError::InvalidIpLength { length: message.ip@.len() as usize })
    } else {
        Ok(
            EntryView {
                microsecond: message.microsecond,
                ip: Ipv4Addr {
                    a: message.ip@[0],
                    b: message.ip@[1],
                    c: message.ip@[2],
                    d: message.ip@[3],
                },
                user: message.user@,
                message: message.message@,
                result: message.result,
            },
        )
    }
}

/// Reads an entry from its message. The address must have four bytes.
pub fn entry_from_message(message: &wire::Entry) -> (entry: Result<Entry, MessageError>)
    ensures
        match entry_of(*message) {
            Ok(model) => entry is Ok && entry.unwrap()@ == model,
            Err(error) => entry == Err::<Entry, MessageError>(error),
        },
{
    let length = message.ip.len();
    match Ipv4Addr::from_bytes(message.ip.as_slice()) {
        None => Err(MessageError::InvalidIpLength { length }),
        Some(ip) => {
            assert(ip == (Ipv4Addr {
                a: message.ip@[0],
                b: message.ip@[1],
                c: message.ip@[2],
                d: message.ip@[3],
            })) by {
                assert(ip@[0] == message.ip@[0]);
                assert(ip@[1] == message.ip@[1]);
                assert(ip@[2] == message.ip@[2]);
                assert(ip@[3] == message.ip@[3]);
            }
            let entry = EntryBuilder::new().microsecond(message.microsecond).ip(ip).user(
                message.user.clone(),
            ).message(message.message.clone()).result(message.result).build_at(0);
            Ok(entry)
        },
    }
}

/// Writes an entry to its message.
pub fn entry_into_message(entry: &Entry) -> (message: wire::Entry)
    ensures
        entry_of(message) == Ok::<EntryView, MessageError>(entry@),
{
    let ip = entry.ip();
    let message = wire::Entry {
        microsecond: entry.microsecond(),
        ip: ip.to_vec(),
        user: entry.user(),
        message: entry.message(),
        result: entry.result(),
    };
    proof {
        assert(message.ip@ == ip@);
        assert(ip@[0] == ip.a && ip@[1] == ip.b && ip@[2] == ip.c && ip@[3] == ip.d);
    }
    message
}

/// Audit entries on their way to the management service.
#[derive(Debug)]
pub struct SaveLogsRequest {
    pub logs: Vec<Entry>,
}

/// The acknowledgement of saved audit entries.
#[derive(Debug)]
pub struct SaveLogsResponse {
}

impl Default for SaveLogsRequest {
    fn default() -> (request: Self)
        ensures
            request.logs@.len() == 0,
    {
        SaveLogsRequest { logs: Vec::new() }
    }
}

impl SaveLogsRequest {
    /// The request that the message `message` carries: its entries in
    /// order, or the error of the first message that stands for no entry.
    pub fn try_from(message: wire::SaveLogsRequest) -> (request: Result<Self, MessageError>)
        ensures
            (forall|i: int|
                0 <= i < message.logs@.len() ==> entry_of(#[trigger] message.logs@[i]) is Ok)
                ==> request is Ok && request.unwrap().logs@.len() == message.logs@.len()
                && forall|i: int|
                0 <= i < message.logs@.len() ==> (#[trigger] request.unwrap().logs@[i])@
                    == entry_of(message.logs@[i]).unwrap(),
            (exists|i: int|
                0 <= i < message.logs@.len() && entry_of(#[trigger] message.logs@[i]) is Err)
                ==> request is Err && exists|i: int|
                0 <= i < message.logs@.len() && entry_of(#[trigger] message.logs@[i]) == Err::<
                    EntryView,
                    MessageError,
                >(request.unwrap_err()) && forall|j: int|
                    0 <= j < i ==> entry_of(#[trigger] message.logs@[j]) is Ok,
    {
        let mut logs: Vec<Entry> = Vec::new();
        let mut i: usize = 0;
        while i < message.logs.len()
            invariant
                i <= message.logs@.len(),
                logs@.len() == i,
                forall|j: int| 0 <= j < i ==> entry_of(#[trigger] message.logs@[j]) is Ok,
                forall|j: int|
                    0 <= j < i ==> (#[trigger] logs@[j])@ == entry_of(message.logs@[j]).unwrap(),
            decreases message.logs@.len() - i,
        {
            match entry_from_message(&message.logs[i]) {
                Ok(entry) => {
                    logs.push(entry);
                },
                Err(error) => {
                    assert(entry_of(message.logs@[i as int]) is Err);
                    return Err(error);
                },
            }
            i += 1;
        }
        Ok(SaveLogsRequest { logs })
    }

    /// The message that carries this request.
    pub fn into_message(self) -> (message: wire::SaveLogsRequest)
        ensures
            message.logs@.len() == self.logs@.len(),
            forall|i: int|
                0 <= i < self.logs@.len() ==> entry_of(#[trigger] message.logs@[i]) == Ok::<
                    EntryView,
                    MessageError,
                >(self.logs@[i]@),
    {
        let mut logs: Vec<wire::Entry> = Vec::new();
        let mut i: usize = 0;
        while i < self.logs.len()
            invariant
                i <= self.logs@.len(),
                logs@.len() == i,
                forall|j: int|
                    0 <= j < i ==> entry_of(#[trigger] logs@[j]) == Ok::<EntryView, MessageError>(
                        self.logs@[j]@,
                    ),
            decreases self.logs@.len() - i,
        {
            logs.push(entry_into_message(&self.logs[i]));
            i += 1;
        }
        wire::SaveLogsRequest { logs }
    }
}

impl SaveLogsResponse {
    /// The response that the message carries.
    pub fn try_from(message: wire::SaveLogsResponse) -> (response: Result<Self, MessageError>)
        ensures
            response is Ok,
    {
        Ok(SaveLogsResponse {  })
    }

    /// The message that carries this response.
    pub fn into_message(self) -> (message: wire::SaveLogsResponse) {
        wire::SaveLogsResponse {  }
    }
}

} // verus!
