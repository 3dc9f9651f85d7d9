//! The audit agent: it gathers the entries of a gateway and hands them to
//! the management service in batches. An undelivered batch is kept and
//! handed over again with the next one.

use crate::audit::entry::Entry;
use crate::audit::messages::SaveLogsRequest;
use vstd::prelude::*;

verus! {

/// The seconds between two flushes of the buffer.
pub const FLUSH_SECONDS: u64 = 30;

/// The buffer of entries that wait to be saved. It has no bound.
pub struct AuditAgent {
    pub buffer: Vec<Entry>,
}

impl AuditAgent {
    /// The agent over `buffer`.
    pub fn new(buffer: Vec<Entry>) -> (agent: Self)
        ensures
            agent.buffer == buffer,
    {
        AuditAgent { buffer }
    }

    /// Puts `entry` at the end of the buffer.
    pub fn record(&mut self, entry: Entry)
        ensures
            final(self).buffer@ == old(self).buffer@.push(entry),
    {
        self.buffer.push(entry);
    }

    /// Takes all the entries out of the buffer, as a request to save them.
    /// `None` where the buffer is empty: nothing is sent then.
    pub fn drain(&mut self) -> (request: Option<SaveLogsRequest>)
        ensures
            final(self).buffer@.len() == 0,
            old(self).buffer@.len() == 0 ==> request is None,
            old(self).buffer@.len() > 0 ==> request is Some
                && request.unwrap().logs@ == old(self).buffer@,
    {
        if self.buffer.len() == 0 {
            return None;
        }
        let mut logs: Vec<Entry> = Vec::new();
        core::mem::swap(&mut logs, &mut self.buffer);
        Some(SaveLogsRequest { logs })
    }

    /// Settles a request that was or was not delivered: the entries of an
    /// undelivered request go back to the front of the buffer, before what
    /// has come in since.
    pub fn settle(&mut self, request: SaveLogsRequest, delivered: bool)
        ensures
            delivered ==> final(self).buffer@ == old(self).buffer@,
            !delivered ==> final(self).buffer@ == request.logs@ + old(self).buffer@,
    {
        if !delivered {
            let mut kept = request.logs;
            kept.append(&mut self.buffer);
            core::mem::swap(&mut kept, &mut self.buffer);
        }
    }
}

} // verus!
