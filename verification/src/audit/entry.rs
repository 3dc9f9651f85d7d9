//! Audit entries: who did what, from where, when, and whether it succeeded.

use crate::address::Ipv4Addr;
use crate::clock::unix_micros;
use vstd::prelude::*;

verus! {

/// One record of the audit trail. An entry never changes once it is built.
#[derive(Debug)]
pub struct Entry {
    microsecond: i64,
    ip: Ipv4Addr,
    user: String,
    message: String,
    result: bool,
}

/// The model of an `Entry`.
pub struct EntryView {
    pub microsecond: i64,
    pub ip: Ipv4Addr,
    pub user: Seq<char>,
    pub message: Seq<char>,
    pub result: bool,
}

impl View for Entry {
    type V = EntryView;

    closed spec fn view(&self) -> EntryView {
        EntryView {
            microsecond: self.microsecond,
            ip: self.ip,
            user: self.user@,
            message: self.message@,
            result: self.result,
        }
    }
}

/// The entry that stands for nothing: time zero, the unspecified address,
/// no user, no message, failure.
pub open spec fn blank_entry() -> EntryView {
    EntryView {
        microsecond: 0,
        ip: Ipv4Addr { a: 0, b: 0, c: 0, d: 0 },
        user: Seq::empty(),
        message: Seq::empty(),
        result: false,
    }
}

impl Default for Entry {
    fn default() -> (entry: Self)
        ensures
            entry@ == blank_entry(),
    {
        Entry {
            microsecond: 0,
            ip: Ipv4Addr::unspecified(),
            user: String::new(),
            message: String::new(),
            result: false,
        }
    }
}

impl Clone for Entry {
    fn clone(&self) -> (copy: Self)
        ensures
            copy@ == self@,
    {
        Entry {
            microsecond: self.microsecond,
            ip: self.ip,
            user: self.user.clone(),
            message: self.message.clone(),
            result: self.result,
        }
    }
}

impl Entry {
    /// The time of the entry, in microseconds since the Unix epoch.
    pub fn microsecond(&self) -> (microsecond: i64)
        ensures
            microsecond == self@.microsecond,
    {
        self.microsecond
    }

    /// The address that the request came from.
    pub fn ip(&self) -> (ip: Ipv4Addr)
        ensures
            ip == self@.ip,
    {
        self.ip
    }

    /// The user who made the request.
    pub fn user(&self) -> (user: String)
        ensures
            user@ == self@.user,
    {
        self.user.clone()
    }

    /// What was asked for.
    pub fn message(&self) -> (message: String)
        ensures
            message@ == self@.message,
    {
        self.message.clone()
    }

    /// Whether the request succeeded.
    pub fn result(&self) -> (result: bool)
        ensures
            result == self@.result,
    {
        self.result
    }

    /// Whether the two entries hold the same values.
    pub fn same_as(&self, other: &Entry) -> (same: bool)
        ensures
            same == (self@ == other@),
    {
        self.microsecond == other.microsecond && self.ip == other.ip && self.user == other.user
            && self.message == other.message && self.result == other.result
    }
}

/// Collects the fields of an entry; a field that was never set gets its
/// default when the entry is built.
pub struct EntryBuilder {
    microsecond: Option<i64>,
    ip: Option<Ipv4Addr>,
    user: Option<String>,
    message: Option<String>,
    result: Option<bool>,
}

/// The model of an `EntryBuilder`.
pub struct EntryBuilderView {
    pub microsecond: Option<i64>,
    pub ip: Option<Ipv4Addr>,
    pub user: Option<Seq<char>>,
    pub message: Option<Seq<char>>,
    pub result: Option<bool>,
}

/// The text of an optional string.
pub open spec fn optional_text(text: Option<String>) -> Option<Seq<char>> {
    match text {
        Some(t) => Some(t@),
        None => None,
    }
}

impl View for EntryBuilder {
    type V = EntryBuilderView;

    closed spec fn view(&self) -> EntryBuilderView {
        EntryBuilderView {
            microsecond: self.microsecond,
            ip: self.ip,
            user: optional_text(self.user),
            message: optional_text(self.message),
            result: self.result,
        }
    }
}

/// The entry that a builder stands for when the clock reads `now`.
pub open spec fn built(builder: EntryBuilderView, now: i64) -> EntryView {
    EntryView {
        microsecond: match builder.microsecond {
            Some(m) => m,
            None => now,
        },
        ip: match builder.ip {
            Some(ip) => ip,
            None => Ipv4Addr { a: 0, b: 0, c: 0, d: 0 },
        },
        user: match builder.user {
            Some(user) => user,
            None => Seq::empty(),
        },
        message: match builder.message {
            Some(message) => message,
            None => Seq::empty(),
        },
        result: match builder.result {
            Some(result) => result,
            None => false,
        },
    }
}

impl Default for EntryBuilder {
    fn default() -> (builder: Self)
        ensures
            builder@ == (EntryBuilderView {
                microsecond: None,
                ip: None,
                user: None,
                message: None,
                result: None,
            }),
    {
        EntryBuilder { microsecond: None, ip: None, user: None, message: None, result: None }
    }
}

impl EntryBuilder {
    /// A builder with no field set.
    pub fn new() -> (builder: Self)
        ensures
            builder@ == (EntryBuilderView {
                microsecond: None,
                ip: None,
                user: None,
                message: None,
                result: None,
            }),
    {
        EntryBuilder { microsecond: None, ip: None, user: None, message: None, result: None }
    }

    /// Sets the time.
    pub fn microsecond(self, microsecond: i64) -> (builder: Self)
        ensures
            builder@ == (EntryBuilderView { microsecond: Some(microsecond), ..self@ }),
    {
        let mut builder = self;
        builder.microsecond = Some(microsecond);
        builder
    }

    /// Sets the address.
    pub fn ip(self, ip: Ipv4Addr) -> (builder: Self)
        ensures
            builder@ == (EntryBuilderView { ip: Some(ip), ..self@ }),
    {
        let mut builder = self;
        builder.ip = Some(ip);
        builder
    }

    /// Sets the user.
    pub fn user(self, user: String) -> (builder: Self)
        ensures
            builder@ == (EntryBuilderView { user: Some(user@), ..self@ }),
    {
        let mut builder = self;
        builder.user = Some(user);
        builder
    }

    /// Sets the message.
    pub fn message(self, message: String) -> (builder: Self)
        ensures
            builder@ == (EntryBuilderView { message: Some(message@), ..self@ }),
    {
        let mut builder = self;
        builder.message = Some(message);
        builder
    }

    /// Sets the result.
    pub fn result(self, result: bool) -> (builder: Self)
        ensures
            builder@ == (EntryBuilderView { result: Some(result), ..self@ }),
    {
        let mut builder = self;
        builder.result = Some(result);
        builder
    }

    /// The entry, with `now` as its time where none was set.
    pub fn build_at(self, now: i64) -> (entry: Entry)
        ensures
            entry@ == built(self@, now),
    {
        Entry {
            microsecond: match self.microsecond {
                Some(m) => m,
                None => now,
            },
            ip: match self.ip {
                Some(ip) => ip,
                None => Ipv4Addr::unspecified(),
            },
            user: match self.user {
                Some(user) => user,
                None => String::new(),
            },
            message: match self.message {
                Some(message) => message,
                None => String::new(),
            },
            result: match self.result {
                Some(result) => result,
                None => false,
            },
        }
    }

    /// The entry, with the reading of the clock as its time where none was
    /// set.
    pub fn build(self) -> (entry: Entry)
        ensures
            exists|now: i64| entry@ == built(self@, now),
            self@.microsecond is Some ==> entry@ == built(self@, 0),
    {
        let now: i64 = match self.microsecond {
            Some(_) => 0,
            None => unix_micros(),
        };
        self.build_at(now)
    }
}

} // verus!
