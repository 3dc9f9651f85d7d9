//! Audit entries as the index keeps them: the time as a date in
//! microseconds, the address as an IPv6 address.

use crate::address::{ipv6_compatible, Ipv4Addr, Ipv6Addr};
use crate::audit::entry::optional_text;
use crate::clock::unix_micros;
use vstd::prelude::*;
use vstd::string::*;

verus! {

/// One record of the audit index.
#[derive(Debug)]
pub struct Entry {
    date: i64,
    ip: Ipv6Addr,
    user: String,
    message: String,
    result: bool,
}

/// The model of an `Entry`.
pub struct EntryView {
    pub date: i64,
    pub ip: Seq<u8>,
    pub user: Seq<char>,
    pub message: Seq<char>,
    pub result: bool,
}

impl View for Entry {
    type V = EntryView;

    closed spec fn view(&self) -> EntryView {
        EntryView {
            date: self.date,
            ip: self.ip@,
            user: self.user@,
            message: self.message@,
            result: self.result,
        }
    }
}

/// The record that stands for nothing: date zero, the unspecified address,
/// no user, no message, failure.
pub open spec fn blank_record() -> EntryView {
    EntryView {
        date: 0,
        ip: Seq::new(16, |i: int| 0u8),
        user: Seq::empty(),
        message: Seq::empty(),
        result: false,
    }
}

impl Default for Entry {
    fn default() -> (entry: Self)
        ensures
            entry@ == blank_record(),
    {
        Entry {
            date: 0,
            ip: Ipv6Addr::unspecified(),
            user: String::new(),
            message: String::new(),
            result: false,
        }
    }
}

impl Clone for Entry {
    fn clone(&self) -> (copy: Self)
        ensures
            copy@ == self@,
    {
        Entry {
            date: self.date,
            ip: self.ip,
            user: self.user.clone(),
            message: self.message.clone(),
            result: self.result,
        }
    }
}

impl Entry {
    /// The record with these values.
    pub fn new(date: i64, ip: Ipv6Addr, user: String, message: String, result: bool) -> (entry: Self)
        ensures
            entry@ == (EntryView { date, ip: ip@, user: user@, message: message@, result }),
    {
        Entry { date, ip, user, message, result }
    }

    /// The time of the record, in microseconds since the Unix epoch.
    pub fn date(&self) -> (date: i64)
        ensures
            date == self@.date,
    {
        self.date
    }

    /// The address that the request came from.
    pub fn ip(&self) -> (ip: Ipv6Addr)
        ensures
            ip@ == self@.ip,
    {
        self.ip
    }

    /// The user who made the request.
    pub fn user(&self) -> (user: String)
        ensures
            user@ == self@.user,
    {
        self.user.clone()
    }

    /// What was asked for.
    pub fn message(&self) -> (message: String)
        ensures
            message@ == self@.message,
    {
        self.message.clone()
    }

    /// Whether the request succeeded.
    pub fn result(&self) -> (result: bool)
        ensures
            result == self@.result,
    {
        self.result
    }
}

/// Collects the fields of a record; a field that was never set gets its
/// default when the record is built.
pub struct EntryBuilder {
    date: Option<i64>,
    ip: Option<Ipv6Addr>,
    user: Option<String>,
    message: Option<String>,
    result: Option<bool>,
}

/// The model of an `EntryBuilder`.
pub struct EntryBuilderView {
    pub date: Option<i64>,
    pub ip: Option<Seq<u8>>,
    pub user: Option<Seq<char>>,
    pub message: Option<Seq<char>>,
    pub result: Option<bool>,
}

/// The octets of an optional address.
pub open spec fn optional_octets(ip: Option<Ipv6Addr>) -> Option<Seq<u8>> {
    match ip {
        Some(address) => Some(address@),
        None => None,
    }
}

impl View for EntryBuilder {
    type V = EntryBuilderView;

    closed spec fn view(&self) -> EntryBuilderView {
        EntryBuilderView {
            date: self.date,
            ip: optional_octets(self.ip),
            user: optional_text(self.user),
            message: optional_text(self.message),
            result: self.result,
        }
    }
}

/// The builder with no field set.
pub open spec fn unset() -> EntryBuilderView {
    EntryBuilderView { date: None, ip: None, user: None, message: None, result: None }
}

/// The record that a builder stands for when the clock reads `now`.
pub open spec fn built(builder: EntryBuilderView, now: i64) -> EntryView {
    EntryView {
        date: match builder.date {
            Some(date) => date,
            None => now,
        },
        ip: match builder.ip {
            Some(ip) => ip,
            None => Seq::new(16, |i: int| 0u8),
        },
        user: match builder.user {
            Some(user) => user,
            None => Seq::empty(),
        },
        message: match builder.message {
            Some(message) => message,
            None => Seq::empty(),
        },
        result: match builder.result {
            Some(result) => result,
            None => false,
        },
    }
}

impl Default for EntryBuilder {
    fn default() -> (builder: Self)
        ensures
            builder@ == unset(),
    {
        EntryBuilder { date: None, ip: None, user: None, message: None, result: None }
    }
}

impl EntryBuilder {
    /// A builder with no field set.
    pub fn new() -> (builder: Self)
        ensures
            builder@ == unset(),
    {
        EntryBuilder { date: None, ip: None, user: None, message: None, result: None }
    }

    /// Sets the time, in microseconds since the Unix epoch.
    pub fn date(self, micros: i64) -> (builder: Self)
        ensures
            builder@ == (EntryBuilderView { date: Some(micros), ..self@ }),
    {
        let mut builder = self;
        builder.date = Some(micros);
        builder
    }

    /// Sets the address, as the IPv4-compatible IPv6 address of `ip`.
    pub fn ip(self, ip: Ipv4Addr) -> (builder: Self)
        ensures
            builder@ == (EntryBuilderView { ip: Some(ipv6_compatible(ip@)), ..self@ }),
    {
        let mut builder = self;
        builder.ip = Some(ip.to_ipv6_compatible());
        builder
    }

    /// Sets the user.
    pub fn user(self, user: String) -> (builder: Self)
        ensures
            builder@ == (EntryBuilderView { user: Some(user@), ..self@ }),
    {
        let mut builder = self;
        builder.user = Some(user);
        builder
    }

    /// Sets the message.
    pub fn message(self, message: &str) -> (builder: Self)
        ensures
            builder@ == (EntryBuilderView { message: Some(message@), ..self@ }),
    {
        let mut builder = self;
        builder.message = Some(String::from_str(message));
        builder
    }

    /// Sets the result.
    pub fn result(self, result: bool) -> (builder: Self)
        ensures
            builder@ == (EntryBuilderView { result: Some(result), ..self@ }),
    {
        let mut builder = self;
        builder.result = Some(result);
        builder
    }

    /// The record, with `now` as its date where none was set.
    pub fn build_at(self, now: i64) -> (entry: Entry)
        ensures
            entry@ == built(self@, now),
    {
        Entry {
            date: match self.date {
                Some(date) => date,
                None => now,
            },
            ip: match self.ip {
                Some(ip) => ip,
                None => Ipv6Addr::unspecified(),
            },
            user: match self.user {
                Some(user) => user,
                None => String::new(),
            },
            message: match self.message {
                Some(message) => message,
                None => String::new(),
            },
            result: match self.result {
                Some(result) => result,
                None => false,
            },
        }
    }

    /// The record, with the reading of the clock as its date where none was
    /// set.
    pub fn build(self) -> (entry: Entry)
        ensures
            exists|now: i64| entry@ == built(self@, now),
            self@.date is Some ==> entry@ == built(self@, 0),
    {
        let now: i64 = match self.date {
            Some(_) => 0,
            None => unix_micros(),
        };
        self.build_at(now)
    }
}

} // verus!
