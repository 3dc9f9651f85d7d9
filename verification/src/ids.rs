//! External identifiers of the durable entities: a prefix that names the kind
//! of entity, a dash, and a UUID.

use vstd::prelude::*;
use vstd::string::*;

verus! {

/// The kind of entity an identifier names. The kind is authoritative: a
/// repository answers only for identifiers of its own kind.
#[derive(Clone, Copy, Debug, PartialEq, Eq, Structural)]
pub enum IdKind {
    Input,
    Output,
    Function,
    Task,
    Fusion,
}

/// Why a text is no identifier.
#[derive(Clone, Copy, Debug, PartialEq, Eq, Structural)]
pub enum IdError {
    /// The text holds no dash.
    MissingSeparator,
    /// The text before the first dash names no kind of entity.
    UnknownPrefix,
    /// The text after the first dash is no UUID.
    MalformedUuid,
}

/// The identifier of a durable entity.
#[derive(Clone, Copy, Debug, PartialEq, Eq, Structural)]
pub struct ExternalID {
    pub kind: IdKind,
    pub uuid: u128,
}

/// The prefix that stands for `kind`.
pub open spec fn kind_text(kind: IdKind) -> Seq<char> {
    match kind {
        IdKind::Input => "input"@,
        IdKind::Output => "output"@,
        IdKind::Function => "function"@,
        IdKind::Task => "task"@,
        IdKind::Fusion => "fusion"@,
    }
}

/// The kind that `prefix` stands for.
pub open spec fn kind_of(prefix: Seq<char>) -> Option<IdKind> {
    if prefix == "input"@ {
        Some(IdKind::Input)
    } else if prefix == "output"@ {
        Some(IdKind::Output)
    } else if prefix == "function"@ {
        Some(IdKind::Function)
    } else if prefix == "task"@ {
        Some(IdKind::Task)
    } else if prefix == "fusion"@ {
        Some(IdKind::Fusion)
    } else {
        None
    }
}

/// The number that the `uuid` crate reads from `text`, where it accepts it.
pub uninterp spec fn uuid_parse(text: Seq<char>) -> Option<u128>;

/// The lower-case hexadecimal digit of a number below sixteen.
pub open spec fn lower_hex(digit: int) -> char {
    if digit < 10 {
        (48 + digit) as u8 as char
    } else {
        (87 + digit) as u8 as char
    }
}

/// The digit of `value` at `place`, where place zero holds the highest of
/// its thirty-two hexadecimal digits.
pub open spec fn uuid_digit(value: u128, place: int) -> char {
    lower_hex((value as int / vstd::arithmetic::power::pow(16, (31 - place) as nat)) % 16)
}

/// The text of a UUID without hyphens: its thirty-two hexadecimal digits in
/// lower case, the highest first.
pub open spec fn uuid_simple_text(value: u128) -> Seq<char> {
    Seq::new(32, |place: int| uuid_digit(value, place))
}

/// The hyphenated text of a UUID: its thirty-two hexadecimal digits in lower
/// case, the highest first, in groups of eight, four, four, four and twelve
/// with a hyphen between two groups.
pub open spec fn uuid_text(value: u128) -> Seq<char> {
    let digits = uuid_simple_text(value);
    digits.subrange(0, 8) + seq!['-'] + digits.subrange(8, 12) + seq!['-'] + digits.subrange(
        12,
        16,
    ) + seq!['-'] + digits.subrange(16, 20) + seq!['-'] + digits.subrange(20, 32)
}

/// The key under which the entity `id` is stored: the prefix of its kind, a
/// slash, and its UUID.
pub open spec fn storage_key_text(id: ExternalID) -> Seq<char> {
    kind_text(id.kind) + "/"@ + uuid_text(id.uuid)
}

/// The identifier that a prefix and the outcome of reading a UUID give.
pub open spec fn id_from_parts(prefix: Seq<char>, uuid: Option<u128>) -> Result<
    ExternalID,
    IdError,
> {
    match kind_of(prefix) {
        None => Err(IdError::UnknownPrefix),
        Some(kind) => match uuid {
            None => Err(IdError::MalformedUuid),
            Some(value) => Ok(ExternalID { kind, uuid: value }),
        },
    }
}

/// What `text` stands for: the kind before the first dash, the UUID after it.
pub open spec fn parse_id(text: Seq<char>) -> Result<ExternalID, IdError> {
    match text.index_of_first('-') {
        None => Err(IdError::MissingSeparator),
        Some(dash) => id_from_parts(
            text.subrange(0, dash),
            uuid_parse(text.subrange(dash + 1, text.len() as int)),
        ),
    }
}

/// The text of an identifier.
pub open spec fn id_text(id: ExternalID) -> Seq<char> {
    kind_text(id.kind) + "-"@ + uuid_text(id.uuid)
}

/// Calls `uuid::Uuid::parse_str` and hands out the number of the UUID it
/// read, `None` where it refused the text. The contract only names that
/// outcome.
#[verifier::external_body]
fn parse_uuid(text: &str) -> (value: Option<u128>)
    ensures
        value == uuid_parse(text@),
{
    match uuid::Uuid::parse_str(text) {
        Ok(parsed) => Some(parsed.as_u128()),
        Err(_) => None,
    }
}

/// Calls `uuid::Uuid::from_u128` and writes the result through its
/// `hyphenated` formatter. The contract says what that formatter writes: the
/// thirty-two digits in lower case, in five groups with hyphens between.
#[verifier::external_body]
fn format_uuid(value: u128) -> (text: String)
    ensures
        text@ == uuid_text(value),
{
    uuid::Uuid::from_u128(value).hyphenated().to_string()
}

/// Calls `uuid::Uuid::from_u128` and writes the result through its `simple`
/// formatter. The contract says what that formatter writes: the thirty-two
/// digits in lower case, without hyphens.
#[verifier::external_body]
pub(crate) fn format_uuid_simple(value: u128) -> (text: String)
    ensures
        text@ == uuid_simple_text(value),
{
    uuid::Uuid::from_u128(value).simple().to_string()
}

/// Calls `uuid::Uuid::new_v4`, which draws a random version-4 UUID, and
/// hands out its number. Nothing is claimed of the number drawn.
#[verifier::external_body]
pub(crate) fn random_uuid() -> (value: u128) {
    uuid::Uuid::new_v4().as_u128()
}

impl IdKind {
    /// The prefix that stands for this kind.
    pub fn as_str(&self) -> (text: &'static str)
        ensures
            text@ == kind_text(*self),
    {
        match self {
            IdKind::Input => "input",
            IdKind::Output => "output",
            IdKind::Function => "function",
            IdKind::Task => "task",
            IdKind::Fusion => "fusion",
        }
    }

    /// The kind that `prefix` stands for, if any.
    pub fn from_prefix(prefix: &str) -> (kind: Option<IdKind>)
        ensures
            kind == kind_of(prefix@),
    {
        let given = String::from_str(prefix);
        if given == String::from_str("input") {
            Some(IdKind::Input)
        } else if given == String::from_str("output") {
            Some(IdKind::Output)
        } else if given == String::from_str("function") {
            Some(IdKind::Function)
        } else if given == String::from_str("task") {
            Some(IdKind::Task)
        } else if given == String::from_str("fusion") {
            Some(IdKind::Fusion)
        } else {
            None
        }
    }
}

impl ExternalID {
    /// The identifier of kind `kind` with the UUID `uuid`.
    pub fn new(kind: IdKind, uuid: u128) -> (id: Self)
        ensures
            id == (ExternalID { kind, uuid }),
    {
        ExternalID { kind, uuid }
    }

    /// A fresh identifier of kind `kind`, with a random version-4 UUID.
    pub fn mint(kind: IdKind) -> (id: Self)
        ensures
            id.kind == kind,
    {
        ExternalID { kind, uuid: random_uuid() }
    }

    /// The identifier that `prefix` and the outcome `uuid` of reading the
    /// rest of a text give.
    pub fn from_parts(prefix: &str, uuid: Option<u128>) -> (id: Result<ExternalID, IdError>)
        ensures
            id == id_from_parts(prefix@, uuid),
    {
        match IdKind::from_prefix(prefix) {
            None => Err(IdError::UnknownPrefix),
            Some(kind) => match uuid {
                None => Err(IdError::MalformedUuid),
                Some(value) => Ok(ExternalID { kind, uuid: value }),
            },
        }
    }

    /// Reads an identifier from its text.
    pub fn try_from(text: &str) -> (id: Result<ExternalID, IdError>)
        ensures
            id == parse_id(text@),
    {
        let n = text.unicode_len();
        let mut dash: usize = 0;
        while dash < n && text.get_char(dash) != '-'
            invariant
                dash <= n,
                n == text@.len(),
                forall|j: int| 0 <= j < dash ==> text@[j] != '-',
            decreases n - dash,
        {
            dash += 1;
        }
        proof {
            text@.index_of_first_ensures('-');
        }
        if dash == n {
            return Err(IdError::MissingSeparator);
        }
        proof {
            assert(text@[dash as int] == '-');
            assert(text@.contains('-'));
            let first = text@.index_of_first('-').unwrap();
            assert(first == dash) by {
                if first < dash {
                    assert(text@[first] != '-');
                }
                if dash < first {
                    assert(text@[dash as int] != '-');
                }
            }
        }
        let prefix = text.substring_char(0, dash);
        let rest = text.substring_char(dash + 1, n);
        ExternalID::from_parts(prefix, parse_uuid(rest))
    }

    /// Whether this identifier names an entity of kind `kind`.
    pub fn is_kind(&self, kind: IdKind) -> (same: bool)
        ensures
            same == (self.kind == kind),
    {
        self.kind == kind
    }

    /// The key under which the entity is stored.
    pub fn storage_key(&self) -> (key: String)
        ensures
            key@ == storage_key_text(*self),
    {
        let mut key = String::from_str(self.kind.as_str());
        key.append("/");
        let digits = format_uuid(self.uuid);
        key.append(digits.as_str());
        key
    }

    /// The text of this identifier.
    pub fn to_string(&self) -> (text: String)
        ensures
            text@ == id_text(*self),
    {
        let mut text = String::from_str(self.kind.as_str());
        text.append("-");
        let digits = format_uuid(self.uuid);
        text.append(digits.as_str());
        text
    }
}

} // verus!
