//! The audit index: a full-text index over the messages of the audit
//! records, answered newest first. The index itself is tantivy's; this
//! module says what goes into it and what is made of what comes out.

use crate::address::{ipv6_compatible, Ipv6Addr};
use crate::audit::record::{Entry, EntryView};
use tantivy::collector::TopDocs;
use tantivy::query::QueryParser;
use tantivy::DateTime;
use vstd::multiset::Multiset;
use vstd::prelude::*;

verus! {

/// `tantivy::Index`: an index, opaque to the verifier.
#[verifier::external_type_specification]
#[verifier::external_body]
pub struct ExIndex(tantivy::Index);

/// `tantivy::IndexBuilder`: the settings of an index that is about to be
/// opened. Of what is inside, the verifier knows what `index_fields` and
/// `index_order` name.
#[verifier::external_type_specification]
#[verifier::external_body]
pub struct ExIndexBuilder(tantivy::IndexBuilder);

/// `tantivy::IndexReader`: the source of searchers over an index, opaque to
/// the verifier.
#[verifier::external_type_specification]
#[verifier::external_body]
pub struct ExIndexReader(tantivy::IndexReader);

/// `tantivy::IndexWriter`: the writer of an index. Of what is inside, the
/// verifier knows what `committed` and `pending` name.
#[verifier::external_type_specification]
#[verifier::external_body]
pub struct ExIndexWriter(tantivy::IndexWriter);

/// `tantivy::Searcher`: a snapshot of an index. Of what is inside, the
/// verifier knows what `addresses` names.
#[verifier::external_type_specification]
#[verifier::external_body]
pub struct ExSearcher(tantivy::Searcher);

/// `tantivy::Document`: a document. Of what is inside, the verifier knows
/// what `stored` names.
#[verifier::external_type_specification]
#[verifier::external_body]
pub struct ExDocument(tantivy::Document);

/// `tantivy::schema::Schema`: the fields of an index. Of what is inside, the
/// verifier knows what `schema_fields` names.
#[verifier::external_type_specification]
#[verifier::external_body]
pub struct ExSchema(tantivy::schema::Schema);

/// `tantivy::schema::SchemaBuilder`: a schema in the making. Of what is
/// inside, the verifier knows what `builder_fields` names.
#[verifier::external_type_specification]
#[verifier::external_body]
pub struct ExSchemaBuilder(tantivy::schema::SchemaBuilder);

/// `tantivy::TantivyError`: a failure of the index, opaque to the verifier.
#[verifier::external_type_specification]
#[verifier::external_body]
pub struct ExTantivyError(tantivy::TantivyError);

/// `tantivy::query::QueryParserError`: a query that could not be read,
/// opaque to the verifier.
#[verifier::external_type_specification]
#[verifier::external_body]
pub struct ExQueryParserError(tantivy::query::QueryParserError);

/// The fields of the audit schema.
#[derive(Clone, Copy, Debug, PartialEq, Eq, Structural)]
pub enum FieldName {
    Date,
    Ip,
    User,
    Message,
    Result,
}

/// Why the index could not be used.
#[derive(Clone, Copy, Debug, PartialEq, Eq, Structural)]
pub enum AuditError {
    /// The schema of the index lacks a field.
    Schema(FieldName),
    /// A stored document lacks a field, or holds a value of another type in
    /// it.
    MissingField(FieldName),
    /// The date that a hit was ranked by is not the date stored in its
    /// document.
    RankMismatch,
    /// The query could not be read.
    Query,
    /// The index failed.
    Index,
}

/// The value of one field of a stored document.
pub enum FieldValue {
    Date(i64),
    Ip(Seq<u8>),
    Text(Seq<char>),
    Bool(bool),
}

/// What a stored document holds of the audit fields, as far as each is there
/// with a value of its type.
pub struct DocumentFields {
    pub date: Option<i64>,
    pub ip: Option<Ipv6Addr>,
    pub user: Option<String>,
    pub message: Option<String>,
    pub result: Option<bool>,
}

/// The model of `DocumentFields`.
pub struct DocumentFieldsView {
    pub date: Option<i64>,
    pub ip: Option<Seq<u8>>,
    pub user: Option<Seq<char>>,
    pub message: Option<Seq<char>>,
    pub result: Option<bool>,
}

impl View for DocumentFields {
    type V = DocumentFieldsView;

    open spec fn view(&self) -> DocumentFieldsView {
        DocumentFieldsView {
            date: self.date,
            ip: crate::audit::record::optional_octets(self.ip),
            user: crate::audit::entry::optional_text(self.user),
            message: crate::audit::entry::optional_text(self.message),
            result: self.result,
        }
    }
}

/// The kind of values that a field of a schema holds.
pub enum FieldKind {
    /// Dates.
    Date,
    /// Internet addresses.
    Ip,
    /// Text that is cut into words when it is indexed.
    Text,
    /// Truth values.
    Bool,
    /// Values of another kind.
    Other,
}

/// What a schema says of one field: its name, the kind of its values,
/// whether they can be searched, are kept with the document, and can be read
/// fast for ranking, and how finely a date is ranked.
pub struct FieldSpec {
    pub name: Seq<char>,
    pub kind: FieldKind,
    pub indexed: bool,
    pub stored: bool,
    pub fast: bool,
    /// Whether the values are ranked to the microsecond; where not, dates are
    /// ranked to the second.
    pub microseconds: bool,
}

/// A date field that is indexed, stored and fast, and ranked to the
/// microsecond.
pub open spec fn date_field(name: Seq<char>) -> FieldSpec {
    FieldSpec {
        name,
        kind: FieldKind::Date,
        indexed: true,
        stored: true,
        fast: true,
        microseconds: true,
    }
}

/// An address field that is indexed and stored.
pub open spec fn ip_field(name: Seq<char>) -> FieldSpec {
    FieldSpec {
        name,
        kind: FieldKind::Ip,
        indexed: true,
        stored: true,
        fast: false,
        microseconds: false,
    }
}

/// A text field that is indexed by its words and stored.
pub open spec fn text_field(name: Seq<char>) -> FieldSpec {
    FieldSpec {
        name,
        kind: FieldKind::Text,
        indexed: true,
        stored: true,
        fast: false,
        microseconds: false,
    }
}

/// A truth-value field that is indexed and stored.
pub open spec fn bool_field(name: Seq<char>) -> FieldSpec {
    FieldSpec {
        name,
        kind: FieldKind::Bool,
        indexed: true,
        stored: true,
        fast: false,
        microseconds: false,
    }
}

/// The fields of the audit schema, in their order: the date of a record, the
/// address, the user, the message, the result.
pub open spec fn audit_schema() -> Seq<FieldSpec> {
    seq![
        date_field("date"@),
        ip_field("ip"@),
        text_field("user"@),
        text_field("message"@),
        bool_field("result"@),
    ]
}

/// No field of `fields` has the name `name`.
pub open spec fn name_is_free(fields: Seq<FieldSpec>, name: Seq<char>) -> bool {
    forall|i: int| 0 <= i < fields.len() ==> (#[trigger] fields[i]).name != name
}

/// A field may have the name `name`: the name is not empty and does not
/// begin with a dash.
pub open spec fn name_is_valid(name: Seq<char>) -> bool {
    name.len() > 0 && name[0] != '-'
}

/// The field of `fields` that the number `number` stands for has the name
/// `name`.
pub open spec fn is_named(fields: Seq<FieldSpec>, number: u32, name: Seq<char>) -> bool {
    number < fields.len() && fields[number as int].name == name
}

/// The audit field that `fields` lacks, the first in the order date,
/// address, user, message, result, if it lacks one.
pub open spec fn first_missing(fields: Seq<FieldSpec>) -> Option<FieldName> {
    if name_is_free(fields, "date"@) {
        Some(FieldName::Date)
    } else if name_is_free(fields, "ip"@) {
        Some(FieldName::Ip)
    } else if name_is_free(fields, "user"@) {
        Some(FieldName::User)
    } else if name_is_free(fields, "message"@) {
        Some(FieldName::Message)
    } else if name_is_free(fields, "result"@) {
        Some(FieldName::Result)
    } else {
        None
    }
}

/// Each of the five numbers stands for the field of `fields` that has the
/// name of its audit field.
pub open spec fn points_to(fields: Seq<FieldSpec>, numbers: AuditFieldsView) -> bool {
    &&& is_named(fields, numbers.date, "date"@)
    &&& is_named(fields, numbers.ip, "ip"@)
    &&& is_named(fields, numbers.user, "user"@)
    &&& is_named(fields, numbers.message, "message"@)
    &&& is_named(fields, numbers.result, "result"@)
}

/// The audit fields that five lookups give: the first lookup that found
/// nothing names the field that is missing; five numbers of which two are
/// the same are no audit fields, and count as a missing date.
pub open spec fn fields_of_lookups(
    date: Option<u32>,
    ip: Option<u32>,
    user: Option<u32>,
    message: Option<u32>,
    result: Option<u32>,
) -> Result<AuditFieldsView, AuditError> {
    if date is None {
        Err(AuditError::Schema(FieldName::Date))
    } else if ip is None {
        Err(AuditError::Schema(FieldName::Ip))
    } else if user is None {
        Err(AuditError::Schema(FieldName::User))
    } else if message is None {
        Err(AuditError::Schema(FieldName::Message))
    } else if result is None {
        Err(AuditError::Schema(FieldName::Result))
    } else {
        let numbers = AuditFieldsView {
            date: date.unwrap(),
            ip: ip.unwrap(),
            user: user.unwrap(),
            message: message.unwrap(),
            result: result.unwrap(),
        };
        if all_distinct(numbers) {
            Ok(numbers)
        } else {
            Err(AuditError::Schema(FieldName::Date))
        }
    }
}

/// The names of the five audit fields differ from each other, and each may
/// be the name of a field.
pub proof fn lemma_audit_names()
    ensures
        "date"@ != "ip"@,
        "date"@ != "user"@,
        "date"@ != "message"@,
        "date"@ != "result"@,
        "ip"@ != "user"@,
        "ip"@ != "message"@,
        "ip"@ != "result"@,
        "user"@ != "message"@,
        "user"@ != "result"@,
        "message"@ != "result"@,
        name_is_valid("date"@),
        name_is_valid("ip"@),
        name_is_valid("user"@),
        name_is_valid("message"@),
        name_is_valid("result"@),
{
    reveal_strlit("date");
    reveal_strlit("ip");
    reveal_strlit("user");
    reveal_strlit("message");
    reveal_strlit("result");
    assert("date"@.len() == 4 && "ip"@.len() == 2 && "user"@.len() == 4);
    assert("message"@.len() == 7 && "result"@.len() == 6);
    assert("date"@[0] == 'd' && "user"@[0] == 'u' && "ip"@[0] == 'i');
    assert("message"@[0] == 'm' && "result"@[0] == 'r');
}

/// The fields of `schema`, in the order of their numbers.
pub uninterp spec fn schema_fields(schema: tantivy::schema::Schema) -> Seq<FieldSpec>;

/// The fields of the schema of `index`, in the order of their numbers.
pub uninterp spec fn index_schema(index: tantivy::Index) -> Seq<FieldSpec>;

/// The fields of the schema of the index that `reader` reads, in the order
/// of their numbers.
pub uninterp spec fn reader_fields(reader: tantivy::IndexReader) -> Seq<FieldSpec>;

/// The fields of the schema of the index that `searcher` searches, in the
/// order of their numbers.
pub uninterp spec fn searcher_fields(searcher: tantivy::Searcher) -> Seq<FieldSpec>;

/// The number of documents that `searcher` searches.
pub uninterp spec fn document_count(searcher: tantivy::Searcher) -> u64;

/// The hits that `searcher` finds for the query `text`, read with the field
/// `message` as its default field, where at most `limit` hits are asked for
/// and ranked by the fast field `date`; `None` where the query cannot be
/// read or the search fails.
pub uninterp spec fn search_hits(
    searcher: tantivy::Searcher,
    message: u32,
    date: u32,
    text: Seq<char>,
    limit: usize,
) -> Option<Seq<Hit>>;

/// The most characters of a query.
pub const MAX_QUERY_CHARS: usize = 1024;

/// The most opening parentheses and negations of a query, taken together.
pub const MAX_QUERY_NESTING: usize = 16;

/// A negation begins at `place` of `text`: the word `NOT`.
pub open spec fn negation_at(text: Seq<char>, place: int) -> bool {
    0 <= place && place + 2 < text.len() && text[place] == 'N' && text[place + 1] == 'O' && text[place
        + 2] == 'T'
}

/// The number of opening parentheses and of negations that begin before
/// `end` in `text`: no part of a query is nested deeper than that.
pub open spec fn nesting_before(text: Seq<char>, end: int) -> nat
    decreases end,
{
    if end <= 0 {
        0
    } else {
        nesting_before(text, end - 1) + if text[end - 1] == '(' || negation_at(text, end - 1) {
            1nat
        } else {
            0nat
        }
    }
}

/// A query that the index is asked: it is not longer than
/// `MAX_QUERY_CHARS`, and its opening parentheses and negations are not more
/// than `MAX_QUERY_NESTING`.
pub open spec fn query_is_bounded(text: Seq<char>) -> bool {
    text.len() <= MAX_QUERY_CHARS && nesting_before(text, text.len() as int) <= MAX_QUERY_NESTING
}

/// The number of hits that a search asks for, where the caller wants at most
/// `limit` and `documents` are there: no more than there are documents, and
/// never none.
pub open spec fn search_bound(limit: usize, documents: u64) -> usize {
    if documents == 0 {
        1
    } else if limit <= documents {
        limit
    } else {
        documents as usize
    }
}

/// The fields that have been added to `builder`, in the order in which they
/// were added.
pub uninterp spec fn builder_fields(builder: tantivy::schema::SchemaBuilder) -> Seq<FieldSpec>;

/// The fields of the schema that `builder` was given.
pub uninterp spec fn index_fields(builder: tantivy::IndexBuilder) -> Seq<FieldSpec>;

/// The name of the field by which an index made by `builder` keeps its
/// documents sorted, highest first, if it keeps them sorted so.
pub uninterp spec fn index_order(builder: tantivy::IndexBuilder) -> Option<Seq<char>>;

/// The first value that `document` holds for each field, by the number of
/// the field.
pub uninterp spec fn stored(document: tantivy::Document) -> Map<u32, FieldValue>;

/// The documents that have been added through `writer` and committed, each
/// as what `stored` says of it.
pub uninterp spec fn committed(writer: tantivy::IndexWriter) -> Multiset<Map<u32, FieldValue>>;

/// The documents that have been added through `writer` since its last
/// commit, each as what `stored` says of it.
pub uninterp spec fn pending(writer: tantivy::IndexWriter) -> Multiset<Map<u32, FieldValue>>;

/// The addresses of the documents that `searcher` can fetch, each as its
/// segment and its number within the segment.
pub uninterp spec fn addresses(searcher: tantivy::Searcher) -> Set<(u32, u32)>;

/// The numbers of the fields of the audit schema. No two are the same.
#[derive(Clone, Copy, Debug)]
pub struct AuditFields {
    date: u32,
    ip: u32,
    user: u32,
    message: u32,
    result: u32,
}

/// The model of `AuditFields`.
pub struct AuditFieldsView {
    pub date: u32,
    pub ip: u32,
    pub user: u32,
    pub message: u32,
    pub result: u32,
}

/// No two of the five numbers are the same.
pub open spec fn all_distinct(fields: AuditFieldsView) -> bool {
    &&& fields.date != fields.ip
    &&& fields.date != fields.user
    &&& fields.date != fields.message
    &&& fields.date != fields.result
    &&& fields.ip != fields.user
    &&& fields.ip != fields.message
    &&& fields.ip != fields.result
    &&& fields.user != fields.message
    &&& fields.user != fields.result
    &&& fields.message != fields.result
}

impl View for AuditFields {
    type V = AuditFieldsView;

    closed spec fn view(&self) -> AuditFieldsView {
        AuditFieldsView {
            date: self.date,
            ip: self.ip,
            user: self.user,
            message: self.message,
            result: self.result,
        }
    }
}

impl AuditFields {
    #[verifier::type_invariant]
    spec fn distinct(&self) -> bool {
        all_distinct(self@)
    }

    /// The fields with these numbers, where no two are the same.
    pub fn new(date: u32, ip: u32, user: u32, message: u32, result: u32) -> (fields: Option<
        AuditFields,
    >)
        ensures
            all_distinct(AuditFieldsView { date, ip, user, message, result }) ==> fields.is_some()
                && fields.unwrap()@ == (AuditFieldsView { date, ip, user, message, result }),
            !all_distinct(AuditFieldsView { date, ip, user, message, result })
                ==> fields.is_none(),
    {
        if date != ip && date != user && date != message && date != result && ip != user && ip
            != message && ip != result && user != message && user != result && message
            != result {
            Some(AuditFields { date, ip, user, message, result })
        } else {
            None
        }
    }

    /// The audit fields that five lookups give: the first lookup that found
    /// nothing names the field that is missing.
    pub fn from_lookups(
        date: Option<u32>,
        ip: Option<u32>,
        user: Option<u32>,
        message: Option<u32>,
        result: Option<u32>,
    ) -> (fields: Result<AuditFields, AuditError>)
        ensures
            match fields_of_lookups(date, ip, user, message, result) {
                Ok(numbers) => fields is Ok && fields.unwrap()@ == numbers,
                Err(error) => fields == Err::<AuditFields, AuditError>(error),
            },
    {
        let date = match date {
            Some(number) => number,
            None => {
                return Err(AuditError::Schema(FieldName::Date));
            },
        };
        let ip = match ip {
            Some(number) => number,
            None => {
                return Err(AuditError::Schema(FieldName::Ip));
            },
        };
        let user = match user {
            Some(number) => number,
            None => {
                return Err(AuditError::Schema(FieldName::User));
            },
        };
        let message = match message {
            Some(number) => number,
            None => {
                return Err(AuditError::Schema(FieldName::Message));
            },
        };
        let result = match result {
            Some(number) => number,
            None => {
                return Err(AuditError::Schema(FieldName::Result));
            },
        };
        match AuditFields::new(date, ip, user, message, result) {
            Some(fields) => Ok(fields),
            None => Err(AuditError::Schema(FieldName::Date)),
        }
    }
}

/// What `values` holds of the audit fields.
pub open spec fn fields_in(values: Map<u32, FieldValue>, fields: AuditFieldsView) -> DocumentFieldsView {
    DocumentFieldsView {
        date: if values.contains_key(fields.date) && values[fields.date] is Date {
            Some(values[fields.date]->Date_0)
        } else {
            None
        },
        ip: if values.contains_key(fields.ip) && values[fields.ip] is Ip {
            Some(values[fields.ip]->Ip_0)
        } else {
            None
        },
        user: if values.contains_key(fields.user) && values[fields.user] is Text {
            Some(values[fields.user]->Text_0)
        } else {
            None
        },
        message: if values.contains_key(fields.message) && values[fields.message] is Text {
            Some(values[fields.message]->Text_0)
        } else {
            None
        },
        result: if values.contains_key(fields.result) && values[fields.result] is Bool {
            Some(values[fields.result]->Bool_0)
        } else {
            None
        },
    }
}

/// The record that the fields of a document stand for, or the first field
/// that is missing.
pub open spec fn record_of(fields: DocumentFieldsView) -> Result<EntryView, AuditError> {
    if fields.date is None {
        Err(AuditError::MissingField(FieldName::Date))
    } else if fields.ip is None {
        Err(AuditError::MissingField(FieldName::Ip))
    } else if fields.user is None {
        Err(AuditError::MissingField(FieldName::User))
    } else if fields.message is None {
        Err(AuditError::MissingField(FieldName::Message))
    } else if fields.result is None {
        Err(AuditError::MissingField(FieldName::Result))
    } else {
        Ok(
            EntryView {
                date: fields.date.unwrap(),
                ip: fields.ip.unwrap(),
                user: fields.user.unwrap(),
                message: fields.message.unwrap(),
                result: fields.result.unwrap(),
            },
        )
    }
}

/// The fields that a record is stored as.
pub open spec fn fields_of(record: EntryView) -> DocumentFieldsView {
    DocumentFieldsView {
        date: Some(record.date),
        ip: Some(record.ip),
        user: Some(record.user),
        message: Some(record.message),
        result: Some(record.result),
    }
}

/// The record of a hit that was ranked by the date `rank`: the record of its
/// document, which must hold that date.
pub open spec fn record_of_hit(rank: i64, fields: DocumentFieldsView) -> Result<
    EntryView,
    AuditError,
> {
    match record_of(fields) {
        Err(error) => Err(error),
        Ok(record) => if record.date == rank {
            Ok(record)
        } else {
            Err(AuditError::RankMismatch)
        },
    }
}

/// The records are in the order newest first.
pub open spec fn newest_first(records: Seq<Entry>) -> bool {
    forall|i: int, j: int|
        0 <= i <= j < records.len() ==> (#[trigger] records[i])@.date >= (
        #[trigger] records[j])@.date
}

/// One hit of a search: the date that it was ranked by, and the address of
/// its document.
#[derive(Clone, Copy, Debug)]
pub struct Hit {
    pub rank: i64,
    pub segment: u32,
    pub doc: u32,
}

impl Hit {
    /// The hit ranked by `rank` whose document is number `doc` of the segment
    /// `segment`.
    pub fn new(rank: i64, segment: u32, doc: u32) -> (hit: Self)
        ensures
            hit.rank == rank,
            hit.segment == segment,
            hit.doc == doc,
    {
        Hit { rank, segment, doc }
    }
}

/// Why a search failed.
pub enum SearchFailure {
    /// The query could not be read.
    Query(tantivy::query::QueryParserError),
    /// The index failed.
    Index(tantivy::TantivyError),
}

/// The hits are ranked from the latest date down.
pub open spec fn ranked(hits: Seq<Hit>) -> bool {
    forall|i: int, j: int|
        0 <= i <= j < hits.len() ==> (#[trigger] hits[i]).rank >= (#[trigger] hits[j]).rank
}

/// Calls `tantivy::schema::Schema::get_field`, which looks a field up by its
/// name, and hands out the number of the field. The contract says that the
/// number found is that of a field with this name, and that nothing is found
/// only where no field has this name.
#[verifier::external_body]
fn lookup_field(schema: &tantivy::schema::Schema, name: &str) -> (field: Option<u32>)
    ensures
        field matches Some(number) ==> is_named(schema_fields(*schema), number, name@),
        field is None ==> name_is_free(schema_fields(*schema), name@),
{
    schema.get_field(name).map(|field| field.field_id())
}

/// Calls `tantivy::schema::Schema::builder`. The contract says that nothing
/// has been added to a new builder.
#[verifier::external_body]
fn new_schema_builder() -> (builder: tantivy::schema::SchemaBuilder)
    ensures
        builder_fields(builder).len() == 0,
{
    tantivy::schema::Schema::builder()
}

/// Calls `tantivy::schema::SchemaBuilder::add_date_field` with the options
/// `INDEXED | FAST | STORED` at the precision of microseconds. The contract
/// says that the field is added behind the others. The call panics on a name
/// that is empty or begins with a dash, and on a name that is taken, which
/// the preconditions leave out.
#[verifier::external_body]
fn add_date_field(builder: &mut tantivy::schema::SchemaBuilder, name: &str)
    requires
        name_is_valid(name@),
        name_is_free(builder_fields(*old(builder)), name@),
    ensures
        builder_fields(*final(builder)) == builder_fields(*old(builder)).push(date_field(name@)),
{
    let options = tantivy::schema::DateOptions::from(
        tantivy::schema::INDEXED | tantivy::schema::FAST | tantivy::schema::STORED,
    ).set_precision(tantivy::schema::DatePrecision::Microseconds);
    builder.add_date_field(name, options);
}

/// Calls `tantivy::schema::SchemaBuilder::add_ip_addr_field` with the
/// options `INDEXED | STORED`. The contract says that the field is added
/// behind the others. The call panics on a name that is empty or begins with
/// a dash, and on a name that is taken, which the preconditions leave out.
#[verifier::external_body]
fn add_ip_field(builder: &mut tantivy::schema::SchemaBuilder, name: &str)
    requires
        name_is_valid(name@),
        name_is_free(builder_fields(*old(builder)), name@),
    ensures
        builder_fields(*final(builder)) == builder_fields(*old(builder)).push(ip_field(name@)),
{
    builder.add_ip_addr_field(name, tantivy::schema::INDEXED | tantivy::schema::STORED);
}

/// Calls `tantivy::schema::SchemaBuilder::add_text_field` with the options
/// `TEXT | STORED`. The contract says that the field is added behind the
/// others. The call panics on a name that is empty or begins with a dash,
/// and on a name that is taken, which the preconditions leave out.
#[verifier::external_body]
fn add_text_field(builder: &mut tantivy::schema::SchemaBuilder, name: &str)
    requires
        name_is_valid(name@),
        name_is_free(builder_fields(*old(builder)), name@),
    ensures
        builder_fields(*final(builder)) == builder_fields(*old(builder)).push(text_field(name@)),
{
    builder.add_text_field(name, tantivy::schema::TEXT | tantivy::schema::STORED);
}

/// Calls `tantivy::schema::SchemaBuilder::add_bool_field` with the options
/// `INDEXED | STORED`. The contract says that the field is added behind the
/// others. The call panics on a name that is empty or begins with a dash,
/// and on a name that is taken, which the preconditions leave out.
#[verifier::external_body]
fn add_bool_field(builder: &mut tantivy::schema::SchemaBuilder, name: &str)
    requires
        name_is_valid(name@),
        name_is_free(builder_fields(*old(builder)), name@),
    ensures
        builder_fields(*final(builder)) == builder_fields(*old(builder)).push(bool_field(name@)),
{
    builder.add_bool_field(name, tantivy::schema::INDEXED | tantivy::schema::STORED);
}

/// Calls `tantivy::schema::SchemaBuilder::build`. The contract says that the
/// schema has the fields that were added, in their order.
#[verifier::external_body]
fn build_schema(builder: tantivy::schema::SchemaBuilder) -> (schema: tantivy::schema::Schema)
    ensures
        schema_fields(schema) == builder_fields(builder),
{
    builder.build()
}

/// Calls `tantivy::Index::builder` and gives the builder the schema and, as
/// its settings, the default settings with a descending sort by the field
/// `sort_field`. The contract says that the builder has that schema and that
/// order.
#[verifier::external_body]
fn builder_for(schema: tantivy::schema::Schema, sort_field: &str) -> (builder:
    tantivy::IndexBuilder)
    ensures
        index_fields(builder) == schema_fields(schema),
        index_order(builder) == Some(sort_field@),
{
    let sort_by_field = Some(
        tantivy::IndexSortByField { field: sort_field.to_string(), order: tantivy::Order::Desc },
    );
    let settings = tantivy::IndexSettings { sort_by_field, ..Default::default() };
    tantivy::Index::builder().schema(schema).settings(settings)
}

/// Calls `tantivy::Index::schema`, which hands out a copy of the schema of
/// the index. The contract says that the copy has the fields of that schema.
#[verifier::external_body]
fn schema_of(index: &tantivy::Index) -> (schema: tantivy::schema::Schema)
    ensures
        schema_fields(schema) == index_schema(*index),
{
    index.schema()
}

/// Calls `tantivy::IndexReaderBuilder::try_into` on the reader builder of
/// `index`, with the policy to reload on every commit. The contract says
/// that the reader reads an index of the same schema.
#[verifier::external_body]
fn open_reader(index: &tantivy::Index) -> (reader: Result<
    tantivy::IndexReader,
    tantivy::TantivyError,
>)
    ensures
        reader matches Ok(opened) ==> reader_fields(opened) == index_schema(*index),
{
    index.reader_builder().reload_policy(tantivy::ReloadPolicy::OnCommit).try_into()
}

/// Calls `tantivy::Index::writer_with_num_threads`, which divides the bytes
/// by the number of threads: the precondition leaves zero threads out. The
/// contract says that nothing has been added or committed through a new
/// writer.
#[verifier::external_body]
fn open_writer(index: &tantivy::Index, threads: usize, arena_bytes: usize) -> (writer: Result<
    tantivy::IndexWriter,
    tantivy::TantivyError,
>)
    requires
        threads > 0,
    ensures
        writer matches Ok(opened) ==> committed(opened).len() == 0 && pending(opened).len() == 0,
{
    index.writer_with_num_threads(threads, arena_bytes)
}

/// Makes a `tantivy::Document` and adds one value to each of five fields
/// with `add_date`, `add_ip_addr`, `add_text` and `add_bool`. The contract
/// says that the document then holds these values first in their fields,
/// where the five fields are different ones.
#[verifier::external_body]
fn new_document(
    fields: &AuditFields,
    date: i64,
    ip: &[u8; 16],
    user: &str,
    message: &str,
    result: bool,
) -> (document: tantivy::Document)
    requires
        all_distinct(fields@),
    ensures
        fields_in(stored(document), fields@) == (DocumentFieldsView {
            date: Some(date),
            ip: Some(ip@),
            user: Some(user@),
            message: Some(message@),
            result: Some(result),
        }),
{
    let mut document = tantivy::Document::default();
    let at = tantivy::schema::Field::from_field_id;
    document.add_date(at(fields.date), tantivy::DateTime::from_timestamp_micros(date));
    document.add_ip_addr(at(fields.ip), (*ip).into());
    document.add_text(at(fields.user), user);
    document.add_text(at(fields.message), message);
    document.add_bool(at(fields.result), result);
    document
}

/// Calls `tantivy::Document::get_first` for each of five fields and reads
/// the value with `as_date`, `as_ip_addr`, `as_text` and `as_bool`. The
/// contract says that the result is what the document holds first in each
/// field, as far as it is of the field's type.
#[verifier::external_body]
fn read_document(fields: &AuditFields, document: &tantivy::Document) -> (read: DocumentFields)
    ensures
        read@ == fields_in(stored(*document), fields@),
{
    let at = tantivy::schema::Field::from_field_id;
    let first = |field: u32| document.get_first(at(field));
    DocumentFields {
        date: first(fields.date).and_then(|v| v.as_date()).map(|d| d.into_timestamp_micros()),
        ip: first(fields.ip).and_then(|v| v.as_ip_addr()).map(|a| Ipv6Addr { octets: a.octets() }),
        user: first(fields.user).and_then(|v| v.as_text()).map(|t| t.to_owned()),
        message: first(fields.message).and_then(|v| v.as_text()).map(|t| t.to_owned()),
        result: first(fields.result).and_then(|v| v.as_bool()),
    }
}

/// Calls `tantivy::IndexWriter::add_document`. The contract says what its
/// documentation says of a call that succeeds: the document is added, and
/// waits for the next commit.
#[verifier::external_body]
fn add_document(writer: &mut tantivy::IndexWriter, document: tantivy::Document) -> (stamp: Result<
    u64,
    tantivy::TantivyError,
>)
    ensures
        stamp is Ok ==> pending(*final(writer)) == pending(*old(writer)).insert(stored(document))
            && committed(*final(writer)) == committed(*old(writer)),
{
    writer.add_document(document)
}

/// Calls `tantivy::IndexWriter::commit`. The contract says what its
/// documentation says of a call that returns: all the documents added since
/// the last commit are published.
#[verifier::external_body]
fn commit(writer: &mut tantivy::IndexWriter) -> (stamp: Result<u64, tantivy::TantivyError>)
    ensures
        stamp is Ok ==> committed(*final(writer)) == committed(*old(writer)).add(
            pending(*old(writer)),
        ) && pending(*final(writer)).len() == 0,
{
    writer.commit()
}

/// Calls `tantivy::IndexReader::searcher`. The contract says that the
/// searcher searches an index of the same schema.
#[verifier::external_body]
fn new_searcher(reader: &tantivy::IndexReader) -> (searcher: tantivy::Searcher)
    ensures
        searcher_fields(searcher) == reader_fields(*reader),
{
    reader.searcher()
}

/// Calls `tantivy::Searcher::num_docs`. The contract only names the number.
#[verifier::external_body]
fn count_documents(searcher: &tantivy::Searcher) -> (count: u64)
    ensures
        count == document_count(*searcher),
{
    searcher.num_docs()
}

/// Reads `query` with a `tantivy::query::QueryParser` whose default field is
/// `message`, and calls `tantivy::Searcher::search` with a
/// `TopDocs::with_limit(limit)` collector ordered by the fast field `date`.
/// The contract names the hits and says what tantivy documents of that
/// collector: the hits are at most `limit`, sorted decreasingly by the date
/// they were ranked by, and each can be fetched from `searcher`. The
/// preconditions leave out what the call does not return from: a limit of
/// zero, on which `with_limit` panics; a limit beyond the documents, for
/// which the collector would allocate a heap that memory may not hold; a
/// field that the schema does not have; and a query that is long or deeply
/// nested, on which the parser recurses without a bound.
#[verifier::external_body]
fn search(searcher: &tantivy::Searcher, message: u32, date: u32, query: &str, limit: usize) -> (found:
    Result<Vec<Hit>, SearchFailure>)
    requires
        limit > 0,
        limit == 1 || limit <= document_count(*searcher),
        message < searcher_fields(*searcher).len(),
        date < searcher_fields(*searcher).len(),
        query_is_bounded(query@),
    ensures
        found matches Ok(hits) ==> search_hits(*searcher, message, date, query@, limit) == Some(
            hits@,
        ),
        found is Err ==> search_hits(*searcher, message, date, query@, limit) is None,
        found matches Ok(hits) ==> hits@.len() <= limit && ranked(hits@) && forall|i: int|
            0 <= i < hits@.len() ==> addresses(*searcher).contains(
                ((#[trigger] hits@[i]).segment, hits@[i].doc),
            ),
{
    let at = tantivy::schema::Field::from_field_id;
    let parser = QueryParser::for_index(searcher.index(), vec![at(message)]);
    let parsed = parser.parse_query(query).map_err(SearchFailure::Query)?;
    let top = TopDocs::with_limit(limit).order_by_fast_field::<DateTime>(at(date));
    let hits = searcher.search(&parsed, &top).map_err(SearchFailure::Index)?;
    Ok(hits.into_iter().map(|(d, a)| Hit::new(d.into_timestamp_micros(), a.segment_ord, a.doc_id)).collect())
}

/// Calls `tantivy::Searcher::doc` with the address made of `segment` and
/// `doc`. The address must be one that the searcher can fetch: `doc` indexes
/// its store readers by the segment. The contract says that a document that
/// comes back holds what the searcher keeps at that address.
#[verifier::external_body]
fn fetch_document(searcher: &tantivy::Searcher, segment: u32, doc: u32) -> (document: Result<
    tantivy::Document,
    tantivy::TantivyError,
>)
    requires
        addresses(*searcher).contains((segment, doc)),
    ensures
        document matches Ok(held) ==> fetched(*searcher, segment, doc) == Some(stored(held)),
{
    searcher.doc(tantivy::DocAddress::new(segment, doc))
}

/// The record that the index keeps for a log entry: the same time, user,
/// message and result, and the IPv4-compatible IPv6 address.
pub open spec fn record_of_log(log: crate::audit::entry::EntryView) -> EntryView {
    EntryView {
        date: log.microsecond,
        ip: ipv6_compatible(log.ip@),
        user: log.user,
        message: log.message,
        result: log.result,
    }
}

impl Entry {
    /// The record that the index keeps for `log`.
    pub fn from_log(log: &crate::audit::entry::Entry) -> (record: Entry)
        ensures
            record@ == record_of_log(log@),
    {
        Entry::new(
            log.microsecond(),
            log.ip().to_ipv6_compatible(),
            log.user(),
            log.message(),
            log.result(),
        )
    }

    /// The record that the fields of a document stand for, or the first
    /// field that is missing.
    pub fn from_fields(fields: DocumentFields) -> (record: Result<Entry, AuditError>)
        ensures
            match record_of(fields@) {
                Ok(model) => record is Ok && record.unwrap()@ == model,
                Err(error) => record == Err::<Entry, AuditError>(error),
            },
    {
        let date = match fields.date {
            Some(date) => date,
            None => {
                return Err(AuditError::MissingField(FieldName::Date));
            },
        };
        let ip = match fields.ip {
            Some(ip) => ip,
            None => {
                return Err(AuditError::MissingField(FieldName::Ip));
            },
        };
        let user = match fields.user {
            Some(user) => user,
            None => {
                return Err(AuditError::MissingField(FieldName::User));
            },
        };
        let message = match fields.message {
            Some(message) => message,
            None => {
                return Err(AuditError::MissingField(FieldName::Message));
            },
        };
        let result = match fields.result {
            Some(result) => result,
            None => {
                return Err(AuditError::MissingField(FieldName::Result));
            },
        };
        Ok(Entry::new(date, ip, user, message, result))
    }

    /// The record of a hit that was ranked by the date `rank`: the record of
    /// its document, which must hold that date.
    pub fn from_hit(rank: i64, fields: DocumentFields) -> (record: Result<Entry, AuditError>)
        ensures
            match record_of_hit(rank, fields@) {
                Ok(model) => record is Ok && record.unwrap()@ == model,
                Err(error) => record == Err::<Entry, AuditError>(error),
            },
    {
        match Entry::from_fields(fields) {
            Err(error) => Err(error),
            Ok(record) => {
                if record.date() == rank {
                    Ok(record)
                } else {
                    Err(AuditError::RankMismatch)
                }
            },
        }
    }

    /// The record of `document`, or the first field that is missing in it.
    pub fn try_from(fields: &AuditFields, document: &tantivy::Document) -> (record: Result<
        Entry,
        AuditError,
    >)
        ensures
            match record_of(fields_in(stored(*document), fields@)) {
                Ok(model) => record is Ok && record.unwrap()@ == model,
                Err(error) => record == Err::<Entry, AuditError>(error),
            },
    {
        Entry::from_fields(read_document(fields, document))
    }

    /// The document that this record is stored as.
    pub fn to_document(&self, fields: &AuditFields) -> (document: tantivy::Document)
        ensures
            fields_in(stored(document), fields@) == fields_of(self@),
            record_of(fields_in(stored(document), fields@)) == Ok::<EntryView, AuditError>(self@),
    {
        let ip = self.ip();
        let user = self.user();
        let message = self.message();
        proof {
            use_type_invariant(fields);
        }
        new_document(fields, self.date(), &ip.octets, user.as_str(), message.as_str(), self.result())
    }
}

/// The number of indexing threads of the writer.
pub const WRITER_THREADS: usize = 1;

/// The bytes of memory that the writer may use.
pub const WRITER_ARENA_BYTES: usize = 24_000_000;

/// The reader of an audit index with the numbers of the audit fields in the
/// schema of that index.
pub struct AuditSource {
    reader: tantivy::IndexReader,
    fields: AuditFields,
}

impl AuditSource {
    #[verifier::type_invariant]
    spec fn fields_are_there(&self) -> bool {
        points_to(reader_fields(self.reader), self.fields@)
    }
}

/// The fields of the document that `searcher` keeps at the address made of
/// `segment` and `doc`, where it keeps one there that can be read.
pub uninterp spec fn fetched(searcher: tantivy::Searcher, segment: u32, doc: u32) -> Option<Map<u32, FieldValue>>;

/// The record of `hit` in `searcher`: the record of the document at the
/// hit's address, which must hold the date that the hit was ranked by.
pub open spec fn hit_record(searcher: tantivy::Searcher, numbers: AuditFieldsView, hit: Hit) -> Option<
    Result<EntryView, AuditError>,
> {
    match fetched(searcher, hit.segment, hit.doc) {
        None => None,
        Some(document) => Some(record_of_hit(hit.rank, fields_in(document, numbers))),
    }
}

/// `found` is what a query makes of what the search in `searcher` gave. A
/// search that failed is a failure. Records are returned only as one for
/// each hit, in order, each the record of its hit. A failure after the
/// search is the index's, where a document could not be fetched, or that of
/// the first hit whose document holds no record.
pub open spec fn answers(
    searcher: tantivy::Searcher,
    numbers: AuditFieldsView,
    asked: Option<Seq<Hit>>,
    found: Result<Vec<Entry>, AuditError>,
) -> bool {
    match asked {
        None => found is Err,
        Some(hits) => match found {
            Ok(records) => records@.len() == hits.len() && forall|k: int|
                0 <= k < hits.len() ==> hit_record(searcher, numbers, #[trigger] hits[k]) == Some(
                    Ok::<EntryView, AuditError>(records@[k]@),
                ),
            Err(error) => error == AuditError::Index || exists|k: int|
                0 <= k < hits.len() && hit_record(searcher, numbers, #[trigger] hits[k]) == Some(
                    Err::<EntryView, AuditError>(error),
                ) && forall|j: int|
                    0 <= j < k ==> (hit_record(searcher, numbers, #[trigger] hits[j]) matches Some(
                        Ok(_),
                    )),
        },
    }
}

/// The audit index with its reader and its writer.
pub struct LogService {
    source: AuditSource,
    writer: tantivy::IndexWriter,
}

/// Whether `query` is a query that the index is asked: one that is not too
/// long and not too deeply nested.
pub fn query_in_bounds(query: &str) -> (bounded: bool)
    ensures
        bounded == query_is_bounded(query@),
{
    let length = query.unicode_len();
    if length > MAX_QUERY_CHARS {
        return false;
    }
    let mut nesting: usize = 0;
    let mut i: usize = 0;
    while i < length
        invariant
            i <= length,
            length == query@.len(),
            length <= MAX_QUERY_CHARS,
            nesting == nesting_before(query@, i as int),
            nesting <= i,
        decreases length - i,
    {
        let opens = query.get_char(i) == '(';
        let negates = i + 2 < length && query.get_char(i) == 'N' && query.get_char(i + 1) == 'O'
            && query.get_char(i + 2) == 'T';
        if opens || negates {
            nesting += 1;
        }
        i += 1;
    }
    nesting <= MAX_QUERY_NESTING
}

/// The numbers of the audit fields in `schema`, or the first field that the
/// schema lacks.
fn fields_from(schema: &tantivy::schema::Schema) -> (fields: Result<AuditFields, AuditError>)
    ensures
        match first_missing(schema_fields(*schema)) {
            Some(field) => fields == Err::<AuditFields, AuditError>(AuditError::Schema(field)),
            None => fields is Ok && points_to(schema_fields(*schema), fields.unwrap()@),
        },
{
    let date = lookup_field(schema, "date");
    let ip = lookup_field(schema, "ip");
    let user = lookup_field(schema, "user");
    let message = lookup_field(schema, "message");
    let result = lookup_field(schema, "result");
    proof {
        lemma_audit_names();
        let fields = schema_fields(*schema);
        if date is Some {
            assert(fields[date.unwrap() as int].name == "date"@);
        }
        if ip is Some {
            assert(fields[ip.unwrap() as int].name == "ip"@);
        }
        if user is Some {
            assert(fields[user.unwrap() as int].name == "user"@);
        }
        if message is Some {
            assert(fields[message.unwrap() as int].name == "message"@);
        }
        if result is Some {
            assert(fields[result.unwrap() as int].name == "result"@);
        }
    }
    AuditFields::from_lookups(date, ip, user, message, result)
}

impl LogService {
    /// The documents that have been committed through this service.
    pub closed spec fn saved(&self) -> Multiset<Map<u32, FieldValue>> {
        committed(self.writer)
    }

    /// The documents that have been added and wait for a commit: those that
    /// an earlier, failed call left behind.
    pub closed spec fn unsaved(&self) -> Multiset<Map<u32, FieldValue>> {
        pending(self.writer)
    }

    /// The numbers of the audit fields in the index.
    pub closed spec fn field_numbers(&self) -> AuditFieldsView {
        self.source.fields@
    }

    /// The audit schema: the date of a record indexed, fast and stored at the
    /// precision of microseconds, the address indexed and stored, the user
    /// and the message as stored text, the result indexed and stored.
    pub fn schema() -> (schema: tantivy::schema::Schema)
        ensures
            schema_fields(schema) == audit_schema(),
    {
        proof {
            lemma_audit_names();
        }
        let mut builder = new_schema_builder();
        add_date_field(&mut builder, "date");
        add_ip_field(&mut builder, "ip");
        add_text_field(&mut builder, "user");
        add_text_field(&mut builder, "message");
        add_bool_field(&mut builder, "result");
        assert(builder_fields(builder) =~= audit_schema());
        build_schema(builder)
    }

    /// The builder of an audit index: it has the audit schema, and an index
    /// made by it keeps its documents sorted by date, latest first. The
    /// caller opens or creates the index in the directory of its choice.
    pub fn index_builder() -> (builder: tantivy::IndexBuilder)
        ensures
            index_fields(builder) == audit_schema(),
            index_order(builder) == Some("date"@),
    {
        builder_for(Self::schema(), "date")
    }

    /// The numbers of the audit fields in the audit schema: the fields are
    /// numbered in their order, from zero.
    pub fn fields() -> (fields: Result<AuditFields, AuditError>)
        ensures
            fields is Ok,
            fields.unwrap()@ == (AuditFieldsView { date: 0, ip: 1, user: 2, message: 3, result: 4 }),
    {
        let schema = Self::schema();
        proof {
            lemma_audit_names();
            let listed = schema_fields(schema);
            assert(listed[0].name == "date"@ && listed[1].name == "ip"@);
            assert(listed[2].name == "user"@ && listed[3].name == "message"@);
            assert(listed[4].name == "result"@);
        }
        fields_from(&schema)
    }

    /// The service over `index`, with a reader that reloads on every commit
    /// and a writer of one thread. An index whose schema lacks an audit field
    /// is refused, with the first field that it lacks; whether the reader and
    /// the writer of any other index can be opened is for the index to say.
    /// Nothing has been committed through a new service.
    pub fn try_new(index: tantivy::Index) -> (service: Result<LogService, AuditError>)
        ensures
            first_missing(index_schema(index)) matches Some(field) ==> (service matches Err(error)
                && error == AuditError::Schema(field)),
            first_missing(index_schema(index)) is None ==> (service matches Err(error)
                ==> error == AuditError::Index),
            service matches Ok(opened) ==> first_missing(index_schema(index)) is None
                && points_to(index_schema(index), opened.field_numbers())
                && opened.saved().len() == 0 && opened.unsaved().len() == 0,
    {
        let fields = match fields_from(&schema_of(&index)) {
            Ok(fields) => fields,
            Err(error) => {
                return Err(error);
            },
        };
        let reader = match open_reader(&index) {
            Ok(reader) => reader,
            Err(_) => {
                return Err(AuditError::Index);
            },
        };
        let writer = match open_writer(&index, WRITER_THREADS, WRITER_ARENA_BYTES) {
            Ok(writer) => writer,
            Err(_) => {
                return Err(AuditError::Index);
            },
        };
        Ok(LogService { source: AuditSource { reader, fields }, writer })
    }

    /// Adds `log` to the index and commits: where that succeeds, the index
    /// has committed one more document, which holds `log`, besides what
    /// waited for a commit. A log that cannot be added or committed is a
    /// failure of the index.
    pub fn add_log(&mut self, log: Entry) -> (done: Result<(), AuditError>)
        ensures
            final(self).field_numbers() == old(self).field_numbers(),
            done matches Err(error) ==> error == AuditError::Index,
            done is Ok ==> final(self).unsaved() == Multiset::<Map<u32, FieldValue>>::empty()
                && exists|values: Map<u32, FieldValue>|
                fields_in(values, old(self).field_numbers()) == fields_of(log@)
                    && final(self).saved() == #[trigger] old(self).saved().add(old(self).unsaved()).insert(values),
    {
        let document = log.to_document(&self.source.fields);
        let ghost values = stored(document);
        match add_document(&mut self.writer, document) {
            Err(_) => {
                return Err(AuditError::Index);
            },
            Ok(_) => {},
        }
        match commit(&mut self.writer) {
            Err(_) => Err(AuditError::Index),
            Ok(_) => {
                assert(self.unsaved() =~= Multiset::<Map<u32, FieldValue>>::empty());
                assert(self.saved() == old(self).saved().add(old(self).unsaved().insert(values)));
                assert(old(self).saved().add(old(self).unsaved().insert(values)) =~= old(self).saved().add(old(self).unsaved()).insert(values));
                Ok(())
            },
        }
    }

    /// Adds the logs to the index, one after the other, and stops at the
    /// first that cannot be added: the request that brought them has then
    /// failed. Where all are added, the index has committed one document for
    /// each log, which holds that log, besides what waited for a commit.
    pub fn save_logs(&mut self, logs: &Vec<crate::audit::entry::Entry>) -> (done: Result<
        (),
        AuditError,
    >)
        ensures
            final(self).field_numbers() == old(self).field_numbers(),
            done matches Err(error) ==> error == AuditError::Index,
            logs@.len() == 0 ==> done is Ok && final(self).saved() == old(self).saved()
                && final(self).unsaved() == old(self).unsaved(),
            done is Ok && logs@.len() > 0 ==> final(self).unsaved().len() == 0,
            done is Ok ==> exists|documents: Seq<Map<u32, FieldValue>>|
                #![trigger documents.to_multiset()]
                documents.len() == logs@.len() && (forall|i: int|
                    0 <= i < logs@.len() ==> fields_in(
                        #[trigger] documents[i],
                        old(self).field_numbers(),
                    ) == fields_of(record_of_log(logs@[i]@))) && final(self).saved().add(
                    final(self).unsaved(),
                ) == old(self).saved().add(old(self).unsaved()).add(documents.to_multiset()),
    {
        let ghost mut documents: Seq<Map<u32, FieldValue>> = Seq::empty();
        let mut i: usize = 0;
        proof {
            documents.to_multiset_ensures();
            assert(documents.to_multiset().len() == 0);
            assert(documents.to_multiset() =~= Multiset::<Map<u32, FieldValue>>::empty());
            assert(old(self).saved().add(old(self).unsaved()).add(documents.to_multiset())
                =~= old(self).saved().add(old(self).unsaved()));
        }
        while i < logs.len()
            invariant
                i <= logs@.len(),
                self.field_numbers() == old(self).field_numbers(),
                i == 0 ==> self.saved() == old(self).saved() && self.unsaved() == old(
                    self,
                ).unsaved(),
                i > 0 ==> self.unsaved().len() == 0,
                documents.len() == i,
                forall|k: int|
                    0 <= k < i ==> fields_in(#[trigger] documents[k], old(self).field_numbers())
                        == fields_of(record_of_log(logs@[k]@)),
                self.saved().add(self.unsaved()) == old(self).saved().add(
                    old(self).unsaved(),
                ).add(documents.to_multiset()),
            decreases logs@.len() - i,
        {
            let ghost saved_before = self.saved();
            let ghost unsaved_before = self.unsaved();
            let record = Entry::from_log(&logs[i]);
            let ghost wanted = fields_of(record@);
            match self.add_log(record) {
                Err(error) => {
                    return Err(error);
                },
                Ok(()) => {},
            }
            proof {
                let numbers = old(self).field_numbers();
                let values = choose|values: Map<u32, FieldValue>|
                    fields_in(values, numbers) == wanted && self.saved()
                        == #[trigger] saved_before.add(unsaved_before).insert(values);
                let grown = documents.push(values);
                vstd::seq_lib::to_multiset_build(documents, values);
                assert(grown.to_multiset() =~= documents.to_multiset().insert(values));
                assert(self.unsaved() =~= Multiset::<Map<u32, FieldValue>>::empty());
                assert(self.saved().add(self.unsaved()) =~= old(self).saved().add(
                    old(self).unsaved(),
                ).add(grown.to_multiset()));
                documents = grown;
            }
            i += 1;
        }
        Ok(())
    }

    /// The records whose message matches `query`, at most `limit` of them,
    /// newest first. A query that is too long or too deeply nested is
    /// refused before the index is asked. The index is asked through a
    /// searcher of its reader, for the message as the default field and the
    /// date as the rank, and every hit that it finds is returned, in order.
    pub fn query(&self, query: &str, limit: usize) -> (found: Result<Vec<Entry>, AuditError>)
        ensures
            limit == 0 ==> found is Ok && found.unwrap()@.len() == 0,
            limit > 0 && !query_is_bounded(query@) ==> (found matches Err(error) && error
                == AuditError::Query),
            found matches Ok(records) ==> records@.len() <= limit && newest_first(records@),
            limit > 0 && query_is_bounded(query@) ==> exists|searcher: tantivy::Searcher|
                answers(
                    searcher,
                    self.field_numbers(),
                    #[trigger] search_hits(
                        searcher,
                        self.field_numbers().message,
                        self.field_numbers().date,
                        query@,
                        search_bound(limit, document_count(searcher)),
                    ),
                    found,
                ),
    {
        if limit == 0 {
            return Ok(Vec::new());
        }
        if !query_in_bounds(query) {
            return Err(AuditError::Query);
        }
        proof {
            use_type_invariant(&self.source);
        }
        let searcher = new_searcher(&self.source.reader);
        let documents = count_documents(&searcher);
        let bound: usize = if documents == 0 {
            1
        } else if limit as u64 <= documents {
            limit
        } else {
            documents as usize
        };
        let message = self.source.fields.message;
        let date = self.source.fields.date;
        let ghost asked = search_hits(
            searcher,
            self.field_numbers().message,
            self.field_numbers().date,
            query@,
            search_bound(limit, document_count(searcher)),
        );
        let hits = match search(&searcher, message, date, query, bound) {
            Ok(hits) => hits,
            Err(SearchFailure::Query(_)) => {
                assert(answers(searcher, self.field_numbers(), asked, Err::<Vec<Entry>, AuditError>(AuditError::Query)));
                return Err(AuditError::Query);
            },
            Err(SearchFailure::Index(_)) => {
                assert(answers(searcher, self.field_numbers(), asked, Err::<Vec<Entry>, AuditError>(AuditError::Index)));
                return Err(AuditError::Index);
            },
        };
        let mut records: Vec<Entry> = Vec::new();
        let mut i: usize = 0;
        while i < hits.len()
            invariant
                i <= hits@.len(),
                hits@.len() <= bound,
                0 < bound <= limit,
                ranked(hits@),
                limit > 0,
                query_is_bounded(query@),
                asked == Some(hits@),
                asked == search_hits(
                    searcher,
                    self.field_numbers().message,
                    self.field_numbers().date,
                    query@,
                    search_bound(limit, document_count(searcher)),
                ),
                forall|k: int|
                    0 <= k < hits@.len() ==> addresses(searcher).contains(
                        ((#[trigger] hits@[k]).segment, hits@[k].doc),
                    ),
                records@.len() == i,
                forall|k: int| 0 <= k < i ==> (#[trigger] records@[k])@.date == hits@[k].rank,
                forall|k: int|
                    0 <= k < i ==> hit_record(searcher, self.field_numbers(), #[trigger] hits@[k])
                        == Some(Ok::<EntryView, AuditError>(records@[k]@)),
            decreases hits@.len() - i,
        {
            let hit = hits[i];
            let document = match fetch_document(&searcher, hit.segment, hit.doc) {
                Ok(document) => document,
                Err(_) => {
                    assert(answers(searcher, self.field_numbers(), asked, Err::<Vec<Entry>, AuditError>(AuditError::Index)));
                    return Err(AuditError::Index);
                },
            };
            let fields = read_document(&self.source.fields, &document);
            let record = match Entry::from_hit(hit.rank, fields) {
                Ok(record) => record,
                Err(error) => {
                    assert(hit_record(searcher, self.field_numbers(), hits@[i as int]) == Some(
                        Err::<EntryView, AuditError>(error),
                    ));
                    assert(answers(
                        searcher,
                        self.field_numbers(),
                        asked,
                        Err::<Vec<Entry>, AuditError>(error),
                    ));
                    return Err(error);
                },
            };
            records.push(record);
            i += 1;
        }
        assert(answers(searcher, self.field_numbers(), asked, Ok::<Vec<Entry>, AuditError>(records)));
        Ok(records)
    }
}

} // verus!
