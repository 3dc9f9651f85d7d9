//! The quote verification endpoint: what it reads from a request, how it
//! judges the outcome of the platform's verification, and the report that it
//! answers with. Calling the platform, hashing and signing are left to the
//! caller.

use crate::clock::unix_micros;
use crate::ids::{format_uuid_simple, random_uuid, uuid_simple_text};
use vstd::prelude::*;
use vstd::string::*;

verus! {

/// The bytes of a quote that make up its body; what follows is signature
/// data.
pub const QUOTE_BODY_BYTES: usize = 432;

/// The version of the report.
pub const REPORT_VERSION: u32 = 4;

/// A verified quote: the status that the platform gave it, and the body of
/// the quote in base64.
#[derive(Debug)]
pub struct QuoteVerificationResult {
    pub quote_status: String,
    pub isv_enclave_quote: String,
}

/// The answer of the endpoint.
#[derive(Debug)]
pub enum QuoteVerificationResponse {
    BadRequest,
    InternalError,
    AcceptedRequest(QuoteVerificationResult),
}

/// The headers that carry the signature of a report.
#[derive(Debug)]
pub struct ReportHeaders {
    /// The value of `X-DCAPReport-Signing-Certificate`.
    pub signing_certificate: String,
    /// The value of `X-DCAPReport-Signature`.
    pub signature: String,
}

/// `serde_json::Value`: a JSON value. Of what is inside, the verifier knows
/// what `json_members` names.
#[verifier::external_type_specification]
#[verifier::external_body]
pub struct ExJsonValue(serde_json::Value);

/// The members of the JSON object `value` that hold a string, each by its
/// key; nothing where `value` is no object.
pub uninterp spec fn json_members(value: serde_json::Value) -> Map<Seq<char>, Seq<char>>;

/// The string members of the JSON value that `serde_json` reads from `body`,
/// where `body` is JSON.
pub uninterp spec fn json_parse(body: Seq<u8>) -> Option<Map<Seq<char>, Seq<char>>>;

/// The text that chrono writes for the instant `micros` microseconds after
/// the Unix epoch in UTC, as date, `T`, time and fraction of a second, where
/// it can hold that instant.
pub uninterp spec fn timestamp_text(micros: i64) -> Option<Seq<char>>;

/// The JSON text that `serde_json` writes for the string `text`.
pub uninterp spec fn json_string(text: Seq<char>) -> Seq<char>;

/// The bytes that the `base64` crate reads from `text` in its standard
/// configuration, where it accepts it.
pub uninterp spec fn base64_decode(text: Seq<char>) -> Option<Seq<u8>>;

/// The text that the `base64` crate writes for `bytes` in its standard
/// configuration.
pub uninterp spec fn base64_text(bytes: Seq<u8>) -> Seq<char>;

/// Whether `byte` is an ASCII letter or digit.
pub open spec fn is_alphanumeric(byte: u8) -> bool {
    48 <= byte <= 57 || 65 <= byte <= 90 || 97 <= byte <= 122
}

/// The upper-case hexadecimal digit of a number below sixteen.
pub open spec fn upper_hex(digit: int) -> char {
    if digit < 10 {
        (48 + digit) as u8 as char
    } else {
        (55 + digit) as u8 as char
    }
}

/// One byte percent-encoded: an ASCII letter or digit stands for itself,
/// every other byte is a percent sign and its two hexadecimal digits.
pub open spec fn percent_byte(byte: u8) -> Seq<char> {
    if is_alphanumeric(byte) {
        seq![byte as char]
    } else {
        seq!['%', upper_hex(byte as int / 16), upper_hex(byte as int % 16)]
    }
}

/// Bytes percent-encoded, one after the other.
pub open spec fn percent_bytes(bytes: Seq<u8>) -> Seq<char>
    decreases bytes.len(),
{
    if bytes.len() == 0 {
        Seq::empty()
    } else {
        percent_bytes(bytes.drop_last()) + percent_byte(bytes.last())
    }
}

/// A text percent-encoded: every byte of its UTF-8 form that is no ASCII
/// letter or digit is encoded.
pub open spec fn percent_encoded(text: Seq<char>) -> Seq<char> {
    percent_bytes(vstd::utf8::encode_utf8(text))
}

/// Calls `serde_json::from_slice` for a `serde_json::Value`. Hands out the
/// value, `None` where the body is no JSON. The contract only names the
/// outcome, by the string members of the value.
#[verifier::external_body]
fn parse_json(body: &[u8]) -> (value: Option<serde_json::Value>)
    ensures
        value matches Some(parsed) ==> json_parse(body@) == Some(json_members(parsed)),
        value is None ==> json_parse(body@) is None,
{
    match serde_json::from_slice::<serde_json::Value>(body) {
        Ok(value) => Some(value),
        Err(_) => None,
    }
}

/// Indexes a `serde_json::Value` with `key`, which gives the member of an
/// object under that key and null for anything else. Hands out the string
/// found there, `None` where there is none.
#[verifier::external_body]
fn string_member(value: &serde_json::Value, key: &str) -> (member: Option<String>)
    ensures
        json_members(*value).contains_key(key@) ==> member.is_some() && member.unwrap()@
            == json_members(*value)[key@],
        !json_members(*value).contains_key(key@) ==> member.is_none(),
{
    match &value[key] {
        serde_json::Value::String(text) => Some(text.clone()),
        _ => None,
    }
}

/// Writes the string `text` as JSON through the `Display` of
/// `serde_json::Value`. The contract only names the text.
#[verifier::external_body]
fn json_quote(text: &str) -> (quoted: String)
    ensures
        quoted@ == json_string(text@),
{
    serde_json::Value::String(text.to_owned()).to_string()
}

/// Calls `base64::decode`. The contract only names the outcome.
#[verifier::external_body]
fn decode_base64(text: &str) -> (bytes: Option<Vec<u8>>)
    ensures
        base64_decode(text@) is Some ==> bytes.is_some() && bytes.unwrap()@ == base64_decode(
            text@,
        ).unwrap(),
        base64_decode(text@) is None ==> bytes.is_none(),
{
    match base64::decode(text) {
        Ok(bytes) => Some(bytes),
        Err(_) => None,
    }
}

/// Calls `base64::encode`. The contract only names the text.
#[verifier::external_body]
fn encode_base64(bytes: &[u8]) -> (text: String)
    ensures
        text@ == base64_text(bytes@),
{
    base64::encode(bytes)
}

/// Calls `percent_encoding::utf8_percent_encode` with the set
/// `NON_ALPHANUMERIC`. The contract says what it writes: each byte of the
/// text that is no ASCII letter or digit as a percent sign and two upper-case
/// hexadecimal digits, every other byte as it is.
#[verifier::external_body]
fn percent_encode(text: &str) -> (encoded: String)
    ensures
        encoded@ == percent_encoded(text@),
{
    percent_encoding::utf8_percent_encode(text, percent_encoding::NON_ALPHANUMERIC).to_string()
}

/// Calls `chrono::DateTime::from_timestamp_micros` and writes the instant
/// with `format`, as date, `T`, time and fraction of a second. `None` where
/// chrono cannot hold the instant. The contract only names the outcome.
#[verifier::external_body]
fn format_timestamp(micros: i64) -> (stamp: Option<String>)
    ensures
        timestamp_text(micros) is Some ==> stamp.is_some() && stamp.unwrap()@ == timestamp_text(
            micros,
        ).unwrap(),
        timestamp_text(micros) is None ==> stamp.is_none(),
{
    chrono::DateTime::from_timestamp_micros(micros).map(
        |at| at.format("%Y-%m-%dT%H:%M:%S%.f").to_string(),
    )
}

/// How the outcome of the platform's verification is judged.
#[derive(Clone, Copy, Debug, PartialEq, Eq, Structural)]
pub enum Verdict {
    Accept,
    BadRequest,
    InternalError,
}

/// The report data vouches for the digest: its first thirty-two bytes are
/// the digest, its other thirty-two bytes are zero.
pub open spec fn vouches(report_data: Seq<u8>, digest: Seq<u8>) -> bool {
    &&& report_data.len() == 64
    &&& digest.len() == 32
    &&& report_data.subrange(0, 32) == digest
    &&& forall|i: int| 32 <= i < 64 ==> report_data[i] == 0
}

/// The judgement: a verification that failed, or that found the collateral
/// expired, is a bad request; report data that does not vouch for the digest
/// is an internal error.
pub open spec fn verdict_of(
    verified: bool,
    collateral_expiration_status: u32,
    report_data: Seq<u8>,
    digest: Seq<u8>,
) -> Verdict {
    if !verified || collateral_expiration_status != 0 {
        Verdict::BadRequest
    } else if !vouches(report_data, digest) {
        Verdict::InternalError
    } else {
        Verdict::Accept
    }
}

/// The text of a report.
pub open spec fn report_text(
    id: Seq<char>,
    timestamp: Seq<char>,
    status: Seq<char>,
    body: Seq<char>,
) -> Seq<char> {
    "{\"id\":"@ + json_string(id) + ",\"isvEnclaveQuoteBody\":"@ + json_string(body)
        + ",\"isvEnclaveQuoteStatus\":"@ + json_string(status) + ",\"timestamp\":"@ + json_string(
        timestamp,
    ) + ",\"version\":4}"@
}

/// The quote that a request carries: the string under `isvEnclaveQuote` of
/// the JSON body, read as base64.
pub open spec fn quote_in(body: Seq<u8>) -> Option<Seq<u8>> {
    match json_parse(body) {
        None => None,
        Some(members) => if members.contains_key("isvEnclaveQuote"@) {
            base64_decode(members["isvEnclaveQuote"@])
        } else {
            None
        },
    }
}

/// The time stamp of a report made at `micros` microseconds after the Unix
/// epoch; empty where no date can hold that instant.
pub open spec fn stamp_text(micros: i64) -> Seq<char> {
    match timestamp_text(micros) {
        Some(text) => text,
        None => Seq::empty(),
    }
}

/// The quote that a request carries, if it carries one.
pub fn quote_of_request(body: &[u8]) -> (quote: Option<Vec<u8>>)
    ensures
        quote_in(body@) is Some ==> quote.is_some() && quote.unwrap()@ == quote_in(body@).unwrap(),
        quote_in(body@) is None ==> quote.is_none(),
{
    match parse_json(body) {
        None => None,
        Some(value) => match string_member(&value, "isvEnclaveQuote") {
            None => None,
            Some(text) => decode_base64(text.as_str()),
        },
    }
}

/// The quote that a request carries; a request that carries none is a bad
/// request.
pub fn request_quote(body: &[u8]) -> (quote: Result<Vec<u8>, QuoteVerificationResponse>)
    ensures
        quote_in(body@) is Some ==> quote is Ok && quote.unwrap()@ == quote_in(body@).unwrap(),
        quote_in(body@) is None ==> (quote matches Err(response) && response is BadRequest),
{
    match quote_of_request(body) {
        Some(quote) => Ok(quote),
        None => Err(QuoteVerificationResponse::BadRequest),
    }
}

/// Judges the outcome of the platform's verification.
pub fn judge(
    verified: bool,
    collateral_expiration_status: u32,
    report_data: &[u8],
    digest: &[u8],
) -> (verdict: Verdict)
    ensures
        verdict == verdict_of(verified, collateral_expiration_status, report_data@, digest@),
{
    if !verified || collateral_expiration_status != 0 {
        return Verdict::BadRequest;
    }
    if report_data.len() != 64 || digest.len() != 32 {
        return Verdict::InternalError;
    }
    let mut i: usize = 0;
    while i < 32
        invariant
            i <= 32,
            verified,
            collateral_expiration_status == 0,
            report_data@.len() == 64,
            digest@.len() == 32,
            forall|j: int| 0 <= j < i ==> report_data@[j] == digest@[j],
        decreases 32 - i,
    {
        if report_data[i] != digest[i] {
            assert(report_data@.subrange(0, 32)[i as int] != digest@[i as int]);
            assert(report_data@.subrange(0, 32) != digest@);
            return Verdict::InternalError;
        }
        i += 1;
    }
    assert(report_data@.subrange(0, 32) =~= digest@);
    while i < 64
        invariant
            32 <= i <= 64,
            verified,
            collateral_expiration_status == 0,
            report_data@.len() == 64,
            forall|j: int| 32 <= j < i ==> report_data@[j] == 0,
        decreases 64 - i,
    {
        if report_data[i] != 0 {
            assert(report_data@[i as int] != 0);
            assert(!vouches(report_data@, digest@));
            return Verdict::InternalError;
        }
        i += 1;
    }
    Verdict::Accept
}

/// The HTTP status of an answer that carries a report.
pub const STATUS_OK: u16 = 200;

/// The HTTP status of the answer to a bad request.
pub const STATUS_BAD_REQUEST: u16 = 400;

/// The HTTP status of the answer to a request on which verification failed.
pub const STATUS_INTERNAL_SERVER_ERROR: u16 = 500;

/// The HTTP status with which `response` is answered.
pub open spec fn status_of(response: QuoteVerificationResponse) -> u16 {
    match response {
        QuoteVerificationResponse::BadRequest => STATUS_BAD_REQUEST,
        QuoteVerificationResponse::InternalError => STATUS_INTERNAL_SERVER_ERROR,
        QuoteVerificationResponse::AcceptedRequest(_) => STATUS_OK,
    }
}

impl QuoteVerificationResponse {
    /// The HTTP status with which the response is answered: 400 for a bad
    /// request, 500 where verification failed, 200 with a report.
    pub fn status(&self) -> (code: u16)
        ensures
            code == status_of(*self),
    {
        match self {
            QuoteVerificationResponse::BadRequest => STATUS_BAD_REQUEST,
            QuoteVerificationResponse::InternalError => STATUS_INTERNAL_SERVER_ERROR,
            QuoteVerificationResponse::AcceptedRequest(_) => STATUS_OK,
        }
    }

    /// The answer that accepts a quote.
    pub fn accept(quote_status: String, isv_enclave_quote: String) -> (response: Self)
        ensures
            response matches QuoteVerificationResponse::AcceptedRequest(result)
                && result.quote_status == quote_status && result.isv_enclave_quote
                == isv_enclave_quote,
    {
        QuoteVerificationResponse::AcceptedRequest(
            QuoteVerificationResult { quote_status, isv_enclave_quote },
        )
    }
}

/// The answer to a request whose quote the platform has verified: the
/// judgement, and for an accepted quote its status and its body in base64.
/// A quote that is shorter than its body is a bad request.
pub fn verify_quote(
    quote: &[u8],
    verified: bool,
    collateral_expiration_status: u32,
    report_data: &[u8],
    digest: &[u8],
    quote_status: String,
) -> (response: QuoteVerificationResponse)
    ensures
        match verdict_of(verified, collateral_expiration_status, report_data@, digest@) {
            Verdict::BadRequest => response is BadRequest,
            Verdict::InternalError => response is InternalError,
            Verdict::Accept => if quote@.len() < 432 {
                response is BadRequest
            } else {
                response matches QuoteVerificationResponse::AcceptedRequest(result)
                    && result.quote_status == quote_status && result.isv_enclave_quote@
                    == base64_text(quote@.subrange(0, 432))
            },
        },
{
    match judge(verified, collateral_expiration_status, report_data, digest) {
        Verdict::BadRequest => QuoteVerificationResponse::BadRequest,
        Verdict::InternalError => QuoteVerificationResponse::InternalError,
        Verdict::Accept => {
            if quote.len() < QUOTE_BODY_BYTES {
                return QuoteVerificationResponse::BadRequest;
            }
            let body = vstd::slice::slice_subrange(quote, 0, QUOTE_BODY_BYTES);
            QuoteVerificationResponse::accept(quote_status, encode_base64(body))
        },
    }
}

impl QuoteVerificationResult {
    /// The report of this result with the identifier `id` and the time
    /// `timestamp`: a JSON object with the fields `id`,
    /// `isvEnclaveQuoteBody`, `isvEnclaveQuoteStatus`, `timestamp` and
    /// `version`.
    pub fn render(&self, id: &str, timestamp: &str) -> (report: String)
        ensures
            report@ == report_text(id@, timestamp@, self.quote_status@, self.isv_enclave_quote@),
    {
        let mut report = String::from_str("{\"id\":");
        report.append(json_quote(id).as_str());
        report.append(",\"isvEnclaveQuoteBody\":");
        report.append(json_quote(self.isv_enclave_quote.as_str()).as_str());
        report.append(",\"isvEnclaveQuoteStatus\":");
        report.append(json_quote(self.quote_status.as_str()).as_str());
        report.append(",\"timestamp\":");
        report.append(json_quote(timestamp).as_str());
        report.append(",\"version\":4}");
        report
    }

    /// The report of this result with the identifier `id` and the time
    /// `micros` microseconds after the Unix epoch: the identifier is written
    /// as thirty-two hexadecimal digits.
    pub fn report_at(&self, id: u128, micros: i64) -> (report: String)
        ensures
            report@ == report_text(
                uuid_simple_text(id),
                stamp_text(micros),
                self.quote_status@,
                self.isv_enclave_quote@,
            ),
    {
        let id = format_uuid_simple(id);
        let timestamp = match format_timestamp(micros) {
            Some(text) => text,
            None => String::new(),
        };
        self.render(id.as_str(), timestamp.as_str())
    }

    /// The report of this result, with a fresh random identifier and the
    /// current time.
    pub fn to_json(&self) -> (report: String)
        ensures
            exists|id: u128, micros: i64|
                report@ == report_text(
                    uuid_simple_text(id),
                    stamp_text(micros),
                    self.quote_status@,
                    self.isv_enclave_quote@,
                ),
    {
        self.report_at(random_uuid(), unix_micros())
    }
}

/// The headers that carry the signature `signature` of a report and the
/// certificate `certificate` of the signing key: the certificate
/// percent-encoded, the signature in base64.
pub fn signature_headers(certificate: &str, signature: &[u8]) -> (headers: ReportHeaders)
    ensures
        headers.signing_certificate@ == percent_encoded(certificate@),
        headers.signature@ == base64_text(signature@),
{
    ReportHeaders {
        signing_certificate: percent_encode(certificate),
        signature: encode_base64(signature),
    }
}

} // verus!
