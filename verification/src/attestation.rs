//! The configuration of remote attestation, and what attestation hands to the
//! transport. Attestation itself is not part of this library.

use std::sync::Arc;
use vstd::prelude::*;
use vstd::string::*;

verus! {

/// What can go wrong during attestation and verification. The platform's
/// status codes are kept as numbers.
#[derive(Clone, Copy, Debug, PartialEq, Eq, Structural)]
pub enum AttestationError {
    OCallError(u32),
    AttestationServiceError,
    PlatformError(u32),
    ReportError,
    ConnectionError,
    ApiVersionNotCompatible,
}

/// The wording of an attestation error.
pub open spec fn attestation_error_text(error: AttestationError) -> Seq<char> {
    match error {
        AttestationError::OCallError(_) => "OCall error"@,
        AttestationError::AttestationServiceError => "Attestation Service error"@,
        AttestationError::PlatformError(_) => "Platform error"@,
        AttestationError::ReportError => "Report error"@,
        AttestationError::ConnectionError => "Report error"@,
        AttestationError::ApiVersionNotCompatible =>
            "Attestation Service API version not compatible"@,
    }
}

impl AttestationError {
    /// The wording of this error. A connection error is worded as a report
    /// error.
    pub fn to_string(&self) -> (text: String)
        ensures
            text@ == attestation_error_text(*self),
    {
        match self {
            AttestationError::OCallError(_) => String::from_str("OCall error"),
            AttestationError::AttestationServiceError => String::from_str(
                "Attestation Service error",
            ),
            AttestationError::PlatformError(_) => String::from_str("Platform error"),
            AttestationError::ReportError => String::from_str("Report error"),
            AttestationError::ConnectionError => String::from_str("Report error"),
            AttestationError::ApiVersionNotCompatible => String::from_str(
                "Attestation Service API version not compatible",
            ),
        }
    }
}

/// What can go wrong on the platform. The platform's status codes are kept
/// as numbers.
#[derive(Debug)]
pub enum PlatformError {
    OCallError(String, u32),
    InitQuoteError(u32),
    CreateReportError(u32),
    GetSelfTargetInfoError(u32),
    GetQuoteError(u32),
    VerifyReportError(u32),
    ReportReplay(Vec<u8>, Vec<u8>),
    SgxRngError(String),
    Others(u32),
}

/// The algorithm of remote attestation.
#[derive(Clone, Copy, Debug, PartialEq, Eq, Structural)]
pub enum AttestationAlgorithm {
    /// Intel EPID.
    SgxEpid,
    /// ECDSA.
    SgxEcdsa,
}

/// The algorithm that `name` stands for.
pub open spec fn algorithm_of(name: Seq<char>) -> Option<AttestationAlgorithm> {
    if name == "sgx_epid"@ {
        Some(AttestationAlgorithm::SgxEpid)
    } else if name == "sgx_ecdsa"@ {
        Some(AttestationAlgorithm::SgxEcdsa)
    } else {
        None
    }
}

impl AttestationAlgorithm {
    /// The algorithm that `name` stands for, if any.
    pub fn from_str(name: &str) -> (algorithm: Option<Self>)
        ensures
            algorithm == algorithm_of(name@),
    {
        let given = String::from_str(name);
        if given == String::from_str("sgx_epid") {
            Some(AttestationAlgorithm::SgxEpid)
        } else if given == String::from_str("sgx_ecdsa") {
            Some(AttestationAlgorithm::SgxEcdsa)
        } else {
            None
        }
    }
}

/// The identifier of a service provider: sixteen bytes.
#[derive(Clone, Copy, Debug)]
pub struct Spid {
    pub id: [u8; 16],
}

/// The configuration of the attestation service.
#[derive(Debug)]
pub struct AttestationServiceConfig {
    /// The algorithm to use.
    pub algo: AttestationAlgorithm,
    /// The URL of the attestation service, as the parser writes it.
    pub as_url: String,
    /// The API key.
    pub api_key: String,
    /// The identifier of the service provider.
    pub spid: Spid,
}

/// The configuration of remote attestation.
#[derive(Debug)]
pub enum AttestationConfig {
    /// An enclave is trusted without attestation.
    NoAttestation,
    /// An enclave is attested before it is trusted.
    WithAttestation(AttestationServiceConfig),
}

/// The configuration of data-center attestation.
#[derive(Clone, Copy, Debug)]
pub struct DcapConfig {
}

/// Why values give no attestation configuration.
#[derive(Clone, Copy, Debug, PartialEq, Eq, Structural)]
pub enum ConfigError {
    /// The SPID is no hexadecimal text of sixteen bytes.
    IllegalSpid,
    /// The algorithm is none of the supported ones.
    UnsupportedAlgorithm,
    /// The URL is no URL.
    InvalidUrl,
}

impl ConfigError {
    /// The wording of this error.
    pub fn to_string(&self) -> (text: String)
        ensures
            text@ == match *self {
                ConfigError::IllegalSpid => "Illegal SPID provided"@,
                ConfigError::UnsupportedAlgorithm => "Unsupported remote attestation algorithm"@,
                ConfigError::InvalidUrl => "Invalid URL"@,
            },
    {
        match self {
            ConfigError::IllegalSpid => String::from_str("Illegal SPID provided"),
            ConfigError::UnsupportedAlgorithm => String::from_str(
                "Unsupported remote attestation algorithm",
            ),
            ConfigError::InvalidUrl => String::from_str("Invalid URL"),
        }
    }
}

/// The value of a hexadecimal digit.
pub open spec fn hex_digit(c: char) -> Option<int> {
    let n = c as u32 as int;
    if 48 <= n <= 57 {
        Some(n - 48)
    } else if 97 <= n <= 102 {
        Some(n - 87)
    } else if 65 <= n <= 70 {
        Some(n - 55)
    } else {
        None
    }
}

/// The bytes that a hexadecimal text stands for: two digits a byte, the
/// higher digit first. A text of odd length, or with another character in
/// it, stands for nothing.
pub open spec fn hex_decode(text: Seq<char>) -> Option<Seq<u8>> {
    if text.len() % 2 != 0 || exists|i: int|
        0 <= i < text.len() && hex_digit(#[trigger] text[i]) is None {
        None
    } else {
        Some(
            Seq::new(
                text.len() / 2,
                |i: int|
                    (16 * hex_digit(text[2 * i]).unwrap() + hex_digit(text[2 * i + 1]).unwrap()) as u8,
            ),
        )
    }
}

/// The text that the `url` crate writes for the URL that it reads from
/// `text`, where it accepts it.
pub uninterp spec fn url_parse(text: Seq<char>) -> Option<Seq<char>>;

/// Calls `hex::decode`. The contract says what its documentation and source
/// say: the text must have an even number of characters, each a hexadecimal
/// digit of either case, and each pair gives one byte.
#[verifier::external_body]
fn decode_hex(text: &str) -> (bytes: Option<Vec<u8>>)
    ensures
        hex_decode(text@) is Some ==> bytes.is_some() && bytes.unwrap()@ == hex_decode(
            text@,
        ).unwrap(),
        hex_decode(text@) is None ==> bytes.is_none(),
{
    match hex::decode(text) {
        Ok(bytes) => Some(bytes),
        Err(_) => None,
    }
}

/// Calls `url::Url::parse` and hands out the URL as text. The contract only
/// names the outcome.
#[verifier::external_body]
fn parse_url(text: &str) -> (url: Option<String>)
    ensures
        url_parse(text@) is Some ==> url.is_some() && url.unwrap()@ == url_parse(text@).unwrap(),
        url_parse(text@) is None ==> url.is_none(),
{
    match url::Url::parse(text) {
        Ok(url) => Some(url.into()),
        Err(_) => None,
    }
}

/// The part of the runtime configuration that attestation reads.
pub struct AttestationSettings {
    pub algorithm: String,
    pub url: String,
    pub key: String,
    pub spid: String,
}

/// The configuration that decoded values give. The SPID is tested first,
/// then the algorithm, then the URL.
pub open spec fn config_from(
    algorithm: Seq<char>,
    url: Option<Seq<char>>,
    spid: Option<Seq<u8>>,
) -> Result<(AttestationAlgorithm, Seq<char>, Seq<u8>), ConfigError> {
    if spid is None || spid.unwrap().len() != 16 {
        Err(ConfigError::IllegalSpid)
    } else if algorithm_of(algorithm) is None {
        Err(ConfigError::UnsupportedAlgorithm)
    } else if url is None {
        Err(ConfigError::InvalidUrl)
    } else {
        Ok((algorithm_of(algorithm).unwrap(), url.unwrap(), spid.unwrap()))
    }
}

/// `config` is the configuration made of `values` and `api_key`.
pub open spec fn config_is(
    config: AttestationConfig,
    values: (AttestationAlgorithm, Seq<char>, Seq<u8>),
    api_key: Seq<char>,
) -> bool {
    config matches AttestationConfig::WithAttestation(service) && service.algo == values.0
        && service.as_url@ == values.1 && service.spid.id@ == values.2 && service.api_key@
        == api_key
}

impl AttestationConfig {
    /// The configuration that trusts without attestation.
    pub fn no_attestation() -> (config: Arc<Self>)
        ensures
            *config is NoAttestation,
    {
        Arc::new(AttestationConfig::NoAttestation)
    }

    /// The configuration made of the algorithm's name, the API key, the URL
    /// as it was read and the bytes that the SPID was decoded to.
    pub fn from_parts(
        algorithm: &str,
        url: Option<String>,
        api_key: &str,
        spid: Option<Vec<u8>>,
    ) -> (config: Result<Arc<Self>, ConfigError>)
        ensures
            match config_from(
                algorithm@,
                crate::audit::entry::optional_text(url),
                match spid {
                    Some(bytes) => Some(bytes@),
                    None => None,
                },
            ) {
                Ok(values) => config is Ok && config_is(*config.unwrap(), values, api_key@),
                Err(error) => config matches Err(refusal) && refusal == error,
            },
    {
        let id = match spid {
            None => {
                return Err(ConfigError::IllegalSpid);
            },
            Some(bytes) => {
                if bytes.len() != 16 {
                    return Err(ConfigError::IllegalSpid);
                }
                let mut id: [u8; 16] = [0u8; 16];
                let mut i: usize = 0;
                while i < 16
                    invariant
                        i <= 16,
                        bytes@.len() == 16,
                        forall|j: int| 0 <= j < i ==> id@[j] == bytes@[j],
                    decreases 16 - i,
                {
                    id[i] = bytes[i];
                    i += 1;
                }
                assert(id@ =~= bytes@);
                id
            },
        };
        let algo = match AttestationAlgorithm::from_str(algorithm) {
            None => {
                return Err(ConfigError::UnsupportedAlgorithm);
            },
            Some(algo) => algo,
        };
        let as_url = match url {
            None => {
                return Err(ConfigError::InvalidUrl);
            },
            Some(url) => url,
        };
        Ok(
            Arc::new(
                AttestationConfig::WithAttestation(
                    AttestationServiceConfig {
                        algo,
                        as_url,
                        api_key: String::from_str(api_key),
                        spid: Spid { id },
                    },
                ),
            ),
        )
    }

    /// The configuration for attestation with the given values. The SPID
    /// must be the hexadecimal text of sixteen bytes, the algorithm one of
    /// `sgx_epid` and `sgx_ecdsa`, the URL a URL.
    pub fn new(algorithm: &str, url: &str, api_key: &str, spid_str: &str) -> (config: Result<
        Arc<Self>,
        ConfigError,
    >)
        ensures
            match config_from(algorithm@, url_parse(url@), hex_decode(spid_str@)) {
                Ok(values) => config is Ok && config_is(*config.unwrap(), values, api_key@),
                Err(error) => config matches Err(refusal) && refusal == error,
            },
    {
        let spid = decode_hex(spid_str);
        let parsed = parse_url(url);
        Self::from_parts(algorithm, parsed, api_key, spid)
    }

    /// The configuration that the runtime configuration asks for.
    pub fn from_teaclave_config(config: &AttestationSettings) -> (made: Result<
        Arc<Self>,
        ConfigError,
    >)
        ensures
            match config_from(
                config.algorithm@,
                url_parse(config.url@),
                hex_decode(config.spid@),
            ) {
                Ok(values) => made is Ok && config_is(*made.unwrap(), values, config.key@),
                Err(error) => made matches Err(refusal) && refusal == error,
            },
    {
        Self::new(
            config.algorithm.as_str(),
            config.url.as_str(),
            config.key.as_str(),
            config.spid.as_str(),
        )
    }
}

/// An attestation report with the endorsement of the attestation service.
#[derive(Debug)]
pub struct EndorsedAttestationReport {
    /// The report that the hardware made.
    pub report: Vec<u8>,
    /// The signature of the report.
    pub signature: Vec<u8>,
    /// The certificates that lead to the signing key.
    pub certs: Vec<Vec<u8>>,
}

impl Default for EndorsedAttestationReport {
    fn default() -> (report: Self)
        ensures
            report.report@.len() == 0,
            report.signature@.len() == 0,
            report.certs@.len() == 0,
    {
        EndorsedAttestationReport {
            report: Vec::new(),
            signature: Vec::new(),
            certs: Vec::new(),
        }
    }
}

/// What the transport needs of an attested enclave: its certificate and
/// key, and from when and for how long they hold.
#[derive(Debug)]
pub struct AttestedTlsConfig {
    pub cert: Vec<u8>,
    pub private_key: Vec<u8>,
    pub time: std::time::SystemTime,
    pub validity: std::time::Duration,
}

} // verus!
