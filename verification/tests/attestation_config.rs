use teaclave_lifecycle::attestation::{
    AttestationAlgorithm, AttestationConfig, AttestationError, AttestationSettings, ConfigError,
    EndorsedAttestationReport,
};

const SPID: &str = "00112233445566778899aAbBcCdDeEfF";

fn service_of(config: &AttestationConfig) -> &teaclave_lifecycle::attestation::AttestationServiceConfig {
    match config {
        AttestationConfig::WithAttestation(service) => service,
        AttestationConfig::NoAttestation => panic!("attestation expected"),
    }
}

#[test]
fn attestation_config_is_made_of_valid_values() {
    let config =
        AttestationConfig::new("sgx_epid", "HTTPS://API.Example.com/sgx/dev", "key-1", SPID)
            .unwrap();
    let service = service_of(&config);
    assert_eq!(service.algo, AttestationAlgorithm::SgxEpid);
    // The URL is kept as the parser writes it.
    assert_eq!(service.as_url, "https://api.example.com/sgx/dev");
    assert_eq!(service.api_key, "key-1");
    assert_eq!(
        service.spid.id,
        [
            0x00, 0x11, 0x22, 0x33, 0x44, 0x55, 0x66, 0x77, 0x88, 0x99, 0xaa, 0xbb, 0xcc, 0xdd,
            0xee, 0xff
        ]
    );
    let config = AttestationConfig::new("sgx_ecdsa", "https://localhost:8080", "", SPID).unwrap();
    assert_eq!(service_algo(&config), AttestationAlgorithm::SgxEcdsa);
    assert_eq!(service_of(&config).as_url, "https://localhost:8080/");
}

fn service_algo(config: &AttestationConfig) -> AttestationAlgorithm {
    service_of(config).algo
}

#[test]
fn attestation_config_refuses_in_order() {
    let url = "https://as.example";
    let bad_spids = [
        "",
        "0011",
        "zz112233445566778899aabbccddeeff",
        "00112233445566778899aabbccddeef",
        "00112233445566778899aabbccddeeff00",
        "0011223344556677 8899aabbccddeeff",
        "é0112233445566778899aabbccddeef",
        "0x112233445566778899aabbccddeeff",
    ];
    for spid in bad_spids {
        assert_eq!(
            AttestationConfig::new("sgx_epid", url, "k", spid).err(),
            Some(ConfigError::IllegalSpid)
        );
        // The SPID is looked at first.
        assert_eq!(
            AttestationConfig::new("rsa", "not a url", "k", spid).err(),
            Some(ConfigError::IllegalSpid)
        );
    }
    assert_eq!(
        AttestationConfig::new("SGX_EPID", "not a url", "k", SPID).err(),
        Some(ConfigError::UnsupportedAlgorithm)
    );
    assert_eq!(
        AttestationConfig::new("", url, "k", SPID).err(),
        Some(ConfigError::UnsupportedAlgorithm)
    );
    assert_eq!(
        AttestationConfig::new("sgx_epid", "not a url", "k", SPID).err(),
        Some(ConfigError::InvalidUrl)
    );
    assert_eq!(
        AttestationConfig::new("sgx_epid", "", "k", SPID).err(),
        Some(ConfigError::InvalidUrl)
    );
    assert_eq!(ConfigError::IllegalSpid.to_string(), "Illegal SPID provided");
    assert_eq!(
        ConfigError::UnsupportedAlgorithm.to_string(),
        "Unsupported remote attestation algorithm"
    );
    assert_eq!(ConfigError::InvalidUrl.to_string(), "Invalid URL");
}

#[test]
fn attestation_config_from_decoded_parts() {
    let made = AttestationConfig::from_parts(
        "sgx_ecdsa",
        Some("https://as/".to_string()),
        "k",
        Some(vec![7u8; 16]),
    )
    .unwrap();
    assert_eq!(service_of(&made).spid.id, [7u8; 16]);
    assert_eq!(service_of(&made).as_url, "https://as/");
    assert_eq!(
        AttestationConfig::from_parts("sgx_ecdsa", Some("https://as/".to_string()), "k", None)
            .err(),
        Some(ConfigError::IllegalSpid)
    );
    assert_eq!(
        AttestationConfig::from_parts("sgx_ecdsa", None, "k", Some(vec![7u8; 15])).err(),
        Some(ConfigError::IllegalSpid)
    );
    assert_eq!(
        AttestationConfig::from_parts("sgx_ecdsa", None, "k", Some(vec![7u8; 16])).err(),
        Some(ConfigError::InvalidUrl)
    );
    assert_eq!(
        AttestationConfig::from_parts("x", None, "k", Some(vec![7u8; 16])).err(),
        Some(ConfigError::UnsupportedAlgorithm)
    );
}

#[test]
fn attestation_config_from_runtime_configuration() {
    let settings = AttestationSettings {
        algorithm: "sgx_epid".to_string(),
        url: "https://api.trustedservices.intel.com:443".to_string(),
        key: "0123".to_string(),
        spid: "FFEEDDCCBBAA99887766554433221100".to_string(),
    };
    let config = AttestationConfig::from_teaclave_config(&settings).unwrap();
    let service = service_of(&config);
    assert_eq!(service.api_key, "0123");
    assert_eq!(service.as_url, "https://api.trustedservices.intel.com/");
    assert_eq!(service.spid.id[0], 0xff);
    assert_eq!(service.spid.id[15], 0x00);
    assert!(matches!(*AttestationConfig::no_attestation(), AttestationConfig::NoAttestation));
}

#[test]
fn attestation_algorithm_names() {
    assert_eq!(AttestationAlgorithm::from_str("sgx_epid"), Some(AttestationAlgorithm::SgxEpid));
    assert_eq!(AttestationAlgorithm::from_str("sgx_ecdsa"), Some(AttestationAlgorithm::SgxEcdsa));
    assert_eq!(AttestationAlgorithm::from_str("sgx_epid "), None);
    assert_eq!(AttestationAlgorithm::from_str("epid"), None);
    assert_eq!(AttestationAlgorithm::from_str(""), None);
}

#[test]
fn attestation_errors_are_worded() {
    assert_eq!(AttestationError::OCallError(3).to_string(), "OCall error");
    assert_eq!(AttestationError::AttestationServiceError.to_string(), "Attestation Service error");
    assert_eq!(AttestationError::PlatformError(1).to_string(), "Platform error");
    assert_eq!(AttestationError::ReportError.to_string(), "Report error");
    assert_eq!(AttestationError::ConnectionError.to_string(), "Report error");
    assert_eq!(
        AttestationError::ApiVersionNotCompatible.to_string(),
        "Attestation Service API version not compatible"
    );
    let report = EndorsedAttestationReport::default();
    assert!(report.report.is_empty() && report.signature.is_empty() && report.certs.is_empty());
}
