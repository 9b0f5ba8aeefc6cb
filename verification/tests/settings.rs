//! Tests of the settings defaults and startup validation.

use smart_contract_verifier::settings::{
    FetcherSettings, ListFetcherSettings, S3FetcherSettings, Settings, SoliditySettings,
};

fn s3(region: Option<&str>, endpoint: Option<&str>) -> Settings {
    let mut settings = Settings::default();
    settings.solidity.fetcher = FetcherSettings::S3(S3FetcherSettings {
        access_key: Some("test-access-key".to_string()),
        secret_key: Some("test-secret-key".to_string()),
        region: region.map(|r| r.to_string()),
        endpoint: endpoint.map(|e| e.to_string()),
        bucket: "compilers".to_string(),
    });
    settings
}

#[test]
fn default_settings_pass_validation() {
    assert_eq!(Settings::default().validate(), Ok(()));
}

#[test]
fn default_values_match_the_documented_ones() {
    let s = Settings::default();
    assert_eq!(s.server.addr, "0.0.0.0:8043");
    assert!(s.solidity.enabled);
    assert_eq!(s.solidity.compilers_dir, "/tmp/compilers");
    assert_eq!(s.solidity.refresh_versions_schedule, "0 0 * * * * *");
    match &s.solidity.fetcher {
        FetcherSettings::List(l) => {
            assert_eq!(l.list_url, "https://solc-bin.ethereum.org/linux-amd64/list.json")
        }
        FetcherSettings::S3(_) => panic!("default fetcher should be the list strategy"),
    }
    assert!(s.sourcify.enabled);
    assert_eq!(s.sourcify.api_url, "https://sourcify.dev/server/");
    assert_eq!(s.sourcify.verification_attempts, 3);
    assert_eq!(s.sourcify.request_timeout, 10);
    assert_eq!(s.metrics.endpoint, "/metrics");
    assert_eq!(s.metrics.addr, "0.0.0.0:6060");
    assert_eq!(s.config_path, None);
}

#[test]
fn bucket_fetcher_without_region_and_endpoint_fails_validation() {
    let settings = s3(None, None);
    assert_eq!(
        settings.validate(),
        Err(
            "for s3 fetcher settings at least one of `region` or `endpoint` should be defined"
                .to_string()
        )
    );
}

#[test]
fn bucket_fetcher_with_region_or_endpoint_passes_validation() {
    assert_eq!(s3(Some("us-east-1"), None).validate(), Ok(()));
    assert_eq!(s3(None, Some("https://storage.example.com")).validate(), Ok(()));
    assert_eq!(s3(Some("us-east-1"), Some("https://storage.example.com")).validate(), Ok(()));
}

#[test]
fn malformed_list_url_fails_validation() {
    let mut settings = Settings::default();
    settings.solidity.fetcher =
        FetcherSettings::List(ListFetcherSettings { list_url: "not a url".to_string() });
    assert!(settings.validate().is_err());
}

#[test]
fn malformed_schedule_fails_validation() {
    let mut settings = Settings::default();
    settings.solidity = SoliditySettings {
        refresh_versions_schedule: "every other blue moon".to_string(),
        ..SoliditySettings::default()
    };
    assert!(settings.validate().is_err());
}

#[test]
fn malformed_sourcify_url_fails_validation() {
    let mut settings = Settings::default();
    settings.sourcify.api_url = "::::".to_string();
    assert!(settings.validate().is_err());
}

#[test]
fn zero_verification_attempts_fail_validation() {
    let mut settings = Settings::default();
    settings.sourcify.verification_attempts = 0;
    assert!(settings.validate().is_err());
}

#[test]
fn equality_ignores_the_configuration_path() {
    let a = Settings::default();
    let mut b = Settings::default();
    b.config_path = Some("/etc/verification.toml".to_string());
    assert!(a == b);

    let mut c = Settings::default();
    c.metrics.endpoint = "/prometheus".to_string();
    assert!(a != c);

    let d = s3(Some("us-east-1"), None);
    assert!(a != d);
    let e = s3(Some("us-east-1"), None);
    assert!(d == e);
}
