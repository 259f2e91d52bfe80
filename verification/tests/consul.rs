use reqwest::header::AUTHORIZATION;
use tectonic_api::consul::{Error, RegistrationBuilder};

#[test]
fn a_bearer_token_becomes_a_sensitive_authorization_header() {
    let builder = RegistrationBuilder::new()
        .auth_token(Some("s3cr3t"))
        .ok()
        .expect("a visible token is accepted")
        .http_addr(Some("http://consul:8500"))
        .service_address(Some("tectonic.example"))
        .service_name("tectonic-api")
        .service_id("tectonic-1".to_string());
    let prepared = builder.prepare_registration().expect("both addresses are given");
    let headers = prepared.registration.headers();
    assert_eq!(headers.len(), 1);
    let value = headers.get(AUTHORIZATION).expect("the header is set");
    assert_eq!(value.as_bytes(), b"Bearer s3cr3t");
    assert!(value.is_sensitive());
}

#[test]
fn no_token_sets_no_header() {
    let prepared = RegistrationBuilder::new()
        .auth_token(None)
        .ok()
        .unwrap()
        .http_addr(Some("http://consul:8500"))
        .service_address(Some("host"))
        .service_name("svc")
        .service_id("id".to_string())
        .prepare_registration()
        .unwrap();
    assert!(prepared.registration.headers().is_empty());
}

#[test]
fn a_token_that_cannot_stand_in_a_header_is_refused() {
    for token in ["line\nbreak", "del\u{7f}", "nul\0"] {
        match RegistrationBuilder::new().auth_token(Some(token)) {
            Err(Error::InvalidAuthToken(_)) => {}
            _ => panic!("{token:?} should be refused"),
        }
    }
    assert!(RegistrationBuilder::new().auth_token(Some("tab\tand ünïcode")).is_ok());
}

#[test]
fn registration_needs_both_addresses() {
    let cases: [(Option<&str>, Option<&str>); 5] = [
        (None, Some("host")),
        (Some(""), Some("host")),
        (Some("http://consul"), None),
        (Some("http://consul"), Some("")),
        (None, None),
    ];
    for (http_addr, service_address) in cases {
        let prepared = RegistrationBuilder::new()
            .http_addr(http_addr)
            .service_address(service_address)
            .service_name("svc")
            .service_id("id".to_string())
            .prepare_registration();
        assert!(prepared.is_none());
    }
}

#[test]
fn registration_describes_the_service_and_its_health_check() {
    let prepared = RegistrationBuilder::new()
        .service_port(8443)
        .service_scheme("http")
        .http_addr(Some("http://consul:8500//"))
        .service_address(Some("10.0.0.7"))
        .service_name("tectonic-api")
        .service_id("tectonic-api-7".to_string())
        .prepare_registration()
        .unwrap();
    assert_eq!(prepared.register_url, "http://consul:8500/v1/agent/service/register?replace-existing-checks=true");
    let payload = &prepared.payload;
    assert_eq!(payload.name, "tectonic-api");
    assert_eq!(payload.id, "tectonic-api-7");
    assert_eq!(payload.tags, vec!["prometheus".to_string()]);
    assert_eq!(payload.address, "10.0.0.7");
    assert_eq!(payload.port, 8443);
    assert_eq!(payload.check.http, "http://10.0.0.7:8443/api/health");
    assert_eq!(payload.check.interval, "30s");
    assert_eq!(payload.check.timeout, "10s");
    assert_eq!(
        prepared.registration.deregister_url(),
        "http://consul:8500/v1/agent/service/deregister/tectonic-api-7"
    );
}

#[test]
fn defaults_are_port_443_and_https() {
    let prepared = RegistrationBuilder::new()
        .http_addr(Some("https://consul"))
        .service_address(Some("svc.example"))
        .service_name("svc")
        .service_id("svc-1".to_string())
        .prepare_registration()
        .unwrap();
    assert_eq!(prepared.payload.port, 443);
    assert_eq!(prepared.payload.check.http, "https://svc.example:443/api/health");
}

#[test]
fn trailing_slashes_of_the_agent_address_do_not_matter() {
    let url = |addr: &str| {
        RegistrationBuilder::new()
            .http_addr(Some(addr))
            .service_address(Some("host"))
            .service_name("svc")
            .service_id("id".to_string())
            .prepare_registration()
            .unwrap()
            .register_url
    };
    assert_eq!(url("http://consul"), url("http://consul/"));
    assert_eq!(url("http://consul"), url("http://consul///"));
}
