use tectonic_api::settings::{Environment, Settings};

fn empty() -> Environment {
    Environment {
        service_name: None,
        max_cache_memory: None,
        cache_expiry: None,
        consul_service_port: None,
        consul_http_addr: None,
        consul_auth_token: None,
        consul_service_address: None,
        consul_service_scheme: None,
        server_port: None,
    }
}

#[test]
fn unset_variables_take_their_defaults() {
    let s = Settings::from_environment(empty());
    assert_eq!(s.service_name, "tectonic-api");
    assert_eq!(s.max_cache_memory, 12884901888);
    assert_eq!(s.cache_expiry_secs, 3600);
    assert_eq!(s.consul_service_port, 443);
    assert_eq!(s.consul_http_addr, None);
    assert_eq!(s.consul_auth_token, None);
    assert_eq!(s.consul_service_address, None);
    assert_eq!(s.consul_service_scheme, "https");
    assert_eq!(s.server_port, "5555");
    assert_eq!(s.listen_address(), "0.0.0.0:5555");
}

#[test]
fn set_variables_are_used() {
    let env = Environment {
        service_name: Some("pdf".to_string()),
        max_cache_memory: Some("1048576".to_string()),
        cache_expiry: Some("+60".to_string()),
        consul_service_port: Some("8443".to_string()),
        consul_http_addr: Some("http://consul:8500".to_string()),
        consul_auth_token: Some("tok".to_string()),
        consul_service_address: Some("10.0.0.1".to_string()),
        consul_service_scheme: Some("http".to_string()),
        server_port: Some("8080".to_string()),
    };
    let s = Settings::from_environment(env);
    assert_eq!(s.service_name, "pdf");
    assert_eq!(s.max_cache_memory, 1048576);
    assert_eq!(s.cache_expiry_secs, 60);
    assert_eq!(s.consul_service_port, 8443);
    assert_eq!(s.consul_http_addr.as_deref(), Some("http://consul:8500"));
    assert_eq!(s.consul_auth_token.as_deref(), Some("tok"));
    assert_eq!(s.consul_service_address.as_deref(), Some("10.0.0.1"));
    assert_eq!(s.consul_service_scheme, "http");
    assert_eq!(s.listen_address(), "0.0.0.0:8080");
}

#[test]
fn numbers_that_do_not_parse_take_their_defaults() {
    let mut env = empty();
    env.max_cache_memory = Some("12 GiB".to_string());
    env.cache_expiry = Some("-1".to_string());
    env.consul_service_port = Some("65536".to_string());
    let s = Settings::from_environment(env);
    assert_eq!(s.max_cache_memory, 12884901888);
    assert_eq!(s.cache_expiry_secs, 3600);
    assert_eq!(s.consul_service_port, 443);
}

#[test]
fn an_empty_text_is_kept() {
    let mut env = empty();
    env.service_name = Some(String::new());
    env.server_port = Some(String::new());
    let s = Settings::from_environment(env);
    assert_eq!(s.service_name, "");
    assert_eq!(s.listen_address(), "0.0.0.0:");
}
