use tectonic_api::telemetry::{request_attributes, AttributeValue};

fn flatten(method: &str, status: u16, route: Option<&str>) -> Vec<(String, String)> {
    request_attributes(method.to_string(), status, route.map(|r| r.to_string()))
        .into_iter()
        .map(|a| {
            let value = match a.value {
                AttributeValue::Text(t) => format!("text:{t}"),
                AttributeValue::Int(i) => format!("int:{i}"),
            };
            (a.key.to_string(), value)
        })
        .collect()
}

#[test]
fn a_routed_request_records_method_status_and_route() {
    assert_eq!(
        flatten("GET", 200, Some("/api/v2/pdf")),
        vec![
            ("http.request.method".to_string(), "text:GET".to_string()),
            ("http.response.status_code".to_string(), "int:200".to_string()),
            ("http.route".to_string(), "text:/api/v2/pdf".to_string()),
        ]
    );
}

#[test]
fn an_unrouted_request_records_no_route() {
    assert_eq!(
        flatten("POST", 404, None),
        vec![
            ("http.request.method".to_string(), "text:POST".to_string()),
            ("http.response.status_code".to_string(), "int:404".to_string()),
        ]
    );
}
