//! What the server records of each HTTP request it answers.
use vstd::prelude::*;

verus! {

/// The value of a recorded attribute.
pub enum AttributeValue {
    Text(String),
    Int(i64),
}

/// What the value of an attribute holds.
pub enum AttributeValueView {
    Text(Seq<char>),
    Int(int),
}

/// A recorded attribute: a key and its value.
pub struct Attribute {
    pub key: &'static str,
    pub value: AttributeValue,
}

impl View for Attribute {
    type V = (Seq<char>, AttributeValueView);

    open spec fn view(&self) -> (Seq<char>, AttributeValueView) {
        (
            self.key@,
            match &self.value {
                AttributeValue::Text(t) => AttributeValueView::Text(t@),
                AttributeValue::Int(i) => AttributeValueView::Int(*i as int),
            },
        )
    }
}

/// The attributes of a request's duration: its method, the status code of
/// the response and, when the request matched a route, that route.
pub open spec fn request_attributes_view(
    method: Seq<char>,
    status: u16,
    route: Option<Seq<char>>,
) -> Seq<(Seq<char>, AttributeValueView)> {
    let base = seq![
        ("http.request.method"@, AttributeValueView::Text(method)),
        ("http.response.status_code"@, AttributeValueView::Int(status as int)),
    ];
    match route {
        Some(r) => base.push(("http.route"@, AttributeValueView::Text(r))),
        None => base,
    }
}

/// The attributes recorded with the duration of a request.
pub fn request_attributes(method: String, status: u16, route: Option<String>) -> (r: Vec<
    Attribute,
>)
    ensures
        r@.map_values(|a: Attribute| a@) == request_attributes_view(
            method@,
            status,
            crate::text::opt_string_text(route),
        ),
{
    let ghost route_text = crate::text::opt_string_text(route);
    let ghost method_text = method@;
    let mut attributes = vec![
        Attribute { key: "http.request.method", value: AttributeValue::Text(method) },
        Attribute { key: "http.response.status_code", value: AttributeValue::Int(status as i64) },
    ];
    if let Some(route) = route {
        attributes.push(Attribute { key: "http.route", value: AttributeValue::Text(route) });
    }
    assert(attributes@.map_values(|a: Attribute| a@) =~= request_attributes_view(
        method_text,
        status,
        route_text,
    ));
    attributes
}

} // verus!
