//! The replies of the HTTP handlers, as plain values: a status, an optional
//! content type, an optional content disposition and the body.
use vstd::prelude::*;

verus! {

/// The content type of a PDF.
pub const PDF_CONTENT_TYPE: &'static str = "application/pdf";

/// The content type of a plain-text message.
pub const TEXT_CONTENT_TYPE: &'static str = "text/plain";

/// The body of a reply.
pub enum Body {
    Bytes(Vec<u8>),
    Text(String),
}

/// What a body holds.
pub enum BodyView {
    Bytes(Seq<u8>),
    Text(Seq<char>),
}

impl View for Body {
    type V = BodyView;

    open spec fn view(&self) -> BodyView {
        match self {
            Body::Bytes(b) => BodyView::Bytes(b@),
            Body::Text(t) => BodyView::Text(t@),
        }
    }
}

/// The text of an optional static string.
pub open spec fn opt_static_text(o: Option<&'static str>) -> Option<Seq<char>> {
    match o {
        Some(t) => Some(t@),
        None => None,
    }
}

/// A reply to an HTTP request.
pub struct Reply {
    pub status: u16,
    pub content_type: Option<&'static str>,
    pub content_disposition: Option<&'static str>,
    pub body: Body,
}

/// What a reply says.
pub struct ReplyView {
    pub status: u16,
    pub content_type: Option<Seq<char>>,
    pub content_disposition: Option<Seq<char>>,
    pub body: BodyView,
}

impl View for Reply {
    type V = ReplyView;

    open spec fn view(&self) -> ReplyView {
        ReplyView {
            status: self.status,
            content_type: opt_static_text(self.content_type),
            content_disposition: opt_static_text(self.content_disposition),
            body: self.body@,
        }
    }
}

/// A successful reply that carries a PDF, with the given disposition.
pub open spec fn pdf_reply_view(pdf: Seq<u8>, disposition: Seq<char>) -> ReplyView {
    ReplyView {
        status: 200,
        content_type: Some(PDF_CONTENT_TYPE@),
        content_disposition: Some(disposition),
        body: BodyView::Bytes(pdf),
    }
}

/// A reply that refuses a request with a plain-text message.
pub open spec fn bad_request_view(message: Seq<char>) -> ReplyView {
    ReplyView {
        status: 400,
        content_type: Some(TEXT_CONTENT_TYPE@),
        content_disposition: None,
        body: BodyView::Text(message),
    }
}

/// A reply that reports a failure of the server: status 500, with no
/// content type and an empty body.
pub open spec fn internal_error_view() -> ReplyView {
    ReplyView {
        status: 500,
        content_type: None,
        content_disposition: None,
        body: BodyView::Bytes(Seq::empty()),
    }
}

/// The successful reply that carries `pdf` with the given disposition.
pub fn pdf_reply(pdf: Vec<u8>, disposition: &'static str) -> (r: Reply)
    ensures
        r@ == pdf_reply_view(pdf@, disposition@),
{
    Reply {
        status: 200,
        content_type: Some(PDF_CONTENT_TYPE),
        content_disposition: Some(disposition),
        body: Body::Bytes(pdf),
    }
}

/// The reply that refuses a request with `message`.
pub fn bad_request(message: String) -> (r: Reply)
    ensures
        r@ == bad_request_view(message@),
{
    Reply {
        status: 400,
        content_type: Some(TEXT_CONTENT_TYPE),
        content_disposition: None,
        body: Body::Text(message),
    }
}

/// The reply that reports a failure of the server.
pub fn internal_error() -> (r: Reply)
    ensures
        r@ == internal_error_view(),
{
    let body: Vec<u8> = Vec::new();
    Reply { status: 500, content_type: None, content_disposition: None, body: Body::Bytes(body) }
}

/// A successful PDF reply carries the whole PDF, byte for byte, whatever its
/// length, with status 200, the PDF content type and the given disposition.
pub proof fn lemma_pdf_reply_carries_whole_pdf(pdf: Seq<u8>, disposition: Seq<char>)
    ensures
        pdf_reply_view(pdf, disposition).body == BodyView::Bytes(pdf),
        pdf_reply_view(pdf, disposition).status == 200,
        pdf_reply_view(pdf, disposition).content_type == Some(PDF_CONTENT_TYPE@),
        pdf_reply_view(pdf, disposition).content_disposition == Some(disposition),
        PDF_CONTENT_TYPE@ == "application/pdf"@,
{
}

/// Two PDF replies are the same exactly when they carry the same PDF with
/// the same disposition: no two PDFs share a reply.
pub proof fn lemma_pdf_reply_injective(p1: Seq<u8>, p2: Seq<u8>, d: Seq<char>)
    ensures
        pdf_reply_view(p1, d) == pdf_reply_view(p2, d) <==> p1 == p2,
{
}

/// A refusal carries the whole message as its text, with status 400 and the
/// plain-text content type.
pub proof fn lemma_bad_request_carries_whole_message(message: Seq<char>)
    ensures
        bad_request_view(message).body == BodyView::Text(message),
        bad_request_view(message).status == 400,
        bad_request_view(message).content_type == Some(TEXT_CONTENT_TYPE@),
        bad_request_view(message).content_disposition is None,
        TEXT_CONTENT_TYPE@ == "text/plain"@,
{
}

} // verus!
