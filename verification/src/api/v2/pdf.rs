//! `GET /api/v2/pdf?source=...`: compiles the LaTeX source of the query to a
//! PDF that the browser shows.
use vstd::prelude::*;

use crate::reply;

verus! {

/// The query of a PDF request.
pub struct CompileSchema {
    pub source: std::sync::Arc<str>,
}

/// How the PDF is offered to the client: shown in place.
pub const INLINE_PDF_DISPOSITION: &'static str = "inline; filename=\"index.pdf\"";

/// The reply to a PDF request: the PDF shown in place, or a refusal that
/// carries the compilation's error message.
pub fn pdf_reply(result: Result<Vec<u8>, String>) -> (r: reply::Reply)
    ensures
        result matches Ok(p) ==> r@ == reply::pdf_reply_view(p@, INLINE_PDF_DISPOSITION@),
        result matches Err(e) ==> r@ == reply::bad_request_view(e@),
{
    match result {
        Ok(p) => reply::pdf_reply(p, INLINE_PDF_DISPOSITION),
        Err(e) => reply::bad_request(e),
    }
}

} // verus!
