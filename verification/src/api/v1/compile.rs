//! `POST /api/v1/compile`: compiles the LaTeX of the request to a PDF, or
//! refuses the request with the error of the compilation.
use vstd::prelude::*;

use crate::reply;

verus! {

/// The body of a compile request.
pub struct CompileSchema {
    pub latex: String,
}

/// How the compiled PDF is offered to the client.
pub const COMPILED_PDF_DISPOSITION: &'static str = "attachment; filename=\"compiled.pdf\"";

/// The reply to a compile request: the PDF as an attachment, or status 400
/// with the compilation's error message as plain text.
pub fn compile_reply(result: Result<Vec<u8>, String>) -> (r: reply::Reply)
    ensures
        result matches Ok(p) ==> r@ == reply::pdf_reply_view(p@, COMPILED_PDF_DISPOSITION@),
        result matches Err(e) ==> r@ == reply::bad_request_view(e@),
{
    match result {
        Ok(p) => reply::pdf_reply(p, COMPILED_PDF_DISPOSITION),
        Err(e) => reply::bad_request(e),
    }
}

} // verus!
