//! `POST /api/v1/compile`: compiles the LaTeX of the request to a PDF.
use vstd::prelude::*;

use crate::reply;

verus! {

/// The body of a compile request.
pub struct CompileSchema {
    pub latex: String,
}

/// How the compiled PDF is offered to the client.
pub const COMPILED_PDF_DISPOSITION: &'static str = "attachment; filename=\"compiled.pdf\"";

/// The message of a failed compilation.
pub const COMPILE_FAILURE_MESSAGE: &'static str = "Failed to compile to PDF!";

/// The reply to a compile request: the PDF as an attachment when the
/// compilation gave one, else a refusal with a fixed message.
pub fn compile_reply(pdf: Option<Vec<u8>>) -> (r: reply::Reply)
    ensures
        pdf matches Some(p) ==> r@ == reply::pdf_reply_view(p@, COMPILED_PDF_DISPOSITION@),
        pdf is None ==> r@ == reply::bad_request_view(COMPILE_FAILURE_MESSAGE@),
{
    match pdf {
        Some(p) => reply::pdf_reply(p, COMPILED_PDF_DISPOSITION),
        None => reply::bad_request(COMPILE_FAILURE_MESSAGE.to_owned()),
    }
}

} // verus!
