//! `POST /v1/compile` of the first release, which answers a compile request
//! with the PDF alone, or with status 500 when compilation fails.
use vstd::prelude::*;

use crate::reply;

verus! {

/// The body of a compile request.
pub struct CompileSchema {
    pub latex: String,
}

/// How the compiled PDF is offered to the client.
pub const COMPILED_PDF_DISPOSITION: &'static str = "attachment; filename=\"compiled.pdf\"";

/// The reply to a compile request: the compiled PDF as an attachment, or
/// status 500 when no PDF could be made.
pub fn compile_reply(pdf: Option<Vec<u8>>) -> (r: reply::Reply)
    ensures
        pdf matches Some(p) ==> r@ == reply::pdf_reply_view(p@, COMPILED_PDF_DISPOSITION@),
        pdf is None ==> r@ == reply::internal_error_view(),
{
    match pdf {
        Some(p) => reply::pdf_reply(p, COMPILED_PDF_DISPOSITION),
        None => reply::internal_error(),
    }
}

} // verus!
