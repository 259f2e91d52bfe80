//! The cache of compiled PDFs, which the server shares between requests.
use vstd::prelude::*;

verus! {

/// How much a cached PDF weighs against the cache's capacity: its length
/// in bytes, or `u32::MAX` when the length does not fit in 32 bits.
pub fn pdf_weight(pdf: &Vec<u8>) -> (r: u32)
    ensures
        pdf.len() <= u32::MAX ==> r == pdf.len(),
        pdf.len() > u32::MAX ==> r == u32::MAX,
{
    let len = pdf.len();
    if len <= u32::MAX as usize {
        len as u32
    } else {
        u32::MAX
    }
}

} // verus!
