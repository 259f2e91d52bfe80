use tectonic_api::features::{pdf_output_name, take_pdf, tex_input_name};
use tectonic_api::reply::{Body, Reply};
use tectonic_api::state::pdf_weight;
use tectonic_api::v1::health::health;
use tectonic_api::v1::index::index;

fn bytes_of(reply: &Reply) -> Vec<u8> {
    match &reply.body {
        Body::Bytes(b) => b.clone(),
        Body::Text(t) => t.as_bytes().to_vec(),
    }
}

#[test]
fn v1_compile_offers_the_pdf_or_a_fixed_message() {
    let ok = tectonic_api::v1::compile::compile_reply(Some(b"%PDF-1.5".to_vec()));
    assert_eq!(ok.status, 200);
    assert_eq!(ok.content_type, Some("application/pdf"));
    assert_eq!(ok.content_disposition, Some("attachment; filename=\"compiled.pdf\""));
    assert_eq!(bytes_of(&ok), b"%PDF-1.5");
    let failed = tectonic_api::v1::compile::compile_reply(None);
    assert_eq!(failed.status, 400);
    assert_eq!(failed.content_type, Some("text/plain"));
    assert_eq!(failed.content_disposition, None);
    assert_eq!(bytes_of(&failed), b"Failed to compile to PDF!");
}

#[test]
fn first_release_compile_offers_the_pdf_or_fails_with_500() {
    let ok = tectonic_api::compile::compile_reply(Some(vec![1, 2, 3]));
    assert_eq!(ok.status, 200);
    assert_eq!(ok.content_type, Some("application/pdf"));
    assert_eq!(ok.content_disposition, Some("attachment; filename=\"compiled.pdf\""));
    assert_eq!(bytes_of(&ok), vec![1, 2, 3]);
    let failed = tectonic_api::compile::compile_reply(None);
    assert_eq!(failed.status, 500);
    assert_eq!(failed.content_type, None);
    assert_eq!(failed.content_disposition, None);
    assert!(bytes_of(&failed).is_empty());
}

#[test]
fn api_v1_compile_refuses_a_failure_with_its_message() {
    let ok = tectonic_api::api::v1::compile::compile_reply(Ok(vec![9]));
    assert_eq!(ok.status, 200);
    assert_eq!(ok.content_type, Some("application/pdf"));
    assert_eq!(bytes_of(&ok), vec![9]);
    let failed = tectonic_api::api::v1::compile::compile_reply(Err("! Undefined control sequence.".to_string()));
    assert_eq!(failed.status, 400);
    assert_eq!(failed.content_type, Some("text/plain"));
    assert_eq!(failed.content_disposition, None);
    assert_eq!(bytes_of(&failed), b"! Undefined control sequence.");
}

#[test]
fn api_v2_pdf_shows_the_pdf_or_the_error() {
    let ok = tectonic_api::api::v2::pdf::pdf_reply(Ok(b"%PDF".to_vec()));
    assert_eq!(ok.status, 200);
    assert_eq!(ok.content_disposition, Some("inline; filename=\"index.pdf\""));
    assert_eq!(bytes_of(&ok), b"%PDF");
    let failed = tectonic_api::api::v2::pdf::pdf_reply(Err("no bundle".to_string()));
    assert_eq!(failed.status, 400);
    assert_eq!(failed.content_type, Some("text/plain"));
    assert_eq!(bytes_of(&failed), b"no bundle");
}

#[test]
fn health_and_index() {
    let h = health();
    assert_eq!((h.schema_version, h.label, h.message), (1, "tectonic-api", "online"));
    assert_eq!(index(), "Welcome to v1 of the API!");
}

#[test]
fn cached_pdfs_weigh_their_length() {
    assert_eq!(pdf_weight(&Vec::new()), 0);
    assert_eq!(pdf_weight(&vec![0u8; 1234]), 1234);
}

#[test]
fn the_job_files_are_named_after_texput() {
    assert_eq!(tex_input_name(), "texput.tex");
    assert_eq!(pdf_output_name(), "texput.pdf");
}

#[test]
fn the_pdf_is_taken_from_the_outputs() {
    let outputs = vec![
        ("texput.log".to_string(), b"log".to_vec()),
        ("texput.pdf".to_string(), b"%PDF-1.7".to_vec()),
        ("texput.aux".to_string(), b"aux".to_vec()),
    ];
    assert_eq!(take_pdf(outputs), Ok(b"%PDF-1.7".to_vec()));
    assert_eq!(
        take_pdf(vec![("texput.log".to_string(), Vec::new())]),
        Err("LaTeX didn't report failure, but no PDF was created (??)".to_string())
    );
    assert!(take_pdf(Vec::new()).is_err());
}
