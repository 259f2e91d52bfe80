//! What this crate decides of a compilation with Tectonic: the names of the
//! job's files, and which output is the PDF.
use vstd::prelude::*;

verus! {

/// The name of every compilation job; its primary input is this name with
/// `.tex`, and its PDF this name with `.pdf`.
pub const JOB_NAME: &'static str = "texput";

/// The error of a compilation that reported no failure but made no PDF.
pub const MISSING_PDF_MESSAGE: &'static str =
    "LaTeX didn't report failure, but no PDF was created (??)";

/// The name of the PDF that a job makes.
pub open spec fn pdf_name() -> Seq<char> {
    JOB_NAME@ + ".pdf"@
}

/// The name of a job's primary input file.
pub fn tex_input_name() -> (r: String)
    ensures
        r@ == JOB_NAME@ + ".tex"@,
{
    JOB_NAME.to_owned().concat(".tex")
}

/// The name of the PDF that a job makes.
pub fn pdf_output_name() -> (r: String)
    ensures
        r@ == pdf_name(),
{
    JOB_NAME.to_owned().concat(".pdf")
}

/// The index of the first output named `name`, if any.
pub open spec fn first_named(outputs: Seq<(Seq<char>, Seq<u8>)>, name: Seq<char>) -> Option<int> {
    if exists|i: int| 0 <= i < outputs.len() && #[trigger] outputs[i].0 == name {
        Some(
            choose|i: int|
                0 <= i < outputs.len() && #[trigger] outputs[i].0 == name && forall|j: int|
                    0 <= j < i ==> outputs[j].0 != name,
        )
    } else {
        None
    }
}

/// The files that a job wrote, by name and contents.
pub open spec fn outputs_view(outputs: Seq<(String, Vec<u8>)>) -> Seq<(Seq<char>, Seq<u8>)> {
    outputs.map_values(|o: (String, Vec<u8>)| (o.0@, o.1@))
}

/// Takes the job's PDF out of the files that it wrote: the contents of the
/// first file named like the job's PDF, or the error that no PDF was made.
pub fn take_pdf(outputs: Vec<(String, Vec<u8>)>) -> (r: Result<Vec<u8>, String>)
    ensures
        r is Ok <==> first_named(outputs_view(outputs@), pdf_name()) is Some,
        r matches Ok(pdf) ==> pdf@ == outputs_view(outputs@)[first_named(
            outputs_view(outputs@),
            pdf_name(),
        )->0].1,
        r matches Err(m) ==> m@ == MISSING_PDF_MESSAGE@,
{
    let ghost o = outputs_view(outputs@);
    let name = pdf_output_name();
    let mut files = outputs;
    let mut i: usize = 0;
    while i < files.len()
        invariant
            i <= files.len(),
            o == outputs_view(files@),
            o == outputs_view(outputs@),
            name@ == pdf_name(),
            forall|j: int| 0 <= j < i ==> o[j].0 != name@,
        decreases files.len() - i,
    {
        if files[i].0 == name {
            assert(o[i as int].1 == files@[i as int].1@);
            let (_, pdf) = files.remove(i);
            proof {
                // The first output with the name is the one at `i`: none before it has the name.
                let ii = i as int;
                assert(0 <= ii < o.len() && o[ii].0 == name@);
                let k = first_named(o, name@)->0;
                if k < ii {
                    assert(o[k].0 != name@);
                } else if k > ii {
                    assert(o[ii].0 != name@);
                }
            }
            return Ok(pdf);
        }
        i = i + 1;
    }
    Err(MISSING_PDF_MESSAGE.to_owned())
}

/// The output that `take_pdf` picks is named like the job's PDF and no
/// output before it is; and when any output has that name, one is picked.
pub proof fn lemma_first_named_is_first(outputs: Seq<(Seq<char>, Seq<u8>)>, name: Seq<char>)
    ensures
        first_named(outputs, name) matches Some(i) ==> {
            &&& 0 <= i < outputs.len()
            &&& outputs[i].0 == name
            &&& forall|j: int| 0 <= j < i ==> outputs[j].0 != name
        },
        (exists|i: int| 0 <= i < outputs.len() && #[trigger] outputs[i].0 == name)
            ==> first_named(outputs, name) is Some,
        first_named(outputs, name) is None ==> forall|i: int|
            0 <= i < outputs.len() ==> #[trigger] outputs[i].0 != name,
{
    if exists|i: int| 0 <= i < outputs.len() && #[trigger] outputs[i].0 == name {
        let w = choose|i: int| 0 <= i < outputs.len() && #[trigger] outputs[i].0 == name;
        lemma_first_named_exists(outputs, name, w);
    }
}

proof fn lemma_first_named_exists(outputs: Seq<(Seq<char>, Seq<u8>)>, name: Seq<char>, w: int)
    requires
        0 <= w < outputs.len(),
        outputs[w].0 == name,
    ensures
        exists|i: int|
            0 <= i < outputs.len() && #[trigger] outputs[i].0 == name && forall|j: int|
                0 <= j < i ==> outputs[j].0 != name,
    decreases w,
{
    if exists|j: int| 0 <= j < w && #[trigger] outputs[j].0 == name {
        let v = choose|j: int| 0 <= j < w && #[trigger] outputs[j].0 == name;
        lemma_first_named_exists(outputs, name, v);
    } else {
        assert(forall|j: int| 0 <= j < w ==> outputs[j].0 != name);
    }
}

/// The PDF is the data of the output named `texput.pdf`.
pub proof fn lemma_pdf_name_is_texput()
    ensures
        pdf_name() == JOB_NAME@ + ".pdf"@,
        JOB_NAME@ == "texput"@,
{
}

} // verus!
