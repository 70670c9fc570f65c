//! The PDF engine behind the imposition steps, as seen by the verified code.
//!
//! A document is modelled by the sequence of its pages. Each page stands as a
//! number for its content: a page copied from one document to another keeps
//! its number.
use pdfium_render::prelude::{PdfDocument, Pdfium, PdfiumError};
use vstd::prelude::*;

verus! {

#[verifier::external_type_specification]
#[verifier::external_body]
pub struct ExPdfium(Pdfium);

#[verifier::external_type_specification]
#[verifier::external_body]
pub struct ExPdfDocument<'a>(PdfDocument<'a>);

#[verifier::external_type_specification]
#[verifier::external_body]
pub struct ExPdfiumError(PdfiumError);

/// The pages of a document, in order.
pub uninterp spec fn document_pages(d: PdfDocument<'_>) -> Seq<int>;

/// The pages of the document that a serialized buffer holds.
pub uninterp spec fn serialized_pages(bytes: Seq<u8>) -> Seq<int>;

/// Relies on `Pdfium::create_new_pdf`: a new document has no pages.
#[verifier::external_body]
pub(crate) fn create_document<'a>(pdfium: &'a Pdfium) -> (r: Result<PdfDocument<'a>, PdfiumError>)
    ensures
        r matches Ok(d) ==> document_pages(d) == Seq::<int>::empty(),
{
    pdfium.create_new_pdf()
}

/// Relies on `Pdfium::load_pdf_from_byte_vec` (no password): the document
/// holds the pages that the buffer describes.
#[verifier::external_body]
pub(crate) fn load_document<'a>(pdfium: &'a Pdfium, bytes: Vec<u8>) -> (r: Result<PdfDocument<'a>, PdfiumError>)
    ensures
        r matches Ok(d) ==> document_pages(d) == serialized_pages(bytes@),
{
    pdfium.load_pdf_from_byte_vec(bytes, None)
}

/// Relies on `PdfPages::len`: the number of pages of the document.
#[verifier::external_body]
pub(crate) fn page_count(d: &PdfDocument<'_>) -> (r: i32)
    ensures
        r as int == document_pages(*d).len(),
{
    d.pages().len()
}

/// Relies on `PdfPages::append`: on success the pages of `src` follow those
/// that `dst` had.
#[verifier::external_body]
pub(crate) fn append_document(dst: &mut PdfDocument<'_>, src: &PdfDocument<'_>) -> (r: Result<(), PdfiumError>)
    ensures
        r is Ok ==> document_pages(*final(dst)) == document_pages(*old(dst)) + document_pages(*src),
{
    dst.pages_mut().append(src)
}

/// Relies on `PdfPages::copy_page_from_document`: on success a copy of page
/// `source_index` of `src` stands at `destination_index` in `dst`.
#[verifier::external_body]
pub(crate) fn copy_page(
    dst: &mut PdfDocument<'_>,
    src: &PdfDocument<'_>,
    source_index: i32,
    destination_index: i32,
) -> (r: Result<(), PdfiumError>)
    requires
        0 <= source_index < document_pages(*src).len(),
        0 <= destination_index <= document_pages(*old(dst)).len(),
    ensures
        r is Ok ==> document_pages(*final(dst)) == document_pages(*old(dst)).insert(
            destination_index as int,
            document_pages(*src)[source_index as int],
        ),
{
    dst.pages_mut().copy_page_from_document(src, source_index, destination_index)
}

} // verus!
