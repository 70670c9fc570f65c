use pdfium_render::prelude::{PdfDocument, PdfPagePaperSize, PdfPoints, Pdfium};
use songbook::tile::{merge_and_reorder, merge_pdfs, mix_first_and_last, ImposeError};

/// A serialized document with one page of each of these widths.
fn document_bytes(pdfium: &Pdfium, widths: &[f32]) -> Vec<u8> {
    let mut doc = pdfium.create_new_pdf().unwrap();
    for w in widths {
        doc.pages_mut()
            .create_page_at_end(PdfPagePaperSize::new_custom(PdfPoints::new(*w), PdfPoints::new(500.0)))
            .unwrap();
    }
    doc.save_to_bytes().unwrap()
}

fn widths(doc: &PdfDocument) -> Vec<f32> {
    doc.pages().iter().map(|p| p.width().value.round()).collect()
}

// The engine is a native library loaded at run time; where it is not
// installed there is nothing to run these checks against.
#[test]
fn merge_and_fold_with_the_engine() {
    let bindings = match Pdfium::bind_to_system_library() {
        Ok(b) => b,
        Err(_) => {
            println!("the PDF engine is not installed here");
            return;
        }
    };
    let pdfium = Pdfium::new(bindings);

    let empty = merge_pdfs(&pdfium, vec![]).unwrap();
    assert_eq!(empty.pages().len(), 0);

    let a = document_bytes(&pdfium, &[100.0, 101.0]);
    let b = document_bytes(&pdfium, &[200.0, 201.0, 202.0]);
    let c = document_bytes(&pdfium, &[300.0]);

    let single = merge_pdfs(&pdfium, vec![b.clone()]).unwrap();
    assert_eq!(widths(&single), vec![200.0, 201.0, 202.0]);

    let two = merge_pdfs(&pdfium, vec![a.clone(), b.clone()]).unwrap();
    let three = merge_pdfs(&pdfium, vec![a.clone(), b.clone(), c.clone()]).unwrap();
    let mut expected = widths(&two);
    expected.push(300.0);
    assert_eq!(widths(&three), expected);
    assert_eq!(widths(&three), vec![100.0, 101.0, 200.0, 201.0, 202.0, 300.0]);

    let folded = mix_first_and_last(&pdfium, &three).unwrap();
    assert_eq!(widths(&folded), vec![100.0, 300.0, 101.0, 202.0, 200.0, 201.0]);

    let booklet = merge_and_reorder(&pdfium, vec![a.clone(), b.clone(), c.clone()], true).unwrap();
    assert_eq!(widths(&booklet), vec![100.0, 300.0, 101.0, 202.0, 200.0, 201.0]);

    let one_page = merge_pdfs(&pdfium, vec![c.clone()]).unwrap();
    assert!(matches!(
        mix_first_and_last(&pdfium, &one_page),
        Err(ImposeError::PreconditionViolation)
    ));

    assert!(matches!(
        merge_pdfs(&pdfium, vec![a.clone(), vec![1, 2, 3]]),
        Err(ImposeError::Deserialization(1))
    ));
}
