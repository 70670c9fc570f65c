//! Merging page sequences into one document and reordering its pages so that
//! a folded stack of sheets reads in order.
use crate::pdf::{
    append_document, copy_page, create_document, document_pages, load_document, page_count,
    serialized_pages,
};
use pdfium_render::prelude::{PdfDocument, Pdfium};
use vstd::prelude::*;

verus! {

/// Why an imposition step gave up.
#[derive(Debug, Clone, Copy, PartialEq, Eq, Structural)]
pub enum ImposeError {
    /// The engine could not make a new, empty document.
    Create,
    /// The input buffer at this position is not a valid document.
    Deserialization(usize),
    /// The pages of the input at this position could not be appended.
    Append(usize),
    /// The page at this source index could not be copied.
    Copy(usize),
    /// A grid without rows or columns, or a scaling factor outside (0, 1].
    Geometry,
    /// Reordering needs a document of at least two pages.
    PreconditionViolation,
}

/// The pages of the inputs, one input after the other, each in its own order.
pub open spec fn merged_pages(inputs: Seq<Seq<u8>>) -> Seq<int>
    decreases inputs.len(),
{
    if inputs.len() == 0 {
        Seq::empty()
    } else {
        merged_pages(inputs.drop_last()) + serialized_pages(inputs.last())
    }
}

/// The bytes of each buffer.
pub open spec fn buffer_views(buffers: Seq<Vec<u8>>) -> Seq<Seq<u8>> {
    buffers.map_values(|b: Vec<u8>| b@)
}

/// Where the page at position `k` of the folded order of `n` pages comes
/// from: the front of the source at even positions, its back at odd ones.
pub open spec fn mix_index(n: int, k: int) -> int {
    if k % 2 == 0 {
        k / 2
    } else {
        n - 1 - k / 2
    }
}

/// A sequence in folded order: first, last, second, second to last, ...
pub open spec fn mixed<A>(s: Seq<A>) -> Seq<A> {
    Seq::new(s.len(), |k: int| s[mix_index(s.len() as int, k)])
}

proof fn lemma_merged_pages_step(inputs: Seq<Seq<u8>>, j: int)
    requires
        0 <= j < inputs.len(),
    ensures
        merged_pages(inputs.take(j + 1)) == merged_pages(inputs.take(j)) + serialized_pages(inputs[j]),
{
    assert(inputs.take(j + 1).drop_last() =~= inputs.take(j));
}

/// Concatenates serialized page sequences into one document, keeping the
/// order of the inputs and of the pages within each.
pub fn merge_pdfs<'a>(pdfium: &'a Pdfium, pdfs: Vec<Vec<u8>>) -> (r: Result<PdfDocument<'a>, ImposeError>)
    ensures
        r matches Ok(d) ==> document_pages(d) == merged_pages(buffer_views(pdfs@)),
        r matches Err(e) ==> match e {
            ImposeError::Create => true,
            ImposeError::Deserialization(i) => i < pdfs@.len(),
            ImposeError::Append(i) => pdfs@.len() > 1 && i < pdfs@.len(),
            _ => false,
        },
{
    let ghost inputs = buffer_views(pdfs@);
    let n = pdfs.len();
    assert(inputs.len() == n);
    if n == 0 {
        return match create_document(pdfium) {
            Ok(d) => Ok(d),
            Err(_) => Err(ImposeError::Create),
        };
    }
    let mut rest = pdfs;
    if n == 1 {
        let bytes = rest.remove(0);
        proof {
            assert(inputs.drop_last() =~= Seq::<Seq<u8>>::empty());
            assert(merged_pages(inputs.drop_last()) == Seq::<int>::empty());
            assert(inputs[0] == pdfs@[0]@);
            assert(merged_pages(inputs) =~= serialized_pages(inputs[0]));
        }
        return match load_document(pdfium, bytes) {
            Ok(d) => Ok(d),
            Err(_) => Err(ImposeError::Deserialization(0)),
        };
    }
    let mut docs: Vec<PdfDocument<'a>> = Vec::new();
    let mut i: usize = 0;
    while i < n
        invariant
            n == inputs.len(),
            n == pdfs@.len(),
            i <= n,
            rest@.len() == n - i,
            forall|k: int| 0 <= k < rest@.len() ==> #[trigger] rest@[k]@ == inputs[i + k],
            docs@.len() == i,
            forall|j: int| 0 <= j < i ==> document_pages(#[trigger] docs@[j]) == serialized_pages(inputs[j]),
        decreases n - i,
    {
        let ghost before = rest@;
        let bytes = rest.remove(0);
        proof {
            assert(before[0]@ == inputs[i + 0]);
        }
        match load_document(pdfium, bytes) {
            Ok(d) => docs.push(d),
            Err(_) => return Err(ImposeError::Deserialization(i)),
        }
        i += 1;
        proof {
            assert forall|k: int| 0 <= k < rest@.len() implies #[trigger] rest@[k]@ == inputs[i + k] by {
                assert(rest@[k] == before[k + 1]);
            }
        }
    }
    let mut merged = match create_document(pdfium) {
        Ok(d) => d,
        Err(_) => return Err(ImposeError::Create),
    };
    let mut j: usize = 0;
    while j < n
        invariant
            n == inputs.len(),
            n == pdfs@.len(),
            n > 1,
            j <= n,
            docs@.len() == n,
            forall|k: int| 0 <= k < n ==> document_pages(#[trigger] docs@[k]) == serialized_pages(inputs[k]),
            document_pages(merged) == merged_pages(inputs.take(j as int)),
        decreases n - j,
    {
        proof {
            lemma_merged_pages_step(inputs, j as int);
        }
        match append_document(&mut merged, &docs[j]) {
            Ok(()) => {},
            Err(_) => return Err(ImposeError::Append(j)),
        }
        j += 1;
    }
    proof {
        assert(inputs.take(n as int) =~= inputs);
    }
    Ok(merged)
}

/// The folded order of `n` pages: source positions taken alternately from
/// the front and the back, towards the middle. Folding needs at least two
/// pages.
pub fn mix_order(n: usize) -> (r: Result<Vec<usize>, ImposeError>)
    ensures
        n <= 1 <==> r is Err,
        r matches Err(e) ==> e == ImposeError::PreconditionViolation,
        r matches Ok(v) ==> v@.len() == n && forall|k: int| 0 <= k < n ==> v@[k] as int == mix_index(n as int, k),
{
    if n <= 1 {
        return Err(ImposeError::PreconditionViolation);
    }
    let mut order: Vec<usize> = Vec::new();
    let mut front: usize = 0;
    let mut back: usize = n - 1;
    loop
        invariant_except_break
            front <= back,
            front + back == n - 1,
            order@.len() == 2 * front,
        invariant
            n > 1,
            forall|k: int| 0 <= k < order@.len() ==> order@[k] as int == mix_index(n as int, k),
        ensures
            order@.len() == n,
        decreases back - front,
    {
        order.push(front);
        front += 1;
        if front > back {
            break;
        }
        order.push(back);
        back -= 1;
        if front > back {
            break;
        }
    }
    Ok(order)
}

/// A new document holding the pages of `pdf` in folded order: first, last,
/// second, second to last, and so on towards the middle.
pub fn mix_first_and_last<'a>(pdfium: &'a Pdfium, pdf: &PdfDocument<'a>) -> (r: Result<PdfDocument<'a>, ImposeError>)
    ensures
        document_pages(*pdf).len() <= 1 <==> r == Err::<PdfDocument<'a>, ImposeError>(ImposeError::PreconditionViolation),
        r matches Ok(d) ==> document_pages(d) == mixed(document_pages(*pdf)),
        r matches Err(e) ==> match e {
            ImposeError::Create => true,
            ImposeError::Copy(i) => i < document_pages(*pdf).len(),
            ImposeError::PreconditionViolation => true,
            _ => false,
        },
{
    let ghost source = document_pages(*pdf);
    let n = page_count(pdf);
    let order = match mix_order(n as usize) {
        Ok(order) => order,
        Err(e) => return Err(e),
    };
    let mut doc = match create_document(pdfium) {
        Ok(d) => d,
        Err(_) => return Err(ImposeError::Create),
    };
    let mut k: usize = 0;
    while k < order.len()
        invariant
            source == document_pages(*pdf),
            n as int == source.len(),
            n > 1,
            order@.len() == n,
            forall|m: int| 0 <= m < n ==> order@[m] as int == mix_index(n as int, m),
            k <= n,
            document_pages(doc) == mixed(source).take(k as int),
        decreases n - k,
    {
        let from = order[k];
        proof {
            assert(0 <= mix_index(n as int, k as int) < n);
            assert(mixed(source).take(k as int + 1) =~= mixed(source).take(k as int).insert(
                k as int,
                source[from as int],
            ));
        }
        match copy_page(&mut doc, pdf, from as i32, k as i32) {
            Ok(()) => {},
            Err(_) => return Err(ImposeError::Copy(from)),
        }
        k += 1;
    }
    proof {
        assert(mixed(source).take(n as int) =~= mixed(source));
    }
    Ok(doc)
}

/// Merging a single input gives its pages, in their order.
pub proof fn lemma_merge_single(a: Seq<u8>)
    ensures
        merged_pages(seq![a]) == serialized_pages(a),
{
    assert(seq![a].drop_last() =~= Seq::<Seq<u8>>::empty());
    assert(merged_pages(seq![a].drop_last()) == Seq::<int>::empty());
    assert(seq![a].last() == a);
    assert(merged_pages(seq![a]) =~= serialized_pages(a));
}

/// Merging three inputs gives what merging the first two gives, followed by
/// the pages of the third: no page of one input lands among those of another.
pub proof fn lemma_merge_concatenates(a: Seq<u8>, b: Seq<u8>, c: Seq<u8>)
    ensures
        merged_pages(seq![a, b, c]) == merged_pages(seq![a, b]) + serialized_pages(c),
{
    assert(seq![a, b, c].drop_last() =~= seq![a, b]);
}

/// Merging no input gives a document without pages.
pub proof fn lemma_merge_empty()
    ensures
        merged_pages(Seq::<Seq<u8>>::empty()).len() == 0,
{
}

/// Folding `n` pages labelled `0 .. n` gives `0, n - 1, 1, n - 2, 2, ...`:
/// label `j` at position `2 j` and label `n - 1 - j` at position `2 j + 1`,
/// and every label exactly once.
pub proof fn lemma_mix_interleave(n: nat)
    ensures
        ({
            let m = mixed(Seq::new(n, |i: int| i));
            &&& m.len() == n
            &&& forall|j: int| 0 <= j && 2 * j < n ==> #[trigger] m[2 * j] == j
            &&& forall|j: int| 0 <= j && 2 * j + 1 < n ==> #[trigger] m[2 * j + 1] == n - 1 - j
            &&& forall|k: int| 0 <= k < n ==> 0 <= #[trigger] m[k] < n
            &&& forall|k1: int, k2: int| 0 <= k1 < n && 0 <= k2 < n && k1 != k2 ==> #[trigger] m[k1] != #[trigger] m[k2]
        }),
{
    let m = mixed(Seq::new(n, |i: int| i));
    assert forall|j: int| 0 <= j && 2 * j < n implies #[trigger] m[2 * j] == j by {
        assert(mix_index(n as int, 2 * j) == j);
    }
    assert forall|j: int| 0 <= j && 2 * j + 1 < n implies #[trigger] m[2 * j + 1] == n - 1 - j by {
        assert(mix_index(n as int, 2 * j + 1) == n - 1 - j);
    }
}

/// The pages of a book before tiling: the inputs merged, then put in folded
/// order when that is asked for and there are at least two pages to fold.
pub open spec fn assembled_pages(inputs: Seq<Seq<u8>>, reorder: bool) -> Seq<int> {
    if reorder && merged_pages(inputs).len() > 1 {
        mixed(merged_pages(inputs))
    } else {
        merged_pages(inputs)
    }
}

/// Merges the rendered parts of a book and, if `reorder` is set, puts the
/// pages in folded order; a document of fewer than two pages is left as it
/// is, since there is nothing to fold.
pub fn merge_and_reorder<'a>(pdfium: &'a Pdfium, pdfs: Vec<Vec<u8>>, reorder: bool) -> (r: Result<PdfDocument<'a>, ImposeError>)
    ensures
        r matches Ok(d) ==> document_pages(d) == assembled_pages(buffer_views(pdfs@), reorder),
        r matches Err(e) ==> match e {
            ImposeError::Create => true,
            ImposeError::Deserialization(i) => i < pdfs@.len(),
            ImposeError::Append(i) => i < pdfs@.len(),
            ImposeError::Copy(i) => i < merged_pages(buffer_views(pdfs@)).len(),
            _ => false,
        },
{
    let merged = match merge_pdfs(pdfium, pdfs) {
        Ok(d) => d,
        Err(e) => return Err(e),
    };
    if !reorder || page_count(&merged) <= 1 {
        return Ok(merged);
    }
    mix_first_and_last(pdfium, &merged)
}

} // verus!
