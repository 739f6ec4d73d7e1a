//! PDF books: reading a PDF's pages with hayro, rendering pages in batches,
//! and the bookkeeping of converting a PDF book into recognised pages.
//!
//! Rendering a page scales it by a float factor, so the caller renders;
//! the library decides which pages are rendered, retried, kept and stored,
//! and in which order the conversion reports its progress.
use vstd::prelude::*;
use hayro::hayro_syntax::{LoadPdfError, Pdf};
use crate::error::ShuseiError;
use crate::text::{decimal, push_str, push_unsigned};

verus! {

#[verifier::external_type_specification]
#[verifier::external_body]
pub struct ExPdf(Pdf);

#[verifier::external_type_specification]
#[verifier::external_body]
pub struct ExLoadPdfError(LoadPdfError);

/// Whether hayro reads the bytes as a PDF file (`Pdf::new` succeeds).
pub uninterp spec fn pdf_loads(data: Seq<u8>) -> bool;

/// The number of pages hayro finds in a PDF file's bytes.
pub uninterp spec fn pdf_page_count(data: Seq<u8>) -> nat;

/// `Pdf::new`: reads the bytes of a PDF file. Success is named by
/// `pdf_loads` of the bytes, which is all the contract says.
#[verifier::external_body]
fn load_pdf(data: &Vec<u8>) -> (r: Result<Pdf, LoadPdfError>)
    ensures
        r is Ok <==> pdf_loads(data@),
{
    Pdf::new(std::sync::Arc::new(data.clone()))
}

/// The `Debug` text of a load error of hayro. Nothing is stated of it.
#[verifier::external_body]
fn describe_load_error(e: &LoadPdfError) -> (s: String) {
    format!("{:?}", e)
}

/// `Pdf::pages().len()` of the document: the page count of the bytes the
/// document was read from. The document's fields are private and only
/// `PdfProcessor::open_bytes` builds one, from those very bytes.
#[verifier::external_body]
fn document_page_count(document: &PdfDocument) -> (n: usize)
    ensures
        n == pdf_page_count(document.bytes()),
{
    document.pdf.pages().len()
}

/// A PDF file read by hayro, with its bytes.
pub struct PdfDocument {
    pdf: Pdf,
    data: Vec<u8>,
}

impl PdfDocument {
    /// The bytes of the file.
    pub closed spec fn bytes(&self) -> Seq<u8> {
        self.data@
    }

    /// The bytes of the file.
    pub fn data(&self) -> (d: &Vec<u8>)
        ensures
            d@ == self.bytes(),
    {
        &self.data
    }

    /// The hayro document that was read from the bytes.
    pub closed spec fn document(&self) -> Pdf {
        self.pdf
    }

    /// The hayro document, for rendering.
    pub fn pdf(&self) -> (p: &Pdf)
        ensures
            *p == self.document(),
    {
        &self.pdf
    }
}

/// The pages of a batch: from `start` up to `start + batch` or the last
/// page, whichever comes first.
pub open spec fn batch_end(start: nat, batch: nat, total: nat) -> nat {
    if start + batch <= total {
        start + batch
    } else {
        total
    }
}

/// Reads PDF files and renders their pages.
pub struct PdfProcessor {}

impl PdfProcessor {
    /// A processor.
    pub fn new() -> (r: Result<PdfProcessor, ShuseiError>)
        ensures
            r is Ok,
    {
        Ok(PdfProcessor {})
    }

    /// Reads a PDF file from its bytes; a file hayro cannot read is an
    /// I/O error whose message starts with `Failed to load PDF: `.
    pub fn open_bytes(&self, data: Vec<u8>) -> (r: Result<PdfDocument, ShuseiError>)
        ensures
            r is Ok <==> pdf_loads(data@),
            r matches Ok(d) ==> d.bytes() == data@,
            r matches Err(e) ==> e matches ShuseiError::Io(m) && m@.len() >= 20
                && m@.subrange(0, 20) == "Failed to load PDF: "@,
    {
        match load_pdf(&data) {
            Ok(pdf) => Ok(PdfDocument { pdf, data }),
            Err(e) => {
                let mut m = String::from_str("Failed to load PDF: ");
                let d = describe_load_error(&e);
                let ghost head = m@;
                proof {
                    reveal_strlit("Failed to load PDF: ");
                }
                push_str(&mut m, d.as_str());
                assert(m@.subrange(0, 20) =~= head);
                Err(ShuseiError::Io(m))
            },
        }
    }

    /// The number of pages of a document.
    pub fn page_count(&self, document: &PdfDocument) -> (n: usize)
        ensures
            n == pdf_page_count(document.bytes()),
    {
        document_page_count(document)
    }

    /// Whether a document has the page; a missing page is an I/O error
    /// naming it.
    pub fn check_page_index(&self, document: &PdfDocument, page_index: u32) -> (r: Result<(), ShuseiError>)
        ensures
            r is Ok <==> page_index < pdf_page_count(document.bytes()),
            r matches Err(e) ==> e matches ShuseiError::Io(m) && m@ == "Page "@ + decimal(page_index as int)
                + " not found"@,
    {
        if (page_index as usize) < document_page_count(document) {
            Ok(())
        } else {
            let mut m = String::from_str("Page ");
            push_unsigned(&mut m, page_index as u64);
            push_str(&mut m, " not found");
            Err(ShuseiError::Io(m))
        }
    }

    /// Renders a page, and once more if the first attempt fails; the second
    /// attempt's result stands, so an error comes only after a first attempt
    /// failed too.
    pub fn render_with_retry<F: Fn(u32) -> Result<Vec<u8>, ShuseiError>>(
        &self,
        render_page: &F,
        page_index: u32,
    ) -> (r: Result<Vec<u8>, ShuseiError>)
        requires
            render_page.requires((page_index,)),
        ensures
            render_page.ensures((page_index,), r),
            r is Err ==> exists|first: ShuseiError|
                render_page.ensures((page_index,), Err::<Vec<u8>, ShuseiError>(first)),
    {
        match render_page(page_index) {
            Ok(image) => Ok(image),
            Err(first) => {
                let second = render_page(page_index);
                assert(render_page.ensures((page_index,), Err::<Vec<u8>, ShuseiError>(first)));
                second
            },
        }
    }

    /// Renders every page of a document in order, reporting `(n, total)`
    /// before the `n`-th page; the first page that fails twice ends the
    /// rendering with its error.
    pub fn render_all_pages<F: Fn(u32) -> Result<Vec<u8>, ShuseiError>, P: Fn(u32, u32)>(
        &self,
        document: &PdfDocument,
        render_page: &F,
        progress_callback: &P,
    ) -> (r: Result<Vec<Vec<u8>>, ShuseiError>)
        requires
            forall|i: u32| render_page.requires((i,)),
            forall|n: u32, t: u32| progress_callback.requires((n, t)),
        ensures
            r matches Ok(images) ==> images@.len() == pdf_page_count(document.bytes()) as u32 && forall|i: int|
                0 <= i < images@.len() ==> render_page.ensures((i as u32,), Ok::<Vec<u8>, ShuseiError>(
                    #[trigger] images@[i],
                )),
            r matches Err(e) ==> exists|i: u32|
                i < pdf_page_count(document.bytes()) as u32 && render_page.ensures(
                    (i,),
                    Err::<Vec<u8>, ShuseiError>(e),
                ),
    {
        let total = self.page_count(document) as u32;
        let mut images: Vec<Vec<u8>> = Vec::new();
        let mut i: u32 = 0;
        while i < total
            invariant
                total == pdf_page_count(document.bytes()) as u32,
                i <= total,
                images@.len() == i,
                forall|i: u32| render_page.requires((i,)),
                forall|n: u32, t: u32| progress_callback.requires((n, t)),
                forall|k: int|
                    0 <= k < images@.len() ==> render_page.ensures((k as u32,), Ok::<Vec<u8>, ShuseiError>(
                        #[trigger] images@[k],
                    )),
            decreases total - i,
        {
            progress_callback(i + 1, total);
            match self.render_with_retry(render_page, i) {
                Ok(image) => images.push(image),
                Err(e) => {
                    return Err(e);
                },
            }
            i = i + 1;
        }
        Ok(images)
    }

    /// Renders the pages of a batch, in order, each with one retry; a page
    /// that fails twice is left out, and every other page of the batch is
    /// there. A batch that starts at or past the last page is empty. It
    /// never fails.
    pub fn render_pages_batch<F: Fn(u32) -> Result<Vec<u8>, ShuseiError>>(
        &self,
        document: &PdfDocument,
        start_page: u32,
        batch_size: usize,
        render_page: &F,
    ) -> (r: Result<Vec<Vec<u8>>, ShuseiError>)
        requires
            forall|i: u32| render_page.requires((i,)),
            start_page + batch_size <= usize::MAX,
        ensures
            r matches Ok(images) && {
                let end = batch_end(start_page as nat, batch_size as nat, pdf_page_count(document.bytes()));
                &&& images@.len() + start_page <= end || (images@.len() == 0 && end <= start_page)
                &&& exists|pages: Seq<int>|
                    #![trigger pages.len()]
                    pages.len() == images@.len() && (forall|k: int|
                        0 <= k < pages.len() ==> start_page <= #[trigger] pages[k] < end
                            && render_page.ensures((pages[k] as u32,), Ok::<Vec<u8>, ShuseiError>(images@[k])))
                        && (forall|k: int| 0 < k < pages.len() ==> pages[k - 1] < #[trigger] pages[k])
                        && (forall|j: int|
                        start_page <= j < end && !(#[trigger] pages.contains(j)) ==> exists|e: ShuseiError|
                            render_page.ensures((j as u32,), Err::<Vec<u8>, ShuseiError>(e)))
            },
    {
        let total = self.page_count(document);
        let start = start_page as usize;
        let end = if start + batch_size <= total { start + batch_size } else { total };
        let mut images: Vec<Vec<u8>> = Vec::new();
        if start >= end {
            assert(Seq::<int>::empty().len() == images@.len());
            return Ok(images);
        }
        let ghost mut pages: Seq<int> = Seq::empty();
        let mut i: usize = start;
        while i < end
            invariant
                start <= i <= end <= total,
                total == pdf_page_count(document.bytes()),
                end == batch_end(start_page as nat, batch_size as nat, total as nat),
                start == start_page,
                forall|i: u32| render_page.requires((i,)),
                pages.len() == images@.len(),
                images@.len() <= i - start,
                forall|k: int|
                    0 <= k < pages.len() ==> start_page <= #[trigger] pages[k] < i
                        && render_page.ensures((pages[k] as u32,), Ok::<Vec<u8>, ShuseiError>(images@[k])),
                forall|k: int| 0 < k < pages.len() ==> pages[k - 1] < #[trigger] pages[k],
                forall|j: int|
                    start_page <= j < i && !(#[trigger] pages.contains(j)) ==> exists|e: ShuseiError|
                        render_page.ensures((j as u32,), Err::<Vec<u8>, ShuseiError>(e)),
            decreases end - i,
        {
            let page_index = i as u32;
            match self.render_with_retry(render_page, page_index) {
                Ok(image) => {
                    proof {
                        let before = pages;
                        pages = pages.push(i as int);
                        assert(pages[pages.len() - 1] == i as int);
                        assert forall|j: int| before.contains(j) implies #[trigger] pages.contains(j) by {
                            let k = choose|k: int| 0 <= k < before.len() && before[k] == j;
                            assert(pages[k] == j);
                        }
                    }
                    images.push(image);
                },
                Err(e) => {
                    assert(render_page.ensures((page_index,), Err::<Vec<u8>, ShuseiError>(e)));
                },
            }
            i = i + 1;
        }
        assert(pages.len() == images@.len());
        Ok(images)
    }
}

/// What a PDF file says of itself. Only the page count is read.
#[derive(Debug, Clone)]
pub struct PdfMetadata {
    pub title: Option<String>,
    pub author: Option<String>,
    pub subject: Option<String>,
    pub creator: Option<String>,
    pub producer: Option<String>,
    pub page_count: u32,
}

impl PdfMetadata {
    /// The metadata of a document: its page count and nothing else.
    pub fn from_document(document: &PdfDocument) -> (m: PdfMetadata)
        ensures
            m.title is None,
            m.author is None,
            m.subject is None,
            m.creator is None,
            m.producer is None,
            m.page_count == pdf_page_count(document.bytes()) as u32,
    {
        PdfMetadata {
            title: None,
            author: None,
            subject: None,
            creator: None,
            producer: None,
            page_count: document_page_count(document) as u32,
        }
    }
}

/// The title an imported PDF gets: its own when it has a nonempty one,
/// else the file's name without its extension.
pub open spec fn import_title(title: Option<String>, file_stem: Option<String>) -> Option<String> {
    match title {
        Some(t) if t@.len() > 0 => Some(t),
        _ => file_stem,
    }
}

/// The metadata of an imported PDF: that of the document, with the file's
/// stem as the title where the document has none.
pub fn import_metadata(document: &PdfDocument, file_stem: Option<String>) -> (m: PdfMetadata)
    ensures
        m.title == import_title(None, file_stem),
        m.author is None,
        m.page_count == pdf_page_count(document.bytes()) as u32,
{
    let mut metadata = PdfMetadata::from_document(document);
    metadata.title = title_or_stem(metadata.title, file_stem);
    metadata
}

/// The title, or the file's stem where the title is missing or empty.
pub fn title_or_stem(title: Option<String>, file_stem: Option<String>) -> (t: Option<String>)
    ensures
        t == import_title(title, file_stem),
{
    match title {
        Some(t) => {
            if t.as_str().is_empty() {
                file_stem
            } else {
                Some(t)
            }
        },
        None => file_stem,
    }
}

/// The name under which an imported PDF is copied: a fresh UUID and `.pdf`.
pub fn pdf_copy_file_name() -> (name: String)
    ensures
        exists|u: Seq<char>| crate::storage::is_uuid_v4_text(u) && name@ == u + ".pdf"@,
{
    let u = crate::storage::new_uuid();
    let mut name = u.clone();
    let ghost uv = u@;
    assert(name@ == uv);
    push_str(&mut name, ".pdf");
    name
}

/// The stage a conversion reports.
#[derive(Debug, Clone, Copy, PartialEq, Eq, Structural)]
pub enum ConversionStage {
    Rendering,
    OcrProcessing,
    Complete,
}

/// The progress a conversion reports.
#[derive(Debug, Clone, Copy, PartialEq, Eq, Structural)]
pub struct ConversionProgress {
    pub stage: ConversionStage,
    pub current_page: u32,
    pub total_pages: u32,
}

/// The status written with the progress record of a book.
#[derive(Debug, Clone, Copy, PartialEq, Eq, Structural)]
pub enum ProgressStatus {
    /// Pages are being rendered.
    Processing,
    /// The conversion is done.
    Completed,
    /// The reader is reading the book; the page is where reading stands.
    Reading,
}

impl ProgressStatus {
    /// The status as the database stores it.
    pub fn as_str(&self) -> (s: &'static str)
        ensures
            s@ == match *self {
                ProgressStatus::Processing => "processing"@,
                ProgressStatus::Completed => "completed"@,
                ProgressStatus::Reading => "reading"@,
            },
    {
        match self {
            ProgressStatus::Processing => "processing",
            ProgressStatus::Completed => "completed",
            ProgressStatus::Reading => "reading",
        }
    }
}

/// How many pages a conversion renders at a time.
pub const CONVERSION_BATCH_SIZE: usize = 10;

/// The width pages are rendered at.
pub const RENDER_WIDTH: u32 = 800;

/// The height pages are rendered at.
pub const RENDER_HEIGHT: u32 = 1000;

/// What the application does next for a conversion.
#[derive(Debug, Clone, Copy, PartialEq, Eq, Structural)]
pub enum ConversionAction {
    /// Create the book's progress record for this many pages.
    CreateProgress { total_pages: i32 },
    /// Report progress to the caller.
    Notify(ConversionProgress),
    /// Render a batch of pages (`PdfProcessor::render_pages_batch`) and
    /// report how many images came back.
    RenderBatch { start_page: u32, batch_size: usize, width: u32, height: u32 },
    /// Store the images just rendered under the book's page prefix, as the
    /// pages numbered from `first_page` on.
    StorePages { first_page: u32, count: u32 },
    /// Write the book's progress record.
    UpdateProgress { last_page: i32, status: ProgressStatus },
    /// Recognise every stored page, in order, reporting each page as it is
    /// done and the end of recognition.
    RunOcr,
    /// Store the recognised text of the stored page at this position (the
    /// pages are recognised in order from 0) as the book's page.
    StorePageText { page: u32 },
    /// The conversion is over.
    Finish,
}

/// Where a conversion stands.
#[derive(Debug, Clone, Copy, PartialEq, Eq, Structural)]
pub enum ConversionPhase {
    /// Pages are being rendered.
    Rendering,
    /// Rendered pages are being recognised.
    Recognizing,
    /// The conversion is over.
    Done,
}

/// The decisions of converting a PDF book: rendering its pages in batches,
/// storing them, recognising them, and recording and reporting progress.
/// The application performs each action and reports back.
pub struct PdfConversion {
    total: u32,
    rendered: u32,
    recognized: u32,
    phase: ConversionPhase,
}

/// The actions that follow once `rendered` of `total` pages are rendered:
/// the next batch while pages remain, else the start of recognition.
pub open spec fn after_rendering(total: u32, rendered: u32) -> Seq<ConversionAction> {
    if rendered < total {
        seq![
            ConversionAction::RenderBatch {
                start_page: rendered,
                batch_size: CONVERSION_BATCH_SIZE,
                width: RENDER_WIDTH,
                height: RENDER_HEIGHT,
            },
        ]
    } else {
        seq![
            ConversionAction::Notify(
                ConversionProgress { stage: ConversionStage::OcrProcessing, current_page: 0, total_pages: total },
            ),
            ConversionAction::RunOcr,
        ]
    }
}

/// The phase once `rendered` of `total` pages are rendered.
pub open spec fn phase_after_rendering(total: u32, rendered: u32) -> ConversionPhase {
    if rendered < total {
        ConversionPhase::Rendering
    } else {
        ConversionPhase::Recognizing
    }
}

impl PdfConversion {
    /// The number of pages the conversion renders.
    pub closed spec fn total(&self) -> u32 {
        self.total
    }

    /// The number of pages rendered and stored.
    pub closed spec fn rendered(&self) -> u32 {
        self.rendered
    }

    /// The number of pages recognised.
    pub closed spec fn recognized(&self) -> u32 {
        self.recognized
    }

    /// Where the conversion stands.
    pub closed spec fn phase(&self) -> ConversionPhase {
        self.phase
    }

    /// No more pages are rendered than the document has, no more recognised
    /// than rendered, and none before rendering ends.
    pub open spec fn wf(&self) -> bool {
        &&& self.rendered() <= self.total()
        &&& self.recognized() <= self.rendered()
        &&& self.phase() == ConversionPhase::Rendering ==> self.recognized() == 0 && self.rendered()
            < self.total()
    }

    fn continue_rendering(&mut self) -> (actions: Vec<ConversionAction>)
        requires
            old(self).rendered() <= old(self).total(),
            old(self).recognized() == 0,
        ensures
            actions@ == after_rendering(old(self).total(), old(self).rendered()),
            final(self).phase() == phase_after_rendering(old(self).total(), old(self).rendered()),
            final(self).total() == old(self).total(),
            final(self).rendered() == old(self).rendered(),
            final(self).recognized() == 0,
            final(self).wf(),
    {
        if self.rendered < self.total {
            self.phase = ConversionPhase::Rendering;
            vec![
                ConversionAction::RenderBatch {
                    start_page: self.rendered,
                    batch_size: CONVERSION_BATCH_SIZE,
                    width: RENDER_WIDTH,
                    height: RENDER_HEIGHT,
                },
            ]
        } else {
            self.phase = ConversionPhase::Recognizing;
            vec![
                ConversionAction::Notify(
                    ConversionProgress {
                        stage: ConversionStage::OcrProcessing,
                        current_page: 0,
                        total_pages: self.total,
                    },
                ),
                ConversionAction::RunOcr,
            ]
        }
    }

    /// Starts converting a document of `total_pages` pages: create the
    /// progress record, report the start of rendering at page 0, then render
    /// the first batch (or, for a document without pages, start
    /// recognition).
    pub fn start(total_pages: usize) -> (r: (PdfConversion, Vec<ConversionAction>))
        ensures
            r.0.wf(),
            r.0.total() == total_pages as u32,
            r.0.rendered() == 0,
            r.0.recognized() == 0,
            r.0.phase() == phase_after_rendering(total_pages as u32, 0),
            r.1@ == seq![
                ConversionAction::CreateProgress { total_pages: total_pages as i32 },
                ConversionAction::Notify(
                    ConversionProgress {
                        stage: ConversionStage::Rendering,
                        current_page: 0,
                        total_pages: total_pages as u32,
                    },
                ),
            ] + after_rendering(total_pages as u32, 0),
    {
        let total = total_pages as u32;
        let mut conversion = PdfConversion {
            total,
            rendered: 0,
            recognized: 0,
            phase: ConversionPhase::Rendering,
        };
        let mut actions = vec![
            ConversionAction::CreateProgress { total_pages: total_pages as i32 },
            ConversionAction::Notify(
                ConversionProgress { stage: ConversionStage::Rendering, current_page: 0, total_pages: total },
            ),
        ];
        let mut next = conversion.continue_rendering();
        actions.append(&mut next);
        (conversion, actions)
    }

    /// A batch came back with `count` images. An empty batch ends
    /// rendering; otherwise the images are stored as the next pages, the
    /// progress record moves to the pages rendered so far, and the next
    /// batch follows (or recognition starts, once every page is rendered).
    pub fn batch_rendered(&mut self, count: usize) -> (actions: Vec<ConversionAction>)
        requires
            old(self).wf(),
            old(self).phase() == ConversionPhase::Rendering,
            count <= old(self).total() - old(self).rendered(),
        ensures
            final(self).wf(),
            final(self).total() == old(self).total(),
            final(self).recognized() == 0,
            count == 0 ==> {
                &&& final(self).rendered() == old(self).rendered()
                &&& final(self).phase() == ConversionPhase::Recognizing
                &&& actions@ == seq![
                    ConversionAction::Notify(
                        ConversionProgress {
                            stage: ConversionStage::OcrProcessing,
                            current_page: 0,
                            total_pages: old(self).total(),
                        },
                    ),
                    ConversionAction::RunOcr,
                ]
            },
            count > 0 ==> {
                &&& final(self).rendered() == old(self).rendered() + count
                &&& final(self).phase() == phase_after_rendering(final(self).total(), final(self).rendered())
                &&& actions@ == seq![
                    ConversionAction::StorePages { first_page: old(self).rendered(), count: count as u32 },
                    ConversionAction::UpdateProgress {
                        last_page: final(self).rendered() as i32,
                        status: ProgressStatus::Processing,
                    },
                ] + after_rendering(final(self).total(), final(self).rendered())
            },
    {
        if count == 0 {
            self.phase = ConversionPhase::Recognizing;
            return vec![
                ConversionAction::Notify(
                    ConversionProgress {
                        stage: ConversionStage::OcrProcessing,
                        current_page: 0,
                        total_pages: self.total,
                    },
                ),
                ConversionAction::RunOcr,
            ];
        }
        let first = self.rendered;
        let added = count as u32;
        self.rendered = self.rendered + added;
        let mut actions = vec![
            ConversionAction::StorePages { first_page: first, count: added },
            ConversionAction::UpdateProgress {
                last_page: self.rendered as i32,
                status: ProgressStatus::Processing,
            },
        ];
        let mut next = self.continue_rendering();
        actions.append(&mut next);
        actions
    }

    /// A page was recognised: store its text as the next page in order,
    /// and report how many pages are done so far.
    pub fn page_recognized(&mut self) -> (actions: Vec<ConversionAction>)
        requires
            old(self).wf(),
            old(self).phase() == ConversionPhase::Recognizing,
            old(self).recognized() < old(self).rendered(),
        ensures
            final(self).wf(),
            final(self).phase() == ConversionPhase::Recognizing,
            final(self).total() == old(self).total(),
            final(self).rendered() == old(self).rendered(),
            final(self).recognized() == old(self).recognized() + 1,
            actions@ == seq![
                ConversionAction::StorePageText { page: old(self).recognized() },
                ConversionAction::Notify(
                    ConversionProgress {
                        stage: ConversionStage::OcrProcessing,
                        current_page: final(self).recognized(),
                        total_pages: old(self).total(),
                    },
                ),
            ],
    {
        let page = self.recognized;
        self.recognized = self.recognized + 1;
        vec![
            ConversionAction::StorePageText { page },
            ConversionAction::Notify(
                ConversionProgress {
                    stage: ConversionStage::OcrProcessing,
                    current_page: self.recognized,
                    total_pages: self.total,
                },
            ),
        ]
    }

    /// Recognition is over: mark the progress record completed at the total,
    /// report completion with every page done, and finish.
    pub fn ocr_finished(&mut self) -> (actions: Vec<ConversionAction>)
        requires
            old(self).wf(),
            old(self).phase() == ConversionPhase::Recognizing,
        ensures
            final(self).wf(),
            final(self).phase() == ConversionPhase::Done,
            final(self).total() == old(self).total(),
            final(self).rendered() == old(self).rendered(),
            final(self).recognized() == old(self).recognized(),
            actions@ == seq![
                ConversionAction::UpdateProgress {
                    last_page: old(self).total() as i32,
                    status: ProgressStatus::Completed,
                },
                ConversionAction::Notify(
                    ConversionProgress {
                        stage: ConversionStage::Complete,
                        current_page: old(self).total(),
                        total_pages: old(self).total(),
                    },
                ),
                ConversionAction::Finish,
            ],
    {
        self.phase = ConversionPhase::Done;
        vec![
            ConversionAction::UpdateProgress {
                last_page: self.total as i32,
                status: ProgressStatus::Completed,
            },
            ConversionAction::Notify(
                ConversionProgress {
                    stage: ConversionStage::Complete,
                    current_page: self.total,
                    total_pages: self.total,
                },
            ),
            ConversionAction::Finish,
        ]
    }

    /// The number of pages the conversion renders.
    pub fn total_pages(&self) -> (n: u32)
        ensures
            n == self.total(),
    {
        self.total
    }

    /// The number of pages rendered and stored.
    pub fn rendered_pages(&self) -> (n: u32)
        ensures
            n == self.rendered(),
    {
        self.rendered
    }

    /// Where the conversion stands.
    pub fn current_phase(&self) -> (p: ConversionPhase)
        ensures
            p == self.phase(),
    {
        self.phase
    }
}

/// The storage prefix of a book's rendered pages: `pdf_pages/<book id>`.
pub fn page_image_prefix(book_id: &str) -> (p: String)
    ensures
        p@ == "pdf_pages/"@ + book_id@,
{
    let mut p = String::from_str("pdf_pages/");
    push_str(&mut p, book_id);
    p
}

} // verus!
