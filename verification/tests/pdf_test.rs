use shusei::error::ShuseiError;
use shusei::pdf::{
    import_metadata, page_image_prefix, pdf_copy_file_name, title_or_stem, ConversionAction, ConversionPhase,
    ConversionProgress, ConversionStage, PdfConversion, PdfMetadata, PdfProcessor, ProgressStatus,
};
use std::cell::RefCell;

const THREE_PAGES: &[u8] = b"%PDF-1.4
1 0 obj
<< /Type /Catalog /Pages 2 0 R >>
endobj
2 0 obj
<< /Type /Pages /Kids [3 0 R 4 0 R 5 0 R] /Count 3 >>
endobj
3 0 obj
<< /Type /Page /Parent 2 0 R /MediaBox [0 0 612 792] >>
endobj
4 0 obj
<< /Type /Page /Parent 2 0 R /MediaBox [0 0 612 792] >>
endobj
5 0 obj
<< /Type /Page /Parent 2 0 R /MediaBox [0 0 612 792] >>
endobj
xref
0 6
0000000000 65535 f
0000000009 00000 n
0000000058 00000 n
0000000115 00000 n
0000000198 00000 n
0000000281 00000 n
trailer
<< /Size 6 /Root 1 0 R >>
startxref
364
%%EOF";

fn notify(stage: ConversionStage, current_page: u32, total_pages: u32) -> ConversionAction {
    ConversionAction::Notify(ConversionProgress { stage, current_page, total_pages })
}

fn render(start_page: u32) -> ConversionAction {
    ConversionAction::RenderBatch { start_page, batch_size: 10, width: 800, height: 1000 }
}

#[test]
fn test_processor_new() {
    assert!(PdfProcessor::new().is_ok(), "PdfProcessor::new() should succeed");
}

#[test]
fn three_page_pdf_is_read() {
    let processor = PdfProcessor::new().unwrap();
    let document = processor.open_bytes(THREE_PAGES.to_vec()).unwrap();
    assert_eq!(processor.page_count(&document), 3);
    let metadata = PdfMetadata::from_document(&document);
    assert_eq!(metadata.page_count, 3);
    assert_eq!(metadata.title, None);
    let imported = import_metadata(&document, Some("no_metadata".to_string()));
    assert_eq!(imported.title, Some("no_metadata".to_string()));
}

#[test]
fn unreadable_bytes_are_an_error() {
    let processor = PdfProcessor::new().unwrap();
    match processor.open_bytes(b"not a pdf".to_vec()) {
        Err(ShuseiError::Io(m)) => assert!(m.starts_with("Failed to load PDF: ")),
        _ => panic!("expected an error"),
    }
}

#[test]
fn batches_render_in_order_and_skip_failures() {
    let processor = PdfProcessor::new().unwrap();
    let document = processor.open_bytes(THREE_PAGES.to_vec()).unwrap();
    let attempts = RefCell::new(Vec::new());
    let render_page = |i: u32| {
        attempts.borrow_mut().push(i);
        if i == 1 {
            Err(ShuseiError::Internal("broken".to_string()))
        } else {
            Ok(vec![i as u8])
        }
    };
    let pages = processor.render_pages_batch(&document, 0, 10, &render_page).unwrap();
    assert_eq!(pages, vec![vec![0u8], vec![2u8]]);
    // The failing page is tried twice.
    assert_eq!(*attempts.borrow(), vec![0, 1, 1, 2]);
    let none = processor.render_pages_batch(&document, 3, 10, &render_page).unwrap();
    assert!(none.is_empty());
    let two = processor.render_pages_batch(&document, 1, 2, &|i: u32| Ok(vec![i as u8])).unwrap();
    assert_eq!(two, vec![vec![1u8], vec![2u8]]);
    let all = processor.render_pages_batch(&document, 0, 10, &|i: u32| Ok(vec![i as u8, 1])).unwrap();
    assert_eq!(all, vec![vec![0u8, 1], vec![1u8, 1], vec![2u8, 1]]);
}

#[test]
fn a_page_that_fails_once_is_retried() {
    let processor = PdfProcessor::new().unwrap();
    let calls = RefCell::new(0);
    let flaky = |_i: u32| {
        *calls.borrow_mut() += 1;
        if *calls.borrow() == 1 {
            Err(ShuseiError::Internal("once".to_string()))
        } else {
            Ok(vec![7u8])
        }
    };
    assert_eq!(processor.render_with_retry(&flaky, 0).unwrap(), vec![7u8]);
    assert_eq!(*calls.borrow(), 2);
}

#[test]
fn rendering_all_pages_reports_progress() {
    let processor = PdfProcessor::new().unwrap();
    let document = processor.open_bytes(THREE_PAGES.to_vec()).unwrap();
    let seen = RefCell::new(Vec::new());
    let images = processor
        .render_all_pages(&document, &|i: u32| Ok(vec![i as u8]), &|n: u32, t: u32| seen.borrow_mut().push((n, t)))
        .unwrap();
    assert_eq!(images.len(), 3);
    assert_eq!(*seen.borrow(), vec![(1, 3), (2, 3), (3, 3)]);
}

#[test]
fn conversion_of_a_large_book_runs_in_batches_of_ten() {
    let (mut conversion, actions) = PdfConversion::start(23);
    assert_eq!(
        actions,
        vec![ConversionAction::CreateProgress { total_pages: 23 }, notify(ConversionStage::Rendering, 0, 23), render(0)]
    );
    let actions = conversion.batch_rendered(10);
    assert_eq!(
        actions,
        vec![
            ConversionAction::StorePages { first_page: 0, count: 10 },
            ConversionAction::UpdateProgress { last_page: 10, status: ProgressStatus::Processing },
            render(10),
        ]
    );
    let actions = conversion.batch_rendered(10);
    assert_eq!(actions[2], render(20));
    let actions = conversion.batch_rendered(3);
    assert_eq!(
        actions,
        vec![
            ConversionAction::StorePages { first_page: 20, count: 3 },
            ConversionAction::UpdateProgress { last_page: 23, status: ProgressStatus::Processing },
            notify(ConversionStage::OcrProcessing, 0, 23),
            ConversionAction::RunOcr,
        ]
    );
    assert_eq!(conversion.current_phase(), ConversionPhase::Recognizing);
    for k in 1..=23 {
        assert_eq!(
            conversion.page_recognized(),
            vec![ConversionAction::StorePageText { page: k - 1 }, notify(ConversionStage::OcrProcessing, k, 23)]
        );
    }
    assert_eq!(
        conversion.ocr_finished(),
        vec![
            ConversionAction::UpdateProgress { last_page: 23, status: ProgressStatus::Completed },
            notify(ConversionStage::Complete, 23, 23),
            ConversionAction::Finish,
        ]
    );
    assert_eq!(conversion.current_phase(), ConversionPhase::Done);
}

#[test]
fn an_empty_batch_ends_rendering() {
    let (mut conversion, _) = PdfConversion::start(5);
    let actions = conversion.batch_rendered(0);
    assert_eq!(actions, vec![notify(ConversionStage::OcrProcessing, 0, 5), ConversionAction::RunOcr]);
    assert_eq!(conversion.rendered_pages(), 0);
}

#[test]
fn a_book_without_pages_goes_straight_to_recognition() {
    let (conversion, actions) = PdfConversion::start(0);
    assert_eq!(actions.len(), 4);
    assert_eq!(actions[3], ConversionAction::RunOcr);
    assert_eq!(conversion.total_pages(), 0);
}

#[test]
fn import_names_and_titles() {
    let name = pdf_copy_file_name();
    assert_eq!(name.len(), 40);
    assert!(name.ends_with(".pdf"));
    assert_eq!(&name[14..15], "4");
    assert_eq!(title_or_stem(Some("".to_string()), Some("file".to_string())), Some("file".to_string()));
    assert_eq!(title_or_stem(Some("Own".to_string()), Some("file".to_string())), Some("Own".to_string()));
    assert_eq!(title_or_stem(None, None), None);
    assert_eq!(page_image_prefix("42"), "pdf_pages/42");
    assert_eq!(ProgressStatus::Processing.as_str(), "processing");
    assert_eq!(ProgressStatus::Completed.as_str(), "completed");
    assert_eq!(ProgressStatus::Reading.as_str(), "reading");
}

#[test]
fn missing_pages_are_named() {
    let processor = PdfProcessor::new().unwrap();
    let document = processor.open_bytes(THREE_PAGES.to_vec()).unwrap();
    assert!(processor.check_page_index(&document, 2).is_ok());
    assert_eq!(processor.check_page_index(&document, 3), Err(ShuseiError::Io("Page 3 not found".to_string())));
}
