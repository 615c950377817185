//! The page-addressable document model and its per-page decisions.

use tbook::layout::{ImageData, PageContent};
use tbook::pages::PdfParser;

#[test]
fn pdf_metadata_uses_trailing_filename() {
    let p = PdfParser::new("books/report.pdf".to_string(), 3);
    assert_eq!(p.get_metadata(), ("report.pdf".to_string(), "PDF Document".to_string()));
}

#[test]
fn pdf_metadata_placeholder_without_filename() {
    let p = PdfParser::new("books/".to_string(), 1);
    assert_eq!(p.get_metadata().0, "Unknown PDF");
}

#[test]
fn pdf_toc_numbers_pages() {
    let p = PdfParser::new("a.pdf".to_string(), 3);
    assert_eq!(
        p.get_toc(),
        vec!["Page 1".to_string(), "Page 2".to_string(), "Page 3".to_string()]
    );
    assert_eq!(p.get_chapter_count(), 3);
}

#[test]
fn page_with_text_stays_text() {
    let items = PdfParser::page_items("Some layout text".to_string(), None);
    assert_eq!(items.len(), 1);
    match &items[0] {
        PageContent::Text(s) => assert_eq!(s, "Some layout text"),
        PageContent::Image(_) => panic!("expected text"),
    }
}

#[test]
fn blank_page_falls_back_to_raster_image() {
    let items = PdfParser::page_items(
        " \n\t ".to_string(),
        Some(ImageData { width: 640, height: 480, bytes: vec![9] }),
    );
    assert_eq!(items.len(), 1);
    match &items[0] {
        PageContent::Image(img) => {
            assert_eq!((img.width, img.height), (640, 480));
            assert_eq!(img.bytes, vec![9]);
        }
        PageContent::Text(_) => panic!("expected the rasterized image"),
    }
}

#[test]
fn blank_page_without_raster_degrades_to_placeholder() {
    let items = PdfParser::page_items("   ".to_string(), None);
    assert_eq!(items.len(), 1);
    match &items[0] {
        PageContent::Text(s) => assert_eq!(s, " [ Blank Page or Text Not Extractable ] "),
        PageContent::Image(_) => panic!("expected the placeholder"),
    }
}
