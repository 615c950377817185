//! The markup extractor: image-tag scanning, the resource fallback chain,
//! reflowing, degradation, and cover retrieval.

use tbook::layout::{PageContent, RenderLine};
use tbook::markup::{decode_image, EpubParser, ExtractError, ResourceEntry};

/// A 1x1 transparent PNG.
fn tiny_png() -> Vec<u8> {
    vec![
        0x89, 0x50, 0x4E, 0x47, 0x0D, 0x0A, 0x1A, 0x0A, 0x00, 0x00, 0x00, 0x0D, 0x49, 0x48,
        0x44, 0x52, 0x00, 0x00, 0x00, 0x01, 0x00, 0x00, 0x00, 0x01, 0x08, 0x06, 0x00, 0x00,
        0x00, 0x1F, 0x15, 0xC4, 0x89, 0x00, 0x00, 0x00, 0x0A, 0x49, 0x44, 0x41, 0x54, 0x78,
        0x9C, 0x63, 0x00, 0x01, 0x00, 0x00, 0x05, 0x00, 0x01, 0x0D, 0x0A, 0x2D, 0xB4, 0x00,
        0x00, 0x00, 0x00, 0x49, 0x45, 0x4E, 0x44, 0xAE, 0x42, 0x60, 0x82,
    ]
}

/// A 2x1 24-bit BMP.
fn tiny_bmp() -> Vec<u8> {
    let mut v = vec![
        0x42, 0x4D, // BM
        0x3E, 0x00, 0x00, 0x00, // file size 62
        0x00, 0x00, 0x00, 0x00, // reserved
        0x36, 0x00, 0x00, 0x00, // data offset 54
        0x28, 0x00, 0x00, 0x00, // info header size 40
        0x02, 0x00, 0x00, 0x00, // width 2
        0x01, 0x00, 0x00, 0x00, // height 1
        0x01, 0x00, // planes
        0x18, 0x00, // 24 bits per pixel
        0x00, 0x00, 0x00, 0x00, // no compression
        0x08, 0x00, 0x00, 0x00, // image size 8
        0x00, 0x00, 0x00, 0x00, // x pixels per metre
        0x00, 0x00, 0x00, 0x00, // y pixels per metre
        0x00, 0x00, 0x00, 0x00, // colours used
        0x00, 0x00, 0x00, 0x00, // important colours
    ];
    v.extend_from_slice(&[0xFF, 0xFF, 0xFF, 0x00, 0x00, 0xFF, 0x00, 0x00]);
    v
}

fn parser_with(chapters: Vec<&str>, resources: Vec<ResourceEntry>) -> EpubParser {
    EpubParser {
        title: Some("A Title".to_string()),
        author: Some("An Author".to_string()),
        chapters: chapters.into_iter().map(|c| c.to_string()).collect(),
        resources,
        toc: vec![],
        cover_id: None,
    }
}

fn resource(id: &str, path: &str, mime: &str, bytes: Vec<u8>) -> ResourceEntry {
    ResourceEntry {
        id: id.to_string(),
        path: path.to_string(),
        mime: mime.to_string(),
        bytes,
    }
}

fn texts(items: &[PageContent]) -> Vec<String> {
    items
        .iter()
        .map(|i| match i {
            PageContent::Text(s) => format!("T:{}", s),
            PageContent::Image(img) => format!("I:{}x{}", img.width, img.height),
        })
        .collect()
}

#[test]
fn decode_image_reads_dimensions() {
    let img = decode_image(tiny_png()).expect("png should decode");
    assert_eq!((img.width, img.height), (1, 1));
    assert_eq!(img.bytes, tiny_png());
    let img = decode_image(tiny_bmp()).expect("bmp should decode");
    assert_eq!((img.width, img.height), (2, 1));
}

#[test]
fn decode_image_rejects_garbage() {
    assert!(decode_image(vec![1, 2, 3, 4]).is_none());
}

#[test]
fn chapter_out_of_bounds_is_the_only_error() {
    let p = parser_with(vec!["<p>x</p>"], vec![]);
    assert!(matches!(p.get_chapter_content(1), Err(ExtractError::ChapterOutOfBounds)));
    assert!(p.get_chapter_content(0).is_ok());
}

#[test]
fn empty_markup_degrades_to_placeholder() {
    let p = parser_with(vec![""], vec![]);
    let items = p.get_chapter_content(0).unwrap();
    assert_eq!(texts(&items), vec!["T: [ No content in this chapter ] "]);
}

#[test]
fn blank_reflow_degrades_to_placeholder() {
    let p = parser_with(vec!["<p>   </p>"], vec![]);
    let items = p.get_chapter_content(0).unwrap();
    assert_eq!(texts(&items), vec!["T: [ Chapter contains no renderable text ] "]);
}

#[test]
fn plain_markup_is_reflowed() {
    let p = parser_with(vec!["<p>Hello world</p>"], vec![]);
    let items = p.get_chapter_content(0).unwrap();
    assert_eq!(texts(&items), vec!["T:Hello world\n"]);
}

#[test]
fn image_resolved_by_archive_path() {
    let p = parser_with(
        vec![r#"<p>Intro</p><img src="epub://OEBPS/pic.png#frag"/><p>Outro</p>"#],
        vec![resource("img1", "OEBPS/pic.png", "image/png", tiny_png())],
    );
    let items = p.get_chapter_content(0).unwrap();
    assert_eq!(texts(&items), vec!["T:Intro\n", "I:1x1", "T:Outro\n"]);
}

#[test]
fn image_resolved_by_manifest_id() {
    let p = parser_with(
        vec![r#"<img alt="x" src="img1">"#],
        vec![resource("img1", "OEBPS/pic.png", "image/png", tiny_png())],
    );
    let items = p.get_chapter_content(0).unwrap();
    assert_eq!(texts(&items), vec!["I:1x1"]);
}

#[test]
fn image_resolved_by_trailing_filename() {
    let p = parser_with(
        vec![r#"<img src="../images/pic.png">"#],
        vec![resource("img1", "OEBPS/images/pic.png", "image/png", tiny_png())],
    );
    let items = p.get_chapter_content(0).unwrap();
    assert_eq!(texts(&items), vec!["I:1x1"]);
}

#[test]
fn svg_image_href_is_recognised() {
    let p = parser_with(
        vec![r#"<image xlink:href="epub://OEBPS/pic.png"></image>"#],
        vec![resource("img1", "OEBPS/pic.png", "image/png", tiny_png())],
    );
    let items = p.get_chapter_content(0).unwrap();
    assert_eq!(texts(&items), vec!["I:1x1"]);
}

#[test]
fn tag_names_and_keys_fold_case() {
    let p = parser_with(
        vec![r#"<IMG SRC="epub://OEBPS/pic.png">"#],
        vec![resource("img1", "OEBPS/pic.png", "image/png", tiny_png())],
    );
    let items = p.get_chapter_content(0).unwrap();
    assert_eq!(texts(&items), vec!["I:1x1"]);
}

#[test]
fn srcset_takes_first_url() {
    let p = parser_with(
        vec![r#"<img srcset="small.png 1x, big.png 2x">"#],
        vec![resource("img1", "OEBPS/small.png", "image/png", tiny_png())],
    );
    let items = p.get_chapter_content(0).unwrap();
    assert_eq!(texts(&items), vec!["I:1x1"]);
}

#[test]
fn missing_resource_degrades_to_named_placeholder() {
    let p = parser_with(vec![r#"<img src="nowhere.png">"#], vec![]);
    let items = p.get_chapter_content(0).unwrap();
    assert_eq!(texts(&items), vec!["T:[ Image resource not found: nowhere.png ]"]);
}

#[test]
fn undecodable_resource_degrades_to_named_placeholder() {
    let p = parser_with(
        vec![r#"<img src="epub://OEBPS/bad.png">"#],
        vec![resource("img1", "OEBPS/bad.png", "image/png", vec![0, 1, 2])],
    );
    let items = p.get_chapter_content(0).unwrap();
    assert_eq!(texts(&items), vec!["T:[ Error decoding image: epub://OEBPS/bad.png ]"]);
}

#[test]
fn image_tag_ignores_src_attribute() {
    // the SVG-style tag carries href keys only; src on it is not an image
    let p = parser_with(
        vec![r#"<p>x</p><image src="epub://OEBPS/pic.png">"#],
        vec![resource("img1", "OEBPS/pic.png", "image/png", tiny_png())],
    );
    let items = p.get_chapter_content(0).unwrap();
    for item in &items {
        assert!(matches!(item, PageContent::Text(_)));
    }
}

#[test]
fn img_tag_without_recognised_attribute_is_plain_text() {
    let p = parser_with(vec![r#"<p>before <img alt="x"> after</p>"#], vec![]);
    let items = p.get_chapter_content(0).unwrap();
    assert_eq!(items.len(), 1);
    match &items[0] {
        PageContent::Text(s) => assert!(s.contains("before") && s.contains("after")),
        PageContent::Image(_) => panic!("no image expected"),
    }
}

#[test]
fn metadata_defaults_fill_missing_fields() {
    let mut p = parser_with(vec![], vec![]);
    assert_eq!(p.get_metadata(), ("A Title".to_string(), "An Author".to_string()));
    p.title = None;
    p.author = None;
    assert_eq!(p.get_metadata(), ("Unknown Title".to_string(), "Unknown Author".to_string()));
}

#[test]
fn toc_falls_back_to_chapter_numbers() {
    let p = parser_with(vec!["<p>a</p>", "<p>b</p>"], vec![]);
    assert_eq!(p.get_toc(), vec!["Chapter 1".to_string(), "Chapter 2".to_string()]);
    let mut q = parser_with(vec!["<p>a</p>"], vec![]);
    q.toc = vec!["Intro".to_string()];
    assert_eq!(q.get_toc(), vec!["Intro".to_string()]);
}

#[test]
fn chapter_count_follows_spine() {
    let p = parser_with(vec!["<p>a</p>", "<p>b</p>", "<p>c</p>"], vec![]);
    assert_eq!(p.get_chapter_count(), 3);
}

#[test]
fn explicit_cover_preferred() {
    let mut p = parser_with(
        vec![],
        vec![
            resource("c1", "images/cover-small.png", "image/png", tiny_png()),
            resource("c2", "images/cover-big.bmp", "image/bmp", tiny_bmp()),
        ],
    );
    p.cover_id = Some("c1".to_string());
    let img = p.get_cover_best_effort().expect("explicit cover");
    assert_eq!((img.width, img.height), (1, 1));
}

#[test]
fn best_effort_cover_picks_largest_suggestive_image() {
    let p = parser_with(
        vec![],
        vec![
            resource("a", "images/cover-small.png", "image/png", tiny_png()),
            resource("b", "text/notes.txt", "text/plain", tiny_bmp()),
            resource("c", "images/Front-big.bmp", "image/bmp", tiny_bmp()),
        ],
    );
    let img = p.get_cover_best_effort().expect("a candidate exists");
    // the 2x1 image outranks the 1x1; the text file is never a candidate
    assert_eq!((img.width, img.height), (2, 1));
}

#[test]
fn no_cover_candidates_yields_none() {
    let p = parser_with(
        vec![],
        vec![resource("a", "images/figure1.png", "image/png", tiny_png())],
    );
    assert!(p.get_cover_best_effort().is_none());
}

#[test]
fn flattened_chapter_addresses_image_rows() {
    let p = parser_with(
        vec![r#"<p>Intro</p><img src="epub://OEBPS/pic.png">"#],
        vec![resource("img1", "OEBPS/pic.png", "image/png", tiny_png())],
    );
    let items = p.get_chapter_content(0).unwrap();
    let (lines, images) = tbook::layout::flatten_content(items);
    // "Intro\n" gives one text line; the 1x1 image rounds to 40 and clamps to 30
    assert_eq!(lines.len(), 31);
    assert!(matches!(&lines[0], RenderLine::Text(_)));
    assert!(matches!(&lines[1], RenderLine::Image { protocol_idx: 0, row_idx: 0 }));
    assert_eq!(images.len(), 1);
}
