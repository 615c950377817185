//! The page-rasterizing content extractor (PDF-like documents). The
//! document is addressed by 1-indexed pages; text extraction and page
//! rasterization run through external tools outside the verified core,
//! which decides here what a page's extracted text and optional rasterized
//! image become: text, an image, or a placeholder.

use vstd::prelude::*;

use crate::layout::{view_items, ImageData, ItemV, PageContent};
use crate::markup::filename_of;
use crate::text::{dec_digits, is_blank, is_blank_str};

verus! {

/// A page-addressable document: its file path and page count. Opening the
/// document and counting its pages happens outside the verified core.
pub struct PdfParser {
    pub path: String,
    pub page_count: usize,
}

/// The display title of a page-addressable document: its trailing file
/// name, or a placeholder when the path ends without one.
pub open spec fn pdf_title(path: Seq<char>) -> Seq<char> {
    let f = filename_of(path);
    if f.len() == 0 {
        "Unknown PDF"@
    } else {
        f
    }
}

/// The items one page yields: its extracted text when any is visible, else
/// the rasterized page image, else a placeholder line.
pub open spec fn page_items_of(text: Seq<char>, raster: Option<ImageData>) -> Seq<ItemV> {
    if !is_blank(text) {
        seq![ItemV::Text(text)]
    } else {
        match raster {
            Some(img) => seq![
                ItemV::Image { width: img.width, height: img.height, bytes: img.bytes@ },
            ],
            None => seq![ItemV::Text(" [ Blank Page or Text Not Extractable ] "@)],
        }
    }
}

impl PdfParser {
    /// A handle for a document whose page count was read outside the core.
    pub fn new(path: String, page_count: usize) -> (r: PdfParser)
        ensures
            r.path@ == path@,
            r.page_count == page_count,
    {
        PdfParser { path, page_count }
    }

    /// The display title and a fixed author placeholder.
    pub fn get_metadata(&self) -> (r: (String, String))
        ensures
            r.0@ == pdf_title(self.path@),
            r.1@ == "PDF Document"@,
    {
        let cs = crate::text::chars_vec(self.path.as_str());
        let f = crate::markup::filename_of_exec(&cs);
        let title = if f.len() == 0 {
            "Unknown PDF".to_owned()
        } else {
            crate::text::string_of(&f)
        };
        (title, "PDF Document".to_owned())
    }

    /// How many pages the document has.
    pub fn get_chapter_count(&self) -> (r: usize)
        ensures
            r == self.page_count,
    {
        self.page_count
    }

    /// One label per page.
    pub fn get_toc(&self) -> (r: Vec<String>)
        ensures
            r.deep_view() == Seq::new(
                self.page_count as nat,
                |i: int| "Page "@ + dec_digits((i + 1) as nat),
            ),
    {
        let ghost labels = Seq::new(
            self.page_count as nat,
            |i: int| "Page "@ + dec_digits((i + 1) as nat),
        );
        let n = self.page_count;
        let prefix = crate::text::chars_vec("Page ");
        let mut out: Vec<String> = Vec::new();
        let mut i: usize = 0;
        while i < n
            invariant
                i <= n == self.page_count,
                prefix@ == "Page "@,
                labels == Seq::new(
                    self.page_count as nat,
                    |t: int| "Page "@ + dec_digits((t + 1) as nat),
                ),
                out.deep_view() =~~= labels.take(i as int),
            decreases n - i,
        {
            let ghost prev = out.deep_view();
            let num = crate::text::dec_string((i as u64) + 1);
            let mut lv: Vec<char> = Vec::new();
            crate::markup::append_chars(&mut lv, &prefix);
            let nv = crate::text::chars_vec(num.as_str());
            crate::markup::append_chars(&mut lv, &nv);
            let s = crate::text::string_of(&lv);
            out.push(s);
            i += 1;
            proof {
                assert(out.deep_view() =~~= prev.push(s@));
                assert(s@ == labels[i - 1]);
                assert(out.deep_view() =~~= labels.take(i as int));
            }
        }
        proof {
            assert(labels.take(n as int) =~~= labels);
        }
        out
    }

    /// What one page's extracted text and optional rasterized image become;
    /// see [`page_items_of`]. The caller rasterizes only blank pages.
    pub fn page_items(text: String, raster: Option<ImageData>) -> (r: Vec<PageContent>)
        ensures
            view_items(r@) == page_items_of(text@, raster),
    {
        let ghost r0 = raster;
        let mut out: Vec<PageContent> = Vec::new();
        if !is_blank_str(text.as_str()) {
            let ghost t = text@;
            let item = PageContent::Text(text);
            out.push(item);
            proof {
                crate::layout::lemma_view_items_push(Seq::empty(), item);
                assert(view_items(out@) =~~= page_items_of(t, raster));
            }
        } else {
            match raster {
                Some(img) => {
                    let ghost t = text@;
                    let item = PageContent::Image(img);
                    out.push(item);
                    proof {
                        crate::layout::lemma_view_items_push(Seq::empty(), item);
                        assert(view_items(out@) =~~= page_items_of(t, r0));
                    }
                },
                None => {
                    let ghost t = text@;
                    let item = PageContent::Text(
                        " [ Blank Page or Text Not Extractable ] ".to_owned(),
                    );
                    out.push(item);
                    proof {
                        crate::layout::lemma_view_items_push(Seq::empty(), item);
                        assert(view_items(out@) =~~= page_items_of(t, raster));
                    }
                },
            }
        }
        out
    }
}

} // verus!
