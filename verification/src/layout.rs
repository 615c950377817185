//! The layout flattener: turns the ordered content items of one unit
//! (chapter or page) into a flat, line-addressable render buffer plus a side
//! table of the images that occur in it, and wraps words into visual lines
//! for narrow terminals.

use vstd::prelude::*;

use crate::text::{split_lines, split_lines_str, words};

verus! {

/// A decoded image: its pixel dimensions and the encoded bytes it was
/// decoded from.
pub struct ImageData {
    pub width: u32,
    pub height: u32,
    pub bytes: Vec<u8>,
}

/// One content item of a unit: a block of plain text, or an inline image.
pub enum PageContent {
    Text(String),
    Image(ImageData),
}

/// The mathematical model of a content item.
pub enum ItemV {
    Text(Seq<char>),
    Image { width: u32, height: u32, bytes: Seq<u8> },
}

impl View for PageContent {
    type V = ItemV;

    open spec fn view(&self) -> ItemV {
        match self {
            PageContent::Text(s) => ItemV::Text(s@),
            PageContent::Image(img) => ItemV::Image {
                width: img.width,
                height: img.height,
                bytes: img.bytes@,
            },
        }
    }
}

/// The models of a sequence of content items.
pub open spec fn view_items(items: Seq<PageContent>) -> Seq<ItemV> {
    items.map_values(|it: PageContent| it@)
}

/// Appending a content item appends its model.
pub proof fn lemma_view_items_push(items: Seq<PageContent>, x: PageContent)
    ensures
        view_items(items.push(x)) =~= view_items(items).push(x@),
{
    assert forall|k: int| 0 <= k < items.len() implies view_items(items.push(x))[k] == view_items(
        items,
    )[k] by {
        assert(items.push(x)[k] == items[k]);
    }
}

/// One line of the render buffer: the unit of cursor addressing. The rows of
/// one image share a `protocol_idx` into the side image table.
#[derive(Clone)]
pub enum RenderLine {
    Text(String),
    Image { protocol_idx: usize, row_idx: usize },
}

/// The mathematical model of a render line.
pub enum LineV {
    Text(Seq<char>),
    Image { protocol_idx: int, row_idx: int },
}

impl View for RenderLine {
    type V = LineV;

    open spec fn view(&self) -> LineV {
        match self {
            RenderLine::Text(s) => LineV::Text(s@),
            RenderLine::Image { protocol_idx, row_idx } => LineV::Image {
                protocol_idx: *protocol_idx as int,
                row_idx: *row_idx as int,
            },
        }
    }
}

/// The models of a buffer of render lines.
pub open spec fn view_lines(ls: Seq<RenderLine>) -> Seq<LineV> {
    ls.map_values(|l: RenderLine| l@)
}

/// Appending a render line appends its model.
pub proof fn lemma_view_lines_push(ls: Seq<RenderLine>, x: RenderLine)
    ensures
        view_lines(ls.push(x)) =~= view_lines(ls).push(x@),
{
    assert forall|k: int| 0 <= k < ls.len() implies view_lines(ls.push(x))[k] == view_lines(
        ls,
    )[k] by {
        assert(ls.push(x)[k] == ls[k]);
    }
}

/// The words on one render line; image rows carry none.
pub open spec fn line_words(l: LineV) -> Seq<Seq<char>> {
    match l {
        LineV::Text(t) => words(t),
        LineV::Image { .. } => Seq::empty(),
    }
}

/// How many screen rows an image of the given pixel size occupies: the rows
/// needed at an assumed width of 80 character cells, each cell twice as tall
/// as wide (so half the image's aspect ratio), rounded to nearest and
/// clamped to `[5, 30]`.
pub open spec fn image_rows(w: nat, h: nat) -> nat {
    if w == 0 {
        30
    } else {
        let raw = (80 * h + w) / (2 * w);
        if raw < 5 {
            5
        } else if raw > 30 {
            30
        } else {
            raw
        }
    }
}

/// The screen rows for an image of the given pixel size.
pub fn image_rows_exec(w: u32, h: u32) -> (r: usize)
    ensures
        r == image_rows(w as nat, h as nat),
{
    if w == 0 {
        30
    } else {
        let raw = (80u64 * (h as u64) + (w as u64)) / (2u64 * (w as u64));
        if raw < 5 {
            5
        } else if raw > 30 {
            30
        } else {
            raw as usize
        }
    }
}

/// The render lines one content item contributes, when it is the
/// `img_idx`-th image of its unit.
pub open spec fn item_lines(item: PageContent, img_idx: int) -> Seq<LineV> {
    match item {
        PageContent::Text(s) => split_lines(s@).map_values(|t: Seq<char>| LineV::Text(t)),
        PageContent::Image(img) => Seq::new(
            image_rows(img.width as nat, img.height as nat),
            |r: int| LineV::Image { protocol_idx: img_idx, row_idx: r },
        ),
    }
}

/// How many of the items are images.
pub open spec fn image_count(items: Seq<PageContent>) -> int
    decreases items.len(),
{
    if items.len() == 0 {
        0
    } else {
        image_count(items.drop_last()) + if items.last() is Image {
            1int
        } else {
            0int
        }
    }
}

/// The full render buffer of a unit's items, before padding.
pub open spec fn flat_lines(items: Seq<PageContent>) -> Seq<LineV>
    decreases items.len(),
{
    if items.len() == 0 {
        Seq::empty()
    } else {
        flat_lines(items.drop_last()) + item_lines(
            items.last(),
            image_count(items.drop_last()),
        )
    }
}

/// The side table of images, in item order.
pub open spec fn flat_images(items: Seq<PageContent>) -> Seq<ImageData>
    decreases items.len(),
{
    if items.len() == 0 {
        Seq::empty()
    } else {
        flat_images(items.drop_last()) + match items.last() {
            PageContent::Image(img) => seq![img],
            PageContent::Text(_) => Seq::empty(),
        }
    }
}

/// The placeholder line shown when a unit flattens to nothing.
pub open spec fn empty_marker() -> Seq<char> {
    " [ Empty ] "@
}

/// The buffer a unit's items flatten to: their lines, or a single
/// placeholder line if there are none.
pub open spec fn flattened_buffer(items: Seq<PageContent>) -> Seq<LineV> {
    if flat_lines(items).len() == 0 {
        seq![LineV::Text(empty_marker())]
    } else {
        flat_lines(items)
    }
}

/// Flattens a unit's content items into a render buffer and a side table of
/// its images. Pure: deterministic in its input, no caller state touched.
pub fn flatten_content(content: Vec<PageContent>) -> (r: (Vec<RenderLine>, Vec<ImageData>))
    ensures
        view_lines(r.0@) == flattened_buffer(content@),
        r.1@ == flat_images(content@),
{
    let ghost orig = content@;
    let mut items = content;
    let mut lines: Vec<RenderLine> = Vec::new();
    let mut images: Vec<ImageData> = Vec::new();
    let ghost mut done: int = 0;
    while items.len() > 0
        invariant
            0 <= done <= orig.len(),
            items@ =~= orig.skip(done),
            view_lines(lines@) =~~= flat_lines(orig.take(done)),
            images@ =~= flat_images(orig.take(done)),
            images@.len() == image_count(orig.take(done)),
        decreases items@.len(),
    {
        let item = items.remove(0);
        proof {
            assert(item == orig[done]);
            assert(items@ =~= orig.skip(done + 1));
            assert(orig.take(done + 1).drop_last() =~= orig.take(done));
            assert(orig.take(done + 1).last() == orig[done]);
        }
        match item {
            PageContent::Text(s) => {
                let segs = split_lines_str(s.as_str());
                let ghost seglines = split_lines(s@).map_values(|t: Seq<char>| LineV::Text(t));
                let mut j: usize = 0;
                while j < segs.len()
                    invariant
                        j <= segs.len(),
                        segs.deep_view() == split_lines(s@),
                        seglines == split_lines(s@).map_values(|t: Seq<char>| LineV::Text(t)),
                        view_lines(lines@) =~~= flat_lines(orig.take(done)) + seglines.take(
                            j as int,
                        ),
                    decreases segs.len() - j,
                {
                    let seg = segs[j].clone();
                    proof {
                        assert(seg@ == segs.deep_view()[j as int]);
                    }
                    let ghost prevlines = lines@;
                    let line = RenderLine::Text(seg);
                    let ghost linev = line@;
                    lines.push(line);
                    j += 1;
                    proof {
                        lemma_view_lines_push(prevlines, line);
                        assert(seglines[j - 1] == linev);
                        assert(seglines.take(j as int) =~~= seglines.take(j - 1).push(
                            seglines[j - 1],
                        ));
                        assert(view_lines(lines@) =~~= flat_lines(orig.take(done))
                            + seglines.take(j as int));
                    }
                }
                proof {
                    assert(seglines.take(segs.len() as int) =~~= seglines);
                    done = done + 1;
                    assert(item_lines(orig[done - 1], image_count(orig.take(done - 1)))
                        =~~= seglines);
                    assert(view_lines(lines@) =~~= flat_lines(orig.take(done)));
                    assert(images@ =~= flat_images(orig.take(done)));
                    assert(image_count(orig.take(done)) == image_count(orig.take(done - 1)));
                }
            },
            PageContent::Image(img) => {
                let rows = image_rows_exec(img.width, img.height);
                let protocol_idx = images.len();
                let ghost imglines = Seq::new(
                    image_rows(img.width as nat, img.height as nat),
                    |r: int| LineV::Image { protocol_idx: protocol_idx as int, row_idx: r },
                );
                images.push(img);
                let mut j: usize = 0;
                while j < rows
                    invariant
                        j <= rows,
                        rows == imglines.len(),
                        imglines == Seq::new(
                            rows as nat,
                            |r: int| LineV::Image {
                                protocol_idx: protocol_idx as int,
                                row_idx: r,
                            },
                        ),
                        view_lines(lines@) =~~= flat_lines(orig.take(done)) + imglines.take(
                            j as int,
                        ),
                    decreases rows - j,
                {
                    let ghost prevlines = lines@;
                    let line = RenderLine::Image { protocol_idx, row_idx: j };
                    let ghost linev = line@;
                    lines.push(line);
                    j += 1;
                    proof {
                        lemma_view_lines_push(prevlines, line);
                        assert(imglines[j - 1] == linev);
                        assert(imglines.take(j as int) =~~= imglines.take(j - 1).push(
                            imglines[j - 1],
                        ));
                        assert(view_lines(lines@) =~~= flat_lines(orig.take(done))
                            + imglines.take(j as int));
                    }
                }
                proof {
                    assert(imglines.take(rows as int) =~~= imglines);
                    done = done + 1;
                    assert(item_lines(orig[done - 1], image_count(orig.take(done - 1)))
                        =~~= imglines);
                    assert(view_lines(lines@) =~~= flat_lines(orig.take(done)));
                    assert(images@ =~= flat_images(orig.take(done)));
                    assert(images@.len() == image_count(orig.take(done)));
                }
            },
        }
    }
    proof {
        assert(orig.take(orig.len() as int) =~= orig);
    }
    if lines.len() == 0 {
        lines.push(RenderLine::Text(" [ Empty ] ".to_owned()));
        proof {
            assert(view_lines(lines@) =~~= seq![LineV::Text(empty_marker())]);
        }
    }
    (lines, images)
}

/// What `unicode_width::UnicodeWidthStr::width` returns: the displayed
/// column width, a function of the characters alone.
pub uninterp spec fn width_of(s: Seq<char>) -> nat;

/// Relies on `unicode_width::UnicodeWidthStr::width`: the column width of
/// the string, the sum of its characters' display widths.
#[verifier::external_body]
fn display_width(s: &str) -> (r: usize)
    ensures
        r == width_of(s@),
{
    unicode_width::UnicodeWidthStr::width(s)
}

/// The display width of words `a..b`, separated by single spaces.
pub open spec fn range_width(ws: Seq<Seq<char>>, a: int, b: int) -> int
    decreases b - a,
{
    if b <= a {
        0
    } else if b == a + 1 {
        width_of(ws[a]) as int
    } else {
        range_width(ws, a, b - 1) + 1 + width_of(ws[b - 1])
    }
}

/// Greedily wraps the words of one buffer line into visual lines of at most
/// `max_width` columns. Each returned pair is a half-open range of word
/// indices. The ranges partition the words in order; every line keeps its
/// width bound unless a single word alone is over-wide; and each break is
/// forced: pulling the next word up would exceed the bound.
pub fn wrap_words_to_lines(ws: &Vec<String>, max_width: u16) -> (out: Vec<(usize, usize)>)
    ensures
        out@.len() >= 1,
        ws@.len() == 0 || max_width == 0 ==> out@ =~= seq![(0usize, 0usize)],
        ws@.len() > 0 && max_width > 0 ==> {
            &&& out@[0].0 == 0
            &&& out@[out@.len() - 1].1 == ws@.len()
            &&& forall|j: int|
                0 <= j < out@.len() - 1 ==> (#[trigger] out@[j]).1 == out@[j + 1].0
            &&& forall|j: int| 0 <= j < out@.len() ==> (#[trigger] out@[j]).0 < out@[j].1
            &&& forall|j: int|
                0 <= j < out@.len() ==> range_width(
                    ws.deep_view(),
                    (#[trigger] out@[j]).0 as int,
                    out@[j].1 as int,
                ) <= max_width || out@[j].1 == out@[j].0 + 1
            &&& forall|j: int|
                0 <= j < out@.len() - 1 ==> range_width(
                    ws.deep_view(),
                    (#[trigger] out@[j]).0 as int,
                    out@[j].1 + 1 as int,
                ) > max_width
        },
{
    let n = ws.len();
    let mut out: Vec<(usize, usize)> = Vec::new();
    if n == 0 || max_width == 0 {
        out.push((0, 0));
        return out;
    }
    let maxw = max_width as usize;
    let mut start: usize = 0;
    let mut cur_w: usize = 0;
    let mut idx: usize = 0;
    while idx < n
        invariant
            0 < n == ws@.len(),
            0 < maxw == max_width <= 65535,
            start <= idx <= n,
            idx > 0 ==> start < idx,
            idx == 0 ==> start == 0 && out@.len() == 0,
            start < idx ==> cur_w == range_width(ws.deep_view(), start as int, idx as int),
            start < idx ==> cur_w <= maxw || idx == start + 1,
            out@.len() > 0 ==> out@[0].0 == 0,
            out@.len() > 0 ==> out@[out@.len() - 1].1 == start,
            idx > 0 && out@.len() == 0 ==> start == 0,
            forall|j: int| 0 <= j < out@.len() - 1 ==> (#[trigger] out@[j]).1 == out@[j + 1].0,
            forall|j: int| 0 <= j < out@.len() ==> (#[trigger] out@[j]).0 < out@[j].1,
            forall|j: int|
                0 <= j < out@.len() ==> range_width(
                    ws.deep_view(),
                    (#[trigger] out@[j]).0 as int,
                    out@[j].1 as int,
                ) <= maxw || out@[j].1 == out@[j].0 + 1,
            forall|j: int|
                0 <= j < out@.len() ==> range_width(
                    ws.deep_view(),
                    (#[trigger] out@[j]).0 as int,
                    out@[j].1 + 1 as int,
                ) > maxw,
        decreases n - idx,
    {
        let ww = display_width(ws[idx].as_str());
        if start < idx {
            let total = cur_w as u128 + 1 + ww as u128;
            if total > maxw as u128 {
                out.push((start, idx));
                start = idx;
                cur_w = ww;
            } else {
                cur_w = cur_w + 1 + ww;
            }
        } else {
            cur_w = ww;
        }
        idx += 1;
        proof {
            assert(ws.deep_view()[idx - 1] == ws@[idx - 1]@);
        }
    }
    out.push((start, n));
    out
}

} // verus!
