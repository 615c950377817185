//! Annotation kinds, membership, and filtering.

use tbook::annotations::{
    annotation_at, annotations_for_chapter, filter_annotations, AnnotationFilter, AnnotationKind,
};
use tbook::db::AnnotationRecord;

fn anno(chapter: usize, sl: usize, sw: usize, el: usize, ew: usize, kind: &str) -> AnnotationRecord {
    AnnotationRecord {
        id: 1,
        chapter,
        start_line: sl,
        start_word: sw,
        end_line: el,
        end_word: ew,
        content: "text".to_string(),
        note: None,
        kind: kind.to_string(),
    }
}

#[test]
fn point_annotation_matches_only_its_word() {
    let annos = vec![anno(0, 3, 5, 3, 5, "highlight")];
    assert_eq!(annotation_at(&annos, 3, 5), Some(0));
    assert_eq!(annotation_at(&annos, 3, 4), None);
    assert_eq!(annotation_at(&annos, 3, 6), None);
    assert_eq!(annotation_at(&annos, 2, 5), None);
    assert_eq!(annotation_at(&annos, 4, 5), None);
}

#[test]
fn range_annotation_membership_per_line() {
    let annos = vec![anno(0, 1, 2, 3, 1, "highlight")];
    // interior lines match whole
    assert_eq!(annotation_at(&annos, 2, 0), Some(0));
    assert_eq!(annotation_at(&annos, 2, 99), Some(0));
    // start line from start_word on
    assert_eq!(annotation_at(&annos, 1, 1), None);
    assert_eq!(annotation_at(&annos, 1, 2), Some(0));
    // end line up to end_word
    assert_eq!(annotation_at(&annos, 3, 1), Some(0));
    assert_eq!(annotation_at(&annos, 3, 2), None);
    // outside
    assert_eq!(annotation_at(&annos, 0, 0), None);
    assert_eq!(annotation_at(&annos, 4, 0), None);
}

#[test]
fn first_matching_annotation_wins() {
    let annos = vec![anno(0, 0, 0, 0, 5, "highlight"), anno(0, 0, 2, 0, 3, "question")];
    assert_eq!(annotation_at(&annos, 0, 2), Some(0));
}

#[test]
fn kind_names_round_trip() {
    assert_eq!(AnnotationKind::from_str("highlight"), AnnotationKind::Highlight);
    assert_eq!(AnnotationKind::from_str("question"), AnnotationKind::Question);
    assert_eq!(AnnotationKind::from_str("summary"), AnnotationKind::Summary);
    // unknown names fall back to highlight
    assert_eq!(AnnotationKind::from_str("odd"), AnnotationKind::Highlight);
    assert_eq!(AnnotationKind::Highlight.as_str(), "highlight");
    assert_eq!(AnnotationKind::Question.as_str(), "question");
    assert_eq!(AnnotationKind::Summary.as_str(), "summary");
}

#[test]
fn kind_labels() {
    assert_eq!(AnnotationKind::Highlight.label(), "H");
    assert_eq!(AnnotationKind::Question.label(), "Q");
    assert_eq!(AnnotationKind::Summary.label(), "S");
}

#[test]
fn filter_labels() {
    assert_eq!(AnnotationFilter::All.label(), "All");
    assert_eq!(AnnotationFilter::Highlight.label(), "Highlights");
    assert_eq!(AnnotationFilter::Question.label(), "Questions");
    assert_eq!(AnnotationFilter::Summary.label(), "Summaries");
}

#[test]
fn filter_by_kind_keeps_order() {
    let annos = vec![
        anno(0, 0, 0, 0, 0, "question"),
        anno(0, 1, 0, 1, 0, "highlight"),
        anno(0, 2, 0, 2, 0, "question"),
    ];
    let qs = filter_annotations(&annos, AnnotationFilter::Question);
    assert_eq!(qs.len(), 2);
    assert_eq!((qs[0].start_line, qs[1].start_line), (0, 2));
    let all = filter_annotations(&annos, AnnotationFilter::All);
    assert_eq!(all.len(), 3);
    let sums = filter_annotations(&annos, AnnotationFilter::Summary);
    assert_eq!(sums.len(), 0);
}

#[test]
fn unknown_kind_counts_as_highlight_in_filters() {
    let annos = vec![anno(0, 0, 0, 0, 0, "whatever")];
    let hs = filter_annotations(&annos, AnnotationFilter::Highlight);
    assert_eq!(hs.len(), 1);
}

#[test]
fn chapter_filter_keeps_only_that_unit() {
    let annos = vec![anno(0, 0, 0, 0, 0, "highlight"), anno(2, 1, 0, 1, 0, "highlight")];
    let c2 = annotations_for_chapter(&annos, 2);
    assert_eq!(c2.len(), 1);
    assert_eq!(c2[0].start_line, 1);
    let c1 = annotations_for_chapter(&annos, 1);
    assert_eq!(c1.len(), 0);
}
