//! The annotation overlay: kinds and their names, the membership rule that
//! anchors a persisted word range to buffer coordinates, and the filters
//! that select annotations for one unit or one kind.

use vstd::prelude::*;

use crate::db::AnnotationRecord;
use crate::text::str_eq;

verus! {

/// The kind of an annotation.
#[derive(Clone, Copy, PartialEq, Eq, Structural, Debug)]
pub enum AnnotationKind {
    Highlight,
    Question,
    Summary,
}

/// The stored name of an annotation kind.
pub open spec fn kind_name(k: AnnotationKind) -> Seq<char> {
    match k {
        AnnotationKind::Highlight => "highlight"@,
        AnnotationKind::Question => "question"@,
        AnnotationKind::Summary => "summary"@,
    }
}

/// The kind a stored name denotes; unknown names denote `Highlight`.
pub open spec fn kind_of_name(s: Seq<char>) -> AnnotationKind {
    if s == "question"@ {
        AnnotationKind::Question
    } else if s == "summary"@ {
        AnnotationKind::Summary
    } else {
        AnnotationKind::Highlight
    }
}

impl AnnotationKind {
    /// The name this kind is persisted under.
    pub fn as_str(&self) -> (r: &'static str)
        ensures
            r@ == kind_name(*self),
    {
        match self {
            AnnotationKind::Highlight => "highlight",
            AnnotationKind::Question => "question",
            AnnotationKind::Summary => "summary",
        }
    }

    /// The one-letter label shown in listings.
    pub fn label(&self) -> (r: &'static str)
        ensures
            self is Highlight ==> r@ == "H"@,
            self is Question ==> r@ == "Q"@,
            self is Summary ==> r@ == "S"@,
    {
        match self {
            AnnotationKind::Highlight => "H",
            AnnotationKind::Question => "Q",
            AnnotationKind::Summary => "S",
        }
    }

    /// The kind a stored name denotes.
    pub fn from_str(value: &str) -> (r: AnnotationKind)
        ensures
            r == kind_of_name(value@),
    {
        if str_eq(value, "question") {
            AnnotationKind::Question
        } else if str_eq(value, "summary") {
            AnnotationKind::Summary
        } else {
            AnnotationKind::Highlight
        }
    }
}

/// A selector for which annotation kinds are listed.
#[derive(Clone, Copy, PartialEq, Eq, Structural, Debug)]
pub enum AnnotationFilter {
    All,
    Highlight,
    Question,
    Summary,
}

impl AnnotationFilter {
    /// The heading shown for this filter.
    pub fn label(&self) -> (r: &'static str)
        ensures
            self is All ==> r@ == "All"@,
            self is Highlight ==> r@ == "Highlights"@,
            self is Question ==> r@ == "Questions"@,
            self is Summary ==> r@ == "Summaries"@,
    {
        match self {
            AnnotationFilter::All => "All",
            AnnotationFilter::Highlight => "Highlights",
            AnnotationFilter::Question => "Questions",
            AnnotationFilter::Summary => "Summaries",
        }
    }

    /// The kind this filter keeps, if it is not `All`.
    pub open spec fn kind_selector(self) -> Option<AnnotationKind> {
        match self {
            AnnotationFilter::All => None,
            AnnotationFilter::Highlight => Some(AnnotationKind::Highlight),
            AnnotationFilter::Question => Some(AnnotationKind::Question),
            AnnotationFilter::Summary => Some(AnnotationKind::Summary),
        }
    }
}

/// The membership rule: whether the word at `(line, word)` falls inside the
/// range of annotation `a`. Lines strictly between the endpoints match
/// whole; a single-line range matches its word interval; otherwise the
/// start line matches from `start_word` on and the end line up to
/// `end_word`.
pub open spec fn annotation_covers(a: AnnotationRecord, line: usize, word: usize) -> bool {
    if a.start_line < line && line < a.end_line {
        true
    } else if line == a.start_line && line == a.end_line {
        a.start_word <= word <= a.end_word
    } else if line == a.start_line {
        word >= a.start_word
    } else if line == a.end_line {
        word <= a.end_word
    } else {
        false
    }
}

/// The first annotation (in persisted order) covering `(line, word)`; it
/// determines the display kind.
pub fn annotation_at(annos: &Vec<AnnotationRecord>, line: usize, word: usize) -> (r: Option<
    usize,
>)
    ensures
        match r {
            Some(i) => i < annos@.len() && annotation_covers(annos@[i as int], line, word)
                && forall|j: int| 0 <= j < i ==> !annotation_covers(annos@[j], line, word),
            None => forall|j: int|
                0 <= j < annos@.len() ==> !annotation_covers(annos@[j], line, word),
        },
{
    let mut i: usize = 0;
    while i < annos.len()
        invariant
            i <= annos@.len(),
            forall|j: int| 0 <= j < i ==> !annotation_covers(annos@[j], line, word),
        decreases annos@.len() - i,
    {
        let a = &annos[i];
        let covered = if a.start_line < line && line < a.end_line {
            true
        } else if line == a.start_line && line == a.end_line {
            a.start_word <= word && word <= a.end_word
        } else if line == a.start_line {
            word >= a.start_word
        } else if line == a.end_line {
            word <= a.end_word
        } else {
            false
        };
        if covered {
            return Some(i);
        }
        i += 1;
    }
    None
}

/// Whether the record's stored kind name denotes the given kind.
pub open spec fn has_kind(a: AnnotationRecord, k: AnnotationKind) -> bool {
    kind_of_name(a.kind@) == k
}

/// A copy of one annotation record, equal to the original.
pub fn clone_annotation(a: &AnnotationRecord) -> (r: AnnotationRecord)
    ensures
        r == *a,
{
    let note = match &a.note {
        Some(n) => Some(n.clone()),
        None => None,
    };
    let r = AnnotationRecord {
        id: a.id,
        chapter: a.chapter,
        start_line: a.start_line,
        start_word: a.start_word,
        end_line: a.end_line,
        end_word: a.end_word,
        content: a.content.clone(),
        note,
        kind: a.kind.clone(),
    };
    r
}

/// The annotations of one unit, in persisted order.
pub fn annotations_for_chapter(annos: &Vec<AnnotationRecord>, chapter: usize) -> (r: Vec<
    AnnotationRecord,
>)
    ensures
        r@ == annos@.filter(|a: AnnotationRecord| a.chapter == chapter),
{
    let mut out: Vec<AnnotationRecord> = Vec::new();
    let mut i: usize = 0;
    proof {
        reveal_with_fuel(Seq::<_>::filter, 2);
        assert(annos@.take(0).filter(|a: AnnotationRecord| a.chapter == chapter) =~= Seq::<
            AnnotationRecord,
        >::empty());
    }
    while i < annos.len()
        invariant
            i <= annos@.len(),
            out@ =~= annos@.take(i as int).filter(|a: AnnotationRecord| a.chapter == chapter),
        decreases annos@.len() - i,
    {
        let a = clone_annotation(&annos[i]);
        if a.chapter == chapter {
            out.push(a);
        }
        i += 1;
        proof {
            reveal_with_fuel(Seq::<_>::filter, 2);
            assert(annos@.take(i as int).drop_last() =~= annos@.take(i - 1));
            assert(annos@.take(i as int).last() == annos@[i - 1]);
            assert(out@ =~= annos@.take(i as int).filter(
                |a: AnnotationRecord| a.chapter == chapter,
            ));
        }
    }
    proof {
        assert(annos@.take(annos@.len() as int) =~= annos@);
    }
    out
}

/// The annotations a filter keeps, in persisted order.
pub fn filter_annotations(annos: &Vec<AnnotationRecord>, filter: AnnotationFilter) -> (r: Vec<
    AnnotationRecord,
>)
    ensures
        filter is All ==> r@ == annos@,
        filter.kind_selector() matches Some(k) ==> r@ == annos@.filter(
            |a: AnnotationRecord| has_kind(a, k),
        ),
{
    match filter {
        AnnotationFilter::All => clone_annotations(annos),
        AnnotationFilter::Highlight => filter_by_kind(annos, AnnotationKind::Highlight),
        AnnotationFilter::Question => filter_by_kind(annos, AnnotationKind::Question),
        AnnotationFilter::Summary => filter_by_kind(annos, AnnotationKind::Summary),
    }
}

fn clone_annotations(annos: &Vec<AnnotationRecord>) -> (r: Vec<AnnotationRecord>)
    ensures
        r@ == annos@,
{
    let mut out: Vec<AnnotationRecord> = Vec::new();
    let mut i: usize = 0;
    while i < annos.len()
        invariant
            i <= annos@.len(),
            out@ =~= annos@.take(i as int),
        decreases annos@.len() - i,
    {
        out.push(clone_annotation(&annos[i]));
        i += 1;
        assert(out@ =~= annos@.take(i as int));
    }
    proof {
        assert(annos@.take(annos@.len() as int) =~= annos@);
    }
    out
}

fn filter_by_kind(annos: &Vec<AnnotationRecord>, k: AnnotationKind) -> (r: Vec<AnnotationRecord>)
    ensures
        r@ == annos@.filter(|a: AnnotationRecord| has_kind(a, k)),
{
    let mut out: Vec<AnnotationRecord> = Vec::new();
    let mut i: usize = 0;
    proof {
        reveal_with_fuel(Seq::<_>::filter, 2);
        assert(annos@.take(0).filter(|a: AnnotationRecord| has_kind(a, k)) =~= Seq::<
            AnnotationRecord,
        >::empty());
    }
    while i < annos.len()
        invariant
            i <= annos@.len(),
            out@ =~= annos@.take(i as int).filter(|a: AnnotationRecord| has_kind(a, k)),
        decreases annos@.len() - i,
    {
        let a = clone_annotation(&annos[i]);
        if AnnotationKind::from_str(a.kind.as_str()) == k {
            out.push(a);
            proof {
                assert(has_kind(annos@[i as int], k));
            }
        } else {
            proof {
                assert(!has_kind(annos@[i as int], k));
            }
        }
        i += 1;
        proof {
            reveal_with_fuel(Seq::<_>::filter, 2);
            assert(annos@.take(i as int).drop_last() =~= annos@.take(i - 1));
            assert(annos@.take(i as int).last() == annos@[i - 1]);
            assert(out@ =~= annos@.take(i as int).filter(|a: AnnotationRecord| has_kind(a, k)));
        }
    }
    proof {
        assert(annos@.take(annos@.len() as int) =~= annos@);
    }
    out
}

/// A single-word range matches exactly its one word and nothing else: the
/// membership rule never widens a point annotation.
pub proof fn lemma_point_annotation_membership(a: AnnotationRecord, line: usize, word: usize)
    requires
        a.start_line == a.end_line,
        a.start_word == a.end_word,
    ensures
        annotation_covers(a, line, word) <==> (line == a.start_line && word == a.start_word),
{
}

} // verus!
